//! The per-frame uniform record and its byte encoding.
//!
//! The record carries the output size and the accumulated sample count; the
//! host rewrites it once per frame before dispatch. `cast` lays it out as the
//! device expects: three little-endian 32-bit words followed by four bytes of
//! padding, sixteen bytes in all.

use vstd::prelude::*;

verus! {

/// An unsigned 2-vector: the output resolution.
#[derive(Clone, Copy, PartialEq, Eq, Structural, Debug)]
pub struct UVec2 {
    pub x: u32,
    pub y: u32,
}

/// The frame uniform record: output size and accumulated sample count.
#[derive(Clone, Copy, PartialEq, Eq, Structural, Debug)]
pub struct Consts {
    pub size: UVec2,
    pub samples: u32,
}

impl Default for Consts {
    /// The empty record: zero size, zero samples.
    fn default() -> (c: Consts)
        ensures
            c == (Consts { size: (UVec2 { x: 0, y: 0 }), samples: 0 }),
    {
        Consts { size: UVec2 { x: 0, y: 0 }, samples: 0 }
    }
}

/// The four little-endian bytes of a 32-bit word.
pub open spec fn le_bytes4(v: u32) -> Seq<u8> {
    seq![
        (v % 256) as u8,
        ((v / 256) % 256) as u8,
        ((v / 65536) % 256) as u8,
        ((v / 16777216) % 256) as u8,
    ]
}

/// The wire layout of the record: size, then samples, then the alignment
/// padding.
pub open spec fn consts_bytes(c: Consts) -> Seq<u8> {
    le_bytes4(c.size.x) + le_bytes4(c.size.y) + le_bytes4(c.samples) + seq![0u8, 0u8, 0u8, 0u8]
}

/// Append the little-endian bytes of one word.
fn push_le4(out: &mut Vec<u8>, v: u32)
    ensures
        final (out)@ == old(out)@ + le_bytes4(v),
{
    out.push((v % 256) as u8);
    out.push(((v / 256) % 256) as u8);
    out.push(((v / 65536) % 256) as u8);
    out.push(((v / 16777216) % 256) as u8);
    proof {
        assert(out@ =~= old(out)@ + le_bytes4(v));
    }
}

/// Encode the uniform record into the bytes the device reads.
pub fn cast(c: &Consts) -> (r: Vec<u8>)
    ensures
        r@ == consts_bytes(*c),
        r@.len() == 16,
{
    let mut out: Vec<u8> = Vec::new();
    push_le4(&mut out, c.size.x);
    push_le4(&mut out, c.size.y);
    push_le4(&mut out, c.samples);
    out.push(0);
    out.push(0);
    out.push(0);
    out.push(0);
    proof {
        assert(out@ =~= consts_bytes(*c));
    }
    out
}

} // verus!
