//! Deterministic per-invocation sampler: a permuted congruential generator
//! over a single 32-bit state word.
//!
//! Every draw is an exact function of the prior state, so for a fixed seed the
//! whole stream is reproducible bit for bit. Scalar draws are fixed-point
//! values (see `fx`): `unit_pos` covers `[0, 1]` and `unit_signed` covers
//! `[-1, 1]`, each derived from one `u32` draw.

use vstd::prelude::*;
use crate::fx::{fx_cbrt, fx_cbrt_s, fx_mul, fx_mul_s, fx_sqrt, fx_sqrt_s, fx_sub, fx_sub_s, SCALE};
use crate::trig::{cos_turn, cos_turn_s, sin_turn, sin_turn_s};
use crate::vec::{vscale_s, Vec3};

verus! {

/// The congruential state advance, reduced to 32 bits.
pub open spec fn pcg_advance_s(s: u32) -> u32 {
    (((s as int) * 747796405 + 2891336453) % 0x100000000) as u32
}

/// The output permutation: a state-dependent xorshift followed by a
/// multiply-xorshift, reduced to 32 bits.
pub open spec fn pcg_output_s(s: u32) -> u32 {
    let x = (s >> (((s >> 28u32) + 4) as u32)) ^ s;
    let w = (((x as int) * 277803737) % 0x100000000) as u32;
    (w >> 22u32) ^ w
}

/// The value returned by one `u32` draw from state `s`.
pub open spec fn draw_s(s: u32) -> u32 {
    pcg_output_s(pcg_advance_s(s))
}

/// One positive unit draw: the `u32` draw rescaled onto `[0, SCALE]`.
pub open spec fn unit_pos_s(s: u32) -> int {
    (draw_s(s) as int) * (SCALE as int) / 0xffffffff
}

/// One signed unit draw, on `[-SCALE, SCALE]`.
pub open spec fn unit_signed_s(s: u32) -> int {
    fx_sub_s(2 * unit_pos_s(s), SCALE as int)
}

/// Sampler state: one 32-bit counter, advanced in place on every draw.
#[derive(Clone, Copy, PartialEq, Eq, Structural, Debug)]
pub struct Rng(pub u32);

impl Rng {
    /// Advance the state once and return the permuted output.
    pub fn u32(&mut self) -> (r: u32)
        ensures
            final(self).0 == pcg_advance_s(old(self).0),
            r == draw_s(old(self).0),
    {
        let s64: u64 = self.0 as u64 * 747796405 + 2891336453;
        let s: u32 = (s64 % 0x100000000) as u32;
        self.0 = s;
        let hi: u32 = s >> 28;
        assert(hi < 16) by (bit_vector)
            requires
                hi == s >> 28u32,
        ;
        let sh: u32 = hi + 4;
        let x: u32 = (s >> sh) ^ s;
        let w64: u64 = x as u64 * 277803737;
        let w: u32 = (w64 % 0x100000000) as u32;
        (w >> 22) ^ w
    }

    /// A fixed-point draw on `[0, SCALE]`, the unit interval.
    pub fn unit_pos(&mut self) -> (r: i64)
        ensures
            final (self).0 == pcg_advance_s(old(self).0),
            r as int == unit_pos_s(old(self).0),
            0 <= r <= SCALE,
    {
        let d = self.u32();
        (d as i64 * SCALE) / 0xffffffff
    }

    /// A fixed-point draw on `[-SCALE, SCALE]`.
    pub fn unit_signed(&mut self) -> (r: i64)
        ensures
            final (self).0 == pcg_advance_s(old(self).0),
            r as int == unit_signed_s(old(self).0),
            -SCALE <= r <= SCALE,
    {
        let p = self.unit_pos();
        2 * p - SCALE
    }

    /// Two signed unit draws: a pixel jitter sample in `[-1, 1]^2`.
    pub fn vec2(&mut self) -> (r: (i64, i64))
        ensures
            final (self).0 == pcg_advance_s(pcg_advance_s(old(self).0)),
            r.0 as int == unit_signed_s(old(self).0),
            r.1 as int == unit_signed_s(pcg_advance_s(old(self).0)),
            -SCALE <= r.0 <= SCALE && -SCALE <= r.1 <= SCALE,
    {
        let a = self.unit_signed();
        let b = self.unit_signed();
        (a, b)
    }

    /// Three signed unit draws as a vector.
    pub fn vec3(&mut self) -> (r: Vec3)
        ensures
            final (self).0 == pcg_advance_s(pcg_advance_s(pcg_advance_s(old(self).0))),
            r.x as int == unit_signed_s(old(self).0),
            r.y as int == unit_signed_s(pcg_advance_s(old(self).0)),
            r.z as int == unit_signed_s(pcg_advance_s(pcg_advance_s(old(self).0))),
    {
        let x = self.unit_signed();
        let y = self.unit_signed();
        let z = self.unit_signed();
        Vec3 { x, y, z }
    }

    /// A draw toward the unit ball: spherical coordinates by inverse
    /// transform, radius by a cube root.
    pub fn vec3_sphere(&mut self) -> (r: Vec3)
        ensures
            final (self).0 == vec3_sphere_s(old(self).0).1,
            r == vec3_sphere_s(old(self).0).0,
    {
        let u = self.unit_pos();
        let v = self.unit_signed();
        let rad = fx_cbrt(self.unit_pos());
        let cos_phi = v;
        let sin_phi = fx_sqrt(fx_sub(SCALE, fx_mul(v, v)));
        let dir = Vec3 {
            x: fx_mul(sin_phi, cos_turn(u)),
            y: fx_mul(sin_phi, sin_turn(u)),
            z: cos_phi,
        };
        dir.scale(rad)
    }
}

/// The vector drawn by `vec3_sphere` from state `s`, and the state after:
/// polar angle `phi = acos(v)` (so `cos(phi) == v` and
/// `sin(phi) == sqrt(1 - v^2)`), azimuth a full-turn fraction `u`, radius the
/// cube root of a unit draw.
pub open spec fn vec3_sphere_s(s: u32) -> (Vec3, u32) {
    let u = unit_pos_s(s);
    let s1 = pcg_advance_s(s);
    let v = unit_signed_s(s1);
    let s2 = pcg_advance_s(s1);
    let rad = fx_cbrt_s(unit_pos_s(s2));
    let s3 = pcg_advance_s(s2);
    let sin_phi = fx_sqrt_s(fx_sub_s(SCALE as int, fx_mul_s(v, v)));
    let dir = (Vec3 {
        x: fx_mul_s(sin_phi, cos_turn_s(u)) as i64,
        y: fx_mul_s(sin_phi, sin_turn_s(u)) as i64,
        z: v as i64,
    });
    (vscale_s(dir, rad), s3)
}

} // verus!
