//! The display pass helpers: the full-screen triangle's vertex placement and
//! the tone-mapped readout of one accumulation cell.
//!
//! The display pass only consumes the accumulation buffer; it never writes
//! back, so it has no effect on the progressive state.

use vstd::prelude::*;
use crate::fx::{fx_add, fx_add_s, fx_div, fx_div_s, fx_mul, fx_mul_s, fx_sub, fx_sub_s, SCALE};
use crate::vec::{Vec3, Vec4};

verus! {

/// `0.155`, the tonemap shoulder, at scale `SCALE`.
pub const TONE_SHOULDER: i64 = 10158;

/// `1.019`, the tonemap gain, at scale `SCALE`.
pub const TONE_GAIN: i64 = 66781;

/// The clip-space position of vertex `idx` of the full-screen triangle:
/// `uv = ((idx << 1) & 2, idx & 2)`, placed at `2 * uv - 1` with depth zero.
pub open spec fn quad_v_s(idx: u32) -> Vec4 {
    let ux = (((idx << 1u32) & 2) as int) * (SCALE as int);
    let uy = ((idx & 2) as int) * (SCALE as int);
    (Vec4 {
        x: fx_sub_s(fx_mul_s(2 * SCALE as int, ux), SCALE as int) as i64,
        y: fx_sub_s(fx_mul_s(2 * SCALE as int, uy), SCALE as int) as i64,
        z: 0,
        w: SCALE,
    })
}

/// Place one vertex of the full-screen triangle.
pub fn quad_v(idx: u32) -> (r: Vec4)
    ensures
        r == quad_v_s(idx),
{
    let ux = (((idx << 1) & 2) as i64) * SCALE;
    let uy = ((idx & 2) as i64) * SCALE;
    Vec4 { x: fx_sub(fx_mul(2 * SCALE, ux), SCALE), y: fx_sub(fx_mul(2 * SCALE, uy), SCALE), z: 0, w: SCALE }
}

/// One channel of the tone map: `x / (x + 0.155) * 1.019`, which includes
/// the gamma correction.
pub open spec fn tonemap_channel_s(x: int) -> int {
    fx_mul_s(fx_div_s(x, fx_add_s(x, TONE_SHOULDER as int)), TONE_GAIN as int)
}

/// The display tone map applied to a color.
pub open spec fn unreal_tonemap_s(x: Vec3) -> Vec3 {
    (Vec3 {
        x: tonemap_channel_s(x.x as int) as i64,
        y: tonemap_channel_s(x.y as int) as i64,
        z: tonemap_channel_s(x.z as int) as i64,
    })
}

/// Tone-map a linear color for display.
pub fn unreal_tonemap(x: Vec3) -> (r: Vec3)
    ensures
        r == unreal_tonemap_s(x),
{
    Vec3 {
        x: fx_mul(fx_div(x.x, fx_add(x.x, TONE_SHOULDER)), TONE_GAIN),
        y: fx_mul(fx_div(x.y, fx_add(x.y, TONE_SHOULDER)), TONE_GAIN),
        z: fx_mul(fx_div(x.z, fx_add(x.z, TONE_SHOULDER)), TONE_GAIN),
    }
}

/// The displayed color of one accumulation cell: its color tone-mapped, at
/// full opacity.
pub open spec fn test_f_s(cell: Vec4) -> Vec4 {
    let c = unreal_tonemap_s((Vec3 { x: cell.x, y: cell.y, z: cell.z }));
    (Vec4 { x: c.x, y: c.y, z: c.z, w: SCALE })
}

/// Read out one cell for presentation.
pub fn test_f(cell: Vec4) -> (r: Vec4)
    ensures
        r == test_f_s(cell),
{
    unreal_tonemap(cell.truncate()).extend(SCALE)
}

} // verus!
