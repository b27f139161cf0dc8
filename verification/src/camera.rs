//! Pinhole camera: maps a pixel and a jitter sample to a primary ray.
//!
//! The camera sits at a configurable position looking down its negative Z
//! axis; the field of view enters as the tangent of the half-angle, a
//! configurable fixed-point parameter, so no trigonometry happens per ray.

use vstd::prelude::*;
use crate::fx::{fx_div, fx_div_s, fx_mul, fx_mul_s, fx_sub, fx_sub_s, SCALE};
use crate::geom::Ray;
use crate::rng::{pcg_advance_s, unit_signed_s, Rng};
use crate::vec::{normalize_s, vneg_s, Vec3};

verus! {

/// `tan(0.7)`, at scale `SCALE`: the default half-angle of view.
pub const DEFAULT_HALF_FOV_TAN: i64 = 55200;

/// A pinhole camera: world-space position and the tangent of the half field
/// of view.
#[derive(Clone, Copy, PartialEq, Eq, Structural, Debug)]
pub struct Camera {
    pub pos: Vec3,
    pub half_fov_tan: i64,
}

impl Camera {
    /// The camera of the default scene: the origin, looking down negative Z.
    pub fn default_camera() -> (c: Camera)
        ensures
            c == (Camera { pos: (Vec3 { x: 0, y: 0, z: 0 }), half_fov_tan: DEFAULT_HALF_FOV_TAN }),
    {
        Camera { pos: Vec3 { x: 0, y: 0, z: 0 }, half_fov_tan: DEFAULT_HALF_FOV_TAN }
    }
}

/// One normalized device coordinate: `((p + jitter) / extent) * 2 - 1`.
pub open spec fn ndc_s(p: u32, jitter: int, extent: u32) -> int {
    fx_sub_s(
        fx_mul_s(fx_div_s(p * (SCALE as int) + jitter, extent * (SCALE as int)), 2 * SCALE as int),
        SCALE as int,
    )
}

/// The primary ray for pixel `(px, py)` at image size `(w, h)`, with a
/// two-draw jitter from state `s`, and the sampler state after: direction
/// `-normalize((ndc * (aspect, 1) * half_fov_tan, 1))`.
pub open spec fn primary_ray_s(cam: Camera, px: u32, py: u32, w: u32, h: u32, s: u32) -> (Ray, u32) {
    let jx = unit_signed_s(s);
    let s1 = pcg_advance_s(s);
    let jy = unit_signed_s(s1);
    let s2 = pcg_advance_s(s1);
    let ux = ndc_s(px, jx, w);
    let uy = ndc_s(py, jy, h);
    let aspect = fx_div_s(w * (SCALE as int), h * (SCALE as int));
    let d = (Vec3 {
        x: fx_mul_s(fx_mul_s(ux, aspect), cam.half_fov_tan as int) as i64,
        y: fx_mul_s(uy, cam.half_fov_tan as int) as i64,
        z: SCALE,
    });
    ((Ray { origin: cam.pos, dir: vneg_s(normalize_s(d)) }), s2)
}

/// Generate the jittered primary ray for one pixel.
pub fn primary_ray(cam: &Camera, px: u32, py: u32, w: u32, h: u32, rng: &mut Rng) -> (r: Ray)
    ensures
        r == primary_ray_s(*cam, px, py, w, h, old(rng).0).0,
        final (rng).0 == primary_ray_s(*cam, px, py, w, h, old(rng).0).1,
{
    let (jx, jy) = rng.vec2();
    let ux = ndc(px, jx, w);
    let uy = ndc(py, jy, h);
    let aspect = fx_div(w as i64 * SCALE, h as i64 * SCALE);
    let d = Vec3 {
        x: fx_mul(fx_mul(ux, aspect), cam.half_fov_tan),
        y: fx_mul(uy, cam.half_fov_tan),
        z: SCALE,
    };
    Ray { origin: cam.pos, dir: d.normalize().neg() }
}

/// Executable form of `ndc_s`.
fn ndc(p: u32, jitter: i64, extent: u32) -> (r: i64)
    requires
        -SCALE <= jitter <= SCALE,
    ensures
        r as int == ndc_s(p, jitter as int, extent),
{
    fx_sub(fx_mul(fx_div(p as i64 * SCALE + jitter, extent as i64 * SCALE), 2 * SCALE), SCALE)
}

} // verus!
