//! Material evaluation: the Lambertian term and its paired uniform-sphere
//! density, mirror reflection, hemisphere direction sampling, and the
//! specular helpers (Fresnel, microfacet distribution and visibility).
//!
//! The diffuse estimator pairs its sampler with an explicit weight:
//! directions drawn by `uniform_sample` are weighted by
//! `lambert_brdf * (n . l) / uniform_pdf`, and the two must only ever change
//! together.

use vstd::prelude::*;
use crate::fx::{fx_add, fx_add_s, fx_div, fx_div_s, fx_mul, fx_mul_s, fx_neg, fx_neg_s, fx_sqrt,
    fx_sqrt_s, fx_sub, fx_sub_s, SCALE};
use crate::rng::{pcg_advance_s, unit_pos_s, unit_signed_s, Rng};
use crate::trig::{acos_half, acos_half_s, atan2_turn, atan2_turn_s, cos_turn, cos_turn_s,
    sin_turn, sin_turn_s, INV_PI, PI_FX, QUARTER};
use crate::vec::{dot_s, normalize_s, vadd_s, vscale_s, vsub_s, Vec3};

verus! {

/// `v - 2 * (v . n) * n`: the mirror image of `v` about the plane normal to
/// `n`.
pub open spec fn reflect_s(v: Vec3, n: Vec3) -> Vec3 {
    vsub_s(v, vscale_s(n, fx_mul_s(2 * SCALE as int, dot_s(v, n))))
}

pub fn reflect(v: Vec3, n: Vec3) -> (r: Vec3)
    ensures
        r == reflect_s(v, n),
{
    v.sub(n.scale(fx_mul(2 * SCALE, v.dot(n))))
}

/// The Lambertian reflectance term `albedo / pi`.
pub open spec fn lambert_brdf_s(color: Vec3) -> Vec3 {
    vscale_s(color, INV_PI as int)
}

pub fn lambert_brdf(color: Vec3) -> (r: Vec3)
    ensures
        r == lambert_brdf_s(color),
{
    color.scale(INV_PI)
}

/// The density paired with the hemisphere sampler: `1 / (2 * pi)`, constant.
pub open spec fn uniform_pdf_s() -> int {
    fx_div_s(INV_PI as int, 2 * SCALE as int)
}

pub fn uniform_pdf() -> (r: i64)
    ensures
        r as int == uniform_pdf_s(),
{
    fx_div(INV_PI, 2 * SCALE)
}

/// The direction drawn by `uniform_sample` from state `s`, and the state
/// after: an offset of height `z` from a signed draw, ring radius
/// `sqrt(1 - z^2)`, and azimuth one full turn of a unit draw
/// (`phi = 2 * pi * unit`), added to the normal and renormalized — a
/// hemisphere direction biased toward `n`.
pub open spec fn uniform_sample_s(n: Vec3, s: u32) -> (Vec3, u32) {
    let z = unit_signed_s(s);
    let s1 = pcg_advance_s(s);
    let w = unit_pos_s(s1);
    let s2 = pcg_advance_s(s1);
    let m = fx_sub_s(SCALE as int, fx_mul_s(z, z));
    let m0 = if m < 0 {
        0
    } else {
        m
    };
    let r = fx_sqrt_s(m0);
    let off = (Vec3 {
        x: fx_mul_s(r, cos_turn_s(w)) as i64,
        y: fx_mul_s(r, sin_turn_s(w)) as i64,
        z: z as i64,
    });
    (normalize_s(vadd_s(n, off)), s2)
}

/// Draw a scattering direction about the normal `n`.
pub fn uniform_sample(n: Vec3, rng: &mut Rng) -> (d: Vec3)
    ensures
        d == uniform_sample_s(n, old(rng).0).0,
        final (rng).0 == uniform_sample_s(n, old(rng).0).1,
{
    let z = rng.unit_signed();
    let w = rng.unit_pos();
    let m = fx_sub(SCALE, fx_mul(z, z));
    let m0: i64 = if m < 0 {
        0
    } else {
        m
    };
    let r = fx_sqrt(m0);
    let off = Vec3 { x: fx_mul(r, cos_turn(w)), y: fx_mul(r, sin_turn(w)), z };
    n.add(off).normalize()
}

/// Schlick's approximation of the dielectric Fresnel factor for incidence
/// cosine `cos_i` and relative index `ir`.
pub open spec fn schlick_s(cos_i: int, ir: int) -> int {
    let r0x = fx_div_s(fx_sub_s(SCALE as int, ir), fx_add_s(SCALE as int, ir));
    let r0 = fx_mul_s(r0x, r0x);
    let f = fx_sub_s(SCALE as int, cos_i);
    let f2 = fx_mul_s(f, f);
    let f5 = fx_mul_s(fx_mul_s(f2, f2), f);
    fx_add_s(r0, fx_mul_s(fx_sub_s(SCALE as int, r0), f5))
}

pub fn schlick(cos_i: i64, ir: i64) -> (r: i64)
    ensures
        r as int == schlick_s(cos_i as int, ir as int),
{
    let r0x = fx_div(fx_sub(SCALE, ir), fx_add(SCALE, ir));
    let r0 = fx_mul(r0x, r0x);
    let f = fx_sub(SCALE, cos_i);
    let f2 = fx_mul(f, f);
    let f5 = fx_mul(fx_mul(f2, f2), f);
    fx_add(r0, fx_mul(fx_sub(SCALE, r0), f5))
}

/// The GGX normal distribution for half-vector cosine `nh` and roughness
/// `a`: `a^2 / (pi * ((nh^2 (a^2 - 1)) + 1)^2)`.
pub open spec fn ggx_distribution_s(nh: int, a: int) -> int {
    let a2 = fx_mul_s(a, a);
    let d = fx_add_s(fx_mul_s(fx_mul_s(nh, nh), fx_sub_s(a2, SCALE as int)), SCALE as int);
    fx_div_s(a2, fx_mul_s(PI_FX as int, fx_mul_s(d, d)))
}

pub fn ggx_distribution(nh: i64, a: i64) -> (r: i64)
    ensures
        r as int == ggx_distribution_s(nh as int, a as int),
{
    let a2 = fx_mul(a, a);
    let d = fx_add(fx_mul(fx_mul(nh, nh), fx_sub(a2, SCALE)), SCALE);
    fx_div(a2, fx_mul(PI_FX, fx_mul(d, d)))
}

/// Smith's height-correlated visibility approximation for view and light
/// cosines `nv`, `nl` and roughness `a`.
pub open spec fn smith_vis_s(nv: int, nl: int, a: int) -> int {
    let v = fx_mul_s(nl, fx_add_s(fx_mul_s(nv, fx_sub_s(SCALE as int, a)), a));
    let l = fx_mul_s(nv, fx_add_s(fx_mul_s(nl, fx_sub_s(SCALE as int, a)), a));
    fx_div_s((SCALE as int) / 2, fx_add_s(v, l))
}

pub fn smith_vis(nv: i64, nl: i64, a: i64) -> (r: i64)
    ensures
        r as int == smith_vis_s(nv as int, nl as int, a as int),
{
    let v = fx_mul(nl, fx_add(fx_mul(nv, fx_sub(SCALE, a)), a));
    let l = fx_mul(nv, fx_add(fx_mul(nl, fx_sub(SCALE, a)), a));
    fx_div(SCALE / 2, fx_add(v, l))
}

/// The equirectangular coordinates of a direction, both on `[0, 1]`:
/// `(atan2(z, x) + pi, acos(y)) / (2 pi, pi)` — the azimuth turn shifted by
/// half, and the polar angle as its fraction of half a turn.
pub open spec fn sample_equirect_s(dir: Vec3) -> (int, int) {
    (
        atan2_turn_s(dir.z as int, dir.x as int) + 2 * (QUARTER as int),
        acos_half_s(dir.y as int),
    )
}

/// Map a direction to the environment image's coordinates.
pub fn sample_equirect(dir: Vec3) -> (uv: (i64, i64))
    requires
        dir.x > i64::MIN,
        dir.y > i64::MIN,
        dir.z > i64::MIN,
    ensures
        uv.0 as int == sample_equirect_s(dir).0,
        uv.1 as int == sample_equirect_s(dir).1,
        0 <= uv.0 <= SCALE && 0 <= uv.1 <= SCALE,
{
    (atan2_turn(dir.z, dir.x) + 2 * QUARTER, acos_half(dir.y))
}

/// A right-handed orthonormal basis completing `v`, by the branchless
/// construction over `sign(v.z)` — here the sign term is one for positive
/// `v.z` and zero otherwise, so the basis is only proper on the upper
/// hemisphere.
pub open spec fn orthonormal_basis_s(v: Vec3) -> (Vec3, Vec3) {
    let sign: int = if v.z > 0 {
        SCALE as int
    } else {
        0
    };
    let a = fx_div_s(-SCALE as int, fx_add_s(sign, v.z as int));
    let b = fx_mul_s(fx_mul_s(v.x as int, v.y as int), a);
    (
        (Vec3 {
            x: fx_add_s(SCALE as int, fx_mul_s(fx_mul_s(fx_mul_s(sign, v.x as int), v.x as int), a)) as i64,
            y: fx_mul_s(sign, b) as i64,
            z: fx_mul_s(fx_neg_s(sign), v.x as int) as i64,
        }),
        (Vec3 {
            x: b as i64,
            y: fx_add_s(sign, fx_mul_s(fx_mul_s(v.y as int, v.y as int), a)) as i64,
            z: fx_neg_s(v.y as int) as i64,
        }),
    )
}

pub fn orthonormal_basis(v: &Vec3) -> (r: (Vec3, Vec3))
    ensures
        r == orthonormal_basis_s(*v),
{
    let sign: i64 = if v.z > 0 {
        SCALE
    } else {
        0
    };
    let a = fx_div(-SCALE, fx_add(sign, v.z));
    let b = fx_mul(fx_mul(v.x, v.y), a);
    (
        Vec3 {
            x: fx_add(SCALE, fx_mul(fx_mul(fx_mul(sign, v.x), v.x), a)),
            y: fx_mul(sign, b),
            z: fx_mul(fx_neg(sign), v.x),
        },
        Vec3 { x: b, y: fx_add(sign, fx_mul(fx_mul(v.y, v.y), a)), z: fx_neg(v.y) },
    )
}

} // verus!
