//! The path integrator: the bounded bounce loop over closest-hit
//! intersection and material scattering.
//!
//! A path is the state `(ray, throughput)`; each bounce either scatters into
//! a new state or finishes with a color. A miss finishes with the throughput
//! times the sky color; an unrecognized material kind absorbs the path
//! (throughput kept, no further bounces — a defined terminal, not an error);
//! the bounce cap finishes with the throughput as accumulated so far. A ray
//! whose coordinates leave the bounded world is absorbed too, the integer
//! analogue of rejecting a not-a-number distance before it can spread.

use vstd::prelude::*;
use crate::env::env_sample_s;
use crate::geom::{vec_ok, Ray};
use crate::rng::Rng;
use crate::scene::{closest_hit_s, sky_wf, Scene, SkyModel, KIND_DIFFUSE, KIND_MIRROR};
use crate::shade::{lambert_brdf, lambert_brdf_s, reflect, reflect_s, uniform_pdf, uniform_pdf_s,
    uniform_sample, uniform_sample_s};
use crate::vec::{vdiv_s, vmul_s, vscale_s, Vec3};

verus! {

/// Bounce cap: every path finishes within this many scattering events.
pub const MAX_BOUNCES: u32 = 16;

/// Near limit of the hit search interval: one thousandth, rounded to fixed
/// point, so a scattered ray does not re-hit the surface it left.
pub const T_MIN: i64 = 66;

/// One step of a path: either it scatters on, or it finishes with a color.
pub enum Bounce {
    Scattered(Ray, Vec3),
    Finished(Vec3),
}

/// Both endpoints of the ray are inside the bounded world the intersection
/// accepts.
pub open spec fn ray_ok_s(r: Ray) -> bool {
    vec_ok(r.origin) && vec_ok(r.dir)
}

/// Executable form of `ray_ok_s`.
pub fn ray_ok(r: &Ray) -> (ok: bool)
    ensures
        ok == ray_ok_s(*r),
{
    let c = crate::geom::COORD_MAX;
    -c <= r.origin.x && r.origin.x <= c && -c <= r.origin.y && r.origin.y <= c && -c <= r.origin.z
        && r.origin.z <= c && -c <= r.dir.x && r.dir.x <= c && -c <= r.dir.y && r.dir.y <= c && -c
        <= r.dir.z && r.dir.z <= c
}

/// What a ray escaping in direction `dir` sees: the constant color, or the
/// environment image's filtered sample in that direction.
pub open spec fn sky_color_s(sky: SkyModel, dir: Vec3) -> Vec3 {
    match sky {
        SkyModel::Constant(c) => c,
        SkyModel::Image(m) => env_sample_s(m, dir),
    }
}

/// Look up the sky in a miss direction.
fn sky_color(sky: &SkyModel, dir: Vec3) -> (c: Vec3)
    requires
        sky_wf(*sky),
        dir.x > i64::MIN,
        dir.y > i64::MIN,
        dir.z > i64::MIN,
    ensures
        c == sky_color_s(*sky, dir),
{
    match sky {
        SkyModel::Constant(c) => *c,
        SkyModel::Image(m) => m.sample(dir),
    }
}

/// The diffuse throughput update: `color * albedo`, then the explicit
/// estimator weight `lambert_brdf(albedo) * (n . light) / uniform_pdf()`.
pub open spec fn diffuse_weight_s(color: Vec3, albedo: Vec3, normal: Vec3, light: Vec3) -> Vec3 {
    vmul_s(
        vmul_s(color, albedo),
        vdiv_s(vscale_s(lambert_brdf_s(albedo), crate::vec::dot_s(normal, light)), uniform_pdf_s()),
    )
}

/// One bounce from `(ray, color)` with sampler state `s`: the step taken and
/// the sampler state after.
pub open spec fn bounce_s(scene: Scene, ray: Ray, color: Vec3, s: u32) -> (Bounce, u32) {
    if !ray_ok_s(ray) {
        (Bounce::Finished(color), s)
    } else {
        let h = closest_hit_s(scene.spheres@, ray, T_MIN as int);
        if h.distance == i64::MAX {
            (Bounce::Finished(vmul_s(color, sky_color_s(scene.sky, ray.dir))), s)
        } else if h.mat as int >= scene.materials@.len() {
            (Bounce::Finished(color), s)
        } else {
            let m = scene.materials@[h.mat as int];
            if m.kind == KIND_DIFFUSE {
                let light = uniform_sample_s(h.normal, s).0;
                let s1 = uniform_sample_s(h.normal, s).1;
                (
                    Bounce::Scattered(
                        (Ray { origin: h.pos, dir: light }),
                        diffuse_weight_s(color, m.albedo, h.normal, light),
                    ),
                    s1,
                )
            } else if m.kind == KIND_MIRROR {
                (
                    Bounce::Scattered(
                        (Ray { origin: h.pos, dir: reflect_s(ray.dir, h.normal) }),
                        vmul_s(color, m.albedo),
                    ),
                    s,
                )
            } else {
                (Bounce::Finished(color), s)
            }
        }
    }
}

/// The color and final sampler state of a path allowed `depth` more
/// scattering events: at depth zero the throughput itself is the terminal
/// color.
pub open spec fn trace_rec_s(scene: Scene, ray: Ray, color: Vec3, s: u32, depth: nat) -> (
    Vec3,
    u32,
)
    decreases depth,
{
    if depth == 0 {
        (color, s)
    } else {
        let step = bounce_s(scene, ray, color, s);
        match step.0 {
            Bounce::Finished(c) => (c, step.1),
            Bounce::Scattered(nray, c) => trace_rec_s(scene, nray, c, step.1, (depth - 1) as nat),
        }
    }
}

/// One full radiance sample: unit throughput, `MAX_BOUNCES` scattering
/// events at most.
pub open spec fn trace_s(scene: Scene, ray: Ray, s: u32) -> (Vec3, u32) {
    trace_rec_s(
        scene,
        ray,
        (Vec3 { x: crate::fx::SCALE, y: crate::fx::SCALE, z: crate::fx::SCALE }),
        s,
        MAX_BOUNCES as nat,
    )
}

/// Take one bounce of the path.
fn bounce(scene: &Scene, ray: &Ray, color: Vec3, rng: &mut Rng) -> (b: Bounce)
    requires
        scene.wf(),
    ensures
        b == bounce_s(*scene, *ray, color, old(rng).0).0,
        final (rng).0 == bounce_s(*scene, *ray, color, old(rng).0).1,
{
    if !ray_ok(ray) {
        return Bounce::Finished(color);
    }
    let h = scene.closest_hit(ray, T_MIN);
    if h.distance == i64::MAX {
        Bounce::Finished(color.mul(sky_color(&scene.sky, ray.dir)))
    } else if h.mat as usize >= scene.materials.len() {
        Bounce::Finished(color)
    } else {
        let m = scene.materials[h.mat as usize];
        if m.kind == KIND_DIFFUSE {
            let light = uniform_sample(h.normal, rng);
            let weight = lambert_brdf(m.albedo).scale(h.normal.dot(light)).div(uniform_pdf());
            Bounce::Scattered(Ray { origin: h.pos, dir: light }, color.mul(m.albedo).mul(weight))
        } else if m.kind == KIND_MIRROR {
            Bounce::Scattered(
                Ray { origin: h.pos, dir: reflect(ray.dir, h.normal) },
                color.mul(m.albedo),
            )
        } else {
            Bounce::Finished(color)
        }
    }
}

/// Trace one path to its terminal color: exactly `trace_s`.
pub fn trace(scene: &Scene, ray: Ray, rng: &mut Rng) -> (c: Vec3)
    requires
        scene.wf(),
    ensures
        c == trace_s(*scene, ray, old(rng).0).0,
        final (rng).0 == trace_s(*scene, ray, old(rng).0).1,
{
    let mut color = Vec3::one();
    let mut cur = ray;
    let mut done = false;
    let ghost full = trace_s(*scene, ray, old(rng).0);
    let mut i: u32 = 0;
    while i < MAX_BOUNCES
        invariant
            i <= MAX_BOUNCES,
            scene.wf(),
            done ==> (color, rng.0) == full,
            !done ==> trace_rec_s(*scene, cur, color, rng.0, (MAX_BOUNCES - i) as nat) == full,
        decreases MAX_BOUNCES - i,
    {
        if !done {
            let step = bounce(scene, &cur, color, rng);
            match step {
                Bounce::Finished(c) => {
                    color = c;
                    done = true;
                },
                Bounce::Scattered(nray, c) => {
                    cur = nray;
                    color = c;
                },
            }
        }
        i += 1;
    }
    color
}

/// The number of scattering events a path takes when allowed `depth`.
pub open spec fn trace_bounces_s(scene: Scene, ray: Ray, color: Vec3, s: u32, depth: nat) -> nat
    decreases depth,
{
    if depth == 0 {
        0
    } else {
        let step = bounce_s(scene, ray, color, s);
        match step.0 {
            Bounce::Finished(c) => 0,
            Bounce::Scattered(nray, c) => 1 + trace_bounces_s(
                scene,
                nray,
                c,
                step.1,
                (depth - 1) as nat,
            ),
        }
    }
}

/// Bounce-cap termination: whatever the scene — every material a mirror
/// included — a path takes at most `depth` scattering events, so a full
/// sample takes at most `MAX_BOUNCES`.
pub proof fn lemma_bounce_cap(scene: Scene, ray: Ray, color: Vec3, s: u32, depth: nat)
    ensures
        trace_bounces_s(scene, ray, color, s, depth) <= depth,
    decreases depth,
{
    if depth > 0 {
        let step = bounce_s(scene, ray, color, s);
        match step.0 {
            Bounce::Finished(c) => {},
            Bounce::Scattered(nray, c) => {
                lemma_bounce_cap(scene, nray, c, step.1, (depth - 1) as nat);
            },
        }
    }
}

/// The miss path: a bounded ray that hits nothing returns the configured
/// sky or environment color exactly — no material contributes, and no
/// sampler draw is consumed.
pub proof fn lemma_miss_returns_sky(scene: Scene, ray: Ray, s: u32)
    requires
        ray_ok_s(ray),
        closest_hit_s(scene.spheres@, ray, T_MIN as int).distance == i64::MAX,
    ensures
        trace_s(scene, ray, s).0 == sky_color_s(scene.sky, ray.dir),
        trace_s(scene, ray, s).1 == s,
{
    let one = (Vec3 { x: crate::fx::SCALE, y: crate::fx::SCALE, z: crate::fx::SCALE });
    crate::vec::lemma_one_mul(sky_color_s(scene.sky, ray.dir));
    assert(trace_rec_s(scene, ray, one, s, MAX_BOUNCES as nat) == (
        vmul_s(one, sky_color_s(scene.sky, ray.dir)),
        s,
    ));
}

} // verus!
