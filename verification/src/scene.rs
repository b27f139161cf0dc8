//! The scene: an ordered list of spheres, a material table, and a sky —
//! a constant color or an environment image.
//!
//! Scenes arrive packed, two 4-vectors per sphere (position + radius, then
//! the material index) and one per material (albedo + kind), and are
//! validated once at build time: a degenerate radius, an out-of-range
//! coordinate or a dangling material index rejects the scene before anything
//! is traced. Tracing itself never checks indices again.

use vstd::prelude::*;
use crate::env::EnvMap;
use crate::fx::{tdiv, SCALE};
use crate::geom::{hit_sphere_s, no_hit_s, vec_ok, Hit, Ray, Sphere, COORD_MAX};
use crate::vec::{Vec3, Vec4};

verus! {

/// What a ray that escapes the scene sees: a constant color, or a decoded
/// environment image looked up in the miss direction.
pub enum SkyModel {
    Constant(Vec3),
    Image(EnvMap),
}

/// An image sky must be a well-formed texel table; a constant sky always is.
pub open spec fn sky_wf(s: SkyModel) -> bool {
    match s {
        SkyModel::Constant(_) => true,
        SkyModel::Image(m) => m.wf(),
    }
}

/// Material kind selecting the diffuse scattering model.
pub const KIND_DIFFUSE: u32 = 0;

/// Material kind selecting the perfect mirror scattering model.
pub const KIND_MIRROR: u32 = 1;

/// A surface material: an albedo and a scattering kind. A kind that is
/// neither diffuse nor mirror absorbs the path (a defined terminal, not an
/// error).
#[derive(Clone, Copy, PartialEq, Eq, Structural, Debug)]
pub struct Material {
    pub albedo: Vec3,
    pub kind: u32,
}

/// A validated scene. `wf()` is established by `from_packed` and preserved
/// thereafter; it is what lets the tracer index the material table without
/// per-bounce checks.
pub struct Scene {
    pub spheres: Vec<Sphere>,
    pub materials: Vec<Material>,
    pub sky: SkyModel,
}

/// A fixed-point scalar read as a saturating unsigned index.
pub open spec fn index_of_fx(v: int) -> u32 {
    if v < 0 {
        0
    } else if tdiv(v, SCALE as int) > u32::MAX {
        u32::MAX
    } else {
        tdiv(v, SCALE as int) as u32
    }
}

/// The sphere encoded by one packed pair.
pub open spec fn sphere_of_pair(p0: Vec4, p1: Vec4) -> Sphere {
    (Sphere {
        pos: (Vec3 { x: p0.x, y: p0.y, z: p0.z }),
        radius: p0.w,
        mat: index_of_fx(p1.x as int),
    })
}

/// The material encoded by one packed entry.
pub open spec fn material_of(m: Vec4) -> Material {
    (Material { albedo: (Vec3 { x: m.x, y: m.y, z: m.z }), kind: index_of_fx(m.w as int) })
}

/// A sphere the tracer may hold: bounded coordinates, a positive radius, and
/// a material index inside the table.
pub open spec fn sphere_valid(s: Sphere, n_materials: int) -> bool {
    vec_ok(s.pos) && 0 < s.radius <= COORD_MAX && (s.mat as int) < n_materials
}

/// One step of the nearest-wins scan: intersect the head sphere against
/// `[t_min, best.distance)` and keep whichever hit is nearer.
pub open spec fn closest_hit_rec(spheres: Seq<Sphere>, ray: Ray, t_min: int, best: Hit) -> Hit
    decreases spheres.len(),
{
    if spheres.len() == 0 {
        best
    } else {
        let h = hit_sphere_s(spheres[0], ray, t_min, best.distance as int);
        let next = if h.distance > 0 {
            h
        } else {
            best
        };
        closest_hit_rec(spheres.skip(1), ray, t_min, next)
    }
}

/// The sentinel the scan starts from: "nothing hit yet, at the far limit".
pub open spec fn far_hit_s() -> Hit {
    (Hit {
        distance: i64::MAX,
        pos: (Vec3 { x: 0, y: 0, z: 0 }),
        normal: (Vec3 { x: 0, y: 0, z: 0 }),
        mat: 0,
    })
}

/// The nearest hit of a ray against the whole sphere list; distance
/// `i64::MAX` when nothing is hit.
pub open spec fn closest_hit_s(spheres: Seq<Sphere>, ray: Ray, t_min: int) -> Hit {
    closest_hit_rec(spheres, ray, t_min, far_hit_s())
}

impl Scene {
    /// Every sphere is bounded, has a positive radius, and points into the
    /// material table; the sky is well formed.
    pub open spec fn wf(self) -> bool {
        sky_wf(self.sky) && forall|i: int|
            0 <= i < self.spheres@.len() ==> sphere_valid(
                #[trigger] self.spheres@[i],
                self.materials@.len() as int,
            )
    }

    /// Build a scene from packed entries, validating every sphere. Returns
    /// the scene exactly when the sphere list pairs up and every pair is
    /// valid against the material table.
    pub fn from_packed(spheres_packed: Vec<Vec4>, materials_packed: Vec<Vec4>, sky: Vec3) -> (r:
        Option<Scene>)
        ensures
            r is Some <==> (spheres_packed@.len() % 2 == 0 && forall|i: int|
                0 <= i < spheres_packed@.len() / 2 ==> sphere_valid(
                    #[trigger] sphere_of_pair(spheres_packed@[2 * i], spheres_packed@[2 * i + 1]),
                    materials_packed@.len() as int,
                )),
            r is Some ==> {
                let scene = r->Some_0;
                &&& scene.wf()
                &&& scene.spheres@.len() == spheres_packed@.len() / 2
                &&& (forall|i: int|
                    0 <= i < scene.spheres@.len() ==> #[trigger] scene.spheres@[i]
                        == sphere_of_pair(spheres_packed@[2 * i], spheres_packed@[2 * i + 1]))
                &&& scene.materials@.len() == materials_packed@.len()
                &&& (forall|i: int|
                    0 <= i < scene.materials@.len() ==> #[trigger] scene.materials@[i]
                        == material_of(materials_packed@[i]))
                &&& scene.sky == SkyModel::Constant(sky)
            },
    {
        if spheres_packed.len() % 2 != 0 {
            return None;
        }
        let mut materials: Vec<Material> = Vec::new();
        let mut j: usize = 0;
        while j < materials_packed.len()
            invariant
                j <= materials_packed@.len(),
                materials@.len() == j,
                forall|i: int|
                    0 <= i < j ==> #[trigger] materials@[i] == material_of(materials_packed@[i]),
            decreases materials_packed@.len() - j,
        {
            let m = materials_packed[j];
            materials.push(Material { albedo: Vec3 { x: m.x, y: m.y, z: m.z }, kind: index_of_fx_exec(m.w) });
            j += 1;
        }
        let len = spheres_packed.len();
        let n = len / 2;
        proof {
            vstd::arithmetic::div_mod::lemma_fundamental_div_mod(spheres_packed@.len() as int, 2);
        }
        let mut spheres: Vec<Sphere> = Vec::new();
        let mut i: usize = 0;
        while i < n
            invariant
                i <= n,
                len == spheres_packed@.len(),
                n == spheres_packed@.len() / 2,
                2 * n == spheres_packed@.len(),
                spheres@.len() == i,
                materials@.len() == materials_packed@.len(),
                forall|k: int|
                    0 <= k < i ==> #[trigger] spheres@[k] == sphere_of_pair(
                        spheres_packed@[2 * k],
                        spheres_packed@[2 * k + 1],
                    ),
                forall|k: int|
                    0 <= k < i ==> sphere_valid(
                        #[trigger] sphere_of_pair(spheres_packed@[2 * k], spheres_packed@[2 * k + 1]),
                        materials_packed@.len() as int,
                    ),
            decreases n - i,
        {
            let p0 = spheres_packed[2 * i];
            let p1 = spheres_packed[2 * i + 1];
            let s = Sphere {
                pos: Vec3 { x: p0.x, y: p0.y, z: p0.z },
                radius: p0.w,
                mat: index_of_fx_exec(p1.x),
            };
            let pos_ok = -COORD_MAX <= s.pos.x && s.pos.x <= COORD_MAX && -COORD_MAX <= s.pos.y
                && s.pos.y <= COORD_MAX && -COORD_MAX <= s.pos.z && s.pos.z <= COORD_MAX;
            if !(pos_ok && 0 < s.radius && s.radius <= COORD_MAX && (s.mat as usize)
                < materials.len()) {
                proof {
                    assert(!sphere_valid(
                        sphere_of_pair(
                            spheres_packed@[2 * (i as int)],
                            spheres_packed@[2 * (i as int) + 1],
                        ),
                        materials_packed@.len() as int,
                    ));
                }
                return None;
            }
            spheres.push(s);
            i += 1;
        }
        Some(Scene { spheres, materials, sky: SkyModel::Constant(sky) })
    }

    /// Linear scan for the nearest hit: each sphere is intersected against
    /// `[t_min, best)` where `best` is the nearest distance so far, so a
    /// later sphere wins only by being strictly closer.
    pub fn closest_hit(&self, ray: &Ray, t_min: i64) -> (h: Hit)
        requires
            self.wf(),
            vec_ok(ray.origin),
            vec_ok(ray.dir),
        ensures
            h == closest_hit_s(self.spheres@, *ray, t_min as int),
            t_min > 0 ==> h.distance > 0,
    {
        let mut best = Hit { distance: i64::MAX, pos: Vec3::zero(), normal: Vec3::zero(), mat: 0 };
        proof {
            assert(self.spheres@.skip(0) =~= self.spheres@);
        }
        let n = self.spheres.len();
        let mut i: usize = 0;
        while i < n
            invariant
                i <= n,
                n == self.spheres@.len(),
                self.wf(),
                vec_ok(ray.origin),
                vec_ok(ray.dir),
                closest_hit_rec(self.spheres@.skip(i as int), *ray, t_min as int, best)
                    == closest_hit_s(self.spheres@, *ray, t_min as int),
            decreases n - i,
        {
            let h = self.spheres[i].hit(ray, t_min, best.distance);
            proof {
                assert(self.spheres@.skip(i as int)[0] == self.spheres@[i as int]);
                assert(self.spheres@.skip(i as int).skip(1) =~= self.spheres@.skip(i as int + 1));
            }
            if h.distance > 0 {
                best = h;
            }
            i += 1;
        }
        proof {
            if t_min > 0 {
                lemma_closest_hit_nearest(self.spheres@, *ray, t_min as int);
            }
        }
        best
    }
}

/// The scan's fold only improves: its result is an accepted hit no farther
/// than the best so far, and no sphere of the list hits strictly nearer than
/// the result.
proof fn lemma_closest_rec_nearest(spheres: Seq<Sphere>, ray: Ray, t_min: int, best: Hit)
    requires
        t_min > 0,
        best.distance > 0,
    ensures
        closest_hit_rec(spheres, ray, t_min, best).distance > 0,
        closest_hit_rec(spheres, ray, t_min, best).distance <= best.distance,
        forall|i: int|
            0 <= i < spheres.len() ==> hit_sphere_s(
                #[trigger] spheres[i],
                ray,
                t_min,
                closest_hit_rec(spheres, ray, t_min, best).distance as int,
            ) == no_hit_s(),
    decreases spheres.len(),
{
    if spheres.len() > 0 {
        let s0 = spheres[0];
        let h = hit_sphere_s(s0, ray, t_min, best.distance as int);
        let next = if h.distance > 0 {
            h
        } else {
            best
        };
        let r = closest_hit_rec(spheres.skip(1), ray, t_min, next);
        assert(closest_hit_rec(spheres, ray, t_min, best) == r);
        if h.distance > 0 {
            // An accepted hit lies inside [t_min, best.distance).
            assert(crate::geom::q_a2(ray) != 0 && crate::geom::q_disc(s0, ray) >= 0);
            assert(h.distance < best.distance);
        }
        lemma_closest_rec_nearest(spheres.skip(1), ray, t_min, next);
        // The head sphere has no root nearer than the final result.
        if h.distance > 0 {
            let t1 = crate::geom::root_near_s(s0, ray);
            let t2 = crate::geom::root_far_s(s0, ray);
            crate::geom::lemma_a2_nonneg(ray);
            crate::geom::lemma_roots_ordered(s0, ray);
            assert(hit_sphere_s(s0, ray, t_min, r.distance as int) == no_hit_s());
        } else {
            crate::geom::lemma_miss_monotone(
                s0,
                ray,
                t_min,
                best.distance as int,
                r.distance as int,
            );
        }
        assert(forall|i: int|
            1 <= i < spheres.len() ==> #[trigger] spheres[i] == spheres.skip(1)[i - 1]);
    }
}

/// Nearest wins: nothing in the scene hits strictly nearer than what the
/// scan reports — for every sphere, the interval from the near limit up to
/// the reported distance is empty of roots.
pub proof fn lemma_closest_hit_nearest(spheres: Seq<Sphere>, ray: Ray, t_min: int)
    requires
        t_min > 0,
    ensures
        closest_hit_s(spheres, ray, t_min).distance > 0,
        forall|i: int|
            0 <= i < spheres.len() ==> hit_sphere_s(
                #[trigger] spheres[i],
                ray,
                t_min,
                closest_hit_s(spheres, ray, t_min).distance as int,
            ) == no_hit_s(),
{
    lemma_closest_rec_nearest(spheres, ray, t_min, far_hit_s());
}

/// Executable form of `index_of_fx`.
fn index_of_fx_exec(v: i64) -> (r: u32)
    ensures
        r == index_of_fx(v as int),
{
    if v < 0 {
        0
    } else {
        let q = v / SCALE;
        if q > u32::MAX as i64 {
            u32::MAX
        } else {
            q as u32
        }
    }
}

} // verus!
