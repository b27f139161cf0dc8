//! Rays, hits, and ray–sphere intersection.
//!
//! The intersection solves `|O + t*D - C|^2 == r^2` for `t`. The
//! coefficients `a = |D|^2`, `b = (O - C) . D`, `c = |O - C|^2 - r^2` and the
//! discriminant `b^2 - a*c` are computed exactly over wide integers (the
//! fixed-point components carry scale `SCALE`, so these carry `SCALE^2` and
//! the discriminant `SCALE^4`); only the roots themselves are rounded back to
//! fixed point. The sign test on the discriminant is therefore exact.
//!
//! "No hit" is the sentinel hit at distance zero, never an optional value;
//! callers compare distances against their search interval.

use vstd::prelude::*;
use crate::fx::{div_trunc, is_isqrt, isqrt_s, isqrt_u128, lemma_abs_mul_bound, lemma_isqrt_s,
    sat64, sat_i128, tdiv};
use crate::vec::{vadd_s, vdiv_s, vscale_s, vsub_s, Vec3};

verus! {

/// Largest coordinate magnitude the intersection accepts: 4096 in scene
/// units. Within it, every intermediate of the quadratic fits a 128-bit word.
pub const COORD_MAX: i64 = 0x10000000;

/// A scalar small enough to stand in a scene: position, radius or direction
/// component.
pub open spec fn coord_ok(v: int) -> bool {
    -COORD_MAX <= v <= COORD_MAX
}

pub open spec fn vec_ok(v: Vec3) -> bool {
    coord_ok(v.x as int) && coord_ok(v.y as int) && coord_ok(v.z as int)
}

/// A ray: origin and direction. The direction need not be unit length for
/// the intersection math; it is normalized where cosine terms use it.
#[derive(Clone, Copy, PartialEq, Eq, Structural, Debug)]
pub struct Ray {
    pub origin: Vec3,
    pub dir: Vec3,
}

/// A surface hit. `distance == 0` is the "no hit" sentinel.
#[derive(Clone, Copy, PartialEq, Eq, Structural, Debug)]
pub struct Hit {
    pub distance: i64,
    pub pos: Vec3,
    pub normal: Vec3,
    pub mat: u32,
}

/// An analytic sphere with a material index.
#[derive(Clone, Copy, PartialEq, Eq, Structural, Debug)]
pub struct Sphere {
    pub pos: Vec3,
    pub radius: i64,
    pub mat: u32,
}

pub open spec fn no_hit_s() -> Hit {
    (Hit { distance: 0, pos: (Vec3 { x: 0, y: 0, z: 0 }), normal: (Vec3 { x: 0, y: 0, z: 0 }), mat: 0 })
}

/// The point `origin + t * dir`, in fixed-point arithmetic.
pub open spec fn ray_at_s(ray: Ray, t: int) -> Vec3 {
    vadd_s(ray.origin, vscale_s(ray.dir, t))
}

/// `|D|^2`, exact, at scale `SCALE^2`.
pub open spec fn q_a2(ray: Ray) -> int {
    (ray.dir.x as int) * (ray.dir.x as int) + (ray.dir.y as int) * (ray.dir.y as int) + (
    ray.dir.z as int) * (ray.dir.z as int)
}

/// `(O - C) . D`, exact, at scale `SCALE^2`.
pub open spec fn q_b2(s: Sphere, ray: Ray) -> int {
    let ox = ray.origin.x - s.pos.x;
    let oy = ray.origin.y - s.pos.y;
    let oz = ray.origin.z - s.pos.z;
    ox * (ray.dir.x as int) + oy * (ray.dir.y as int) + oz * (ray.dir.z as int)
}

/// `|O - C|^2 - r^2`, exact, at scale `SCALE^2`.
pub open spec fn q_c2(s: Sphere, ray: Ray) -> int {
    let ox = ray.origin.x - s.pos.x;
    let oy = ray.origin.y - s.pos.y;
    let oz = ray.origin.z - s.pos.z;
    ox * ox + oy * oy + oz * oz - (s.radius as int) * (s.radius as int)
}

/// The discriminant `b^2 - a*c`, exact, at scale `SCALE^4`.
pub open spec fn q_disc(s: Sphere, ray: Ray) -> int {
    q_b2(s, ray) * q_b2(s, ray) - q_a2(ray) * q_c2(s, ray)
}

/// The nearer root `(-b - sqrt(disc)) / a`, rounded to fixed point.
pub open spec fn root_near_s(s: Sphere, ray: Ray) -> int {
    sat64(tdiv((-q_b2(s, ray) - isqrt_s(q_disc(s, ray))) * 65536, q_a2(ray)))
}

/// The farther root `(-b + sqrt(disc)) / a`, rounded to fixed point.
pub open spec fn root_far_s(s: Sphere, ray: Ray) -> int {
    sat64(tdiv((-q_b2(s, ray) + isqrt_s(q_disc(s, ray))) * 65536, q_a2(ray)))
}

pub open spec fn in_interval(t: int, t_min: int, t_max: int) -> bool {
    t_min <= t < t_max
}

/// The hit record for a root `t`: position along the ray, outward unit
/// normal `(P - C) / r`, and the sphere's material index.
pub open spec fn make_hit_s(s: Sphere, ray: Ray, t: int) -> Hit {
    let pos = ray_at_s(ray, t);
    (Hit { distance: t as i64, pos: pos, normal: vdiv_s(vsub_s(pos, s.pos), s.radius as int), mat: s.mat })
}

/// Intersection of one sphere with the interval `[t_min, t_max)`: no hit on
/// a negative discriminant or a degenerate (zero-length) direction;
/// otherwise the nearer root if it lies in the interval, else the farther
/// root if it does, else no hit.
pub open spec fn hit_sphere_s(s: Sphere, ray: Ray, t_min: int, t_max: int) -> Hit {
    if q_a2(ray) == 0 || q_disc(s, ray) < 0 {
        no_hit_s()
    } else {
        let t1 = root_near_s(s, ray);
        let t2 = root_far_s(s, ray);
        if in_interval(t1, t_min, t_max) {
            make_hit_s(s, ray, t1)
        } else if in_interval(t2, t_min, t_max) {
            make_hit_s(s, ray, t2)
        } else {
            no_hit_s()
        }
    }
}

/// The integer square root of the discriminant is below `2^61`.
pub proof fn lemma_sqrt_disc_bound(d: int, sq: int)
    requires
        0 <= d <= 0x1000000000000000000000000000000,
        is_isqrt(d, sq),
    ensures
        0 <= sq < 0x2000000000000000,
{
    assert(sq < 0x2000000000000000) by (nonlinear_arith)
        requires
            sq >= 0,
            sq * sq <= d,
            d <= 0x1000000000000000000000000000000,
    ;
}

/// A ray aimed through the center of a sphere never has a negative
/// discriminant: if the direction is any nonzero multiple `k` of the vector
/// from origin to center, `disc == k^2 * |O - C|^2 * r^2 >= 0`.
pub proof fn lemma_through_center_hits(s: Sphere, ray: Ray, k: int)
    requires
        ray.dir.x as int == k * (s.pos.x - ray.origin.x),
        ray.dir.y as int == k * (s.pos.y - ray.origin.y),
        ray.dir.z as int == k * (s.pos.z - ray.origin.z),
    ensures
        q_disc(s, ray) >= 0,
{
    let ox = ray.origin.x - s.pos.x;
    let oy = ray.origin.y - s.pos.y;
    let oz = ray.origin.z - s.pos.z;
    let n = ox * ox + oy * oy + oz * oz;
    let r2 = (s.radius as int) * (s.radius as int);
    assert(q_b2(s, ray) == -k * n) by (nonlinear_arith)
        requires
            ray.dir.x as int == k * (s.pos.x - ray.origin.x),
            ray.dir.y as int == k * (s.pos.y - ray.origin.y),
            ray.dir.z as int == k * (s.pos.z - ray.origin.z),
            ox == ray.origin.x - s.pos.x,
            oy == ray.origin.y - s.pos.y,
            oz == ray.origin.z - s.pos.z,
            n == ox * ox + oy * oy + oz * oz,
            q_b2(s, ray) == ox * (ray.dir.x as int) + oy * (ray.dir.y as int) + oz * (
            ray.dir.z as int),
    ;
    assert((-(k * ox)) * (-(k * ox)) == k * k * (ox * ox)) by (nonlinear_arith);
    assert((-(k * oy)) * (-(k * oy)) == k * k * (oy * oy)) by (nonlinear_arith);
    assert((-(k * oz)) * (-(k * oz)) == k * k * (oz * oz)) by (nonlinear_arith);
    assert(k * k * (ox * ox) + k * k * (oy * oy) + k * k * (oz * oz) == k * k * n)
        by (nonlinear_arith)
        requires
            n == ox * ox + oy * oy + oz * oz,
    ;
    assert(k * (s.pos.x - ray.origin.x) == -(k * ox) && k * (s.pos.y - ray.origin.y) == -(k * oy)
        && k * (s.pos.z - ray.origin.z) == -(k * oz)) by (nonlinear_arith)
        requires
            ox == ray.origin.x - s.pos.x,
            oy == ray.origin.y - s.pos.y,
            oz == ray.origin.z - s.pos.z,
    ;
    assert(q_a2(ray) == k * k * n);
    assert(q_disc(s, ray) == k * k * n * r2 && k * k * n * r2 >= 0) by (nonlinear_arith)
        requires
            q_b2(s, ray) == -k * n,
            q_a2(ray) == k * k * n,
            q_c2(s, ray) == n - r2,
            n == ox * ox + oy * oy + oz * oz,
            r2 == (s.radius as int) * (s.radius as int),
            q_disc(s, ray) == q_b2(s, ray) * q_b2(s, ray) - q_a2(ray) * q_c2(s, ray),
    ;
}

/// A ray that starts inside the sphere (`c <= 0`) never has a negative
/// discriminant either.
pub proof fn lemma_origin_inside_hits(s: Sphere, ray: Ray)
    requires
        q_c2(s, ray) <= 0,
    ensures
        q_disc(s, ray) >= 0,
{
    assert(q_disc(s, ray) >= 0) by (nonlinear_arith)
        requires
            q_c2(s, ray) <= 0,
            q_a2(ray) == (ray.dir.x as int) * (ray.dir.x as int) + (ray.dir.y as int) * (
            ray.dir.y as int) + (ray.dir.z as int) * (ray.dir.z as int),
            q_disc(s, ray) == q_b2(s, ray) * q_b2(s, ray) - q_a2(ray) * q_c2(s, ray),
    ;
}

/// The leading coefficient, a sum of squares, is never negative.
pub proof fn lemma_a2_nonneg(ray: Ray)
    ensures
        q_a2(ray) >= 0,
{
    assert(q_a2(ray) >= 0) by (nonlinear_arith)
        requires
            q_a2(ray) == (ray.dir.x as int) * (ray.dir.x as int) + (ray.dir.y as int) * (
            ray.dir.y as int) + (ray.dir.z as int) * (ray.dir.z as int),
    ;
}

/// With a positive leading coefficient the nearer root never exceeds the
/// farther one, after rounding and saturation included.
pub proof fn lemma_roots_ordered(s: Sphere, ray: Ray)
    requires
        q_a2(ray) > 0,
        q_disc(s, ray) >= 0,
    ensures
        root_near_s(s, ray) <= root_far_s(s, ray),
{
    lemma_isqrt_s(q_disc(s, ray));
    let b2 = q_b2(s, ray);
    let sq = isqrt_s(q_disc(s, ray));
    assert((-b2 - sq) * 65536 <= (-b2 + sq) * 65536) by (nonlinear_arith)
        requires
            sq >= 0,
    ;
    crate::fx::lemma_tdiv_monotone((-b2 - sq) * 65536, (-b2 + sq) * 65536, q_a2(ray));
    crate::fx::lemma_sat64_monotone(
        tdiv((-b2 - sq) * 65536, q_a2(ray)),
        tdiv((-b2 + sq) * 65536, q_a2(ray)),
    );
}

/// A sphere that reports no hit on an interval reports no hit on any
/// narrower interval with the same near end.
pub proof fn lemma_miss_monotone(s: Sphere, ray: Ray, t_min: int, tm1: int, tm2: int)
    requires
        t_min > 0,
        tm2 <= tm1,
        hit_sphere_s(s, ray, t_min, tm1) == no_hit_s(),
    ensures
        hit_sphere_s(s, ray, t_min, tm2) == no_hit_s(),
{
    if !(q_a2(ray) == 0 || q_disc(s, ray) < 0) {
        let t1 = root_near_s(s, ray);
        let t2 = root_far_s(s, ray);
        assert(!in_interval(t1, t_min, tm1)) by {
            if in_interval(t1, t_min, tm1) {
                assert(hit_sphere_s(s, ray, t_min, tm1).distance == t1 as i64);
            }
        }
        assert(!in_interval(t2, t_min, tm1)) by {
            if in_interval(t2, t_min, tm1) {
                assert(hit_sphere_s(s, ray, t_min, tm1).distance == t2 as i64);
            }
        }
    }
}

/// Interval respect: when the discriminant admits roots but the nearer root
/// falls outside `[t_min, t_max)`, the intersection falls back to the farther
/// root, and reports no hit only when both roots are outside.
pub proof fn lemma_interval_fallback(s: Sphere, ray: Ray, t_min: int, t_max: int)
    requires
        q_a2(ray) != 0,
        q_disc(s, ray) >= 0,
        !in_interval(root_near_s(s, ray), t_min, t_max),
    ensures
        in_interval(root_far_s(s, ray), t_min, t_max) ==> hit_sphere_s(s, ray, t_min, t_max)
            == make_hit_s(s, ray, root_far_s(s, ray)),
        !in_interval(root_far_s(s, ray), t_min, t_max) ==> hit_sphere_s(s, ray, t_min, t_max)
            == no_hit_s(),
{
}

impl Hit {
    /// The "no hit" sentinel: distance zero.
    pub fn none() -> (h: Hit)
        ensures
            h == no_hit_s(),
    {
        Hit { distance: 0, pos: Vec3::zero(), normal: Vec3::zero(), mat: 0 }
    }
}

impl Ray {
    /// The point a distance `t` along the ray.
    pub fn at(&self, t: i64) -> (r: Vec3)
        ensures
            r == ray_at_s(*self, t as int),
    {
        self.origin.add(self.dir.scale(t))
    }
}

impl Sphere {
    /// All of the sphere's scalars are in the coordinate range.
    pub open spec fn bounded(self) -> bool {
        vec_ok(self.pos) && coord_ok(self.radius as int)
    }

    /// Nearest intersection of `ray` with this sphere inside
    /// `[t_min, t_max)`, or the sentinel hit; exactly `hit_sphere_s`.
    pub fn hit(&self, ray: &Ray, t_min: i64, t_max: i64) -> (h: Hit)
        requires
            self.bounded(),
            vec_ok(ray.origin),
            vec_ok(ray.dir),
        ensures
            h == hit_sphere_s(*self, *ray, t_min as int, t_max as int),
            h.distance != 0 ==> in_interval(h.distance as int, t_min as int, t_max as int),
    {
        let ox: i128 = ray.origin.x as i128 - self.pos.x as i128;
        let oy: i128 = ray.origin.y as i128 - self.pos.y as i128;
        let oz: i128 = ray.origin.z as i128 - self.pos.z as i128;
        let dx: i128 = ray.dir.x as i128;
        let dy: i128 = ray.dir.y as i128;
        let dz: i128 = ray.dir.z as i128;
        let rr: i128 = self.radius as i128;
        proof {
            lemma_abs_mul_bound(dx as int, dx as int, 0x10000000, 0x10000000);
            lemma_abs_mul_bound(dy as int, dy as int, 0x10000000, 0x10000000);
            lemma_abs_mul_bound(dz as int, dz as int, 0x10000000, 0x10000000);
            lemma_abs_mul_bound(ox as int, dx as int, 0x20000000, 0x10000000);
            lemma_abs_mul_bound(oy as int, dy as int, 0x20000000, 0x10000000);
            lemma_abs_mul_bound(oz as int, dz as int, 0x20000000, 0x10000000);
            lemma_abs_mul_bound(ox as int, ox as int, 0x20000000, 0x20000000);
            lemma_abs_mul_bound(oy as int, oy as int, 0x20000000, 0x20000000);
            lemma_abs_mul_bound(oz as int, oz as int, 0x20000000, 0x20000000);
            lemma_abs_mul_bound(rr as int, rr as int, 0x10000000, 0x10000000);
        }
        let a2: i128 = dx * dx + dy * dy + dz * dz;
        let b2: i128 = ox * dx + oy * dy + oz * dz;
        let c2: i128 = ox * ox + oy * oy + oz * oz - rr * rr;
        proof {
            lemma_abs_mul_bound(b2 as int, b2 as int, 0x600000000000000, 0x600000000000000);
            lemma_abs_mul_bound(a2 as int, c2 as int, 0x300000000000000, 0xd00000000000000);
        }
        let disc: i128 = b2 * b2 - a2 * c2;
        if a2 == 0 || disc < 0 {
            Hit::none()
        } else {
            let sq128: u128 = isqrt_u128(disc as u128);
            proof {
                lemma_sqrt_disc_bound(disc as int, sq128 as int);
            }
            let sq: i128 = sq128 as i128;
            let t1: i64 = sat_i128(div_trunc((-b2 - sq) * 65536, a2));
            if t_min <= t1 && t1 < t_max {
                self.make_hit(ray, t1)
            } else {
                let t2: i64 = sat_i128(div_trunc((-b2 + sq) * 65536, a2));
                if t_min <= t2 && t2 < t_max {
                    self.make_hit(ray, t2)
                } else {
                    Hit::none()
                }
            }
        }
    }

    /// Build the hit record for an accepted root.
    fn make_hit(&self, ray: &Ray, t: i64) -> (h: Hit)
        ensures
            h == make_hit_s(*self, *ray, t as int),
    {
        let pos = ray.at(t);
        let normal = pos.sub(self.pos).div(self.radius);
        Hit { distance: t, pos, normal, mat: self.mat }
    }
}

} // verus!
