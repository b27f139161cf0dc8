//! Three- and four-component fixed-point vectors.
//!
//! Components are fixed-point scalars (see `fx`); every operation is the
//! component-wise or reduced form of the scalar operations, and each
//! executable method returns exactly what its spec-level counterpart names.

use vstd::prelude::*;
use crate::fx::{fx_add, fx_add_s, fx_div, fx_div_s, fx_mul, fx_mul_s, fx_neg, fx_neg_s, fx_sqrt,
    fx_sqrt_s, fx_sub, fx_sub_s};

verus! {

/// A fixed-point 3-vector.
#[derive(Clone, Copy, PartialEq, Eq, Structural, Debug)]
pub struct Vec3 {
    pub x: i64,
    pub y: i64,
    pub z: i64,
}

/// A fixed-point 4-vector: one accumulation cell, or one packed scene entry.
#[derive(Clone, Copy, PartialEq, Eq, Structural, Debug)]
pub struct Vec4 {
    pub x: i64,
    pub y: i64,
    pub z: i64,
    pub w: i64,
}

pub open spec fn vadd_s(a: Vec3, b: Vec3) -> Vec3 {
    (Vec3 {
        x: fx_add_s(a.x as int, b.x as int) as i64,
        y: fx_add_s(a.y as int, b.y as int) as i64,
        z: fx_add_s(a.z as int, b.z as int) as i64,
    })
}

pub open spec fn vsub_s(a: Vec3, b: Vec3) -> Vec3 {
    (Vec3 {
        x: fx_sub_s(a.x as int, b.x as int) as i64,
        y: fx_sub_s(a.y as int, b.y as int) as i64,
        z: fx_sub_s(a.z as int, b.z as int) as i64,
    })
}

pub open spec fn vneg_s(a: Vec3) -> Vec3 {
    (Vec3 {
        x: fx_neg_s(a.x as int) as i64,
        y: fx_neg_s(a.y as int) as i64,
        z: fx_neg_s(a.z as int) as i64,
    })
}

/// Component-wise product: color attenuation.
pub open spec fn vmul_s(a: Vec3, b: Vec3) -> Vec3 {
    (Vec3 {
        x: fx_mul_s(a.x as int, b.x as int) as i64,
        y: fx_mul_s(a.y as int, b.y as int) as i64,
        z: fx_mul_s(a.z as int, b.z as int) as i64,
    })
}

/// Product with a scalar.
pub open spec fn vscale_s(a: Vec3, s: int) -> Vec3 {
    (Vec3 {
        x: fx_mul_s(a.x as int, s) as i64,
        y: fx_mul_s(a.y as int, s) as i64,
        z: fx_mul_s(a.z as int, s) as i64,
    })
}

/// Component-wise quotient by a scalar.
pub open spec fn vdiv_s(a: Vec3, s: int) -> Vec3 {
    (Vec3 {
        x: fx_div_s(a.x as int, s) as i64,
        y: fx_div_s(a.y as int, s) as i64,
        z: fx_div_s(a.z as int, s) as i64,
    })
}

/// Fixed-point dot product: each product truncated, the sums saturating.
pub open spec fn dot_s(a: Vec3, b: Vec3) -> int {
    fx_add_s(
        fx_add_s(fx_mul_s(a.x as int, b.x as int), fx_mul_s(a.y as int, b.y as int)),
        fx_mul_s(a.z as int, b.z as int),
    )
}

pub open spec fn length_squared_s(a: Vec3) -> int {
    dot_s(a, a)
}

/// The direction of `a` at unit length; `a` itself when its length rounds
/// to zero, so that the operation is total.
pub open spec fn normalize_s(a: Vec3) -> Vec3 {
    let len = fx_sqrt_s(length_squared_s(a));
    if len == 0 {
        a
    } else {
        vdiv_s(a, len)
    }
}

/// The all-ones vector is the unit of the component-wise product.
pub proof fn lemma_one_mul(v: Vec3)
    ensures
        vmul_s((Vec3 { x: crate::fx::SCALE, y: crate::fx::SCALE, z: crate::fx::SCALE }), v) == v,
{
    crate::fx::lemma_fx_mul_one(v.x as int);
    crate::fx::lemma_fx_mul_one(v.y as int);
    crate::fx::lemma_fx_mul_one(v.z as int);
}

impl Vec3 {
    /// The zero vector.
    pub fn zero() -> (r: Vec3)
        ensures
            r == (Vec3 { x: 0, y: 0, z: 0 }),
    {
        Vec3 { x: 0, y: 0, z: 0 }
    }

    /// The all-ones vector: the initial path throughput.
    pub fn one() -> (r: Vec3)
        ensures
            r == (Vec3 { x: crate::fx::SCALE, y: crate::fx::SCALE, z: crate::fx::SCALE }),
    {
        Vec3 { x: crate::fx::SCALE, y: crate::fx::SCALE, z: crate::fx::SCALE }
    }

    pub fn add(self, b: Vec3) -> (r: Vec3)
        ensures
            r == vadd_s(self, b),
    {
        Vec3 { x: fx_add(self.x, b.x), y: fx_add(self.y, b.y), z: fx_add(self.z, b.z) }
    }

    pub fn sub(self, b: Vec3) -> (r: Vec3)
        ensures
            r == vsub_s(self, b),
    {
        Vec3 { x: fx_sub(self.x, b.x), y: fx_sub(self.y, b.y), z: fx_sub(self.z, b.z) }
    }

    pub fn neg(self) -> (r: Vec3)
        ensures
            r == vneg_s(self),
    {
        Vec3 { x: fx_neg(self.x), y: fx_neg(self.y), z: fx_neg(self.z) }
    }

    /// Component-wise product: color attenuation.
    pub fn mul(self, b: Vec3) -> (r: Vec3)
        ensures
            r == vmul_s(self, b),
    {
        Vec3 { x: fx_mul(self.x, b.x), y: fx_mul(self.y, b.y), z: fx_mul(self.z, b.z) }
    }

    pub fn scale(self, s: i64) -> (r: Vec3)
        ensures
            r == vscale_s(self, s as int),
    {
        Vec3 { x: fx_mul(self.x, s), y: fx_mul(self.y, s), z: fx_mul(self.z, s) }
    }

    pub fn div(self, s: i64) -> (r: Vec3)
        ensures
            r == vdiv_s(self, s as int),
    {
        Vec3 { x: fx_div(self.x, s), y: fx_div(self.y, s), z: fx_div(self.z, s) }
    }

    pub fn dot(self, b: Vec3) -> (r: i64)
        ensures
            r as int == dot_s(self, b),
    {
        fx_add(fx_add(fx_mul(self.x, b.x), fx_mul(self.y, b.y)), fx_mul(self.z, b.z))
    }

    pub fn length_squared(self) -> (r: i64)
        ensures
            r as int == length_squared_s(self),
    {
        self.dot(self)
    }

    /// Normalize to unit length; the zero-length guard keeps it total.
    pub fn normalize(self) -> (r: Vec3)
        ensures
            r == normalize_s(self),
    {
        let len = fx_sqrt(self.length_squared());
        if len == 0 {
            self
        } else {
            self.div(len)
        }
    }

    /// Append a fourth component.
    pub fn extend(self, w: i64) -> (r: Vec4)
        ensures
            r == (Vec4 { x: self.x, y: self.y, z: self.z, w: w }),
    {
        Vec4 { x: self.x, y: self.y, z: self.z, w }
    }
}

impl Vec4 {
    /// The zero cell.
    pub fn zero() -> (r: Vec4)
        ensures
            r == (Vec4 { x: 0, y: 0, z: 0, w: 0 }),
    {
        Vec4 { x: 0, y: 0, z: 0, w: 0 }
    }

    /// Drop the fourth component.
    pub fn truncate(self) -> (r: Vec3)
        ensures
            r == (Vec3 { x: self.x, y: self.y, z: self.z }),
    {
        Vec3 { x: self.x, y: self.y, z: self.z }
    }
}

} // verus!
