//! The environment image: a decoded equirectangular texel table and its
//! filtered lookup.
//!
//! The loader hands the image over as plain rows of fixed-point colors;
//! lookups land on the table through `sample_equirect` and blend the four
//! surrounding texels bilinearly, with texel centers at half-texel
//! offsets, the seam wrapping in the azimuth direction and the poles
//! clamping in the polar one.

use vstd::prelude::*;
use crate::fx::{fx_add, fx_add_s, fx_mul, fx_mul_s, fx_sub, fx_sub_s, lemma_tdiv_monotone, SCALE};
use crate::shade::{sample_equirect, sample_equirect_s};
use crate::vec::Vec3;

verus! {

/// A decoded environment image: `width * height` texels in row order.
pub struct EnvMap {
    pub width: u32,
    pub height: u32,
    pub texels: Vec<Vec3>,
}

/// The texel at column `x` of row `y`.
pub open spec fn texel_s(m: EnvMap, x: int, y: int) -> Vec3 {
    m.texels@[y * (m.width as int) + x]
}

/// Texel-space position of a coordinate `u` on `[0, 1]` against `n` texel
/// centers at half-texel offsets: the index of the texel on its left (one
/// below zero at the near edge) and the fixed-point fraction toward the
/// next.
pub open spec fn coord_s(u: int, n: u32) -> (int, int) {
    let c = fx_mul_s(u, (n as int) * (SCALE as int)) + (SCALE as int) / 2;
    (c / (SCALE as int) - 1, c % (SCALE as int))
}

/// One channel of linear interpolation: `a + (b - a) * t`.
pub open spec fn lerp1_s(a: int, b: int, t: int) -> int {
    fx_add_s(a, fx_mul_s(fx_sub_s(b, a), t))
}

/// Component-wise linear interpolation of two colors.
pub open spec fn lerp3_s(a: Vec3, b: Vec3, t: int) -> Vec3 {
    (Vec3 {
        x: lerp1_s(a.x as int, b.x as int, t) as i64,
        y: lerp1_s(a.y as int, b.y as int, t) as i64,
        z: lerp1_s(a.z as int, b.z as int, t) as i64,
    })
}

/// The bilinear environment sample in direction `dir`: equirectangular
/// coordinates, then the blend of the four surrounding texels.
pub open spec fn env_sample_s(m: EnvMap, dir: Vec3) -> Vec3 {
    let u = sample_equirect_s(dir).0;
    let v = sample_equirect_s(dir).1;
    let ex = coord_s(u, m.width).0;
    let fu = coord_s(u, m.width).1;
    let ey = coord_s(v, m.height).0;
    let fv = coord_s(v, m.height).1;
    let x0 = if ex < 0 {
        m.width as int - 1
    } else {
        ex
    };
    let x1 = if x0 + 1 >= m.width {
        0int
    } else {
        x0 + 1
    };
    let y0 = if ey < 0 {
        0int
    } else {
        ey
    };
    let y1 = if ey < 0 {
        0int
    } else if ey + 1 >= m.height {
        m.height as int - 1
    } else {
        ey + 1
    };
    let top = lerp3_s(texel_s(m, x0, y0), texel_s(m, x1, y0), fu);
    let bot = lerp3_s(texel_s(m, x0, y1), texel_s(m, x1, y1), fu);
    lerp3_s(top, bot, fv)
}

/// Executable form of `coord_s`, with its bounds.
fn coord(u: i64, n: u32) -> (r: (i64, i64))
    requires
        0 <= u <= SCALE,
        n >= 1,
    ensures
        r.0 as int == coord_s(u as int, n).0,
        r.1 as int == coord_s(u as int, n).1,
        -1 <= r.0 <= n - 1,
        0 <= r.1 < SCALE,
{
    let scaled: i64 = n as i64 * SCALE;
    proof {
        let p = (u as int) * ((n as int) * (SCALE as int));
        assert(0 <= p <= 65536 * ((n as int) * (SCALE as int))) by (nonlinear_arith)
            requires
                0 <= u <= 65536,
                n >= 1,
                p == (u as int) * ((n as int) * (SCALE as int)),
                SCALE == 65536,
        ;
        lemma_tdiv_monotone(0, p, SCALE as int);
        lemma_tdiv_monotone(p, 65536 * ((n as int) * (SCALE as int)), SCALE as int);
        vstd::arithmetic::div_mod::lemma_div_multiples_vanish(
            65536 * (n as int),
            SCALE as int,
        );
        assert(65536 * ((n as int) * 65536) == 65536int * (65536 * (n as int)))
            by (nonlinear_arith);
        vstd::arithmetic::div_mod::lemma_fundamental_div_mod(
            fx_mul_s(u as int, (n as int) * (SCALE as int)) + 32768,
            SCALE as int,
        );
        vstd::arithmetic::div_mod::lemma_mod_bound(
            fx_mul_s(u as int, (n as int) * (SCALE as int)) + 32768,
            SCALE as int,
        );
    }
    let c: i64 = fx_mul(u, scaled) + SCALE / 2;
    (c / SCALE - 1, c % SCALE)
}

impl EnvMap {
    /// The table holds exactly one color per texel of a nonempty image.
    pub open spec fn wf(self) -> bool {
        self.width >= 1 && self.height >= 1 && self.texels@.len() == (self.width as int) * (
        self.height as int)
    }

    /// Filtered lookup in direction `dir`: exactly `env_sample_s`.
    pub fn sample(&self, dir: Vec3) -> (c: Vec3)
        requires
            self.wf(),
            dir.x > i64::MIN,
            dir.y > i64::MIN,
            dir.z > i64::MIN,
        ensures
            c == env_sample_s(*self, dir),
    {
        let (u, v) = sample_equirect(dir);
        let (ex, fu) = coord(u, self.width);
        let (ey, fv) = coord(v, self.height);
        let x0: i64 = if ex < 0 {
            self.width as i64 - 1
        } else {
            ex
        };
        let x1: i64 = if x0 + 1 >= self.width as i64 {
            0
        } else {
            x0 + 1
        };
        let y0: i64 = if ey < 0 {
            0
        } else {
            ey
        };
        let y1: i64 = if ey < 0 {
            0
        } else if ey + 1 >= self.height as i64 {
            self.height as i64 - 1
        } else {
            ey + 1
        };
        let top = lerp3(self.fetch(x0, y0), self.fetch(x1, y0), fu);
        let bot = lerp3(self.fetch(x0, y1), self.fetch(x1, y1), fu);
        lerp3(top, bot, fv)
    }

    /// Read one texel; row-major.
    fn fetch(&self, x: i64, y: i64) -> (c: Vec3)
        requires
            self.wf(),
            0 <= x < self.width,
            0 <= y < self.height,
        ensures
            c == texel_s(*self, x as int, y as int),
    {
        let total = self.texels.len();
        proof {
            assert((y as int) * (self.width as int) + (x as int) < (self.height as int) * (
            self.width as int) && 0 <= (y as int) * (self.width as int) + (x as int) && (
            self.height as int) * (self.width as int) == (self.width as int) * (
            self.height as int)) by (nonlinear_arith)
                requires
                    0 <= x < self.width,
                    0 <= y < self.height,
            ;
        }
        let idx: usize = (y as usize) * (self.width as usize) + (x as usize);
        self.texels[idx]
    }
}

/// Executable form of `lerp3_s`.
fn lerp3(a: Vec3, b: Vec3, t: i64) -> (r: Vec3)
    ensures
        r == lerp3_s(a, b, t as int),
{
    Vec3 {
        x: fx_add(a.x, fx_mul(fx_sub(b.x, a.x), t)),
        y: fx_add(a.y, fx_mul(fx_sub(b.y, a.y), t)),
        z: fx_add(a.z, fx_mul(fx_sub(b.z, a.z), t)),
    }
}

} // verus!
