//! Fixed-point circular functions, parameterized by turns.
//!
//! An angle is given as a fraction of a full turn at scale `SCALE`
//! (`SCALE == 2 * pi` radians), which makes range reduction exact integer
//! arithmetic: only the first quarter turn needs an approximation, a
//! truncated Taylor series in fixed point. The contract of each function is
//! its own evaluation rule; the trailing Taylor terms it drops are below
//! `1e-3` of a unit over the reduced range.

use vstd::prelude::*;
use crate::fx::{fx_add, fx_add_s, fx_div, fx_div_s, fx_mul, fx_mul_s, fx_neg, fx_neg_s, fx_sqrt_s,
    fx_sub, fx_sub_s, SCALE};

verus! {

/// A full turn in radians, `2 * pi`, at scale `SCALE`.
pub const TWO_PI: i64 = 411775;

/// `pi` at scale `SCALE`.
pub const PI_FX: i64 = 205887;

/// `1 / pi` at scale `SCALE`.
pub const INV_PI: i64 = 20861;

/// A quarter turn.
pub const QUARTER: i64 = 16384;

/// Cosine over the first quarter turn (`x` in `[0, QUARTER]`), by the Taylor
/// series through the sixth power of the angle in radians.
pub open spec fn cos_q_s(x: int) -> int {
    let th = fx_mul_s(x, TWO_PI as int);
    let t2 = fx_mul_s(th, th);
    let t4 = fx_mul_s(t2, t2);
    let t6 = fx_mul_s(t4, t2);
    fx_sub_s(
        fx_add_s(fx_sub_s(SCALE as int, fx_div_s(t2, 2 * SCALE as int)), fx_div_s(t4, 24 * SCALE as int)),
        fx_div_s(t6, 720 * SCALE as int),
    )
}

/// Cosine of `u` turns, `|u| <= 2` turns, reduced by symmetry to `cos_q_s`.
pub open spec fn cos_turn_s(u: int) -> int {
    let v0 = if u < 0 {
        -u
    } else {
        u
    };
    let v = if v0 > SCALE {
        v0 - SCALE as int
    } else {
        v0
    };
    if v <= QUARTER {
        cos_q_s(v)
    } else if v <= 2 * QUARTER {
        fx_neg_s(cos_q_s(2 * QUARTER - v))
    } else if v <= 3 * QUARTER {
        fx_neg_s(cos_q_s(v - 2 * QUARTER))
    } else {
        cos_q_s(SCALE - v)
    }
}

/// Sine of `u` turns, `|u| <= 1` turn: the cosine shifted by a quarter turn.
pub open spec fn sin_turn_s(u: int) -> int {
    cos_turn_s(u - QUARTER as int)
}

/// Executable form of `cos_q_s`.
fn cos_q(x: i64) -> (r: i64)
    requires
        0 <= x <= QUARTER,
    ensures
        r as int == cos_q_s(x as int),
{
    let th = fx_mul(x, TWO_PI);
    let t2 = fx_mul(th, th);
    let t4 = fx_mul(t2, t2);
    let t6 = fx_mul(t4, t2);
    fx_sub(fx_add(fx_sub(SCALE, fx_div(t2, 2 * SCALE)), fx_div(t4, 24 * SCALE)), fx_div(t6, 720 * SCALE))
}

/// Cosine of `u` turns, for `|u|` up to two turns.
pub fn cos_turn(u: i64) -> (r: i64)
    requires
        -2 * SCALE <= u <= 2 * SCALE,
    ensures
        r as int == cos_turn_s(u as int),
{
    let v0: i64 = if u < 0 {
        -u
    } else {
        u
    };
    let v: i64 = if v0 > SCALE {
        v0 - SCALE
    } else {
        v0
    };
    if v <= QUARTER {
        cos_q(v)
    } else if v <= 2 * QUARTER {
        fx_neg(cos_q(2 * QUARTER - v))
    } else if v <= 3 * QUARTER {
        fx_neg(cos_q(v - 2 * QUARTER))
    } else {
        cos_q(SCALE - v)
    }
}

/// Sine of `u` turns, for `|u|` up to one turn.
pub fn sin_turn(u: i64) -> (r: i64)
    requires
        -SCALE <= u <= SCALE,
    ensures
        r as int == sin_turn_s(u as int),
{
    cos_turn(u - QUARTER)
}

/// Arctangent of a ratio `q` in `[0, 1]`, in turns: the quadratic-corrected
/// approximation `atan(q) = (pi/4) q + q (1 - q)(0.2447 + 0.0663 q)`
/// radians, folded to turn units (its error stays below a thousandth of a
/// quarter turn, and both endpoints are exact).
pub open spec fn atan_q_s(q: int) -> int {
    fx_add_s(
        fx_mul_s(q, QUARTER as int / 2),
        fx_mul_s(fx_mul_s(q, fx_sub_s(SCALE as int, q)), fx_add_s(2552, fx_mul_s(692, q))),
    )
}

/// The full-plane arctangent `atan2(y, x)`, in turns on `[-1/2, 1/2]`:
/// octant reduction onto `atan_q_s`, with `atan2(0, 0) == 0`.
pub open spec fn atan2_turn_s(y: int, x: int) -> int {
    let ay = if y < 0 {
        -y
    } else {
        y
    };
    let ax = if x < 0 {
        -x
    } else {
        x
    };
    let base = if ax >= ay {
        atan_q_s(fx_div_s(ay, ax))
    } else {
        (QUARTER as int) - atan_q_s(fx_div_s(ax, ay))
    };
    let half = if x >= 0 {
        base
    } else {
        2 * (QUARTER as int) - base
    };
    if y >= 0 {
        half
    } else {
        -half
    }
}

/// Arccosine of `y` in `[-1, 1]` as a fraction of half a turn on `[0, 1]`:
/// `acos(y) / pi`, via `asin(y) = atan2(y, sqrt(1 - y^2))` and
/// `acos = pi/2 - asin`. Arguments beyond the unit interval clamp to the
/// endpoints.
pub open spec fn acos_half_s(y: int) -> int {
    let c = fx_sqrt_s(fx_sub_s(SCALE as int, fx_mul_s(y, y)));
    2 * ((QUARTER as int) - atan2_turn_s(y, c))
}

/// The first-octant arctangent stays on the first octant.
proof fn lemma_atan_q_range(q: int)
    requires
        0 <= q <= SCALE,
    ensures
        0 <= atan_q_s(q) <= QUARTER,
{
    let s = SCALE as int;
    crate::fx::lemma_tdiv_monotone(0, q * 8192, s);
    crate::fx::lemma_tdiv_monotone(q * 8192, 0x20000000, s);
    assert(0 <= q * 8192 <= 0x20000000) by (nonlinear_arith)
        requires
            0 <= q <= 65536,
    ;
    crate::fx::lemma_tdiv_monotone(0, 692 * q, s);
    crate::fx::lemma_tdiv_monotone(692 * q, 692int * 65536, s);
    assert(0 <= 692 * q <= 692 * 65536) by (nonlinear_arith)
        requires
            0 <= q <= 65536,
    ;
    let a = crate::fx::fx_mul_s(q, crate::fx::fx_sub_s(s, q));
    let prod = q * crate::fx::fx_sub_s(s, q);
    assert(0 <= prod <= 0x100000000) by (nonlinear_arith)
        requires
            0 <= q <= 65536,
            prod == q * crate::fx::fx_sub_s(s, q),
            0 <= crate::fx::fx_sub_s(s, q) <= 65536,
    ;
    crate::fx::lemma_tdiv_monotone(0, prod, s);
    crate::fx::lemma_tdiv_monotone(prod, 0x100000000, s);
    let b = crate::fx::fx_add_s(2552, crate::fx::fx_mul_s(692, q));
    let prod2 = a * b;
    assert(0 <= prod2 <= 65536 * 3244) by (nonlinear_arith)
        requires
            0 <= a <= 65536,
            2552 <= b <= 3244,
            prod2 == a * b,
    ;
    crate::fx::lemma_tdiv_monotone(0, prod2, s);
    crate::fx::lemma_tdiv_monotone(prod2, 65536int * 3244, s);
}

/// Executable form of `atan_q_s`.
fn atan_q(q: i64) -> (r: i64)
    requires
        0 <= q <= SCALE,
    ensures
        r as int == atan_q_s(q as int),
        0 <= r <= QUARTER,
{
    proof {
        lemma_atan_q_range(q as int);
    }
    fx_add(
        fx_mul(q, QUARTER / 2),
        fx_mul(fx_mul(q, fx_sub(SCALE, q)), fx_add(2552, fx_mul(692, q))),
    )
}

/// The full-plane arctangent, in turns.
pub fn atan2_turn(y: i64, x: i64) -> (r: i64)
    requires
        y > i64::MIN,
        x > i64::MIN,
    ensures
        r as int == atan2_turn_s(y as int, x as int),
        -2 * QUARTER <= r <= 2 * QUARTER,
        x >= 0 ==> -QUARTER <= r <= QUARTER,
{
    let ay: i64 = if y < 0 {
        -y
    } else {
        y
    };
    let ax: i64 = if x < 0 {
        -x
    } else {
        x
    };
    let base: i64 = if ax >= ay {
        let q = fx_div(ay, ax);
        proof {
            lemma_ratio_unit(ay as int, ax as int);
        }
        atan_q(q)
    } else {
        let q = fx_div(ax, ay);
        proof {
            lemma_ratio_unit(ax as int, ay as int);
        }
        QUARTER - atan_q(q)
    };
    let half: i64 = if x >= 0 {
        base
    } else {
        2 * QUARTER - base
    };
    if y >= 0 {
        half
    } else {
        -half
    }
}

/// Arccosine as a fraction of half a turn.
pub fn acos_half(y: i64) -> (r: i64)
    requires
        y > i64::MIN,
    ensures
        r as int == acos_half_s(y as int),
        0 <= r <= SCALE,
{
    let c = crate::fx::fx_sqrt(fx_sub(SCALE, fx_mul(y, y)));
    proof {
        let m = fx_sub_s(SCALE as int, fx_mul_s(y as int, y as int));
        if m > 0 {
            crate::fx::lemma_isqrt_s(m * SCALE as int);
        }
    }
    2 * (QUARTER - atan2_turn(y, c))
}

/// The quotient of a smaller nonnegative magnitude by a larger one stays on
/// the unit interval.
proof fn lemma_ratio_unit(p: int, q: int)
    requires
        0 <= p <= q,
    ensures
        0 <= crate::fx::fx_div_s(p, q) <= SCALE,
{
    if q > 0 {
        vstd::arithmetic::div_mod::lemma_div_pos_is_pos(p * SCALE, q);
        vstd::arithmetic::div_mod::lemma_div_is_ordered(p * (SCALE as int), q * (SCALE as int), q);
        assert(p * (SCALE as int) <= q * (SCALE as int)) by (nonlinear_arith)
            requires
                p <= q,
        ;
        vstd::arithmetic::div_mod::lemma_div_multiples_vanish(SCALE as int, q);
        assert(q * (SCALE as int) == (SCALE as int) * q) by (nonlinear_arith);
    }
}

} // verus!
