//! Fixed-point scalar arithmetic.
//!
//! A scalar is an `i64` counted in units of `1 / SCALE`: the integer `v`
//! stands for the real number `v / 65536`. Multiplication and division
//! truncate (round toward zero) and results outside the `i64` range
//! saturate, so every operation is total and its contract gives the exact
//! result — renders are reproducible bit for bit on any machine.

use vstd::prelude::*;

verus! {

/// Number of integer units per 1.0 of a fixed-point scalar.
pub const SCALE: i64 = 65536;

/// Truncated (round-toward-zero) division of `p` by `q`: the quotient of the
/// magnitudes, carrying the sign of the exact quotient.
pub open spec fn tdiv(p: int, q: int) -> int
    recommends
        q != 0,
{
    let m = (vstd::math::abs(p) / vstd::math::abs(q)) as int;
    if (p >= 0) == (q >= 0) {
        m
    } else {
        -m
    }
}

/// Clamp a mathematical integer into the `i64` range.
pub open spec fn sat64(v: int) -> int {
    if v > i64::MAX as int {
        i64::MAX as int
    } else if v < i64::MIN as int {
        i64::MIN as int
    } else {
        v
    }
}

/// Saturating sum of two scalars.
pub open spec fn fx_add_s(a: int, b: int) -> int {
    sat64(a + b)
}

/// Saturating difference of two scalars.
pub open spec fn fx_sub_s(a: int, b: int) -> int {
    sat64(a - b)
}

/// Saturating negation of a scalar.
pub open spec fn fx_neg_s(a: int) -> int {
    sat64(-a)
}

/// Fixed-point product: the exact product rescaled by `SCALE`, truncated,
/// then saturated.
pub open spec fn fx_mul_s(a: int, b: int) -> int {
    sat64(tdiv(a * b, SCALE as int))
}

/// Fixed-point quotient. Division by zero saturates toward the sign of the
/// dividend (the analogue of an infinite quotient), with `0 / 0 == 0`.
pub open spec fn fx_div_s(a: int, b: int) -> int {
    if b == 0 {
        if a > 0 {
            i64::MAX as int
        } else if a < 0 {
            i64::MIN as int
        } else {
            0
        }
    } else {
        sat64(tdiv(a * SCALE, b))
    }
}

/// `r` is the integer square root of `n`.
pub open spec fn is_isqrt(n: int, r: int) -> bool {
    r >= 0 && r * r <= n && n < (r + 1) * (r + 1)
}

/// The integer square root, as a function. `lemma_isqrt_s` shows that it
/// meets `is_isqrt` for every nonnegative argument.
pub open spec fn isqrt_s(n: int) -> int {
    choose|r: int| #[trigger] is_isqrt(n, r)
}

/// Fixed-point square root: zero on every nonpositive argument.
pub open spec fn fx_sqrt_s(x: int) -> int {
    if x <= 0 {
        0
    } else {
        isqrt_s(x * SCALE)
    }
}

/// `r` is the integer cube root of `n`.
pub open spec fn is_icbrt(n: int, r: int) -> bool {
    r >= 0 && r * r * r <= n && n < (r + 1) * (r + 1) * (r + 1)
}

/// The integer cube root, as a function; `lemma_icbrt_s` shows that it meets
/// `is_icbrt` for every nonnegative argument.
pub open spec fn icbrt_s(n: int) -> int {
    choose|r: int| #[trigger] is_icbrt(n, r)
}

/// Fixed-point cube root: zero on every nonpositive argument.
pub open spec fn fx_cbrt_s(x: int) -> int {
    if x <= 0 {
        0
    } else {
        icbrt_s(x * SCALE * SCALE)
    }
}

pub proof fn lemma_icbrt_exists(n: nat)
    ensures
        exists|r: int| is_icbrt(n as int, r),
    decreases n,
{
    if n == 0 {
        assert(is_icbrt(0, 0));
    } else {
        lemma_icbrt_exists((n - 1) as nat);
        let r = choose|r: int| #[trigger] is_icbrt(n - 1, r);
        if n < (r + 1) * (r + 1) * (r + 1) {
            assert(is_icbrt(n as int, r));
        } else {
            assert(is_icbrt(n as int, r + 1)) by (nonlinear_arith)
                requires
                    r >= 0,
                    (r + 1) * (r + 1) * (r + 1) <= n,
                    n - 1 < (r + 1) * (r + 1) * (r + 1),
            ;
        }
    }
}

pub proof fn lemma_icbrt_unique(n: int, r1: int, r2: int)
    requires
        is_icbrt(n, r1),
        is_icbrt(n, r2),
    ensures
        r1 == r2,
{
    assert(r1 == r2) by (nonlinear_arith)
        requires
            r1 >= 0 && r1 * r1 * r1 <= n && n < (r1 + 1) * (r1 + 1) * (r1 + 1),
            r2 >= 0 && r2 * r2 * r2 <= n && n < (r2 + 1) * (r2 + 1) * (r2 + 1),
    ;
}

/// `icbrt_s` is the integer cube root of every nonnegative argument.
pub proof fn lemma_icbrt_s(n: int)
    requires
        n >= 0,
    ensures
        is_icbrt(n, icbrt_s(n)),
{
    lemma_icbrt_exists(n as nat);
}

pub proof fn lemma_isqrt_exists(n: nat)
    ensures
        exists|r: int| is_isqrt(n as int, r),
    decreases n,
{
    if n == 0 {
        assert(is_isqrt(0, 0));
    } else {
        lemma_isqrt_exists((n - 1) as nat);
        let r = choose|r: int| #[trigger] is_isqrt(n - 1, r);
        if n < (r + 1) * (r + 1) {
            assert(is_isqrt(n as int, r));
        } else {
            assert((r + 1) * (r + 1) <= n);
            assert(n - 1 < (r + 1) * (r + 1));
            assert(is_isqrt(n as int, r + 1)) by (nonlinear_arith)
                requires
                    r >= 0,
                    (r + 1) * (r + 1) <= n,
                    n - 1 < (r + 1) * (r + 1),
            ;
        }
    }
}

pub proof fn lemma_isqrt_unique(n: int, r1: int, r2: int)
    requires
        is_isqrt(n, r1),
        is_isqrt(n, r2),
    ensures
        r1 == r2,
{
    assert(r1 == r2) by (nonlinear_arith)
        requires
            r1 >= 0 && r1 * r1 <= n && n < (r1 + 1) * (r1 + 1),
            r2 >= 0 && r2 * r2 <= n && n < (r2 + 1) * (r2 + 1),
    ;
}

/// `isqrt_s` is the integer square root of every nonnegative argument.
pub proof fn lemma_isqrt_s(n: int)
    requires
        n >= 0,
    ensures
        is_isqrt(n, isqrt_s(n)),
{
    lemma_isqrt_exists(n as nat);
}

/// A product of bounded factors is bounded by the product of the bounds.
pub proof fn lemma_abs_mul_bound(a: int, b: int, am: int, bm: int)
    requires
        -am <= a <= am,
        -bm <= b <= bm,
    ensures
        -(am * bm) <= a * b <= am * bm,
{
    assert(-(am * bm) <= a * b <= am * bm) by (nonlinear_arith)
        requires
            -am <= a <= am,
            -bm <= b <= bm,
    ;
}

/// Truncated division by a positive divisor is monotone in the dividend.
pub proof fn lemma_tdiv_monotone(p1: int, p2: int, q: int)
    requires
        p1 <= p2,
        q > 0,
    ensures
        tdiv(p1, q) <= tdiv(p2, q),
{
    if p1 >= 0 {
        vstd::arithmetic::div_mod::lemma_div_is_ordered(p1, p2, q);
    } else if p2 < 0 {
        vstd::arithmetic::div_mod::lemma_div_is_ordered(-p2, -p1, q);
    } else {
        vstd::arithmetic::div_mod::lemma_div_pos_is_pos(-p1, q);
        vstd::arithmetic::div_mod::lemma_div_pos_is_pos(p2, q);
    }
}

/// Truncated division loses less than one divisor's worth:
/// `q * tdiv(p, q)` lies within `q - 1` of `p`, on the zero side.
pub proof fn lemma_tdiv_error(p: int, q: int)
    requires
        q > 0,
    ensures
        p - (q - 1) <= q * tdiv(p, q) <= p + (q - 1),
{
    if p >= 0 {
        vstd::arithmetic::div_mod::lemma_fundamental_div_mod(p, q);
        vstd::arithmetic::div_mod::lemma_mod_bound(p, q);
        assert(q * tdiv(p, q) == p - p % q);
    } else {
        vstd::arithmetic::div_mod::lemma_fundamental_div_mod(-p, q);
        vstd::arithmetic::div_mod::lemma_mod_bound(-p, q);
        assert(q * ((-p) / q) == -p - (-p) % q);
        assert(q * tdiv(p, q) == -(q * ((-p) / q))) by (nonlinear_arith)
            requires
                p < 0,
                q > 0,
                tdiv(p, q) == -((-p) / q),
        ;
    }
}

/// Saturation to the `i64` range is monotone.
pub proof fn lemma_sat64_monotone(v1: int, v2: int)
    requires
        v1 <= v2,
    ensures
        sat64(v1) <= sat64(v2),
{
}

/// Multiplying by the fixed-point one is exact.
pub proof fn lemma_fx_mul_one(c: int)
    requires
        i64::MIN <= c <= i64::MAX,
    ensures
        fx_mul_s(SCALE as int, c) == c,
{
    if c >= 0 {
        assert(65536 * c >= 0) by (nonlinear_arith)
            requires
                c >= 0,
        ;
        vstd::arithmetic::div_mod::lemma_div_multiples_vanish(c, 65536);
    } else {
        assert(65536 * c < 0 && vstd::math::abs(65536 * c) == 65536 * (-c)) by (nonlinear_arith)
            requires
                c < 0,
        ;
        vstd::arithmetic::div_mod::lemma_div_multiples_vanish(-c, 65536);
    }
}

/// Clamp an `i128` intermediate into the `i64` range.
pub fn sat_i128(v: i128) -> (r: i64)
    ensures
        r as int == sat64(v as int),
{
    if v > i64::MAX as i128 {
        i64::MAX
    } else if v < i64::MIN as i128 {
        i64::MIN
    } else {
        v as i64
    }
}

/// Saturating scalar sum.
pub fn fx_add(a: i64, b: i64) -> (r: i64)
    ensures
        r as int == fx_add_s(a as int, b as int),
{
    sat_i128(a as i128 + b as i128)
}

/// Saturating scalar difference.
pub fn fx_sub(a: i64, b: i64) -> (r: i64)
    ensures
        r as int == fx_sub_s(a as int, b as int),
{
    sat_i128(a as i128 - b as i128)
}

/// Saturating scalar negation.
pub fn fx_neg(a: i64) -> (r: i64)
    ensures
        r as int == fx_neg_s(a as int),
{
    sat_i128(-(a as i128))
}

/// Truncated division on `i128`, computed over magnitudes.
pub fn div_trunc(p: i128, q: i128) -> (r: i128)
    requires
        q != 0,
        p > i128::MIN,
        q > i128::MIN,
    ensures
        r as int == tdiv(p as int, q as int),
{
    let pm: u128 = if p >= 0 {
        p as u128
    } else {
        (-p) as u128
    };
    let qm: u128 = if q >= 0 {
        q as u128
    } else {
        (-q) as u128
    };
    let m: u128 = pm / qm;
    proof {
        vstd::arithmetic::div_mod::lemma_div_nonincreasing(pm as int, qm as int);
    }
    if (p >= 0) == (q >= 0) {
        m as i128
    } else {
        -(m as i128)
    }
}

/// Fixed-point product.
pub fn fx_mul(a: i64, b: i64) -> (r: i64)
    ensures
        r as int == fx_mul_s(a as int, b as int),
{
    proof {
        lemma_abs_mul_bound(a as int, b as int, 0x8000000000000000, 0x8000000000000000);
    }
    sat_i128(div_trunc(a as i128 * b as i128, 65536i128))
}

/// Fixed-point quotient; total, see `fx_div_s`.
pub fn fx_div(a: i64, b: i64) -> (r: i64)
    ensures
        r as int == fx_div_s(a as int, b as int),
{
    if b == 0 {
        if a > 0 {
            i64::MAX
        } else if a < 0 {
            i64::MIN
        } else {
            0
        }
    } else {
        sat_i128(div_trunc(a as i128 * 65536i128, b as i128))
    }
}

/// Integer square root by bisection.
pub fn isqrt_u128(n: u128) -> (r: u128)
    ensures
        is_isqrt(n as int, r as int),
        r as int == isqrt_s(n as int),
{
    let mut lo: u128 = 0;
    let mut hi: u128 = 0x10000000000000000u128;
    assert(hi * hi > n) by (nonlinear_arith)
        requires
            hi == 0x10000000000000000u128,
            n <= u128::MAX,
    ;
    while hi - lo > 1
        invariant
            lo < hi,
            hi <= 0x10000000000000000u128,
            lo * lo <= n,
            n < hi * hi,
        decreases hi - lo,
    {
        let mid = lo + (hi - lo) / 2;
        assert(mid * mid <= u128::MAX) by (nonlinear_arith)
            requires
                mid < 0x10000000000000000u128,
        ;
        if mid * mid <= n {
            lo = mid;
        } else {
            hi = mid;
        }
    }
    proof {
        assert(is_isqrt(n as int, lo as int));
        lemma_isqrt_s(n as int);
        lemma_isqrt_unique(n as int, lo as int, isqrt_s(n as int));
    }
    lo
}

/// Integer cube root by bisection, for arguments below `2^96`.
pub fn icbrt_u128(n: u128) -> (r: u128)
    requires
        n < 0x1000000000000000000000000u128,
    ensures
        is_icbrt(n as int, r as int),
        r as int == icbrt_s(n as int),
{
    let mut lo: u128 = 0;
    let mut hi: u128 = 0x100000000u128;
    assert(hi * hi * hi > n) by (nonlinear_arith)
        requires
            hi == 0x100000000u128,
            n < 0x1000000000000000000000000u128,
    ;
    while hi - lo > 1
        invariant
            lo < hi,
            hi <= 0x100000000u128,
            lo * lo * lo <= n,
            n < hi * hi * hi,
        decreases hi - lo,
    {
        let mid = lo + (hi - lo) / 2;
        assert(mid * mid <= u128::MAX && mid * mid * mid <= u128::MAX) by (nonlinear_arith)
            requires
                mid <= 0x100000000u128,
        ;
        if mid * mid * mid <= n {
            lo = mid;
        } else {
            hi = mid;
        }
    }
    proof {
        assert(is_icbrt(n as int, lo as int));
        lemma_icbrt_s(n as int);
        lemma_icbrt_unique(n as int, lo as int, icbrt_s(n as int));
    }
    lo
}

/// Fixed-point cube root; zero on every nonpositive argument.
pub fn fx_cbrt(x: i64) -> (r: i64)
    ensures
        r as int == fx_cbrt_s(x as int),
{
    if x <= 0 {
        0
    } else {
        let n: u128 = x as u128 * 65536u128 * 65536u128;
        let r = icbrt_u128(n);
        assert(r <= 0x100000000u128) by (nonlinear_arith)
            requires
                is_icbrt(n as int, r as int),
                n < 0x1000000000000000000000000u128,
        ;
        r as i64
    }
}

/// Fixed-point square root; zero on every nonpositive argument.
pub fn fx_sqrt(x: i64) -> (r: i64)
    ensures
        r as int == fx_sqrt_s(x as int),
{
    if x <= 0 {
        0
    } else {
        let n: u128 = x as u128 * 65536u128;
        let r = isqrt_u128(n);
        assert(r < 0x8000000000000000u128) by (nonlinear_arith)
            requires
                is_isqrt(n as int, r as int),
                n < 0x80000000000000000000u128,
        ;
        r as i64
    }
}

} // verus!
