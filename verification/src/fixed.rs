//! Fixed-point scalars with six decimal places.
//!
//! A scalar is an `i64` that counts millionths: [`ONE`] stands for 1, and
//! durations are therefore microseconds. Sums saturate at the ends of `i64`,
//! products and quotients round toward negative infinity and saturate, and a
//! quotient by zero saturates by the sign of the numerator.

use vstd::prelude::*;
use vstd::arithmetic::div_mod::lemma_fundamental_div_mod;
use vstd::arithmetic::div_mod::lemma_fundamental_div_mod_converse;

verus! {

/// The raw value that stands for 1.
pub const ONE: i64 = 1_000_000;

/// The raw value that stands for one half.
pub const HALF: i64 = 500_000;

/// The nearest `i64` to `x`.
pub open spec fn clamp(x: int) -> i64 {
    if x < i64::MIN {
        i64::MIN
    } else if x > i64::MAX {
        i64::MAX
    } else {
        x as i64
    }
}

/// `u` is a fraction of one: it lies in `[0, 1)`.
pub open spec fn is_fraction(u: i64) -> bool {
    0 <= u < ONE
}

/// `n / d` rounded toward negative infinity, for either sign of `d`.
pub open spec fn floor_div(n: int, d: int) -> int {
    if d > 0 {
        n / d
    } else {
        (-n) / (-d)
    }
}

pub open spec fn sat_add_spec(a: i64, b: i64) -> i64 {
    clamp(a + b)
}

pub open spec fn sat_sub_spec(a: i64, b: i64) -> i64 {
    clamp(a - b)
}

pub open spec fn sat_neg_spec(a: i64) -> i64 {
    clamp(-a)
}

/// The product of two scalars, `a * b / ONE`.
pub open spec fn fx_mul_spec(a: i64, b: i64) -> i64 {
    clamp((a * b) / (ONE as int))
}

/// The quotient of two scalars, `a * ONE / b`.
pub open spec fn fx_div_spec(a: i64, b: i64) -> i64 {
    if b == 0 {
        if a > 0 {
            i64::MAX
        } else if a < 0 {
            i64::MIN
        } else {
            0
        }
    } else {
        clamp(floor_div(a * ONE, b as int))
    }
}

/// Half of a scalar.
pub open spec fn half_spec(a: i64) -> i64 {
    clamp(a / 2)
}

/// The point at fraction `f` of the way from `a` to `b`: `a + (b - a) * f`.
pub open spec fn lerp_spec(a: i64, b: i64, f: i64) -> i64 {
    clamp(a + ((b - a) * f) / (ONE as int))
}

/// `x` held between `lo` and `hi`.
pub open spec fn clamp_between_spec(x: i64, lo: i64, hi: i64) -> i64 {
    if x < lo {
        lo
    } else if x > hi {
        hi
    } else {
        x
    }
}

/// `r` is the integer square root of `n`.
pub open spec fn is_isqrt(n: int, r: int) -> bool {
    r >= 0 && r * r <= n < (r + 1) * (r + 1)
}

/// The integer square root: the largest `r` whose square does not exceed `n`.
pub open spec fn isqrt_spec(n: int) -> int {
    choose|r: int| is_isqrt(n, r)
}

/// Two integer square roots of one number are equal.
pub proof fn lemma_isqrt_unique(n: int, r: int, s: int)
    requires
        is_isqrt(n, r),
        is_isqrt(n, s),
    ensures
        r == s,
{
    if r < s {
        assert((r + 1) * (r + 1) <= s * s) by (nonlinear_arith)
            requires
                0 <= r,
                r + 1 <= s,
        ;
    } else if s < r {
        assert((s + 1) * (s + 1) <= r * r) by (nonlinear_arith)
            requires
                0 <= s,
                s + 1 <= r,
        ;
    }
}

/// Every natural number has an integer square root.
pub proof fn lemma_isqrt_exists(n: int)
    requires
        n >= 0,
    ensures
        is_isqrt(n, isqrt_spec(n)),
    decreases n,
{
    if n == 0 {
        assert(is_isqrt(0, 0));
    } else {
        lemma_isqrt_exists(n - 1);
        let r = isqrt_spec(n - 1);
        if (r + 1) * (r + 1) <= n {
            assert((r + 2) * (r + 2) > n) by (nonlinear_arith)
                requires
                    r >= 0,
                    n - 1 < (r + 1) * (r + 1),
            ;
            assert(is_isqrt(n, r + 1));
        } else {
            assert(is_isqrt(n, r));
        }
    }
}

/// A number with the two defining bounds is the integer square root.
pub proof fn lemma_isqrt_is(n: int, r: int)
    requires
        is_isqrt(n, r),
    ensures
        isqrt_spec(n) == r,
{
    lemma_isqrt_unique(n, r, isqrt_spec(n));
}

/// `n / d` rounded toward negative infinity, for a positive `d`.
pub(crate) fn floor_div_wide(n: i128, d: i128) -> (q: i128)
    requires
        d > 0,
    ensures
        q == n / d,
{
    if n >= 0 {
        let q: u128 = (n as u128) / (d as u128);
        q as i128
    } else {
        let m: u128 = (-(n + 1)) as u128;
        let q: u128 = m / (d as u128);
        let r: u128 = m % (d as u128);
        proof {
            lemma_fundamental_div_mod(m as int, d as int);
            assert((-(q as int) - 1) * d == -(d * (q as int)) - d) by (nonlinear_arith);
            lemma_fundamental_div_mod_converse(n as int, d as int, -(q as int) - 1, d - 1 - r);
        }
        -(q as i128) - 1
    }
}

/// The nearest `i64` to `x`.
fn clamp_wide(x: i128) -> (r: i64)
    ensures
        r == clamp(x as int),
{
    if x < i64::MIN as i128 {
        i64::MIN
    } else if x > i64::MAX as i128 {
        i64::MAX
    } else {
        x as i64
    }
}

/// The sum of two scalars, saturating.
pub fn sat_add(a: i64, b: i64) -> (r: i64)
    ensures
        r == sat_add_spec(a, b),
{
    clamp_wide(a as i128 + b as i128)
}

/// The difference of two scalars, saturating.
pub fn sat_sub(a: i64, b: i64) -> (r: i64)
    ensures
        r == sat_sub_spec(a, b),
{
    clamp_wide(a as i128 - b as i128)
}

/// The negation of a scalar, saturating.
pub fn sat_neg(a: i64) -> (r: i64)
    ensures
        r == sat_neg_spec(a),
{
    clamp_wide(-(a as i128))
}

/// The product of two scalars, rounded down and saturating.
pub fn fx_mul(a: i64, b: i64) -> (r: i64)
    ensures
        r == fx_mul_spec(a, b),
{
    assert(-0x4000_0000_0000_0000_0000_0000_0000_0000 <= a * b
        <= 0x4000_0000_0000_0000_0000_0000_0000_0000) by (nonlinear_arith)
        requires
            -0x8000_0000_0000_0000 <= a <= 0x8000_0000_0000_0000,
            -0x8000_0000_0000_0000 <= b <= 0x8000_0000_0000_0000,
    ;
    let p: i128 = (a as i128) * (b as i128);
    clamp_wide(floor_div_wide(p, ONE as i128))
}

/// The quotient of two scalars, rounded down and saturating; a quotient by
/// zero saturates by the sign of `a`.
pub fn fx_div(a: i64, b: i64) -> (r: i64)
    ensures
        r == fx_div_spec(a, b),
{
    if b == 0 {
        if a > 0 {
            i64::MAX
        } else if a < 0 {
            i64::MIN
        } else {
            0
        }
    } else {
        assert(-0x10_0000_0000_0000_0000_0000 <= a * ONE <= 0x10_0000_0000_0000_0000_0000)
            by (nonlinear_arith)
            requires
                -0x8000_0000_0000_0000 <= a <= 0x8000_0000_0000_0000,
                ONE == 1_000_000,
        ;
        let n: i128 = (a as i128) * (ONE as i128);
        if b > 0 {
            clamp_wide(floor_div_wide(n, b as i128))
        } else {
            clamp_wide(floor_div_wide(-n, -(b as i128)))
        }
    }
}

/// Half of a scalar, rounded down.
pub fn half(a: i64) -> (r: i64)
    ensures
        r == half_spec(a),
{
    clamp_wide(floor_div_wide(a as i128, 2))
}

/// Linear interpolation from `a` to `b` at fraction `f`, saturating.
pub fn lerp(a: i64, b: i64, f: i64) -> (r: i64)
    ensures
        r == lerp_spec(a, b, f),
{
    let d: i128 = b as i128 - a as i128;
    assert(-0x7fff_ffff_ffff_ffff_ffff_ffff_ffff_ffff <= d * f
        <= 0x7fff_ffff_ffff_ffff_ffff_ffff_ffff_ffff) by (nonlinear_arith)
        requires
            -0xffff_ffff_ffff_ffff <= d <= 0xffff_ffff_ffff_ffff,
            -0x8000_0000_0000_0000 <= f <= 0x8000_0000_0000_0000,
    ;
    let p: i128 = d * (f as i128);
    let q: i128 = floor_div_wide(p, ONE as i128);
    clamp_wide(a as i128 + q)
}

/// `x` held between `lo` and `hi`.
pub fn clamp_between(x: i64, lo: i64, hi: i64) -> (r: i64)
    ensures
        r == clamp_between_spec(x, lo, hi),
{
    if x < lo {
        lo
    } else if x > hi {
        hi
    } else {
        x
    }
}

/// The size of a scalar without its sign.
pub fn magnitude(a: i64) -> (r: u64)
    ensures
        r == if a >= 0 { a as int } else { -(a as int) },
{
    if a >= 0 {
        a as u64
    } else {
        (-(a as i128)) as u64
    }
}

/// The integer square root of `n`, by bisection.
pub fn isqrt(n: u128) -> (r: u64)
    ensures
        is_isqrt(n as int, r as int),
        r == isqrt_spec(n as int),
{
    let mut lo: u128 = 0;
    let mut hi: u128 = 0x1_0000_0000_0000_0000;
    assert(hi * hi > n) by (nonlinear_arith)
        requires
            hi == 0x1_0000_0000_0000_0000,
            n <= 0xffff_ffff_ffff_ffff_ffff_ffff_ffff_ffff,
    ;
    while hi - lo > 1
        invariant
            lo < hi <= 0x1_0000_0000_0000_0000,
            lo * lo <= n < hi * hi,
        decreases hi - lo,
    {
        let mid: u128 = lo + (hi - lo) / 2;
        assert(mid * mid <= 0xffff_ffff_ffff_ffff_ffff_ffff_ffff_ffff) by (nonlinear_arith)
            requires
                mid <= 0xffff_ffff_ffff_ffff,
        ;
        if mid * mid <= n {
            lo = mid;
        } else {
            hi = mid;
        }
    }
    proof {
        lemma_isqrt_is(n as int, lo as int);
    }
    lo as u64
}

/// Within the unit interval an interpolation never saturates, and stays
/// between its two ends.
pub proof fn lemma_lerp_within(a: i64, b: i64, f: i64)
    requires
        0 <= f <= ONE,
    ensures
        lerp_spec(a, b, f) == a + ((b - a) * f) / (ONE as int),
        a <= b ==> a <= lerp_spec(a, b, f) <= b,
        b <= a ==> b <= lerp_spec(a, b, f) <= a,
{
    let d: int = b - a;
    let q: int = (d * f) / (ONE as int);
    lemma_fundamental_div_mod(d * f, ONE as int);
    if d >= 0 {
        assert(0 <= q <= d) by (nonlinear_arith)
            requires
                d >= 0,
                0 <= f <= 1_000_000,
                d * f == 1_000_000 * q + (d * f) % 1_000_000,
                0 <= (d * f) % 1_000_000 < 1_000_000,
        ;
    } else {
        assert(d <= q <= 0) by (nonlinear_arith)
            requires
                d < 0,
                0 <= f <= 1_000_000,
                d * f == 1_000_000 * q + (d * f) % 1_000_000,
                0 <= (d * f) % 1_000_000 < 1_000_000,
        ;
    }
}

/// An interpolation starts at its first end.
pub proof fn lemma_lerp_start(a: i64, b: i64)
    ensures
        lerp_spec(a, b, 0) == a,
{
    assert((b - a) * 0 == 0) by (nonlinear_arith);
}

/// An interpolation ends at its second end.
pub proof fn lemma_lerp_end(a: i64, b: i64)
    ensures
        lerp_spec(a, b, ONE) == b,
{
    let d: int = b - a;
    lemma_fundamental_div_mod_converse(d * ONE, ONE as int, d, 0);
}

/// Between two equal ends an interpolation is constant, whatever the fraction.
pub proof fn lemma_lerp_constant(a: i64, f: i64)
    ensures
        lerp_spec(a, a, f) == a,
{
    assert((a - a) * f == 0) by (nonlinear_arith);
}

/// Short of the full fraction an interpolation stays short of a larger second
/// end: the interval it samples is half-open.
pub proof fn lemma_lerp_below_end(a: i64, b: i64, f: i64)
    requires
        0 <= f < ONE,
        a < b,
    ensures
        a <= lerp_spec(a, b, f) < b,
{
    lemma_lerp_within(a, b, f);
    let d: int = b - a;
    let q: int = (d * f) / (ONE as int);
    lemma_fundamental_div_mod(d * f, ONE as int);
    assert(q < d) by (nonlinear_arith)
        requires
            d > 0,
            0 <= f < 1_000_000,
            d * f == 1_000_000 * q + (d * f) % 1_000_000,
            0 <= (d * f) % 1_000_000 < 1_000_000,
    ;
}

/// One is the unit of the product and of the quotient, and zero annihilates
/// the product.
pub proof fn lemma_unit_and_zero(a: i64)
    ensures
        fx_mul_spec(a, ONE) == a,
        fx_mul_spec(ONE, a) == a,
        fx_mul_spec(a, 0) == 0,
        fx_mul_spec(0, a) == 0,
        fx_div_spec(a, ONE) == a,
{
    lemma_fundamental_div_mod_converse(a * ONE, ONE as int, a as int, 0);
    assert(ONE * a == a * ONE) by (nonlinear_arith);
    assert(a * 0 == 0 && 0 * a == 0) by (nonlinear_arith);
    lemma_fundamental_div_mod_converse(0, ONE as int, 0, 0);
}

/// A product with a factor of at most one is no larger than the other
/// factor.
pub proof fn lemma_mul_shrinks(a: i64, factor: i64)
    requires
        -ONE <= factor <= ONE,
    ensures
        a >= 0 ==> -a <= fx_mul_spec(a, factor) <= a,
        a <= 0 ==> a <= fx_mul_spec(a, factor) <= -a,
{
    let q = (a * factor) / (ONE as int);
    lemma_fundamental_div_mod(a * factor, ONE as int);
    if a >= 0 {
        assert(-a <= q <= a) by (nonlinear_arith)
            requires
                a >= 0,
                -1_000_000 <= factor <= 1_000_000,
                a * factor == 1_000_000 * q + (a * factor) % 1_000_000,
                0 <= (a * factor) % 1_000_000 < 1_000_000,
        ;
    } else {
        assert(a <= q <= -a) by (nonlinear_arith)
            requires
                a < 0,
                -1_000_000 <= factor <= 1_000_000,
                a * factor == 1_000_000 * q + (a * factor) % 1_000_000,
                0 <= (a * factor) % 1_000_000 < 1_000_000,
        ;
    }
}

} // verus!
