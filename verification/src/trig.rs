//! Sine, cosine and the two-argument arctangent on fixed-point radians.
//!
//! The sine is the power series of the sine up to the eleventh power, on an
//! angle folded into the first quarter turn; the arctangent is a polynomial
//! of the eleventh degree fitted to the ratios from zero to one. Within a few
//! turns of zero both are within a hundred-thousandth of the true functions.
//! A turn is itself rounded to six places, so the sine of a very large angle
//! drifts from the true one.

use vstd::prelude::*;
use vstd::arithmetic::div_mod::lemma_add_mod_noop;
use vstd::arithmetic::div_mod::lemma_fundamental_div_mod;
use vstd::arithmetic::div_mod::lemma_fundamental_div_mod_converse;
use crate::fixed::clamp_between;
use crate::fixed::clamp_between_spec;
use crate::fixed::fx_div;
use crate::fixed::fx_div_spec;
use crate::fixed::fx_mul;
use crate::fixed::fx_mul_spec;
use crate::fixed::magnitude;
use crate::fixed::sat_add;
use crate::fixed::sat_add_spec;
use crate::fixed::sat_sub;
use crate::fixed::sat_sub_spec;
use crate::fixed::ONE;

verus! {

/// Half a turn, in radians.
pub const PI: i64 = 3_141_593;

/// A quarter turn.
pub const HALF_PI: i64 = 1_570_796;

/// An eighth of a turn.
pub const QUARTER_PI: i64 = 785_398;

/// A full turn.
pub const TAU: i64 = 6_283_185;

/// The coefficients of the arctangent polynomial, by the power of the ratio
/// that each multiplies.
pub const ATAN_1: i64 = 999_996;

pub const ATAN_3: i64 = -332_989;

pub const ATAN_5: i64 = 195_589;

pub const ATAN_7: i64 = -121_109;

pub const ATAN_9: i64 = 57_331;

pub const ATAN_11: i64 = -13_422;

/// One factor of the sine series in nested form:
/// `1 - square / divisor * inner`, with `divisor` a whole number.
pub open spec fn series_factor(square: i64, divisor: i64, inner: i64) -> i64 {
    sat_sub_spec(ONE, fx_mul_spec(fx_div_spec(square, divisor), inner))
}

/// The power series of the sine up to the eleventh power, in nested form:
/// `x (1 - x^2/6 (1 - x^2/20 (1 - x^2/42 (1 - x^2/72 (1 - x^2/110)))))`.
pub open spec fn sine_series(x: i64) -> i64 {
    let square = fx_mul_spec(x, x);
    let fifth = series_factor(square, 110_000_000, ONE);
    let fourth = series_factor(square, 72_000_000, fifth);
    let third = series_factor(square, 42_000_000, fourth);
    let second = series_factor(square, 20_000_000, third);
    let first = series_factor(square, 6_000_000, second);
    fx_mul_spec(x, first)
}

/// The sine of `x` for `x` in the first half turn: the series on the angle
/// mirrored into the first quarter turn, held to `[0, 1]`.
pub open spec fn half_wave(x: i64) -> i64 {
    let folded = if x <= HALF_PI {
        x
    } else {
        sat_sub_spec(PI, x)
    };
    clamp_between_spec(sine_series(folded), 0, ONE)
}

/// The sine of any angle: the angle is reduced to one turn, and the second
/// half turn mirrors the first with the sign changed.
pub open spec fn wave(angle: int) -> i64 {
    let r = angle % (TAU as int);
    if r <= PI {
        half_wave(r as i64)
    } else {
        (-half_wave((r - PI) as i64)) as i64
    }
}

pub open spec fn sin_spec(angle: i64) -> i64 {
    wave(angle as int)
}

/// The cosine is the sine a quarter turn ahead.
pub open spec fn cos_spec(angle: i64) -> i64 {
    wave(angle + HALF_PI)
}

/// One step of the arctangent polynomial in nested form:
/// `coefficient + square * inner`.
pub open spec fn fit_step(square: i64, coefficient: i64, inner: i64) -> i64 {
    sat_add_spec(coefficient, fx_mul_spec(square, inner))
}

/// The arctangent of a ratio `z` in `[0, 1]`: an odd polynomial in `z` whose
/// six coefficients are a least-squares fit, held to `[0, pi / 4]`.
pub open spec fn atan_unit(z: i64) -> i64 {
    let square = fx_mul_spec(z, z);
    let fifth = fit_step(square, ATAN_9, ATAN_11);
    let fourth = fit_step(square, ATAN_7, fifth);
    let third = fit_step(square, ATAN_5, fourth);
    let second = fit_step(square, ATAN_3, third);
    let first = fit_step(square, ATAN_1, second);
    clamp_between_spec(fx_mul_spec(z, first), 0, QUARTER_PI)
}

/// The smaller of two magnitudes over the larger, in `[0, 1]`.
pub open spec fn ratio_spec(small: int, large: int) -> i64 {
    ((small * ONE) / large) as i64
}

/// The angle of the vector `(x, y)` from the positive x axis, in `[-pi, pi]`;
/// the angle of the zero vector is 0. The arctangent is taken of the smaller
/// over the larger of the two magnitudes, and placed by the signs.
pub open spec fn atan2_spec(y: i64, x: i64) -> i64 {
    let ax: int = if x >= 0 { x as int } else { -x };
    let ay: int = if y >= 0 { y as int } else { -y };
    if ax == 0 && ay == 0 {
        0
    } else {
        let base: int = if ay <= ax {
            atan_unit(ratio_spec(ay, ax)) as int
        } else {
            HALF_PI - atan_unit(ratio_spec(ax, ay))
        };
        if x >= 0 {
            if y >= 0 {
                base as i64
            } else {
                (-base) as i64
            }
        } else {
            if y >= 0 {
                (PI - base) as i64
            } else {
                (base - PI) as i64
            }
        }
    }
}

/// The sine and the cosine lie in `[-1, 1]`.
pub proof fn lemma_wave_bounds(angle: i64)
    ensures
        -ONE <= sin_spec(angle) <= ONE,
        -ONE <= cos_spec(angle) <= ONE,
{
}

/// The angle of a vector lies in `[-pi, pi]`.
pub proof fn lemma_atan2_bounds(y: i64, x: i64)
    ensures
        -PI <= atan2_spec(y, x) <= PI,
{
}

/// The sine of no angle is zero, and the angle of a vector along the
/// positive x axis is zero.
pub proof fn lemma_zero_angle(x: i64)
    requires
        x > 0,
    ensures
        sin_spec(0) == 0,
        atan2_spec(0, x) == 0,
{
    lemma_fundamental_div_mod_converse(0, x as int, 0, 0);
    lemma_fundamental_div_mod_converse(0, ONE as int, 0, 0);
    assert(0 * ONE == 0);
    assert(ratio_spec(0, x as int) == 0);
    assert(fx_mul_spec(0, 0) == 0);
    let first = fit_step(0, ATAN_1, fit_step(
        0,
        ATAN_3,
        fit_step(0, ATAN_5, fit_step(0, ATAN_7, fit_step(0, ATAN_9, ATAN_11))),
    ));
    assert(0 * first == 0) by (nonlinear_arith);
    let series = series_factor(0, 6_000_000, series_factor(
        0,
        20_000_000,
        series_factor(0, 42_000_000, series_factor(0, 72_000_000, series_factor(0, 110_000_000, ONE))),
    ));
    assert(0 * series == 0) by (nonlinear_arith);
}

/// At the quarter turns the sine and the cosine are exact.
pub proof fn lemma_quarter_turns()
    ensures
        sin_spec(0) == 0,
        cos_spec(0) == ONE,
        sin_spec(HALF_PI) == ONE,
        sin_spec(PI) == 0,
        cos_spec(PI) == -ONE,
{
    lemma_zero_angle(1);
    let square = fx_mul_spec(HALF_PI, HALF_PI);
    assert(square == 2_467_400);
    let fifth = series_factor(square, 110_000_000, ONE);
    assert(fifth == 977_570);
    let fourth = series_factor(square, 72_000_000, fifth);
    assert(fourth == 966_500);
    let third = series_factor(square, 42_000_000, fourth);
    assert(third == 943_222);
    let second = series_factor(square, 20_000_000, third);
    assert(second == 883_635);
    let first = series_factor(square, 6_000_000, second);
    assert(first == 636_621);
    assert(sine_series(HALF_PI) == 1_000_001);
    assert(half_wave(HALF_PI) == ONE);
    assert(half_wave(PI) == 0);
}

/// The ratio of a smaller to a larger magnitude lies in `[0, 1]`.
pub proof fn lemma_ratio_bounds(small: int, large: int)
    requires
        0 <= small <= large,
        0 < large,
    ensures
        0 <= (small * ONE) / large <= ONE,
{
    lemma_fundamental_div_mod(small * ONE, large);
    let q = (small * ONE) / large;
    assert(0 <= q <= 1_000_000) by (nonlinear_arith)
        requires
            0 <= small <= large,
            0 < large,
            small * 1_000_000 == large * q + (small * 1_000_000) % large,
            0 <= (small * 1_000_000) % large < large,
    ;
}

/// An angle reduced to one turn: in `[0, TAU)`.
fn reduce(angle: i64) -> (r: i64)
    ensures
        r == (angle as int) % (TAU as int),
        0 <= r < TAU,
{
    let size: u64 = magnitude(angle);
    let m: u64 = size % (TAU as u64);
    let ghost q: int = (size as int) / (TAU as int);
    proof {
        lemma_fundamental_div_mod(size as int, TAU as int);
    }
    if angle >= 0 {
        m as i64
    } else if m == 0 {
        proof {
            lemma_fundamental_div_mod_converse(angle as int, TAU as int, -q, 0);
        }
        0
    } else {
        proof {
            lemma_fundamental_div_mod_converse(angle as int, TAU as int, -q - 1, TAU - m);
        }
        TAU - (m as i64)
    }
}

fn series_factor_of(square: i64, divisor: i64, inner: i64) -> (r: i64)
    ensures
        r == series_factor(square, divisor, inner),
{
    sat_sub(ONE, fx_mul(fx_div(square, divisor), inner))
}

/// The sine of an angle of the first half turn.
fn half_wave_of(x: i64) -> (r: i64)
    ensures
        r == half_wave(x),
        0 <= r <= ONE,
{
    let folded: i64 = if x <= HALF_PI { x } else { sat_sub(PI, x) };
    let square: i64 = fx_mul(folded, folded);
    let fifth: i64 = series_factor_of(square, 110_000_000, ONE);
    let fourth: i64 = series_factor_of(square, 72_000_000, fifth);
    let third: i64 = series_factor_of(square, 42_000_000, fourth);
    let second: i64 = series_factor_of(square, 20_000_000, third);
    let first: i64 = series_factor_of(square, 6_000_000, second);
    clamp_between(fx_mul(folded, first), 0, ONE)
}

/// The sine of an angle already reduced to one turn.
fn wave_of(r: i64) -> (s: i64)
    requires
        0 <= r < TAU,
    ensures
        s == wave(r as int),
        -ONE <= s <= ONE,
{
    proof {
        lemma_fundamental_div_mod_converse(r as int, TAU as int, 0, r as int);
    }
    if r <= PI {
        half_wave_of(r)
    } else {
        -half_wave_of(r - PI)
    }
}

/// The sine of `angle`.
pub fn fx_sin(angle: i64) -> (s: i64)
    ensures
        s == sin_spec(angle),
        -ONE <= s <= ONE,
{
    let r: i64 = reduce(angle);
    proof {
        lemma_fundamental_div_mod_converse(r as int, TAU as int, 0, r as int);
    }
    wave_of(r)
}

/// The cosine of `angle`.
pub fn fx_cos(angle: i64) -> (c: i64)
    ensures
        c == cos_spec(angle),
        -ONE <= c <= ONE,
{
    let r: i64 = reduce(angle);
    let ahead: i64 = r + HALF_PI;
    let turned: i64 = if ahead >= TAU { ahead - TAU } else { ahead };
    proof {
        lemma_add_mod_noop(angle as int, HALF_PI as int, TAU as int);
        lemma_fundamental_div_mod_converse(HALF_PI as int, TAU as int, 0, HALF_PI as int);
        if ahead >= TAU {
            lemma_fundamental_div_mod_converse(ahead as int, TAU as int, 1, turned as int);
        } else {
            lemma_fundamental_div_mod_converse(ahead as int, TAU as int, 0, turned as int);
        }
    }
    wave_of(turned)
}

fn fit_step_of(square: i64, coefficient: i64, inner: i64) -> (r: i64)
    ensures
        r == fit_step(square, coefficient, inner),
{
    sat_add(coefficient, fx_mul(square, inner))
}

/// The arctangent of a ratio in `[0, 1]`.
fn atan_unit_of(z: i64) -> (r: i64)
    ensures
        r == atan_unit(z),
        0 <= r <= QUARTER_PI,
{
    let square: i64 = fx_mul(z, z);
    let fifth: i64 = fit_step_of(square, ATAN_9, ATAN_11);
    let fourth: i64 = fit_step_of(square, ATAN_7, fifth);
    let third: i64 = fit_step_of(square, ATAN_5, fourth);
    let second: i64 = fit_step_of(square, ATAN_3, third);
    let first: i64 = fit_step_of(square, ATAN_1, second);
    clamp_between(fx_mul(z, first), 0, QUARTER_PI)
}

/// The ratio of a smaller to a larger magnitude.
fn ratio(small: u64, large: u64) -> (z: i64)
    requires
        small <= large,
        0 < large,
    ensures
        z == ratio_spec(small as int, large as int),
        0 <= z <= ONE,
{
    proof {
        lemma_ratio_bounds(small as int, large as int);
    }
    assert(small * ONE <= 0xffff_ffff_ffff_ffff * 1_000_000) by (nonlinear_arith)
        requires
            0 <= small <= 0xffff_ffff_ffff_ffff,
            ONE == 1_000_000,
    ;
    (((small as u128) * (ONE as u128)) / (large as u128)) as i64
}

/// The angle of the vector `(x, y)`.
pub fn fx_atan2(y: i64, x: i64) -> (r: i64)
    ensures
        r == atan2_spec(y, x),
        -PI <= r <= PI,
{
    let ax: u64 = magnitude(x);
    let ay: u64 = magnitude(y);
    if ax == 0 && ay == 0 {
        return 0;
    }
    let base: i64 = if ay <= ax {
        atan_unit_of(ratio(ay, ax))
    } else {
        HALF_PI - atan_unit_of(ratio(ax, ay))
    };
    if x >= 0 {
        if y >= 0 {
            base
        } else {
            -base
        }
    } else {
        if y >= 0 {
            PI - base
        } else {
            base - PI
        }
    }
}

} // verus!
