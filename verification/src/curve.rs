//! Keyframe curves: piecewise-linear interpolation over a particle's life.
//!
//! A curve of `n` keys divides the unit interval into `n - 1` segments of
//! equal width. A curve of one key is constant.

use vstd::prelude::*;
use vstd::arithmetic::div_mod::lemma_fundamental_div_mod;
use vstd::arithmetic::div_mod::lemma_fundamental_div_mod_converse;
use crate::color::lemma_color_lerp_in_unit;
use crate::color::Color;
use crate::fixed::clamp_between;
use crate::fixed::clamp_between_spec;
use crate::fixed::lemma_lerp_start;
use crate::fixed::lemma_lerp_within;
use crate::fixed::lerp;
use crate::fixed::lerp_spec;
use crate::fixed::HALF;
use crate::fixed::ONE;

verus! {

/// Where time `t`, held to the unit interval, falls along a curve of `len`
/// keys: the key index scaled by [`ONE`].
pub open spec fn curve_position(len: nat, t: i64) -> int {
    clamp_between_spec(t, 0, ONE) * (len - 1)
}

/// The key at or before time `t`.
pub open spec fn low_key(len: nat, t: i64) -> int {
    curve_position(len, t) / (ONE as int)
}

/// How far time `t` lies past its low key, as a fraction of one segment.
pub open spec fn key_fraction(len: nat, t: i64) -> i64 {
    (curve_position(len, t) % (ONE as int)) as i64
}

/// The key at or after time `t`: the low key itself where `t` falls on a key.
pub open spec fn high_key(len: nat, t: i64) -> int {
    if key_fraction(len, t) == 0 {
        low_key(len, t)
    } else {
        low_key(len, t) + 1
    }
}

/// The value of a scalar curve at time `t`.
pub open spec fn curve_value(keys: Seq<i64>, t: i64) -> i64 {
    if keys.len() == 1 {
        keys[0]
    } else {
        lerp_spec(
            keys[low_key(keys.len(), t)],
            keys[high_key(keys.len(), t)],
            key_fraction(keys.len(), t),
        )
    }
}

/// The value of a colour curve at time `t`.
pub open spec fn curve_color(keys: Seq<Color>, t: i64) -> Color {
    if keys.len() == 1 {
        keys[0]
    } else {
        keys[low_key(keys.len(), t)].lerp_spec(
            keys[high_key(keys.len(), t)],
            key_fraction(keys.len(), t),
        )
    }
}

/// Both keys around any time are keys of the curve, and the fraction between
/// them is a fraction of one.
pub proof fn lemma_keys_in_range(len: nat, t: i64)
    requires
        len >= 1,
    ensures
        0 <= low_key(len, t) <= high_key(len, t) < len,
        0 <= key_fraction(len, t) < ONE,
        curve_position(len, t) == low_key(len, t) * ONE + key_fraction(len, t),
{
    let tc = clamp_between_spec(t, 0, ONE);
    let pos = curve_position(len, t);
    lemma_fundamental_div_mod(pos, ONE as int);
    let q = pos / (ONE as int);
    let r = pos % (ONE as int);
    assert(0 <= pos <= 1_000_000 * (len - 1)) by (nonlinear_arith)
        requires
            0 <= tc <= 1_000_000,
            len >= 1,
            pos == tc * (len - 1),
    ;
    assert(q * ONE == ONE * q) by (nonlinear_arith);
}

/// The scalar value of a curve at the given keys and time.
pub fn evaluate_curve(keys: &Vec<i64>, t: i64) -> (value: i64)
    requires
        keys.len() >= 1,
    ensures
        value == curve_value(keys@, t),
{
    if keys.len() == 1 {
        return keys[0];
    }
    let (low, high, fraction) = locate(keys.len(), t);
    lerp(keys[low], keys[high], fraction)
}

/// The colour of a curve at the given keys and time.
pub fn evaluate_color_curve(keys: &Vec<Color>, t: i64) -> (value: Color)
    requires
        keys.len() >= 1,
    ensures
        value == curve_color(keys@, t),
{
    if keys.len() == 1 {
        return keys[0];
    }
    let (low, high, fraction) = locate(keys.len(), t);
    keys[low].lerp(keys[high], fraction)
}

/// The two keys around time `t` and the fraction between them.
fn locate(len: usize, t: i64) -> (found: (usize, usize, i64))
    requires
        len >= 1,
    ensures
        found.0 == low_key(len as nat, t),
        found.1 == high_key(len as nat, t),
        found.2 == key_fraction(len as nat, t),
        found.0 <= found.1 < len,
{
    proof {
        lemma_keys_in_range(len as nat, t);
    }
    let held: u128 = clamp_between(t, 0, ONE) as u128;
    let last: u128 = (len - 1) as u128;
    assert(held * last <= 1_000_000 * 0xffff_ffff_ffff_ffff) by (nonlinear_arith)
        requires
            0 <= held <= 1_000_000,
            0 <= last <= 0xffff_ffff_ffff_ffff,
    ;
    let position: u128 = held * last;
    let low: usize = (position / (ONE as u128)) as usize;
    let fraction: i64 = (position % (ONE as u128)) as i64;
    let high: usize = if fraction == 0 { low } else { low + 1 };
    (low, high, fraction)
}

/// A curve of a single key has that key's value at every time, in or out of
/// the unit interval.
pub proof fn lemma_curve_single(keys: Seq<i64>, colors: Seq<Color>, t: i64)
    ensures
        keys.len() == 1 ==> curve_value(keys, t) == keys[0],
        colors.len() == 1 ==> curve_color(colors, t) == colors[0],
{
}

/// At time zero, and before it, a curve has the value of its first key.
pub proof fn lemma_curve_start(keys: Seq<i64>, colors: Seq<Color>, t: i64)
    requires
        t <= 0,
    ensures
        keys.len() >= 1 ==> curve_value(keys, t) == keys[0],
        colors.len() >= 1 ==> curve_color(colors, t) == colors[0],
{
    assert(0 * (keys.len() - 1) == 0 * ONE && 0 * (colors.len() - 1) == 0 * ONE)
        by (nonlinear_arith);
    if keys.len() >= 1 {
        lemma_at_key(keys.len(), t, 0);
        lemma_lerp_start(keys[0], keys[0]);
    }
    if colors.len() >= 1 {
        lemma_at_key(colors.len(), t, 0);
        let c = colors[0];
        lemma_lerp_start(c.r, c.r);
        lemma_lerp_start(c.g, c.g);
        lemma_lerp_start(c.b, c.b);
        lemma_lerp_start(c.a, c.a);
    }
}

/// At time one, and after it, a curve has the value of its last key.
pub proof fn lemma_curve_end(keys: Seq<i64>, colors: Seq<Color>, t: i64)
    requires
        t >= ONE,
    ensures
        keys.len() >= 1 ==> curve_value(keys, t) == keys[keys.len() - 1],
        colors.len() >= 1 ==> curve_color(colors, t) == colors[colors.len() - 1],
{
    assert(ONE * (keys.len() - 1) == (keys.len() - 1) * ONE && ONE * (colors.len() - 1) == (
    colors.len() - 1) * ONE) by (nonlinear_arith);
    if keys.len() >= 1 {
        lemma_at_key(keys.len(), t, keys.len() - 1);
        let k = keys[keys.len() - 1];
        lemma_lerp_start(k, k);
    }
    if colors.len() >= 1 {
        lemma_at_key(colors.len(), t, colors.len() - 1);
        let c = colors[colors.len() - 1];
        lemma_lerp_start(c.r, c.r);
        lemma_lerp_start(c.g, c.g);
        lemma_lerp_start(c.b, c.b);
        lemma_lerp_start(c.a, c.a);
    }
}

/// Where the time falls exactly on key `k`, both keys around it are `k` and
/// the fraction is zero.
pub proof fn lemma_at_key(len: nat, t: i64, k: int)
    requires
        len >= 1,
        curve_position(len, t) == k * ONE,
    ensures
        low_key(len, t) == k,
        high_key(len, t) == k,
        key_fraction(len, t) == 0,
{
    lemma_fundamental_div_mod_converse(curve_position(len, t), ONE as int, k, 0);
}

/// A curve passes through its keys: where the time falls exactly on key `k`,
/// the curve has the value of that key.
pub proof fn lemma_curve_through_key(keys: Seq<i64>, colors: Seq<Color>, t: i64, k: int)
    ensures
        keys.len() >= 1 && curve_position(keys.len(), t) == k * ONE ==> curve_value(keys, t)
            == keys[k],
        colors.len() >= 1 && curve_position(colors.len(), t) == k * ONE ==> curve_color(colors, t)
            == colors[k],
{
    if keys.len() >= 1 && curve_position(keys.len(), t) == k * ONE {
        lemma_at_key(keys.len(), t, k);
        lemma_keys_in_range(keys.len(), t);
        lemma_lerp_start(keys[k], keys[k]);
    }
    if colors.len() >= 1 && curve_position(colors.len(), t) == k * ONE {
        lemma_at_key(colors.len(), t, k);
        lemma_keys_in_range(colors.len(), t);
        let c = colors[k];
        lemma_lerp_start(c.r, c.r);
        lemma_lerp_start(c.g, c.g);
        lemma_lerp_start(c.b, c.b);
        lemma_lerp_start(c.a, c.a);
    }
}

/// Halfway along a curve of two keys lies the midpoint of the two.
pub proof fn lemma_curve_midpoint(a: i64, b: i64)
    ensures
        curve_value(seq![a, b], HALF) == a + (b - a) / 2,
{
    let keys = seq![a, b];
    let t: i64 = HALF;
    assert(curve_position(2, t) == 500_000);
    lemma_fundamental_div_mod_converse(500_000, ONE as int, 0, 500_000);
    assert(low_key(2, t) == 0);
    assert(key_fraction(2, t) == 500_000);
    assert(high_key(2, t) == 1);
    lemma_lerp_within(a, b, 500_000);
    let d: int = b - a;
    assert((d * 500_000) / 1_000_000 == d / 2) by {
        lemma_fundamental_div_mod(d, 2);
        let q = d / 2;
        let r = d % 2;
        assert(d * 500_000 == q * 1_000_000 + r * 500_000);
        lemma_fundamental_div_mod_converse(d * 500_000, 1_000_000, q, r * 500_000);
    }
}

/// A curve stays between the smallest and the largest values around it: a
/// colour curve whose keys lie in `[0, 1]` has every value in `[0, 1]`.
pub proof fn lemma_curve_color_in_unit(keys: Seq<Color>, t: i64)
    requires
        keys.len() >= 1,
        forall|i: int| 0 <= i < keys.len() ==> (#[trigger] keys[i]).in_unit(),
    ensures
        curve_color(keys, t).in_unit(),
{
    lemma_keys_in_range(keys.len(), t);
    if keys.len() > 1 {
        lemma_color_lerp_in_unit(
            keys[low_key(keys.len(), t)],
            keys[high_key(keys.len(), t)],
            key_fraction(keys.len(), t),
        );
    }
}

/// A scalar curve stays between the two keys around the time.
pub proof fn lemma_curve_value_between(keys: Seq<i64>, t: i64)
    requires
        keys.len() >= 1,
    ensures
        ({
            let lo = keys[low_key(keys.len(), t)];
            let hi = keys[high_key(keys.len(), t)];
            &&& lo <= hi ==> lo <= curve_value(keys, t) <= hi
            &&& hi <= lo ==> hi <= curve_value(keys, t) <= lo
        }),
{
    lemma_keys_in_range(keys.len(), t);
    if keys.len() > 1 {
        lemma_lerp_within(
            keys[low_key(keys.len(), t)],
            keys[high_key(keys.len(), t)],
            key_fraction(keys.len(), t),
        );
    } else {
        lemma_at_key(1, t, 0);
    }
}

} // verus!
