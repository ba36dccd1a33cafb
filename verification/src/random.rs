//! The random source, and sampling from ranges.
//!
//! Every random attribute of a particle is a range sampled once: a uniform
//! fraction in `[0, 1)` picks the point that far from the start of the range
//! toward its end.

use vstd::prelude::*;
use std::ops::Range;
use rand::rngs::StdRng;
use crate::fixed::is_fraction;
use crate::fixed::lemma_lerp_below_end;
use crate::fixed::lemma_lerp_constant;
use crate::fixed::lemma_lerp_within;
use crate::fixed::lerp;
use crate::fixed::lerp_spec;
use crate::fixed::ONE;
use crate::vector::Vector2;

verus! {

/// The generator of the `rand` crate that a particle system owns. Nothing is
/// known of its state.
#[verifier::external_type_specification]
#[verifier::external_body]
pub struct ExStdRng(rand::rngs::StdRng);

/// Calls `rand::SeedableRng::seed_from_u64` for `StdRng`, which expands the
/// seed and never fails. Nothing is claimed of the generator that comes back.
#[verifier::external_body]
pub(crate) fn seeded(seed: u64) -> (rng: StdRng) {
    rand::SeedableRng::seed_from_u64(seed)
}

/// Calls `rand::Rng::gen_range` with the bounds 0 and `bound`. The crate
/// returns a value of the half-open range from the lower to the upper bound,
/// and panics where the lower bound is not below the upper one, which
/// `bound > 0` rules out. Nothing is claimed of which value is drawn.
#[verifier::external_body]
pub(crate) fn below(rng: &mut StdRng, bound: i64) -> (r: i64)
    requires
        bound > 0,
    ensures
        0 <= r < bound,
{
    rand::Rng::gen_range(rng, 0i64, bound)
}

/// `value` is a point that some fraction picks between `start` and `end`.
pub open spec fn sampled(start: i64, end: i64, value: i64) -> bool {
    exists|u: i64| is_fraction(u) && value == #[trigger] lerp_spec(start, end, u)
}

/// `value` is a point that some fraction picks between two vectors.
pub open spec fn sampled_vector(start: Vector2, end: Vector2, value: Vector2) -> bool {
    exists|u: i64| is_fraction(u) && value == #[trigger] start.lerp_spec(end, u)
}

/// A uniform fraction in `[0, 1)`.
pub fn draw_fraction(rng: &mut StdRng) -> (u: i64)
    ensures
        is_fraction(u),
{
    below(rng, ONE)
}

/// A random point of a range of scalars.
pub fn get_rand_in_range(range: &Range<i64>, rng: &mut StdRng) -> (value: i64)
    ensures
        sampled(range.start, range.end, value),
        range.start == range.end ==> value == range.start,
        range.start < range.end ==> range.start <= value < range.end,
        range.end <= range.start ==> range.end <= value <= range.start,
{
    let u: i64 = draw_fraction(rng);
    proof {
        lemma_lerp_within(range.start, range.end, u);
        if range.start < range.end {
            lemma_lerp_below_end(range.start, range.end, u);
        }
    }
    lerp(range.start, range.end, u)
}

/// A random point of a range of vectors: one fraction moves both components.
pub fn get_rand_vector_in_range(range: &Range<Vector2>, rng: &mut StdRng) -> (value: Vector2)
    ensures
        sampled_vector(range.start, range.end, value),
        range.start == range.end ==> value == range.start,
{
    let u: i64 = draw_fraction(rng);
    proof {
        lemma_lerp_constant(range.start.x, u);
        lemma_lerp_constant(range.start.y, u);
    }
    range.start.lerp(range.end, u)
}

/// A point sampled between two ends lies between them.
pub proof fn lemma_sampled_within(start: i64, end: i64, value: i64)
    requires
        sampled(start, end, value),
    ensures
        start <= end ==> start <= value <= end,
        end <= start ==> end <= value <= start,
{
    let u = choose|u: i64| is_fraction(u) && value == #[trigger] lerp_spec(start, end, u);
    lemma_lerp_within(start, end, u);
}

/// A range whose two ends are equal yields that one value, whatever is drawn.
pub proof fn lemma_sampled_constant(start: i64, value: i64)
    requires
        sampled(start, start, value),
    ensures
        value == start,
{
    let u = choose|u: i64| is_fraction(u) && value == #[trigger] lerp_spec(start, start, u);
    lemma_lerp_constant(start, u);
}

/// A range of vectors whose two ends are equal yields that one vector.
pub proof fn lemma_sampled_vector_constant(start: Vector2, value: Vector2)
    requires
        sampled_vector(start, start, value),
    ensures
        value == start,
{
    let u = choose|u: i64| is_fraction(u) && value == #[trigger] start.lerp_spec(start, u);
    lemma_lerp_constant(start.x, u);
    lemma_lerp_constant(start.y, u);
}

} // verus!
