//! Colours with red, green, blue and alpha, each a fixed-point scalar.

use vstd::prelude::*;
use crate::fixed::lemma_lerp_within;
use crate::fixed::lerp;
use crate::fixed::lerp_spec;
use crate::fixed::ONE;

verus! {

/// A colour; an opaque full-strength component is [`ONE`].
#[derive(Clone, Copy, Debug, PartialEq, Eq, Structural)]
pub struct Color {
    pub r: i64,
    pub g: i64,
    pub b: i64,
    pub a: i64,
}

impl Color {
    /// Every component lies in `[0, 1]`.
    pub open spec fn in_unit(self) -> bool {
        &&& 0 <= self.r <= ONE
        &&& 0 <= self.g <= ONE
        &&& 0 <= self.b <= ONE
        &&& 0 <= self.a <= ONE
    }

    /// The colour at fraction `f` of the way from `self` to `other`, each
    /// component on its own.
    pub open spec fn lerp_spec(self, other: Color, f: i64) -> Color {
        Color {
            r: lerp_spec(self.r, other.r, f),
            g: lerp_spec(self.g, other.g, f),
            b: lerp_spec(self.b, other.b, f),
            a: lerp_spec(self.a, other.a, f),
        }
    }

    pub fn new(r: i64, g: i64, b: i64, a: i64) -> (c: Color)
        ensures
            c == (Color { r, g, b, a }),
    {
        Color { r, g, b, a }
    }

    /// Whether every component lies in `[0, 1]`.
    pub fn is_in_unit(&self) -> (ok: bool)
        ensures
            ok == self.in_unit(),
    {
        0 <= self.r && self.r <= ONE && 0 <= self.g && self.g <= ONE && 0 <= self.b && self.b
            <= ONE && 0 <= self.a && self.a <= ONE
    }

    pub fn lerp(self, other: Color, f: i64) -> (c: Color)
        ensures
            c == self.lerp_spec(other, f),
    {
        Color {
            r: lerp(self.r, other.r, f),
            g: lerp(self.g, other.g, f),
            b: lerp(self.b, other.b, f),
            a: lerp(self.a, other.a, f),
        }
    }
}

/// A blend of two colours within `[0, 1]` is within `[0, 1]`.
pub proof fn lemma_color_lerp_in_unit(from: Color, to: Color, f: i64)
    requires
        from.in_unit(),
        to.in_unit(),
        0 <= f <= ONE,
    ensures
        from.lerp_spec(to, f).in_unit(),
{
    lemma_lerp_within(from.r, to.r, f);
    lemma_lerp_within(from.g, to.g, f);
    lemma_lerp_within(from.b, to.b, f);
    lemma_lerp_within(from.a, to.a, f);
}

} // verus!
