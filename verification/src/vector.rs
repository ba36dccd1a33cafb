//! Two-dimensional vectors of fixed-point scalars.

use vstd::prelude::*;
use vstd::arithmetic::div_mod::lemma_fundamental_div_mod;
use crate::fixed::clamp;
use crate::fixed::floor_div_wide;
use crate::fixed::fx_mul;
use crate::fixed::fx_mul_spec;
use crate::fixed::is_isqrt;
use crate::fixed::isqrt;
use crate::fixed::isqrt_spec;
use crate::fixed::lemma_isqrt_exists;
use crate::fixed::lemma_isqrt_is;
use crate::fixed::lemma_unit_and_zero;
use crate::fixed::lerp;
use crate::fixed::lerp_spec;
use crate::fixed::magnitude;
use crate::fixed::sat_add;
use crate::fixed::sat_add_spec;
use crate::fixed::sat_neg;
use crate::fixed::sat_neg_spec;
use crate::fixed::sat_sub;
use crate::fixed::sat_sub_spec;
use crate::fixed::ONE;
use crate::trig::cos_spec;
use crate::trig::fx_cos;
use crate::trig::fx_sin;
use crate::trig::lemma_quarter_turns;
use crate::trig::sin_spec;

verus! {

/// A vector, or a point, in the plane.
#[derive(Clone, Copy, Debug, PartialEq, Eq, Structural)]
pub struct Vector2 {
    pub x: i64,
    pub y: i64,
}

impl Vector2 {
    pub open spec fn zero_spec() -> Vector2 {
        Vector2 { x: 0, y: 0 }
    }

    pub open spec fn plus_spec(self, other: Vector2) -> Vector2 {
        Vector2 { x: sat_add_spec(self.x, other.x), y: sat_add_spec(self.y, other.y) }
    }

    pub open spec fn minus_spec(self, other: Vector2) -> Vector2 {
        Vector2 { x: sat_sub_spec(self.x, other.x), y: sat_sub_spec(self.y, other.y) }
    }

    pub open spec fn scaled_spec(self, factor: i64) -> Vector2 {
        Vector2 { x: fx_mul_spec(self.x, factor), y: fx_mul_spec(self.y, factor) }
    }

    /// The vector turned a quarter turn: `(x, y)` becomes `(-y, x)`.
    pub open spec fn perpendicular_spec(self) -> Vector2 {
        Vector2 { x: sat_neg_spec(self.y), y: self.x }
    }

    /// The vector turned by `angle` radians.
    pub open spec fn rotated_spec(self, angle: i64) -> Vector2 {
        let c = cos_spec(angle);
        let s = sin_spec(angle);
        Vector2 {
            x: sat_sub_spec(fx_mul_spec(self.x, c), fx_mul_spec(self.y, s)),
            y: sat_add_spec(fx_mul_spec(self.x, s), fx_mul_spec(self.y, c)),
        }
    }

    /// The square of the length, in raw units.
    pub open spec fn norm_squared(self) -> int {
        self.x * self.x + self.y * self.y
    }

    /// The length, in raw units, rounded down.
    pub open spec fn norm_spec(self) -> int {
        isqrt_spec(self.norm_squared())
    }

    /// The vector scaled to length one; the zero vector stays zero.
    pub open spec fn normalized_spec(self) -> Vector2 {
        let len = self.norm_spec();
        if len == 0 {
            Vector2::zero_spec()
        } else {
            Vector2 { x: clamp((self.x * ONE) / len), y: clamp((self.y * ONE) / len) }
        }
    }

    /// The point at fraction `f` of the way from `self` to `other`.
    pub open spec fn lerp_spec(self, other: Vector2, f: i64) -> Vector2 {
        Vector2 { x: lerp_spec(self.x, other.x, f), y: lerp_spec(self.y, other.y, f) }
    }

    pub fn new(x: i64, y: i64) -> (v: Vector2)
        ensures
            v == (Vector2 { x, y }),
    {
        Vector2 { x, y }
    }

    pub fn zero() -> (v: Vector2)
        ensures
            v == Vector2::zero_spec(),
    {
        Vector2 { x: 0, y: 0 }
    }

    pub fn plus(self, other: Vector2) -> (v: Vector2)
        ensures
            v == self.plus_spec(other),
    {
        Vector2 { x: sat_add(self.x, other.x), y: sat_add(self.y, other.y) }
    }

    pub fn minus(self, other: Vector2) -> (v: Vector2)
        ensures
            v == self.minus_spec(other),
    {
        Vector2 { x: sat_sub(self.x, other.x), y: sat_sub(self.y, other.y) }
    }

    pub fn scaled(self, factor: i64) -> (v: Vector2)
        ensures
            v == self.scaled_spec(factor),
    {
        Vector2 { x: fx_mul(self.x, factor), y: fx_mul(self.y, factor) }
    }

    pub fn perpendicular(self) -> (v: Vector2)
        ensures
            v == self.perpendicular_spec(),
    {
        Vector2 { x: sat_neg(self.y), y: self.x }
    }

    pub fn rotated(self, angle: i64) -> (v: Vector2)
        ensures
            v == self.rotated_spec(angle),
    {
        let c: i64 = fx_cos(angle);
        let s: i64 = fx_sin(angle);
        Vector2 {
            x: sat_sub(fx_mul(self.x, c), fx_mul(self.y, s)),
            y: sat_add(fx_mul(self.x, s), fx_mul(self.y, c)),
        }
    }

    /// The length, in raw units, rounded down.
    pub fn norm(self) -> (len: u64)
        ensures
            len == self.norm_spec(),
            is_isqrt(self.norm_squared(), len as int),
    {
        let ax: u128 = magnitude(self.x) as u128;
        let ay: u128 = magnitude(self.y) as u128;
        assert(ax * ax == self.x * self.x && ax * ax <= 0x4000_0000_0000_0000_0000_0000_0000_0000)
            by (nonlinear_arith)
            requires
                ax == self.x || ax == -self.x,
                0 <= ax <= 0x8000_0000_0000_0000,
        ;
        assert(ay * ay == self.y * self.y && ay * ay <= 0x4000_0000_0000_0000_0000_0000_0000_0000)
            by (nonlinear_arith)
            requires
                ay == self.y || ay == -self.y,
                0 <= ay <= 0x8000_0000_0000_0000,
        ;
        isqrt(ax * ax + ay * ay)
    }

    pub fn normalized(self) -> (v: Vector2)
        ensures
            v == self.normalized_spec(),
            -ONE <= v.x <= ONE,
            -ONE <= v.y <= ONE,
    {
        let len: u64 = self.norm();
        if len == 0 {
            Vector2 { x: 0, y: 0 }
        } else {
            proof {
                lemma_unit_component(self.x, self.y, len as int);
                lemma_unit_component(self.y, self.x, len as int);
                assert(self.y * self.y + self.x * self.x == self.norm_squared());
            }
            Vector2 { x: unit_component(self.x, len), y: unit_component(self.y, len) }
        }
    }

    pub fn lerp(self, other: Vector2, f: i64) -> (v: Vector2)
        ensures
            v == self.lerp_spec(other, f),
    {
        Vector2 { x: lerp(self.x, other.x, f), y: lerp(self.y, other.y, f) }
    }
}

/// One component of a vector over the vector's length.
fn unit_component(a: i64, len: u64) -> (r: i64)
    requires
        0 < len,
        -ONE <= (a * ONE) / (len as int) <= ONE,
    ensures
        r == clamp((a * ONE) / (len as int)),
        r == (a * ONE) / (len as int),
{
    assert(-0x10_0000_0000_0000_0000_0000 <= a * ONE <= 0x10_0000_0000_0000_0000_0000)
        by (nonlinear_arith)
        requires
            -0x8000_0000_0000_0000 <= a <= 0x8000_0000_0000_0000,
            ONE == 1_000_000,
    ;
    let n: i128 = (a as i128) * (ONE as i128);
    floor_div_wide(n, len as i128) as i64
}

/// A component of a vector is at most the vector's length, so the component
/// over the length lies in `[-1, 1]`.
pub proof fn lemma_unit_component(a: i64, b: i64, len: int)
    requires
        is_isqrt(a * a + b * b, len),
        len > 0,
    ensures
        -ONE <= (a * ONE) / len <= ONE,
{
    let n = a * a + b * b;
    assert(-len <= a <= len) by (nonlinear_arith)
        requires
            a * a + b * b < (len + 1) * (len + 1),
            len > 0,
    ;
    lemma_fundamental_div_mod(a * ONE, len);
    let q = (a * ONE) / len;
    assert(-1_000_000 <= q <= 1_000_000) by (nonlinear_arith)
        requires
            -len <= a <= len,
            len > 0,
            a * 1_000_000 == len * q + (a * 1_000_000) % len,
            0 <= (a * 1_000_000) % len < len,
    ;
}

/// Only the zero vector has length zero, and it stays zero when normalized.
pub proof fn lemma_normalized_zero(v: Vector2)
    ensures
        v.norm_spec() == 0 <==> v == Vector2::zero_spec(),
        Vector2::zero_spec().normalized_spec() == Vector2::zero_spec(),
{
    let n = v.norm_squared();
    assert(n >= 0 && (n == 0 <==> (v.x == 0 && v.y == 0))) by (nonlinear_arith)
        requires
            n == v.x * v.x + v.y * v.y,
    ;
    lemma_isqrt_is(0, 0);
    if n > 0 {
        lemma_isqrt_exists(n);
        let r = isqrt_spec(n);
        assert(r != 0) by (nonlinear_arith)
            requires
                n > 0,
                n < (r + 1) * (r + 1),
        ;
    }
}

/// Scaling by one and turning by no angle leave a vector as it is; scaling by
/// zero, or scaling the zero vector, leaves the zero vector.
pub proof fn lemma_vector_identities(v: Vector2, factor: i64)
    ensures
        v.scaled_spec(ONE) == v,
        v.scaled_spec(0) == Vector2::zero_spec(),
        Vector2::zero_spec().scaled_spec(factor) == Vector2::zero_spec(),
        v.rotated_spec(0) == v,
        v.plus_spec(Vector2::zero_spec()) == v,
{
    lemma_unit_and_zero(v.x);
    lemma_unit_and_zero(v.y);
    lemma_unit_and_zero(factor);
    lemma_quarter_turns();
}

} // verus!
