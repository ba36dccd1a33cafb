//! The area in which an emitter spawns its particles.

use vstd::prelude::*;
use rand::rngs::StdRng;
use crate::fixed::fx_div;
use crate::fixed::fx_div_spec;
use crate::fixed::fx_mul;
use crate::fixed::fx_mul_spec;
use crate::fixed::half;
use crate::fixed::half_spec;
use crate::fixed::is_fraction;
use crate::fixed::lemma_lerp_within;
use crate::fixed::lerp;
use crate::fixed::lerp_spec;
use crate::fixed::sat_add;
use crate::fixed::sat_add_spec;
use crate::fixed::sat_neg;
use crate::fixed::sat_neg_spec;
use crate::fixed::sat_sub;
use crate::fixed::sat_sub_spec;
use crate::fixed::ONE;
use crate::random::draw_fraction;
use crate::trig::cos_spec;
use crate::trig::fx_cos;
use crate::trig::fx_sin;
use crate::trig::sin_spec;
use crate::trig::TAU;
use crate::vector::lemma_vector_identities;
use crate::vector::Vector2;

verus! {

/// The area in which a particle system emits particles. The size of a
/// rectangle holds its full width and height, the size of an ellipse its two
/// radii; a rotation is in radians.
#[derive(Clone, Copy, Debug)]
pub enum EmitterShape {
    /// Every particle starts at the emitter's position.
    Point,
    /// Anywhere within a rectangle of the given size and rotation.
    Rectangle(Vector2, i64),
    /// Anywhere within an ellipse of the given size and rotation.
    Ellipse(Vector2, i64),
    /// Along the border of a rectangle of the given size and rotation.
    RectangleBorder(Vector2, i64),
    /// Along the border of an ellipse of the given size and rotation.
    EllipseBorder(Vector2, i64),
}

/// A point of a rectangle: each fraction picks one coordinate between the
/// two sides, independently, and the point is then turned.
pub open spec fn rectangle_offset(size: Vector2, rotation: i64, u: i64, v: i64) -> Vector2 {
    Vector2 {
        x: lerp_spec(sat_neg_spec(half_spec(size.x)), half_spec(size.x), u),
        y: lerp_spec(sat_neg_spec(half_spec(size.y)), half_spec(size.y), v),
    }.rotated_spec(rotation)
}

/// A point of an ellipse: the first fraction picks the direction, the second
/// the distance from the centre, which is scaled by the size on each axis.
/// The distance is taken as drawn, so points gather toward the centre.
pub open spec fn ellipse_offset(size: Vector2, rotation: i64, u: i64, v: i64) -> Vector2 {
    let direction = fx_mul_spec(TAU, u);
    Vector2 {
        x: fx_mul_spec(fx_mul_spec(v, cos_spec(direction)), size.x),
        y: fx_mul_spec(fx_mul_spec(v, sin_spec(direction)), size.y),
    }.rotated_spec(rotation)
}

/// The distance along the border, from the top left corner, at which each of
/// the four sides of a rectangle ends.
pub open spec fn side_boundaries(size: Vector2) -> (i64, i64, i64, i64) {
    (
        size.x,
        sat_add_spec(size.x, size.y),
        sat_add_spec(sat_add_spec(size.x, size.x), size.y),
        sat_add_spec(sat_add_spec(size.x, size.x), sat_add_spec(size.y, size.y)),
    )
}

/// A point of the border of a rectangle: the fraction picks a distance along
/// the whole border, so that each side is hit in proportion to its length,
/// and the point lies that far along the side on which the distance falls.
pub open spec fn rectangle_border_offset(size: Vector2, rotation: i64, u: i64) -> Vector2 {
    let left = sat_neg_spec(half_spec(size.x));
    let right = half_spec(size.x);
    let top = sat_neg_spec(half_spec(size.y));
    let bottom = half_spec(size.y);
    let top_left = Vector2 { x: left, y: top };
    let top_right = Vector2 { x: right, y: top };
    let bottom_right = Vector2 { x: right, y: bottom };
    let bottom_left = Vector2 { x: left, y: bottom };
    let ends = side_boundaries(size);
    let amount = fx_mul_spec(ends.3, u);
    let offset = if amount > ends.2 {
        bottom_left.lerp_spec(
            top_left,
            fx_div_spec(sat_sub_spec(amount, ends.2), sat_sub_spec(ends.3, ends.2)),
        )
    } else if amount > ends.1 {
        bottom_right.lerp_spec(
            bottom_left,
            fx_div_spec(sat_sub_spec(amount, ends.1), sat_sub_spec(ends.2, ends.1)),
        )
    } else if amount > ends.0 {
        top_right.lerp_spec(
            bottom_right,
            fx_div_spec(sat_sub_spec(amount, ends.0), sat_sub_spec(ends.1, ends.0)),
        )
    } else {
        top_left.lerp_spec(top_right, fx_div_spec(amount, ends.0))
    };
    offset.rotated_spec(rotation)
}

/// A point of the border of an ellipse: the fraction picks the direction.
pub open spec fn ellipse_border_offset(size: Vector2, rotation: i64, u: i64) -> Vector2 {
    let direction = fx_mul_spec(TAU, u);
    Vector2 {
        x: fx_mul_spec(cos_spec(direction), size.x),
        y: fx_mul_spec(sin_spec(direction), size.y),
    }.rotated_spec(rotation)
}

/// The offset from the emitter's position that the two fractions pick in
/// `shape`. The borders use the first fraction only, a point uses neither.
pub open spec fn offset_spec(shape: EmitterShape, u: i64, v: i64) -> Vector2 {
    match shape {
        EmitterShape::Point => Vector2::zero_spec(),
        EmitterShape::Rectangle(size, rotation) => rectangle_offset(size, rotation, u, v),
        EmitterShape::Ellipse(size, rotation) => ellipse_offset(size, rotation, u, v),
        EmitterShape::RectangleBorder(size, rotation) => rectangle_border_offset(
            size,
            rotation,
            u,
        ),
        EmitterShape::EllipseBorder(size, rotation) => ellipse_border_offset(size, rotation, u),
    }
}

/// Some pair of fractions picks `offset` in `shape`.
pub open spec fn reachable_offset(shape: EmitterShape, offset: Vector2) -> bool {
    exists|u: i64, v: i64|
        is_fraction(u) && is_fraction(v) && offset == #[trigger] offset_spec(shape, u, v)
}

impl EmitterShape {
    /// The offset that the fractions `u` and `v` pick in this shape.
    pub fn offset_at(&self, u: i64, v: i64) -> (offset: Vector2)
        ensures
            offset == offset_spec(*self, u, v),
    {
        match self {
            EmitterShape::Point => Vector2::zero(),
            EmitterShape::Rectangle(size, rotation) => {
                Vector2::new(
                    lerp(sat_neg(half(size.x)), half(size.x), u),
                    lerp(sat_neg(half(size.y)), half(size.y), v),
                ).rotated(*rotation)
            },
            EmitterShape::Ellipse(size, rotation) => {
                let direction: i64 = fx_mul(TAU, u);
                Vector2::new(
                    fx_mul(fx_mul(v, fx_cos(direction)), size.x),
                    fx_mul(fx_mul(v, fx_sin(direction)), size.y),
                ).rotated(*rotation)
            },
            EmitterShape::RectangleBorder(size, rotation) => {
                let left: i64 = sat_neg(half(size.x));
                let right: i64 = half(size.x);
                let top: i64 = sat_neg(half(size.y));
                let bottom: i64 = half(size.y);
                let top_left = Vector2::new(left, top);
                let top_right = Vector2::new(right, top);
                let bottom_right = Vector2::new(right, bottom);
                let bottom_left = Vector2::new(left, bottom);
                let end_top: i64 = size.x;
                let end_right: i64 = sat_add(size.x, size.y);
                let end_bottom: i64 = sat_add(sat_add(size.x, size.x), size.y);
                let end_left: i64 = sat_add(sat_add(size.x, size.x), sat_add(size.y, size.y));
                let amount: i64 = fx_mul(end_left, u);
                let offset = if amount > end_bottom {
                    bottom_left.lerp(
                        top_left,
                        fx_div(sat_sub(amount, end_bottom), sat_sub(end_left, end_bottom)),
                    )
                } else if amount > end_right {
                    bottom_right.lerp(
                        bottom_left,
                        fx_div(sat_sub(amount, end_right), sat_sub(end_bottom, end_right)),
                    )
                } else if amount > end_top {
                    top_right.lerp(
                        bottom_right,
                        fx_div(sat_sub(amount, end_top), sat_sub(end_right, end_top)),
                    )
                } else {
                    top_left.lerp(top_right, fx_div(amount, end_top))
                };
                offset.rotated(*rotation)
            },
            EmitterShape::EllipseBorder(size, rotation) => {
                let direction: i64 = fx_mul(TAU, u);
                Vector2::new(
                    fx_mul(fx_cos(direction), size.x),
                    fx_mul(fx_sin(direction), size.y),
                ).rotated(*rotation)
            },
        }
    }
}

/// A random offset from the emitter's position within `shape`, from as many
/// draws as the shape uses.
pub fn get_particle_position_offset(shape: &EmitterShape, rng: &mut StdRng) -> (offset: Vector2)
    ensures
        reachable_offset(*shape, offset),
        *shape is Point ==> offset == Vector2::zero_spec(),
{
    let (u, v): (i64, i64) = match shape {
        EmitterShape::Point => (0, 0),
        EmitterShape::Rectangle(_, _) | EmitterShape::Ellipse(_, _) => {
            let first: i64 = draw_fraction(rng);
            let second: i64 = draw_fraction(rng);
            (first, second)
        },
        EmitterShape::RectangleBorder(_, _) | EmitterShape::EllipseBorder(_, _) => {
            let first: i64 = draw_fraction(rng);
            (first, 0)
        },
    };
    let offset = shape.offset_at(u, v);
    assert(offset == offset_spec(*shape, u, v));
    offset
}

/// An unrotated rectangle is filled side to side: each coordinate of an
/// offset lies between minus half and half the size, short of the upper end.
pub proof fn lemma_rectangle_offset_inside(size: Vector2, u: i64, v: i64)
    requires
        is_fraction(u),
        is_fraction(v),
        size.x >= 0,
        size.y >= 0,
    ensures
        ({
            let offset = rectangle_offset(size, 0, u, v);
            &&& -half_spec(size.x) <= offset.x <= half_spec(size.x)
            &&& -half_spec(size.y) <= offset.y <= half_spec(size.y)
            &&& offset.x == lerp_spec(sat_neg_spec(half_spec(size.x)), half_spec(size.x), u)
            &&& offset.y == lerp_spec(sat_neg_spec(half_spec(size.y)), half_spec(size.y), v)
        }),
{
    let unturned = Vector2 {
        x: lerp_spec(sat_neg_spec(half_spec(size.x)), half_spec(size.x), u),
        y: lerp_spec(sat_neg_spec(half_spec(size.y)), half_spec(size.y), v),
    };
    lemma_vector_identities(unturned, ONE);
    lemma_lerp_within(sat_neg_spec(half_spec(size.x)), half_spec(size.x), u);
    lemma_lerp_within(sat_neg_spec(half_spec(size.y)), half_spec(size.y), v);
}

} // verus!
