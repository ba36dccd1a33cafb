//! One particle: how it moves, and how it looks at each moment of its life.

use vstd::prelude::*;
use vstd::arithmetic::div_mod::lemma_fundamental_div_mod;
use crate::color::Color;
use crate::curve::curve_color;
use crate::curve::curve_value;
use crate::curve::evaluate_color_curve;
use crate::curve::evaluate_curve;
use crate::curve::lemma_curve_color_in_unit;
use crate::fixed::clamp_between;
use crate::fixed::clamp_between_spec;
use crate::fixed::fx_div;
use crate::fixed::fx_div_spec;
use crate::fixed::fx_mul;
use crate::fixed::fx_mul_spec;
use crate::fixed::lemma_isqrt_exists;
use crate::fixed::lemma_unit_and_zero;
use crate::fixed::sat_add;
use crate::fixed::sat_add_spec;
use crate::fixed::ONE;
use crate::settings::colors_in_unit;
use crate::trig::atan2_spec;
use crate::trig::fx_atan2;
use crate::vector::lemma_normalized_zero;
use crate::vector::lemma_unit_component;
use crate::vector::lemma_vector_identities;
use crate::vector::Vector2;

verus! {

/// A particle. Everything but `time`, `position`, `velocity` and `angle` is
/// fixed when the particle is spawned.
#[derive(Debug)]
pub struct Particle {
    /// How long the particle lives, in seconds.
    pub lifetime: i64,
    /// The size keyframes over the particle's life.
    pub sizes: Vec<i64>,
    /// The colour keyframes over the particle's life.
    pub colors: Vec<Color>,
    /// Whether the particle points the way it moves.
    pub use_relative_angle: bool,
    /// The share of its life that the particle has lived: from 0 toward 1.
    pub time: i64,
    pub position: Vector2,
    pub velocity: Vector2,
    pub damping: i64,
    pub acceleration: Vector2,
    /// The acceleration away from the emitter.
    pub radial_acceleration: i64,
    /// The acceleration around the emitter.
    pub tangential_acceleration: i64,
    /// The accumulated rotation, in radians.
    pub angle: i64,
    /// The angular velocity, in radians per second.
    pub spin: i64,
    /// The anchor about which the particle is scaled and turned.
    pub offset: Vector2,
}

/// What a particle is, with its keyframes as sequences.
pub struct ParticleModel {
    pub lifetime: i64,
    pub sizes: Seq<i64>,
    pub colors: Seq<Color>,
    pub use_relative_angle: bool,
    pub time: i64,
    pub position: Vector2,
    pub velocity: Vector2,
    pub damping: i64,
    pub acceleration: Vector2,
    pub radial_acceleration: i64,
    pub tangential_acceleration: i64,
    pub angle: i64,
    pub spin: i64,
    pub offset: Vector2,
}

/// How to render one particle: where, how large, how far turned, about which
/// anchor and in which colour.
#[derive(Clone, Copy, Debug, PartialEq, Eq, Structural)]
pub struct DrawParam {
    pub dest: Vector2,
    pub scale: Vector2,
    pub rotation: i64,
    pub offset: Vector2,
    pub color: Color,
}

impl View for Particle {
    type V = ParticleModel;

    open spec fn view(&self) -> ParticleModel {
        ParticleModel {
            lifetime: self.lifetime,
            sizes: self.sizes@,
            colors: self.colors@,
            use_relative_angle: self.use_relative_angle,
            time: self.time,
            position: self.position,
            velocity: self.velocity,
            damping: self.damping,
            acceleration: self.acceleration,
            radial_acceleration: self.radial_acceleration,
            tangential_acceleration: self.tangential_acceleration,
            angle: self.angle,
            spin: self.spin,
            offset: self.offset,
        }
    }
}

impl ParticleModel {
    /// The particle can be drawn and aged: it has at least one size and one
    /// colour keyframe, its colours lie in `[0, 1]`, and it lives for a
    /// positive time.
    pub open spec fn well_formed(self) -> bool {
        &&& self.sizes.len() >= 1
        &&& self.colors.len() >= 1
        &&& colors_in_unit(self.colors)
        &&& self.lifetime > 0
    }

    /// The particle has not yet lived its whole life.
    pub open spec fn alive(self) -> bool {
        self.time < ONE
    }

    /// The unit vector from the emitter to the particle; the zero vector
    /// where the two coincide.
    pub open spec fn radial_vector(self, emitter: Vector2) -> Vector2 {
        self.position.minus_spec(emitter).normalized_spec()
    }

    /// The acceleration on the particle: the constant one, the radial one
    /// along the radial vector, and the tangential one along the radial
    /// vector turned a quarter turn.
    pub open spec fn total_acceleration(self, emitter: Vector2) -> Vector2 {
        let radial = self.radial_vector(emitter);
        let tangential = radial.perpendicular_spec();
        self.acceleration.plus_spec(radial.scaled_spec(self.radial_acceleration)).plus_spec(
            tangential.scaled_spec(self.tangential_acceleration),
        )
    }

    /// The factor by which damping scales the velocity over `delta_time`:
    /// `1 / (1 + damping * delta_time)`.
    pub open spec fn damping_factor(self, delta_time: i64) -> i64 {
        fx_div_spec(ONE, sat_add_spec(ONE, fx_mul_spec(self.damping, delta_time)))
    }

    /// The velocity after `delta_time`: accelerated, then damped.
    pub open spec fn next_velocity(self, delta_time: i64, emitter: Vector2) -> Vector2 {
        self.velocity.plus_spec(self.total_acceleration(emitter).scaled_spec(delta_time)).scaled_spec(
            self.damping_factor(delta_time),
        )
    }

    /// The particle after `delta_time` seconds with the emitter at `emitter`.
    /// Time advances by `delta_time / lifetime`; the position moves by the
    /// new velocity, the angle by the spin.
    pub open spec fn step(self, delta_time: i64, emitter: Vector2) -> ParticleModel {
        let velocity = self.next_velocity(delta_time, emitter);
        ParticleModel {
            time: sat_add_spec(self.time, fx_div_spec(delta_time, self.lifetime)),
            velocity,
            position: self.position.plus_spec(velocity.scaled_spec(delta_time)),
            angle: sat_add_spec(self.angle, fx_mul_spec(self.spin, delta_time)),
            ..self
        }
    }

    /// The size at the present time.
    pub open spec fn size(self) -> i64 {
        curve_value(self.sizes, clamp_between_spec(self.time, 0, ONE))
    }

    /// The colour at the present time.
    pub open spec fn color(self) -> Color {
        curve_color(self.colors, clamp_between_spec(self.time, 0, ONE))
    }

    /// The rotation at which the particle is drawn: the direction of its
    /// velocity where it points the way it moves, else its own angle.
    pub open spec fn heading(self) -> i64 {
        if self.use_relative_angle {
            atan2_spec(self.velocity.y, self.velocity.x)
        } else {
            self.angle
        }
    }

    /// How the particle is drawn: at its position, scaled by its size on
    /// both axes, turned by its heading about its anchor, in its colour.
    pub open spec fn draw_param(self) -> DrawParam {
        DrawParam {
            dest: self.position,
            scale: Vector2 { x: self.size(), y: self.size() },
            rotation: self.heading(),
            offset: self.offset,
            color: self.color(),
        }
    }
}

impl Particle {
    /// Moves and ages the particle by `delta_time` seconds, with the emitter
    /// at `emitter_position`.
    pub fn update(&mut self, delta_time: i64, emitter_position: Vector2)
        ensures
            final(self)@ == old(self)@.step(delta_time, emitter_position),
    {
        let radial_vector = self.position.minus(emitter_position).normalized();
        let tangential_vector = radial_vector.perpendicular();
        let total = self.acceleration.plus(radial_vector.scaled(self.radial_acceleration)).plus(
            tangential_vector.scaled(self.tangential_acceleration),
        );
        self.time = sat_add(self.time, fx_div(delta_time, self.lifetime));
        let factor: i64 = fx_div(ONE, sat_add(ONE, fx_mul(self.damping, delta_time)));
        self.velocity = self.velocity.plus(total.scaled(delta_time)).scaled(factor);
        self.position = self.position.plus(self.velocity.scaled(delta_time));
        self.angle = sat_add(self.angle, fx_mul(self.spin, delta_time));
    }

    /// The size of the particle at the present time.
    pub fn get_size(&self) -> (size: i64)
        requires
            self.sizes@.len() >= 1,
        ensures
            size == self@.size(),
    {
        evaluate_curve(&self.sizes, clamp_between(self.time, 0, ONE))
    }

    /// The colour of the particle at the present time.
    pub fn get_color(&self) -> (color: Color)
        requires
            self.colors@.len() >= 1,
        ensures
            color == self@.color(),
    {
        evaluate_color_curve(&self.colors, clamp_between(self.time, 0, ONE))
    }

    /// The rotation at which the particle is drawn.
    pub fn get_angle(&self) -> (angle: i64)
        ensures
            angle == self@.heading(),
    {
        if self.use_relative_angle {
            fx_atan2(self.velocity.y, self.velocity.x)
        } else {
            self.angle
        }
    }

    /// How to render the particle.
    pub fn draw(&self) -> (param: DrawParam)
        requires
            self.sizes@.len() >= 1,
            self.colors@.len() >= 1,
        ensures
            param == self@.draw_param(),
    {
        let size: i64 = self.get_size();
        DrawParam {
            dest: self.position,
            scale: Vector2::new(size, size),
            rotation: self.get_angle(),
            offset: self.offset,
            color: self.get_color(),
        }
    }
}

/// A step changes nothing but the time, the velocity, the position and the
/// angle: what a particle was spawned with stays with it.
pub proof fn lemma_step_keeps_attributes(p: ParticleModel, delta_time: i64, emitter: Vector2)
    ensures
        p.step(delta_time, emitter).lifetime == p.lifetime,
        p.step(delta_time, emitter).sizes == p.sizes,
        p.step(delta_time, emitter).colors == p.colors,
        p.step(delta_time, emitter).use_relative_angle == p.use_relative_angle,
        p.step(delta_time, emitter).damping == p.damping,
        p.step(delta_time, emitter).acceleration == p.acceleration,
        p.step(delta_time, emitter).radial_acceleration == p.radial_acceleration,
        p.step(delta_time, emitter).tangential_acceleration == p.tangential_acceleration,
        p.step(delta_time, emitter).spin == p.spin,
        p.step(delta_time, emitter).offset == p.offset,
        p.well_formed() ==> p.step(delta_time, emitter).well_formed(),
{
}

/// A particle at the emitter's own position has the zero vector as its
/// radial vector, so that neither the radial nor the tangential acceleration
/// moves it: only the constant acceleration acts.
pub proof fn lemma_radial_vector_at_emitter(p: ParticleModel, emitter: Vector2)
    requires
        p.position == emitter,
    ensures
        p.radial_vector(emitter) == Vector2::zero_spec(),
        p.total_acceleration(emitter) == p.acceleration,
{
    lemma_normalized_zero(Vector2::zero_spec());
    assert(p.position.minus_spec(emitter) == Vector2::zero_spec());
    lemma_vector_identities(p.acceleration, p.radial_acceleration);
    lemma_vector_identities(p.acceleration, p.tangential_acceleration);
}

/// The radial vector never has a component beyond one, wherever the particle
/// is.
pub proof fn lemma_radial_vector_bounded(p: ParticleModel, emitter: Vector2)
    ensures
        -ONE <= p.radial_vector(emitter).x <= ONE,
        -ONE <= p.radial_vector(emitter).y <= ONE,
{
    let d = p.position.minus_spec(emitter);
    lemma_normalized_zero(d);
    if d.norm_spec() != 0 {
        assert(d.norm_squared() >= 0) by (nonlinear_arith)
            requires
                d.norm_squared() == d.x * d.x + d.y * d.y,
        ;
        lemma_isqrt_exists(d.norm_squared());
        lemma_unit_component(d.x, d.y, d.norm_spec());
        assert(d.y * d.y + d.x * d.x == d.norm_squared());
        lemma_unit_component(d.y, d.x, d.norm_spec());
    }
}

/// A particle with a positive lifetime does not grow younger in a step
/// forward in time, and a step of at least its lifetime ends its life.
pub proof fn lemma_step_ages(p: ParticleModel, delta_time: i64, emitter: Vector2)
    requires
        p.lifetime > 0,
        delta_time >= 0,
    ensures
        p.step(delta_time, emitter).time >= p.time,
        p.time >= 0 && delta_time >= p.lifetime ==> !p.step(delta_time, emitter).alive(),
{
    let q = (delta_time * ONE) / (p.lifetime as int);
    lemma_fundamental_div_mod(delta_time * ONE, p.lifetime as int);
    assert(q >= 0 && (delta_time >= p.lifetime ==> q >= 1_000_000)) by (nonlinear_arith)
        requires
            p.lifetime > 0,
            delta_time >= 0,
            delta_time * 1_000_000 == p.lifetime * q + (delta_time * 1_000_000) % (
            p.lifetime as int),
            0 <= (delta_time * 1_000_000) % (p.lifetime as int) < p.lifetime,
    ;
}

/// Without damping the velocity is only accelerated: the damping factor is
/// one, and scaling by one changes nothing.
pub proof fn lemma_undamped(p: ParticleModel, delta_time: i64, emitter: Vector2)
    requires
        p.damping == 0,
    ensures
        p.damping_factor(delta_time) == ONE,
        p.next_velocity(delta_time, emitter) == p.velocity.plus_spec(
            p.total_acceleration(emitter).scaled_spec(delta_time),
        ),
{
    lemma_unit_and_zero(delta_time);
    lemma_unit_and_zero(ONE);
    lemma_vector_identities(
        p.velocity.plus_spec(p.total_acceleration(emitter).scaled_spec(delta_time)),
        ONE,
    );
}

/// The colour of a well-formed particle lies in `[0, 1]` at every time.
pub proof fn lemma_color_in_unit(p: ParticleModel)
    requires
        p.well_formed(),
    ensures
        p.color().in_unit(),
{
    lemma_curve_color_in_unit(p.colors, clamp_between_spec(p.time, 0, ONE));
}

} // verus!
