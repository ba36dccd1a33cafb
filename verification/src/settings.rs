//! The configuration of a particle system.

use vstd::prelude::*;
use std::ops::Range;
use crate::color::Color;
use crate::fixed::HALF;
use crate::fixed::ONE;
use crate::shape::EmitterShape;
use crate::trig::TAU;
use crate::vector::Vector2;

verus! {

/// How long a particle system keeps emitting particles.
#[derive(Clone, Copy, Debug)]
pub enum EmitterLifetime {
    /// The system emits particles until it is stopped.
    Infinite,
    /// The system emits particles for this many seconds and then stops.
    Finite(i64),
}

/// A configuration for a particle system. It is read whenever a particle is
/// spawned; a particle keeps what it was spawned with.
#[derive(Debug)]
pub struct ParticleSystemSettings {
    /// The centre of the emitter.
    pub position: Vector2,
    /// How long the emitter keeps running.
    pub emitter_lifetime: EmitterLifetime,
    /// How long new particles live, in seconds.
    pub particle_lifetime: Range<i64>,
    /// The number of particles the emitter produces per second.
    pub emission_rate: i64,
    /// The area in which the emitter spawns particles.
    pub shape: EmitterShape,
    /// The initial speed of new particles.
    pub speed: Range<i64>,
    /// The initial direction of new particles, in radians.
    pub angle: i64,
    /// How much the initial direction of new particles varies, in radians.
    pub spread: i64,
    /// The sizes of new particles over their lifetime.
    pub sizes: Vec<i64>,
    /// The colours of new particles over their lifetime.
    pub colors: Vec<Color>,
    /// The angular velocity of new particles.
    pub spin: Range<i64>,
    /// Whether new particles always point the way they move.
    pub use_relative_angle: bool,
    /// How strongly new particles are slowed down.
    pub damping: Range<i64>,
    /// The constant acceleration of new particles along the two axes.
    pub acceleration: Range<Vector2>,
    /// The acceleration of new particles away from the centre of the emitter.
    pub radial_acceleration: Range<i64>,
    /// The acceleration of new particles around the centre of the emitter.
    pub tangential_acceleration: Range<i64>,
    /// The anchor about which new particles are scaled and turned.
    pub offset: Vector2,
}

/// What makes a configuration unusable.
#[derive(Clone, Copy, Debug, PartialEq, Eq, Structural)]
pub enum SettingsError {
    /// There is no size keyframe.
    NoSizes,
    /// There is no colour keyframe.
    NoColors,
    /// A colour keyframe has a component outside `[0, 1]`.
    ColorOutOfRange,
    /// An end of the particle lifetime range is zero or negative.
    LifetimeNotPositive,
}

/// Every colour of the sequence has all its components in `[0, 1]`.
pub open spec fn colors_in_unit(colors: Seq<Color>) -> bool {
    forall|i: int| 0 <= i < colors.len() ==> (#[trigger] colors[i]).in_unit()
}

impl ParticleSystemSettings {
    /// The configuration can spawn particles: there is at least one size and
    /// one colour keyframe, every colour lies in `[0, 1]`, and particles live
    /// for a positive time.
    pub open spec fn valid(&self) -> bool {
        &&& self.sizes@.len() >= 1
        &&& self.colors@.len() >= 1
        &&& colors_in_unit(self.colors@)
        &&& self.particle_lifetime.start > 0
        &&& self.particle_lifetime.end > 0
    }

    /// Checks the configuration, and names the first thing wrong with it.
    pub fn validate(&self) -> (result: Result<(), SettingsError>)
        ensures
            result is Ok <==> self.valid(),
            result == Err::<(), SettingsError>(SettingsError::NoSizes) <==> self.sizes@.len() == 0,
            result == Err::<(), SettingsError>(SettingsError::NoColors) <==> self.sizes@.len() > 0
                && self.colors@.len() == 0,
            result == Err::<(), SettingsError>(SettingsError::ColorOutOfRange) <==> self.sizes@.len()
                > 0 && self.colors@.len() > 0 && !colors_in_unit(self.colors@),
            result == Err::<(), SettingsError>(SettingsError::LifetimeNotPositive)
                <==> self.sizes@.len() > 0 && self.colors@.len() > 0 && colors_in_unit(
                self.colors@,
            ) && !(self.particle_lifetime.start > 0 && self.particle_lifetime.end > 0),
    {
        if self.sizes.len() == 0 {
            return Err(SettingsError::NoSizes);
        }
        if self.colors.len() == 0 {
            return Err(SettingsError::NoColors);
        }
        let mut i: usize = 0;
        while i < self.colors.len()
            invariant
                self.sizes@.len() > 0,
                self.colors@.len() > 0,
                i <= self.colors@.len(),
                forall|j: int| 0 <= j < i ==> (#[trigger] self.colors@[j]).in_unit(),
            decreases self.colors@.len() - i,
        {
            if !self.colors[i].is_in_unit() {
                assert(!self.colors@[i as int].in_unit());
                return Err(SettingsError::ColorOutOfRange);
            }
            i += 1;
        }
        if self.particle_lifetime.start <= 0 || self.particle_lifetime.end <= 0 {
            return Err(SettingsError::LifetimeNotPositive);
        }
        Ok(())
    }
}

impl ParticleSystemSettings {
    /// Two configurations hold the same values.
    pub open spec fn same_values(&self, other: &ParticleSystemSettings) -> bool {
        &&& self.position == other.position
        &&& self.emitter_lifetime == other.emitter_lifetime
        &&& self.particle_lifetime == other.particle_lifetime
        &&& self.emission_rate == other.emission_rate
        &&& self.shape == other.shape
        &&& self.speed == other.speed
        &&& self.angle == other.angle
        &&& self.spread == other.spread
        &&& self.sizes@ == other.sizes@
        &&& self.colors@ == other.colors@
        &&& self.spin == other.spin
        &&& self.use_relative_angle == other.use_relative_angle
        &&& self.damping == other.damping
        &&& self.acceleration == other.acceleration
        &&& self.radial_acceleration == other.radial_acceleration
        &&& self.tangential_acceleration == other.tangential_acceleration
        &&& self.offset == other.offset
    }
}

impl Clone for ParticleSystemSettings {
    fn clone(&self) -> (copy: Self)
        ensures
            copy.same_values(self),
    {
        ParticleSystemSettings {
            position: self.position,
            emitter_lifetime: self.emitter_lifetime,
            particle_lifetime: self.particle_lifetime.start..self.particle_lifetime.end,
            emission_rate: self.emission_rate,
            shape: self.shape,
            speed: self.speed.start..self.speed.end,
            angle: self.angle,
            spread: self.spread,
            sizes: self.sizes.clone(),
            colors: self.colors.clone(),
            spin: self.spin.start..self.spin.end,
            use_relative_angle: self.use_relative_angle,
            damping: self.damping.start..self.damping.end,
            acceleration: self.acceleration.start..self.acceleration.end,
            radial_acceleration: self.radial_acceleration.start..self.radial_acceleration.end,
            tangential_acceleration: self.tangential_acceleration.start
                ..self.tangential_acceleration.end,
            offset: self.offset,
        }
    }
}

impl Default for ParticleSystemSettings {
    /// An emitter at the origin that runs forever and sends ten white
    /// particles a second in every direction, each of size one and living
    /// for one second.
    fn default() -> (settings: Self)
        ensures
            settings.valid(),
            settings.position == Vector2::zero_spec(),
            settings.emitter_lifetime is Infinite,
            settings.particle_lifetime.start == ONE,
            settings.particle_lifetime.end == ONE,
            settings.emission_rate == 10 * ONE,
            settings.shape is Point,
            settings.speed.start == 10 * ONE,
            settings.speed.end == 100 * ONE,
            settings.angle == 0,
            settings.spread == TAU,
            settings.sizes@ == seq![ONE],
            settings.colors@ == seq![Color { r: ONE, g: ONE, b: ONE, a: ONE }],
            settings.spin.start == 0,
            settings.spin.end == 0,
            !settings.use_relative_angle,
            settings.damping.start == 0,
            settings.damping.end == 0,
            settings.acceleration.start == Vector2::zero_spec(),
            settings.acceleration.end == Vector2::zero_spec(),
            settings.radial_acceleration.start == 0,
            settings.radial_acceleration.end == 0,
            settings.tangential_acceleration.start == 0,
            settings.tangential_acceleration.end == 0,
            settings.offset == (Vector2 { x: HALF, y: HALF }),
    {
        let mut sizes: Vec<i64> = Vec::new();
        sizes.push(ONE);
        let mut colors: Vec<Color> = Vec::new();
        colors.push(Color::new(ONE, ONE, ONE, ONE));
        ParticleSystemSettings {
            position: Vector2::zero(),
            emitter_lifetime: EmitterLifetime::Infinite,
            particle_lifetime: ONE..ONE,
            emission_rate: 10_000_000,
            shape: EmitterShape::Point,
            speed: 10_000_000..100_000_000,
            angle: 0,
            spread: TAU,
            sizes,
            colors,
            spin: 0..0,
            use_relative_angle: false,
            damping: 0..0,
            acceleration: Vector2::zero()..Vector2::zero(),
            radial_acceleration: 0..0,
            tangential_acceleration: 0..0,
            offset: Vector2::new(HALF, HALF),
        }
    }
}

} // verus!
