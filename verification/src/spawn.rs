//! Spawning: drawing a particle's attributes from the settings.
//!
//! Every particle draws its own direction, speed, place and the rest, each
//! independently of the other particles of the same burst.

use vstd::prelude::*;
use rand::rngs::StdRng;
use crate::fixed::fx_mul;
use crate::fixed::fx_mul_spec;
use crate::fixed::half;
use crate::fixed::half_spec;
use crate::fixed::lemma_mul_shrinks;
use crate::fixed::lemma_unit_and_zero;
use crate::fixed::sat_add;
use crate::fixed::sat_add_spec;
use crate::fixed::sat_sub;
use crate::fixed::sat_sub_spec;
use crate::particle::Particle;
use crate::particle::ParticleModel;
use crate::random::get_rand_in_range;
use crate::random::get_rand_vector_in_range;
use crate::random::lemma_sampled_constant;
use crate::random::lemma_sampled_vector_constant;
use crate::random::lemma_sampled_within;
use crate::random::sampled;
use crate::random::sampled_vector;
use crate::settings::ParticleSystemSettings;
use crate::shape::get_particle_position_offset;
use crate::shape::reachable_offset;
use crate::trig::cos_spec;
use crate::trig::fx_cos;
use crate::trig::fx_sin;
use crate::trig::lemma_quarter_turns;
use crate::trig::lemma_wave_bounds;
use crate::trig::sin_spec;
use crate::vector::Vector2;

verus! {

/// What is drawn at random for one particle.
#[derive(Clone, Copy, Debug)]
pub struct SpawnSample {
    /// The direction of the initial velocity, in radians.
    pub angle: i64,
    /// The size of the initial velocity.
    pub speed: i64,
    /// Where the particle starts, from the emitter's position.
    pub offset: Vector2,
    pub lifetime: i64,
    pub damping: i64,
    pub acceleration: Vector2,
    pub radial_acceleration: i64,
    pub tangential_acceleration: i64,
    pub spin: i64,
}

/// The particle that the settings and one sample give: it starts at time
/// zero, unturned, at the emitter's position plus the offset, moving at the
/// sampled speed in the sampled direction, and keeps its own copy of the
/// keyframes, of the anchor and of whether it points the way it moves.
pub open spec fn spawn_spec(settings: ParticleSystemSettings, sample: SpawnSample) -> ParticleModel {
    ParticleModel {
        lifetime: sample.lifetime,
        sizes: settings.sizes@,
        colors: settings.colors@,
        use_relative_angle: settings.use_relative_angle,
        time: 0,
        position: settings.position.plus_spec(sample.offset),
        velocity: Vector2 {
            x: fx_mul_spec(sample.speed, cos_spec(sample.angle)),
            y: fx_mul_spec(sample.speed, sin_spec(sample.angle)),
        },
        damping: sample.damping,
        acceleration: sample.acceleration,
        radial_acceleration: sample.radial_acceleration,
        tangential_acceleration: sample.tangential_acceleration,
        angle: 0,
        spin: sample.spin,
        offset: settings.offset,
    }
}

/// `p` is a particle that the settings can spawn: some sample that the
/// settings admit gives it.
pub open spec fn spawned_by(settings: ParticleSystemSettings, p: ParticleModel) -> bool {
    exists|sample: SpawnSample| #[trigger]
        settings.admits(sample) && p == spawn_spec(settings, sample)
}

impl ParticleSystemSettings {
    /// The lowest direction that a new particle can take: the base angle
    /// less half the spread.
    pub open spec fn angle_start(&self) -> i64 {
        sat_sub_spec(self.angle, half_spec(self.spread))
    }

    /// The highest direction, which no particle reaches: the base angle plus
    /// half the spread.
    pub open spec fn angle_end(&self) -> i64 {
        sat_add_spec(self.angle, half_spec(self.spread))
    }

    /// Each value of `sample` is a point of the range that the settings give
    /// for it, and its offset a point of the emitter's shape.
    pub open spec fn admits(&self, sample: SpawnSample) -> bool {
        &&& sampled(self.angle_start(), self.angle_end(), sample.angle)
        &&& sampled(self.speed.start, self.speed.end, sample.speed)
        &&& reachable_offset(self.shape, sample.offset)
        &&& sampled(self.particle_lifetime.start, self.particle_lifetime.end, sample.lifetime)
        &&& sampled(self.damping.start, self.damping.end, sample.damping)
        &&& sampled_vector(self.acceleration.start, self.acceleration.end, sample.acceleration)
        &&& sampled(
            self.radial_acceleration.start,
            self.radial_acceleration.end,
            sample.radial_acceleration,
        )
        &&& sampled(
            self.tangential_acceleration.start,
            self.tangential_acceleration.end,
            sample.tangential_acceleration,
        )
        &&& sampled(self.spin.start, self.spin.end, sample.spin)
    }

    /// Draws what one particle needs.
    pub fn draw_sample(&self, rng: &mut StdRng) -> (sample: SpawnSample)
        ensures
            self.admits(sample),
    {
        let spread: i64 = half(self.spread);
        let directions = sat_sub(self.angle, spread)..sat_add(self.angle, spread);
        let angle: i64 = get_rand_in_range(&directions, rng);
        let speed: i64 = get_rand_in_range(&self.speed, rng);
        let offset = get_particle_position_offset(&self.shape, rng);
        let lifetime: i64 = get_rand_in_range(&self.particle_lifetime, rng);
        let damping: i64 = get_rand_in_range(&self.damping, rng);
        let acceleration = get_rand_vector_in_range(&self.acceleration, rng);
        let radial_acceleration: i64 = get_rand_in_range(&self.radial_acceleration, rng);
        let tangential_acceleration: i64 = get_rand_in_range(&self.tangential_acceleration, rng);
        let spin: i64 = get_rand_in_range(&self.spin, rng);
        SpawnSample {
            angle,
            speed,
            offset,
            lifetime,
            damping,
            acceleration,
            radial_acceleration,
            tangential_acceleration,
            spin,
        }
    }
}

impl Particle {
    /// The particle that the settings and one sample give.
    pub fn spawn(settings: &ParticleSystemSettings, sample: &SpawnSample) -> (p: Particle)
        ensures
            p@ == spawn_spec(*settings, *sample),
    {
        Particle {
            lifetime: sample.lifetime,
            sizes: settings.sizes.clone(),
            colors: settings.colors.clone(),
            use_relative_angle: settings.use_relative_angle,
            time: 0,
            position: settings.position.plus(sample.offset),
            velocity: Vector2::new(
                fx_mul(sample.speed, fx_cos(sample.angle)),
                fx_mul(sample.speed, fx_sin(sample.angle)),
            ),
            damping: sample.damping,
            acceleration: sample.acceleration,
            radial_acceleration: sample.radial_acceleration,
            tangential_acceleration: sample.tangential_acceleration,
            angle: 0,
            spin: sample.spin,
            offset: settings.offset,
        }
    }
}

/// A particle spawned by valid settings is well formed and alive, and holds
/// the settings' keyframes, anchor and heading rule as they were when it was
/// spawned.
pub proof fn lemma_spawned_well_formed(settings: ParticleSystemSettings, p: ParticleModel)
    requires
        settings.valid(),
        spawned_by(settings, p),
    ensures
        p.well_formed(),
        p.alive(),
        p.time == 0,
        p.angle == 0,
        p.sizes == settings.sizes@,
        p.colors == settings.colors@,
        p.use_relative_angle == settings.use_relative_angle,
        p.offset == settings.offset,
{
    let sample = choose|sample: SpawnSample| #[trigger]
        settings.admits(sample) && p == spawn_spec(settings, sample);
    lemma_sampled_within(
        settings.particle_lifetime.start,
        settings.particle_lifetime.end,
        sample.lifetime,
    );
}

/// Each sampled attribute of a spawned particle lies within the range that
/// the settings give for it.
pub proof fn lemma_spawned_within_ranges(settings: ParticleSystemSettings, p: ParticleModel)
    requires
        spawned_by(settings, p),
    ensures
        within(settings.particle_lifetime.start, settings.particle_lifetime.end, p.lifetime),
        within(settings.damping.start, settings.damping.end, p.damping),
        within(
            settings.radial_acceleration.start,
            settings.radial_acceleration.end,
            p.radial_acceleration,
        ),
        within(
            settings.tangential_acceleration.start,
            settings.tangential_acceleration.end,
            p.tangential_acceleration,
        ),
        within(settings.spin.start, settings.spin.end, p.spin),
{
    let sample = choose|sample: SpawnSample| #[trigger]
        settings.admits(sample) && p == spawn_spec(settings, sample);
    lemma_sampled_within(
        settings.particle_lifetime.start,
        settings.particle_lifetime.end,
        sample.lifetime,
    );
    lemma_sampled_within(settings.damping.start, settings.damping.end, sample.damping);
    lemma_sampled_within(
        settings.radial_acceleration.start,
        settings.radial_acceleration.end,
        sample.radial_acceleration,
    );
    lemma_sampled_within(
        settings.tangential_acceleration.start,
        settings.tangential_acceleration.end,
        sample.tangential_acceleration,
    );
    lemma_sampled_within(settings.spin.start, settings.spin.end, sample.spin);
}

/// `value` lies between `start` and `end`, whichever of the two is larger.
pub open spec fn within(start: i64, end: i64, value: i64) -> bool {
    (start <= value <= end) || (end <= value <= start)
}

/// Where every range of the settings has two equal ends and the emitter is a
/// point, nothing is left to chance: the settings spawn one particle only.
pub proof fn lemma_spawn_without_chance(
    settings: ParticleSystemSettings,
    p: ParticleModel,
    q: ParticleModel,
)
    requires
        spawned_by(settings, p),
        spawned_by(settings, q),
        settings.shape is Point,
        settings.angle_start() == settings.angle_end(),
        settings.speed.start == settings.speed.end,
        settings.particle_lifetime.start == settings.particle_lifetime.end,
        settings.damping.start == settings.damping.end,
        settings.acceleration.start == settings.acceleration.end,
        settings.radial_acceleration.start == settings.radial_acceleration.end,
        settings.tangential_acceleration.start == settings.tangential_acceleration.end,
        settings.spin.start == settings.spin.end,
    ensures
        p == q,
        p.lifetime == settings.particle_lifetime.start,
        p.position == settings.position.plus_spec(Vector2::zero_spec()),
{
    let a = choose|sample: SpawnSample| #[trigger]
        settings.admits(sample) && p == spawn_spec(settings, sample);
    let b = choose|sample: SpawnSample| #[trigger]
        settings.admits(sample) && q == spawn_spec(settings, sample);
    lemma_sample_without_chance(settings, a);
    lemma_sample_without_chance(settings, b);
}

/// Where every range has two equal ends and the emitter is a point, an
/// admitted sample holds the start of each range.
proof fn lemma_sample_without_chance(settings: ParticleSystemSettings, s: SpawnSample)
    requires
        settings.admits(s),
        settings.shape is Point,
        settings.angle_start() == settings.angle_end(),
        settings.speed.start == settings.speed.end,
        settings.particle_lifetime.start == settings.particle_lifetime.end,
        settings.damping.start == settings.damping.end,
        settings.acceleration.start == settings.acceleration.end,
        settings.radial_acceleration.start == settings.radial_acceleration.end,
        settings.tangential_acceleration.start == settings.tangential_acceleration.end,
        settings.spin.start == settings.spin.end,
    ensures
        s.angle == settings.angle_start(),
        s.speed == settings.speed.start,
        s.offset == Vector2::zero_spec(),
        s.lifetime == settings.particle_lifetime.start,
        s.damping == settings.damping.start,
        s.acceleration == settings.acceleration.start,
        s.radial_acceleration == settings.radial_acceleration.start,
        s.tangential_acceleration == settings.tangential_acceleration.start,
        s.spin == settings.spin.start,
{
    lemma_sampled_constant(settings.angle_start(), s.angle);
    lemma_sampled_constant(settings.speed.start, s.speed);
    lemma_sampled_constant(settings.particle_lifetime.start, s.lifetime);
    lemma_sampled_constant(settings.damping.start, s.damping);
    lemma_sampled_vector_constant(settings.acceleration.start, s.acceleration);
    lemma_sampled_constant(settings.radial_acceleration.start, s.radial_acceleration);
    lemma_sampled_constant(settings.tangential_acceleration.start, s.tangential_acceleration);
    lemma_sampled_constant(settings.spin.start, s.spin);
}

/// A particle sent off at angle zero moves along the x axis at its full
/// speed.
pub proof fn lemma_spawn_along_axis(settings: ParticleSystemSettings, sample: SpawnSample)
    requires
        sample.angle == 0,
    ensures
        spawn_spec(settings, sample).velocity == (Vector2 { x: sample.speed, y: 0 }),
{
    lemma_quarter_turns();
    lemma_unit_and_zero(sample.speed);
}

/// A particle starts no faster along either axis than the speed that was
/// sampled for it.
pub proof fn lemma_spawn_speed(settings: ParticleSystemSettings, sample: SpawnSample)
    ensures
        ({
            let velocity = spawn_spec(settings, sample).velocity;
            let speed = sample.speed;
            &&& speed >= 0 ==> -speed <= velocity.x <= speed && -speed <= velocity.y <= speed
            &&& speed <= 0 ==> speed <= velocity.x <= -speed && speed <= velocity.y <= -speed
        }),
{
    lemma_wave_bounds(sample.angle);
    lemma_mul_shrinks(sample.speed, cos_spec(sample.angle));
    lemma_mul_shrinks(sample.speed, sin_spec(sample.angle));
}

} // verus!
