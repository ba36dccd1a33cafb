//! The particle system: an emitter, its live particles, and the clock that
//! spaces the emissions.

use vstd::prelude::*;
use vstd::arithmetic::div_mod::lemma_fundamental_div_mod;
use vstd::arithmetic::div_mod::lemma_fundamental_div_mod_converse;
use rand::rngs::StdRng;
use crate::fixed::fx_mul;
use crate::fixed::fx_mul_spec;
use crate::fixed::sat_add;
use crate::fixed::sat_add_spec;
use crate::fixed::sat_sub;
use crate::fixed::sat_sub_spec;
use crate::fixed::ONE;
use crate::particle::lemma_color_in_unit;
use crate::particle::lemma_step_keeps_attributes;
use crate::particle::DrawParam;
use crate::particle::Particle;
use crate::particle::ParticleModel;
use crate::random::seeded;
use crate::settings::EmitterLifetime;
use crate::settings::ParticleSystemSettings;
use crate::spawn::lemma_spawned_well_formed;
use crate::spawn::spawned_by;
use crate::vector::Vector2;

verus! {

/// What a particle system holds besides its settings: the live particles in
/// the order in which they were spawned, whether the emitter is running, the
/// countdown to the next emission, and the seconds since the last start.
pub struct SystemModel {
    pub particles: Seq<ParticleModel>,
    pub running: bool,
    pub emit_timer: i64,
    pub time: i64,
}

/// The state of a particle system that only the system itself changes.
pub struct EmitterState {
    rng: StdRng,
    particles: Vec<Particle>,
    running: bool,
    emit_timer: i64,
    time: i64,
}

/// Manages particles: an emitter that produces them at a regular interval or
/// on demand, and the rules by which they move. `D` is whatever the host
/// draws each particle with.
pub struct ParticleSystem<D> {
    /// What the host draws each particle with.
    pub drawable: D,
    /// The settings from which new particles are spawned. They may be changed
    /// at any time; live particles keep what they were spawned with.
    pub settings: ParticleSystemSettings,
    /// The particles and the emitter's clock.
    pub state: EmitterState,
}

/// The models of a sequence of particles.
pub open spec fn models(particles: Seq<Particle>) -> Seq<ParticleModel> {
    particles.map_values(|p: Particle| p@)
}

/// Every particle of the sequence is well formed and alive.
pub open spec fn all_live(particles: Seq<ParticleModel>) -> bool {
    forall|i: int|
        0 <= i < particles.len() ==> (#[trigger] particles[i]).well_formed() && particles[i].alive()
}

/// `fresh` is a burst of `count` particles, each spawned by the settings.
pub open spec fn is_burst(
    settings: ParticleSystemSettings,
    fresh: Seq<ParticleModel>,
    count: nat,
) -> bool {
    &&& fresh.len() == count
    &&& forall|i: int| 0 <= i < fresh.len() ==> spawned_by(settings, #[trigger] fresh[i])
}

/// The step of one particle, as a function.
pub open spec fn step_fn(delta_time: i64, emitter: Vector2) -> spec_fn(ParticleModel) -> ParticleModel {
    |p: ParticleModel| p.step(delta_time, emitter)
}

/// Whether a particle is alive, as a function.
pub open spec fn alive_fn() -> spec_fn(ParticleModel) -> bool {
    |p: ParticleModel| p.alive()
}

/// Every particle stepped, and those that have lived their whole life
/// removed; the others keep their order.
pub open spec fn advance_all(
    particles: Seq<ParticleModel>,
    delta_time: i64,
    emitter: Vector2,
) -> Seq<ParticleModel> {
    particles.map_values(step_fn(delta_time, emitter)).filter(alive_fn())
}

/// How many emissions bring a countdown back above zero, each of them raising
/// it by one: none where it is above zero already.
pub open spec fn emission_count(timer: int) -> nat {
    if timer > 0 {
        0
    } else {
        ((-timer) / (ONE as int) + 1) as nat
    }
}

impl SystemModel {
    /// The countdown after `delta_time` seconds at the given rate, before any
    /// emission.
    pub open spec fn drained_timer(self, emission_rate: i64, delta_time: i64) -> i64 {
        sat_sub_spec(self.emit_timer, fx_mul_spec(emission_rate, delta_time))
    }

    /// How many particles one update emits: as many as bring the drained
    /// countdown back above zero while the emitter runs, none while it is
    /// stopped.
    pub open spec fn due(self, emission_rate: i64, delta_time: i64) -> nat {
        if self.running {
            emission_count(self.drained_timer(emission_rate, delta_time) as int)
        } else {
            0
        }
    }

    /// The system after the particles `fresh` were emitted on request.
    pub open spec fn with_burst(self, fresh: Seq<ParticleModel>) -> SystemModel {
        SystemModel { particles: self.particles + fresh, ..self }
    }

    /// The system after the emitter was started: nothing changes while it
    /// runs; a stopped emitter runs again with its clock and countdown reset.
    pub open spec fn started(self) -> SystemModel {
        if self.running {
            self
        } else {
            SystemModel { running: true, emit_timer: ONE, time: 0, ..self }
        }
    }

    /// The system after the emitter was stopped.
    pub open spec fn stopped(self) -> SystemModel {
        SystemModel { running: false, ..self }
    }

    /// The system after one update of `delta_time` seconds in which `fresh`
    /// was emitted. Old and fresh particles alike are stepped, and the dead
    /// removed. While the emitter runs, the countdown is drained by the rate
    /// times the step and then raised by one for each fresh particle, the
    /// clock advances, and the emitter stops once a finite lifetime is reached.
    pub open spec fn updated(
        self,
        settings: ParticleSystemSettings,
        delta_time: i64,
        fresh: Seq<ParticleModel>,
    ) -> SystemModel {
        let particles = advance_all(self.particles + fresh, delta_time, settings.position);
        if self.running {
            let time = sat_add_spec(self.time, delta_time);
            SystemModel {
                particles,
                running: match settings.emitter_lifetime {
                    EmitterLifetime::Infinite => true,
                    EmitterLifetime::Finite(limit) => time < limit,
                },
                emit_timer: (self.drained_timer(settings.emission_rate, delta_time) + fresh.len()
                    * ONE) as i64,
                time,
            }
        } else {
            SystemModel { particles, ..self }
        }
    }
}

impl View for EmitterState {
    type V = SystemModel;

    closed spec fn view(&self) -> SystemModel {
        SystemModel {
            particles: models(self.particles@),
            running: self.running,
            emit_timer: self.emit_timer,
            time: self.time,
        }
    }
}

impl<D> View for ParticleSystem<D> {
    type V = SystemModel;

    open spec fn view(&self) -> SystemModel {
        self.state@
    }
}

impl<D> ParticleSystem<D> {
    /// Every live particle is well formed and has not lived its whole life.
    pub open spec fn wf(&self) -> bool {
        all_live(self@.particles)
    }

    /// Creates a particle system that spawns from `settings` and draws its
    /// random numbers from a generator seeded with `seed`. The emitter runs,
    /// and there is no particle yet.
    pub fn new(drawable: D, settings: ParticleSystemSettings, seed: u64) -> (system: Self)
        ensures
            system.wf(),
            system.settings == settings,
            system.drawable == drawable,
            system@ == (SystemModel {
                particles: Seq::<ParticleModel>::empty(),
                running: true,
                emit_timer: ONE,
                time: 0,
            }),
    {
        let system = ParticleSystem {
            drawable,
            settings,
            state: EmitterState {
                rng: seeded(seed),
                particles: Vec::new(),
                running: true,
                emit_timer: ONE,
                time: 0,
            },
        };
        assert(system@.particles =~= Seq::<ParticleModel>::empty());
        system
    }

    /// Whether the emitter is currently creating new particles.
    pub fn running(&self) -> (running: bool)
        ensures
            running == self@.running,
    {
        self.state.running
    }

    /// The number of live particles.
    pub fn count(&self) -> (count: usize)
        ensures
            count == self@.particles.len(),
    {
        self.state.particles.len()
    }

    /// Starts the emitter.
    pub fn start(&mut self)
        ensures
            final(self)@ == old(self)@.started(),
            final(self).settings == old(self).settings,
            final(self).drawable == old(self).drawable,
    {
        if self.state.running {
            return ;
        }
        self.state.running = true;
        self.state.emit_timer = ONE;
        self.state.time = 0;
    }

    /// Stops the emitter. The live particles stay, and go on ageing.
    pub fn stop(&mut self)
        ensures
            final(self)@ == old(self)@.stopped(),
            final(self).settings == old(self).settings,
            final(self).drawable == old(self).drawable,
    {
        self.state.running = false;
    }

    /// Emits `count` particles at once, whether or not the emitter runs.
    pub fn emit(&mut self, count: usize)
        requires
            old(self).wf(),
            old(self).settings.valid(),
        ensures
            final(self).wf(),
            final(self).settings == old(self).settings,
            final(self).drawable == old(self).drawable,
            final(self)@.particles.len() == old(self)@.particles.len() + count,
            exists|fresh: Seq<ParticleModel>|
                is_burst(old(self).settings, fresh, count as nat) && final(self)@ == #[trigger] old(
                    self,
                )@.with_burst(fresh),
    {
        let _ = self.emit_burst(count);
    }

    /// Emits `count` particles, and says which.
    fn emit_burst(&mut self, count: usize) -> (burst: Ghost<Seq<ParticleModel>>)
        requires
            old(self).wf(),
            old(self).settings.valid(),
        ensures
            final(self).wf(),
            final(self).settings == old(self).settings,
            final(self).drawable == old(self).drawable,
            is_burst(old(self).settings, burst@, count as nat),
            final(self)@ == old(self)@.with_burst(burst@),
    {
        let ghost mut fresh: Seq<ParticleModel> = Seq::empty();
        let mut emitted: usize = 0;
        assert(self@.particles =~= old(self)@.particles + fresh);
        while emitted < count
            invariant
                emitted <= count,
                self.settings == old(self).settings,
                self.drawable == old(self).drawable,
                self.settings.valid(),
                self.wf(),
                is_burst(self.settings, fresh, emitted as nat),
                self@ == old(self)@.with_burst(fresh),
            decreases count - emitted,
        {
            let sample = self.settings.draw_sample(&mut self.state.rng);
            let particle = Particle::spawn(&self.settings, &sample);
            proof {
                assert(spawned_by(self.settings, particle@));
                lemma_spawned_well_formed(self.settings, particle@);
                let ghost before = self@.particles;
                fresh = fresh.push(particle@);
                assert(models(self.state.particles@.push(particle)) =~= before.push(particle@));
                assert(old(self)@.particles + fresh =~= before.push(particle@));
            }
            self.state.particles.push(particle);
            emitted += 1;
        }
        Ghost(fresh)
    }

    /// Advances the system by `delta_time` seconds. While the emitter runs it
    /// emits the particles that have come due, however long the step: the
    /// countdown falls by the rate times the step, and each emission raises
    /// it by one until it is above zero. Then every particle moves and ages,
    /// and those that have lived their whole life are removed.
    pub fn update(&mut self, delta_time: i64)
        requires
            old(self).wf(),
            old(self)@.running ==> old(self).settings.valid(),
        ensures
            final(self).wf(),
            final(self).settings == old(self).settings,
            final(self).drawable == old(self).drawable,
            exists|fresh: Seq<ParticleModel>|
                is_burst(
                    old(self).settings,
                    fresh,
                    old(self)@.due(old(self).settings.emission_rate, delta_time),
                ) && final(self)@ == #[trigger] old(self)@.updated(
                    old(self).settings,
                    delta_time,
                    fresh,
                ),
    {
        let ghost mut fresh: Seq<ParticleModel> = Seq::empty();
        assert(self@.particles =~= old(self)@.particles + fresh);
        if self.state.running {
            let mut timer: i64 = sat_sub(
                self.state.emit_timer,
                fx_mul(self.settings.emission_rate, delta_time),
            );
            let ghost drained = timer;
            while timer <= 0
                invariant
                    self.settings == old(self).settings,
                self.drawable == old(self).drawable,
                    self.settings.valid(),
                    self.wf(),
                    is_burst(self.settings, fresh, fresh.len()),
                    self@.particles == old(self)@.particles + fresh,
                    self@.running == old(self)@.running,
                    self@.time == old(self)@.time,
                    timer == drained + fresh.len() * ONE,
                    fresh.len() > 0 ==> timer <= ONE,
                decreases ONE - timer,
            {
                timer += ONE;
                let ghost before = self@;
                let Ghost(one) = self.emit_burst(1);
                proof {
                    assert(old(self)@.particles + (fresh + one) =~= before.particles + one);
                    fresh = fresh + one;
                }
            }
            self.state.emit_timer = timer;
            proof {
                lemma_emission_count(drained as int, fresh.len());
            }
            self.state.time = sat_add(self.state.time, delta_time);
            match self.settings.emitter_lifetime {
                EmitterLifetime::Infinite => {},
                EmitterLifetime::Finite(limit) => {
                    if self.state.time >= limit {
                        self.stop();
                    }
                },
            }
        }
        proof {
            lemma_advance_live(self@.particles, delta_time, self.settings.position);
        }
        advance_particles(&mut self.state.particles, delta_time, self.settings.position);
        assert(self@ == old(self)@.updated(old(self).settings, delta_time, fresh));
    }

    /// How to render each live particle, in the order in which they were
    /// spawned. Every colour lies in `[0, 1]`.
    pub fn draw(&self) -> (params: Vec<DrawParam>)
        requires
            self.wf(),
        ensures
            params@ == self@.particles.map_values(|p: ParticleModel| p.draw_param()),
            forall|i: int| 0 <= i < params@.len() ==> (#[trigger] params@[i]).color.in_unit(),
    {
        let mut params: Vec<DrawParam> = Vec::new();
        let mut i: usize = 0;
        let ghost all = self@.particles;
        while i < self.state.particles.len()
            invariant
                self.wf(),
                all == self@.particles,
                all.len() == self.state.particles@.len(),
                i <= all.len(),
                params@ == all.subrange(0, i as int).map_values(|p: ParticleModel| p.draw_param()),
            decreases all.len() - i,
        {
            assert(all[i as int] == self.state.particles@[i as int]@);
            assert(all[i as int].well_formed());
            let param = self.state.particles[i].draw();
            params.push(param);
            assert(all.subrange(0, i + 1) =~= all.subrange(0, i as int).push(all[i as int]));
            i += 1;
        }
        assert(all.subrange(0, i as int) =~= all);
        assert forall|i: int| 0 <= i < params@.len() implies (#[trigger] params@[i]).color.in_unit() by {
            lemma_color_in_unit(all[i]);
        }
        params
    }
}

/// What is left of one stepped particle: itself if it is alive, nothing if not.
pub open spec fn kept(p: ParticleModel) -> Seq<ParticleModel> {
    if p.alive() {
        seq![p]
    } else {
        Seq::empty()
    }
}

/// Advancing a sequence advances its first particle and then the rest.
pub proof fn lemma_advance_front(particles: Seq<ParticleModel>, delta_time: i64, emitter: Vector2)
    requires
        particles.len() > 0,
    ensures
        advance_all(particles, delta_time, emitter) == kept(particles[0].step(delta_time, emitter))
            + advance_all(particles.drop_first(), delta_time, emitter),
{
    let step = step_fn(delta_time, emitter);
    let first = seq![particles[0]];
    let rest = particles.drop_first();
    assert(particles =~= first + rest);
    assert(particles.map_values(step) =~= first.map_values(step) + rest.map_values(step));
    Seq::filter_distributes_over_add(first.map_values(step), rest.map_values(step), alive_fn());
    let stepped = particles[0].step(delta_time, emitter);
    assert(first.map_values(step) =~= seq![stepped]);
    reveal_with_fuel(Seq::filter, 2);
    assert(seq![stepped].drop_last() =~= Seq::<ParticleModel>::empty());
    assert(seq![stepped].filter(alive_fn()) =~= kept(stepped));
}

/// Advancing no particle leaves none.
pub proof fn lemma_advance_none(delta_time: i64, emitter: Vector2)
    ensures
        advance_all(Seq::<ParticleModel>::empty(), delta_time, emitter) == Seq::<
            ParticleModel,
        >::empty(),
{
    reveal_with_fuel(Seq::filter, 1);
    assert(Seq::<ParticleModel>::empty().map_values(step_fn(delta_time, emitter))
        =~= Seq::<ParticleModel>::empty());
}

/// Steps every particle, and removes those that have lived their whole life,
/// from the last to the first so that a removal moves none that is still to
/// be visited.
fn advance_particles(particles: &mut Vec<Particle>, delta_time: i64, emitter: Vector2)
    ensures
        models(final(particles)@) == advance_all(models(old(particles)@), delta_time, emitter),
{
    let ghost before = models(particles@);
    let mut i: usize = particles.len();
    proof {
        lemma_advance_none(delta_time, emitter);
        assert(before.subrange(0, i as int) =~= before);
        assert(before.subrange(i as int, before.len() as int) =~= Seq::<ParticleModel>::empty());
    }
    while i > 0
        invariant
            i <= before.len(),
            models(particles@) == before.subrange(0, i as int) + advance_all(
                before.subrange(i as int, before.len() as int),
                delta_time,
                emitter,
            ),
        decreases i,
    {
        let ghost tail = advance_all(
            before.subrange(i as int, before.len() as int),
            delta_time,
            emitter,
        );
        let ghost previous = models(particles@);
        assert(previous.len() == i + tail.len());
        i -= 1;
        assert(previous[i as int] == before[i as int]);
        particles[i].update(delta_time, emitter);
        let ghost stepped = before[i as int].step(delta_time, emitter);
        assert(models(particles@) =~= previous.update(i as int, stepped));
        if particles[i].time >= ONE {
            particles.remove(i);
            assert(models(particles@) =~= previous.remove(i as int));
        }
        proof {
            let from_here = before.subrange(i as int, before.len() as int);
            lemma_advance_front(from_here, delta_time, emitter);
            assert(from_here.drop_first() =~= before.subrange(i + 1, before.len() as int));
            assert(models(particles@) =~= before.subrange(0, i as int) + (kept(stepped) + tail));
        }
    }
    proof {
        assert(before.subrange(0, before.len() as int) =~= before);
    }
}

/// A countdown that `count` emissions have brought from at most zero back
/// into `(0, 1]` has had as many emissions as were due; one that was above
/// zero has had none.
pub proof fn lemma_emission_count(drained: int, count: nat)
    requires
        drained + count * ONE > 0,
        count > 0 ==> drained + count * ONE <= ONE,
    ensures
        count == emission_count(drained),
{
    if count > 0 {
        let left = drained + count * ONE;
        lemma_fundamental_div_mod_converse(-drained, ONE as int, count - 1, ONE - left);
    }
}

/// Advancing well-formed particles leaves particles that are well formed and
/// alive: none that has lived its whole life stays.
pub proof fn lemma_advance_live(particles: Seq<ParticleModel>, delta_time: i64, emitter: Vector2)
    requires
        forall|i: int| 0 <= i < particles.len() ==> (#[trigger] particles[i]).well_formed(),
    ensures
        all_live(advance_all(particles, delta_time, emitter)),
{
    let stepped = particles.map_values(step_fn(delta_time, emitter));
    let left = advance_all(particles, delta_time, emitter);
    assert forall|i: int| 0 <= i < left.len() implies (#[trigger] left[i]).well_formed()
        && left[i].alive() by {
        stepped.lemma_filter_pred(alive_fn(), i);
        assert(left.contains(left[i]));
        stepped.lemma_filter_contains_rev(alive_fn(), left[i]);
        let j = choose|j: int| 0 <= j < stepped.len() && stepped[j] == left[i];
        lemma_step_keeps_attributes(particles[j], delta_time, emitter);
    }
}

/// After the due emissions a countdown is back in `(0, 1]`, or was above
/// zero and is unchanged.
pub proof fn lemma_countdown_restored(timer: int)
    ensures
        timer > 0 ==> emission_count(timer) == 0,
        timer <= 0 ==> 0 < timer + emission_count(timer) * ONE <= ONE,
{
    if timer <= 0 {
        lemma_fundamental_div_mod(-timer, ONE as int);
    }
}

/// Emissions keep their spacing whatever the length of the steps: two
/// updates that drain the countdown by `first` and then by `second` emit
/// together as many particles as one update that drains it by their sum.
pub proof fn lemma_emissions_add_up(timer: int, first: int, second: int)
    requires
        second >= 0,
    ensures
        ({
            let early = emission_count(timer - first);
            let late = emission_count(timer - first + early * ONE - second);
            early + late == emission_count(timer - first - second)
        }),
{
    let drained = timer - first;
    let early = emission_count(drained);
    let left = drained + early * ONE;
    lemma_countdown_restored(drained);
    let late = emission_count(left - second);
    lemma_countdown_restored(left - second);
    lemma_countdown_restored(drained - second);
    if drained - second <= 0 {
        let after = left - second + late * ONE;
        assert(after == (drained - second) + (early + late) * ONE) by (nonlinear_arith)
            requires
                after == left - second + late * ONE,
                left == drained + early * ONE,
        ;
        assert(early + late > 0);
        lemma_emission_count((drained - second) as int, early + late);
    }
}

/// A steady rate emits steadily: a freshly started emitter whose countdown
/// is drained by a whole number `count`, at least one,
/// emits exactly `count` particles in that update.
pub proof fn lemma_fixed_rate(m: SystemModel, emission_rate: i64, delta_time: i64, count: nat)
    requires
        m.running,
        m.emit_timer == ONE,
        count >= 1,
        fx_mul_spec(emission_rate, delta_time) == count * ONE,
    ensures
        m.due(emission_rate, delta_time) == count,
{
    let drained = m.drained_timer(emission_rate, delta_time);
    assert(drained == ONE - count * ONE);
    lemma_fundamental_div_mod_converse(-drained, ONE as int, count - 1, 0);
}

/// A stopped emitter emits nothing of its own accord, and its clock and
/// countdown stand still; particles emitted on request are added all the same.
pub proof fn lemma_stopped_emits_on_request_only(
    m: SystemModel,
    settings: ParticleSystemSettings,
    delta_time: i64,
    fresh: Seq<ParticleModel>,
)
    ensures
        m.stopped().due(settings.emission_rate, delta_time) == 0,
        !m.stopped().updated(settings, delta_time, Seq::empty()).running,
        m.stopped().updated(settings, delta_time, Seq::empty()).emit_timer == m.emit_timer,
        m.stopped().updated(settings, delta_time, Seq::empty()).time == m.time,
        m.stopped().with_burst(fresh).particles.len() == m.particles.len() + fresh.len(),
        m.stopped().with_burst(fresh).particles.subrange(
            m.particles.len() as int,
            (m.particles.len() + fresh.len()) as int,
        ) == fresh,
{
    assert(m.stopped().with_burst(fresh).particles.subrange(
        m.particles.len() as int,
        (m.particles.len() + fresh.len()) as int,
    ) =~= fresh);
}

/// An emitter with a finite lifetime runs on after an update exactly if its
/// clock is still short of that lifetime; once stopped it stays stopped
/// through every update, until it is started again.
pub proof fn lemma_finite_lifetime(
    m: SystemModel,
    settings: ParticleSystemSettings,
    delta_time: i64,
    fresh: Seq<ParticleModel>,
    limit: i64,
)
    requires
        settings.emitter_lifetime == EmitterLifetime::Finite(limit),
    ensures
        m.updated(settings, delta_time, fresh).running <==> m.running && sat_add_spec(
            m.time,
            delta_time,
        ) < limit,
        m.running ==> m.updated(settings, delta_time, fresh).time == sat_add_spec(
            m.time,
            delta_time,
        ),
        !m.running ==> m.due(settings.emission_rate, delta_time) == 0,
{
}

/// Every particle left after an update is the step of a particle that was
/// there before it or was emitted in it, so it looks as it was spawned to
/// look: an update reads the settings for the emitter's position only, and
/// changed settings show in particles spawned afterwards.
pub proof fn lemma_advance_keeps_attributes(
    particles: Seq<ParticleModel>,
    delta_time: i64,
    emitter: Vector2,
    i: int,
) -> (j: int)
    requires
        0 <= i < advance_all(particles, delta_time, emitter).len(),
    ensures
        0 <= j < particles.len(),
        advance_all(particles, delta_time, emitter)[i] == particles[j].step(delta_time, emitter),
        advance_all(particles, delta_time, emitter)[i].sizes == particles[j].sizes,
        advance_all(particles, delta_time, emitter)[i].colors == particles[j].colors,
        advance_all(particles, delta_time, emitter)[i].lifetime == particles[j].lifetime,
        advance_all(particles, delta_time, emitter)[i].offset == particles[j].offset,
        advance_all(particles, delta_time, emitter)[i].use_relative_angle
            == particles[j].use_relative_angle,
{
    let stepped = particles.map_values(step_fn(delta_time, emitter));
    let left = advance_all(particles, delta_time, emitter);
    assert(left.contains(left[i]));
    stepped.lemma_filter_contains_rev(alive_fn(), left[i]);
    let j = choose|j: int| 0 <= j < stepped.len() && stepped[j] == left[i];
    j
}

/// The particles that survive an update keep the order they had, and where
/// every particle survives, every particle is there, stepped.
pub proof fn lemma_advance_all_alive(
    particles: Seq<ParticleModel>,
    delta_time: i64,
    emitter: Vector2,
)
    requires
        forall|i: int|
            0 <= i < particles.len() ==> (#[trigger] particles[i]).step(delta_time, emitter).alive(),
    ensures
        advance_all(particles, delta_time, emitter) == particles.map_values(
            step_fn(delta_time, emitter),
        ),
        advance_all(particles, delta_time, emitter).len() == particles.len(),
    decreases particles.len(),
{
    if particles.len() == 0 {
        lemma_advance_none(delta_time, emitter);
        assert(particles =~= Seq::<ParticleModel>::empty());
    } else {
        lemma_advance_front(particles, delta_time, emitter);
        let rest = particles.drop_first();
        assert forall|i: int| 0 <= i < rest.len() implies (#[trigger] rest[i]).step(
            delta_time,
            emitter,
        ).alive() by {
            assert(rest[i] == particles[i + 1]);
        }
        lemma_advance_all_alive(rest, delta_time, emitter);
        assert(particles.map_values(step_fn(delta_time, emitter)) =~= seq![
            particles[0].step(delta_time, emitter),
        ] + rest.map_values(step_fn(delta_time, emitter)));
    }
}

/// Where no particle survives an update, none is left: a particle whose time
/// reaches one in a step is removed in that same step.
pub proof fn lemma_advance_all_dead(
    particles: Seq<ParticleModel>,
    delta_time: i64,
    emitter: Vector2,
)
    requires
        forall|i: int|
            0 <= i < particles.len() ==> !(#[trigger] particles[i]).step(
                delta_time,
                emitter,
            ).alive(),
    ensures
        advance_all(particles, delta_time, emitter).len() == 0,
    decreases particles.len(),
{
    if particles.len() == 0 {
        lemma_advance_none(delta_time, emitter);
        assert(particles =~= Seq::<ParticleModel>::empty());
    } else {
        lemma_advance_front(particles, delta_time, emitter);
        let rest = particles.drop_first();
        assert forall|i: int| 0 <= i < rest.len() implies !(#[trigger] rest[i]).step(
            delta_time,
            emitter,
        ).alive() by {
            assert(rest[i] == particles[i + 1]);
        }
        lemma_advance_all_dead(rest, delta_time, emitter);
    }
}

} // verus!
