//! A simulation: particles, a clock and a source of chance, advanced in
//! ticks by whoever drives it.

use vstd::prelude::*;
use rand::rngs::StdRng;
use crate::config::Config;
use crate::config::ConfigError;
use crate::config::TIME_LIMIT;
use crate::epidemic::after_epoch;
use crate::epidemic::epidemic_epoch;
use crate::health::State;
use crate::particle::Dot;
use crate::particle::SETTLE_TIME;
use crate::random::seeded;
use crate::relax::next_mover;
use crate::relax::Relaxer;
use crate::relax::Reply;
use crate::relax::Request;
use crate::store::ParticleStore;
use crate::vec2::V;

verus! {

/// How one particle is drawn.
#[derive(Clone, Copy, Debug, PartialEq, Eq)]
pub struct DrawCommand {
    pub position: V,
    pub radius: i64,
    /// Red, green and blue out of 255.
    pub color: [u8; 3],
}

/// What a tick of the clock brought.
#[derive(Clone, Copy, Debug, PartialEq, Eq, Structural)]
pub enum Tick {
    /// Time passed and nothing else.
    Idle,
    /// An epoch was due: the epidemic took its course and a pass of
    /// relaxation has begun.
    Epoch,
}

/// A simulation.
pub struct Simulation {
    pub config: Config,
    pub store: ParticleStore,
    /// The time that has passed since the start.
    pub clock: u64,
    /// An epoch is due once the clock has passed this moment.
    pub next_epoch: u64,
    /// The pass of relaxation that belongs to the last epoch.
    pub relaxer: Relaxer,
    pub rng: StdRng,
}

/// The particle that a simulation starts with at `pos`.
pub open spec fn newcomer(pos: V, radius: i64) -> Dot {
    Dot {
        new_pos: pos,
        new_t: SETTLE_TIME,
        last_pos: pos,
        last_t: 0,
        velocity: V(0, 0),
        anchored: false,
        state: State::Susceptible,
        radius,
    }
}

/// The first fault of a configuration together with its starting
/// positions, if they have one.
pub open spec fn start_fault(config: Config, positions: Seq<V>) -> Option<ConfigError> {
    if config.fault() is Some {
        config.fault()
    } else if positions.len() != config.particle_count || exists|i: int|
        0 <= i < positions.len() && !config.domain_spec().holds(
            (#[trigger] positions[i]).0 as int,
            positions[i].1 as int,
        ) {
        Some(ConfigError::Placement)
    } else {
        None
    }
}

impl Simulation {
    /// The simulation is valid: its configuration has no fault, it holds
    /// as many valid particles as configured, and its clock is within
    /// `TIME_LIMIT`.
    pub open spec fn wf(&self) -> bool {
        &&& self.config.wf()
        &&& self.store.wf()
        &&& self.store.dots@.len() == self.config.particle_count
        &&& self.relaxer.wf(self.store.dots@)
        &&& self.clock <= TIME_LIMIT
    }

    /// A simulation at time zero with a susceptible particle at rest at
    /// each of the positions, and a source of chance made from `seed`.
    /// A faulty configuration is refused, and so are positions whose
    /// number is not the number of particles or that lie outside the
    /// domain.
    pub fn new(config: Config, positions: &Vec<V>, seed: u64) -> (made: Result<
        Simulation,
        ConfigError,
    >)
        ensures
            match made {
                Ok(sim) => {
                    &&& start_fault(config, positions@) is None
                    &&& sim.wf()
                    &&& sim.config == config
                    &&& sim.clock == 0
                    &&& sim.next_epoch == 0
                    &&& sim.relaxer.finished(sim.store.dots@)
                    &&& sim.store.dots@.len() == positions@.len()
                    &&& forall|i: int|
                        0 <= i < positions@.len() ==> #[trigger] sim.store.dots@[i] == newcomer(
                            positions@[i],
                            config.interaction_radius,
                        )
                },
                Err(error) => start_fault(config, positions@) == Some(error),
            },
    {
        match config.validate() {
            Err(error) => {
                return Err(error);
            },
            Ok(_) => {},
        }
        if positions.len() != config.particle_count {
            return Err(ConfigError::Placement);
        }
        let domain = config.domain();
        let mut store = ParticleStore::new();
        let n = positions.len();
        let mut k: usize = 0;
        while k < n
            invariant
                n == positions@.len(),
                k <= n,
                config.wf(),
                domain == config.domain_spec(),
                domain.wf(),
                store.wf(),
                store.dots@.len() == k,
                forall|i: int|
                    0 <= i < k ==> domain.holds(
                        (#[trigger] positions@[i]).0 as int,
                        positions@[i].1 as int,
                    ),
                forall|i: int|
                    0 <= i < k ==> #[trigger] store.dots@[i] == newcomer(
                        positions@[i],
                        config.interaction_radius,
                    ),
            decreases n - k,
        {
            let pos = positions[k];
            if !domain.contains(pos) {
                return Err(ConfigError::Placement);
            }
            store.push(Dot::new(pos, 0, config.interaction_radius));
            k += 1;
        }
        let relaxer = Relaxer { cursor: n, pending: None };
        Ok(Simulation { config, store, clock: 0, next_epoch: 0, relaxer, rng: seeded(seed) })
    }

    /// The number of particles.
    pub fn len(&self) -> (n: usize)
        ensures
            n == self.store.dots@.len(),
    {
        self.store.len()
    }

    /// Starts the infection in particle `i`: if it is susceptible it
    /// begins to incubate at the present time.
    pub fn infect(&mut self, i: usize)
        requires
            old(self).wf(),
            i < old(self).store.dots@.len(),
        ensures
            final(self).wf(),
            final(self).config == old(self).config,
            final(self).clock == old(self).clock,
            final(self).next_epoch == old(self).next_epoch,
            final(self).relaxer == old(self).relaxer,
            final(self).store.dots@ == old(self).store.dots@.update(
                i as int,
                (Dot {
                    state: if old(self).store.dots@[i as int].state is Susceptible {
                        State::Asymptomatic(
                            (old(self).clock + old(self).config.incubation_duration) as u64,
                        )
                    } else {
                        old(self).store.dots@[i as int].state
                    },
                    ..old(self).store.dots@[i as int]
                }),
            ),
    {
        let mut dot = self.store.get(i);
        assert(self.store.dots@[i as int].wf());
        dot.state = match dot.state {
            State::Susceptible => State::Asymptomatic(self.clock + self.config.incubation_duration),
            _ => dot.state,
        };
        self.store.set(i, dot);
    }

    /// Lets `dt` pass. Once the clock has passed the moment of the next
    /// epoch, the epidemic takes its course at the new time, a pass of
    /// relaxation begins, and the epoch after it is due a cadence later.
    pub fn advance(&mut self, dt: u64) -> (tick: Tick)
        requires
            old(self).wf(),
            old(self).clock + dt <= TIME_LIMIT,
        ensures
            final(self).wf(),
            final(self).config == old(self).config,
            final(self).clock == old(self).clock + dt,
            tick == if old(self).clock + dt > old(self).next_epoch {
                Tick::Epoch
            } else {
                Tick::Idle
            },
            tick == Tick::Idle ==> {
                &&& final(self).store.dots@ == old(self).store.dots@
                &&& final(self).next_epoch == old(self).next_epoch
                &&& final(self).relaxer == old(self).relaxer
            },
            tick == Tick::Epoch ==> {
                &&& final(self).next_epoch == final(self).clock + final(self).config.step_cadence
                &&& final(self).relaxer == (Relaxer {
                    cursor: next_mover(final(self).store.dots@, 0) as usize,
                    pending: None,
                })
                &&& final(self).store.dots@.len() == old(self).store.dots@.len()
                &&& forall|i: int|
                    0 <= i < final(self).store.dots@.len() ==> {
                        let fatal = (#[trigger] final(self).store.dots@[i]).state is Dead;
                        final(self).store.dots@[i] == (Dot {
                            state: after_epoch(
                                old(self).store.dots@,
                                i,
                                final(self).clock,
                                old(self).config,
                                fatal,
                            ),
                            ..old(self).store.dots@[i]
                        })
                    }
            },
    {
        self.clock = self.clock + dt;
        if self.clock > self.next_epoch {
            self.next_epoch = self.clock + self.config.step_cadence;
            epidemic_epoch(&mut self.store, &self.config, self.clock, &mut self.rng);
            self.relaxer = Relaxer::begin(&self.store);
            Tick::Epoch
        } else {
            Tick::Idle
        }
    }

    /// What the pass of relaxation asks of its driver.
    pub fn relax_request(&self) -> (request: Request)
        requires
            self.wf(),
        ensures
            self.relaxer.asks(self.store.dots@, request),
    {
        self.relaxer.request(&self.store)
    }

    /// Hands a reply to the pass of relaxation and returns its next
    /// request. Moves are committed at the present time.
    pub fn relax(&mut self, reply: Reply) -> (request: Request)
        requires
            old(self).wf(),
        ensures
            final(self).wf(),
            final(self).config == old(self).config,
            final(self).clock == old(self).clock,
            final(self).next_epoch == old(self).next_epoch,
            (final(self).relaxer, final(self).store.dots@) == old(self).relaxer.spec_step(
                old(self).store.dots@,
                reply,
                old(self).config.domain_spec(),
                old(self).config.global_potential_strength,
                old(self).clock,
            ),
            final(self).relaxer.asks(final(self).store.dots@, request),
    {
        let domain = self.config.domain();
        self.relaxer.step(
            &mut self.store,
            reply,
            &domain,
            self.config.global_potential_strength,
            self.clock,
        )
    }

    /// How the particles are drawn at the present time, in the order of
    /// the store.
    pub fn render_state(&self) -> (commands: Vec<DrawCommand>)
        requires
            self.wf(),
        ensures
            commands@.len() == self.store.dots@.len(),
            forall|i: int|
                0 <= i < commands@.len() ==> {
                    &&& (#[trigger] commands@[i]).position == self.store.dots@[i].pos_spec(
                        self.clock,
                    )
                    &&& commands@[i].radius == self.store.dots@[i].radius
                    &&& commands@[i].color@ == self.store.dots@[i].state.color_spec()
                },
    {
        let n = self.store.dots.len();
        let mut commands: Vec<DrawCommand> = Vec::new();
        let mut k: usize = 0;
        while k < n
            invariant
                n == self.store.dots@.len(),
                k <= n,
                self.store.wf(),
                commands@.len() == k,
                forall|i: int|
                    0 <= i < k ==> {
                        &&& (#[trigger] commands@[i]).position == self.store.dots@[i].pos_spec(
                            self.clock,
                        )
                        &&& commands@[i].radius == self.store.dots@[i].radius
                        &&& commands@[i].color@ == self.store.dots@[i].state.color_spec()
                    },
            decreases n - k,
        {
            let dot = self.store.dots[k];
            assert(self.store.dots@[k as int].wf());
            commands.push(
                DrawCommand {
                    position: dot.pos(self.clock),
                    radius: dot.radius,
                    color: dot.state.color(),
                },
            );
            k += 1;
        }
        commands
    }
}

} // verus!
