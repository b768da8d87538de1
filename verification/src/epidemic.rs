//! One epoch of the epidemic: contagion between particles near each other,
//! then the timers and outcomes of every particle.

use vstd::prelude::*;
use rand::rngs::StdRng;
use crate::config::Config;
use crate::grid::within_reach;
use crate::grid::SpatialIndex;
use crate::health::State;
use crate::particle::Dot;
use crate::random::draw_ratio;
use crate::store::ParticleStore;
use crate::vec2::COORD_LIMIT;
use crate::vec2::V;

verus! {

/// Particle `i` has a contagious particle closer than `reach` to it,
/// where the particles are drawn at `now`.
pub open spec fn exposed(dots: Seq<Dot>, i: int, now: u64, reach: int) -> bool {
    exists|j: int|
        0 <= j < dots.len() && j != i && (#[trigger] dots[j]).state.contagious() && V::dist_sq_spec(
            dots[i].pos_spec(now),
            dots[j].pos_spec(now),
        ) < reach * reach
}

/// The health of particle `i` after the contacts of an epoch: a
/// susceptible particle with a contagious one within reach starts to
/// incubate, every other stays as it is. The contacts are judged by the
/// health of the particles at the start of the epoch, so that the order
/// in which the pairs are looked at does not matter.
pub open spec fn after_contacts(dots: Seq<Dot>, i: int, now: u64, reach: int, incubation: u64) -> State {
    if dots[i].state is Susceptible && exposed(dots, i, now, reach) {
        State::Asymptomatic((now + incubation) as u64)
    } else {
        dots[i].state
    }
}

/// The health of particle `i` after an epoch at `now` in which the lot on
/// its outcome, if one was drawn, came out as `fatal`.
pub open spec fn after_epoch(dots: Seq<Dot>, i: int, now: u64, config: Config, fatal: bool) -> State {
    after_contacts(
        dots,
        i,
        now,
        config.reach_spec(),
        config.incubation_duration,
    ).spec_tick(now, config.infectious_duration).spec_resolve(now, fatal)
}

/// No epoch takes a particle back: its health after the epoch is its
/// health before it or one further along the course of the illness, and
/// a recovered or dead particle stays as it is.
pub proof fn lemma_epoch_never_rewinds(dots: Seq<Dot>, i: int, now: u64, config: Config, fatal: bool)
    ensures
        dots[i].state.precedes(after_epoch(dots, i, now, config, fatal)),
        (dots[i].state is Recovered || dots[i].state is Dead) ==> after_epoch(
            dots,
            i,
            now,
            config,
            fatal,
        ) == dots[i].state,
{
}

/// For each particle, whether it is susceptible and has a contagious
/// particle within reach.
pub fn exposures(store: &ParticleStore, now: u64, reach: i64) -> (flags: Vec<bool>)
    requires
        store.wf(),
        0 < reach <= COORD_LIMIT,
    ensures
        flags@.len() == store.dots@.len(),
        forall|i: int|
            0 <= i < flags@.len() ==> #[trigger] flags@[i] == (store.dots@[i].state is Susceptible
                && exposed(store.dots@, i, now, reach as int)),
{
    let n = store.dots.len();
    let points = store.positions(now);
    let mut active: Vec<bool> = Vec::new();
    let mut k: usize = 0;
    while k < n
        invariant
            n == store.dots@.len(),
            k <= n,
            active@.len() == k,
            forall|i: int| 0 <= i < k ==> #[trigger] active@[i] == !(store.dots@[i].state is Dead),
        decreases n - k,
    {
        active.push(!is_dead(&store.dots[k].state));
        k += 1;
    }
    let index = SpatialIndex::build(&points, &active, reach);
    let mut flags: Vec<bool> = Vec::new();
    let mut i: usize = 0;
    while i < n
        invariant
            n == store.dots@.len(),
            i <= n,
            store.wf(),
            points@ == store.positions_spec(now),
            points@.len() == n,
            active@.len() == n,
            forall|k: int| 0 <= k < points@.len() ==> (#[trigger] points@[k]).in_range(),
            forall|k: int| 0 <= k < n ==> #[trigger] active@[k] == !(store.dots@[k].state is Dead),
            index.wf(),
            index.cell == reach,
            index.covers(points@, active@),
            0 < reach <= COORD_LIMIT,
            flags@.len() == i,
            forall|k: int|
                0 <= k < i ==> #[trigger] flags@[k] == (store.dots@[k].state is Susceptible
                    && exposed(store.dots@, k, now, reach as int)),
        decreases n - i,
    {
        let mut flag = false;
        if is_susceptible(&store.dots[i].state) {
            let found = index.neighbours(&points, &active, i, reach);
            let m = found.len();
            let mut t: usize = 0;
            while t < m
                invariant
                    m == found@.len(),
                    t <= m,
                    n == store.dots@.len(),
                    forall|j: usize|
                        #[trigger] found@.contains(j) <==> within_reach(
                            points@,
                            active@,
                            i as int,
                            j as int,
                            reach as int,
                        ),
                    points@.len() == n,
                    flag <==> exists|s: int|
                        0 <= s < t && (#[trigger] store.dots@[found@[s] as int]).state.contagious(),
                decreases m - t,
            {
                let j = found[t];
                assert(found@.contains(j));
                if store.dots[j].state.is_contagious() {
                    flag = true;
                }
                t += 1;
            }
            proof {
                let dots = store.dots@;
                if flag {
                    let s = choose|s: int|
                        0 <= s < m && (#[trigger] dots[found@[s] as int]).state.contagious();
                    let j = found@[s];
                    assert(found@.contains(j));
                    assert(points@[j as int] == dots[j as int].pos_spec(now));
                    assert(points@[i as int] == dots[i as int].pos_spec(now));
                    assert(exposed(dots, i as int, now, reach as int));
                }
                if exposed(dots, i as int, now, reach as int) {
                    let j = choose|j: int|
                        0 <= j < dots.len() && j != i && (#[trigger] dots[j]).state.contagious()
                            && V::dist_sq_spec(dots[i as int].pos_spec(now), dots[j].pos_spec(now))
                            < reach * reach;
                    assert(points@[j] == dots[j].pos_spec(now));
                    assert(points@[i as int] == dots[i as int].pos_spec(now));
                    assert(active@[j]);
                    assert(within_reach(points@, active@, i as int, j, reach as int));
                    assert(found@.contains(j as usize));
                    let s = choose|s: int| 0 <= s < found@.len() && found@[s] == j as usize;
                    assert(dots[found@[s] as int].state.contagious());
                    assert(flag);
                }
            }
        }
        flags.push(flag);
        i += 1;
    }
    flags
}

/// Runs one epoch of the epidemic at `now`.
///
/// A susceptible particle that is drawn within reach of a contagious one
/// starts to incubate. Then, for every particle, an incubation that has
/// reached its deadline becomes an illness, and an illness that has
/// reached its deadline ends in death or recovery, by a lot drawn from
/// `rng` with the fatality of the configuration. Nothing but the health
/// of the particles changes.
pub fn epidemic_epoch(store: &mut ParticleStore, config: &Config, now: u64, rng: &mut StdRng)
    requires
        old(store).wf(),
        config.wf(),
        now + config.incubation_duration <= u64::MAX,
        now + config.infectious_duration <= u64::MAX,
    ensures
        final(store).wf(),
        final(store).dots@.len() == old(store).dots@.len(),
        forall|i: int|
            0 <= i < final(store).dots@.len() ==> {
                let fatal = (#[trigger] final(store).dots@[i]).state is Dead;
                final(store).dots@[i] == (Dot {
                    state: after_epoch(old(store).dots@, i, now, *config, fatal),
                    ..old(store).dots@[i]
                })
            },
        config.fatality_numerator == 0 ==> forall|i: int|
            0 <= i < final(store).dots@.len() ==> (#[trigger] final(store).dots@[i]).state
                == after_epoch(old(store).dots@, i, now, *config, false),
        config.fatality_numerator == config.fatality_denominator ==> forall|i: int|
            0 <= i < final(store).dots@.len() ==> (#[trigger] final(store).dots@[i]).state
                == after_epoch(old(store).dots@, i, now, *config, true),
{
    let reach = config.reach();
    let flags = exposures(store, now, reach);
    let n = store.dots.len();
    let mut i: usize = 0;
    while i < n
        invariant
            n == store.dots@.len(),
            n == old(store).dots@.len(),
            n == flags@.len(),
            i <= n,
            store.wf(),
            config.wf(),
            reach == config.reach_spec(),
            now + config.incubation_duration <= u64::MAX,
            now + config.infectious_duration <= u64::MAX,
            forall|k: int|
                0 <= k < n ==> #[trigger] flags@[k] == (old(store).dots@[k].state is Susceptible
                    && exposed(old(store).dots@, k, now, reach as int)),
            forall|k: int| i <= k < n ==> #[trigger] store.dots@[k] == old(store).dots@[k],
            forall|k: int|
                0 <= k < i ==> {
                    let fatal = (#[trigger] store.dots@[k]).state is Dead;
                    store.dots@[k] == (Dot {
                        state: after_epoch(old(store).dots@, k, now, *config, fatal),
                        ..old(store).dots@[k]
                    })
                },
            config.fatality_numerator == 0 ==> forall|k: int|
                0 <= k < i ==> (#[trigger] store.dots@[k]).state == after_epoch(
                    old(store).dots@,
                    k,
                    now,
                    *config,
                    false,
                ),
            config.fatality_numerator == config.fatality_denominator ==> forall|k: int|
                0 <= k < i ==> (#[trigger] store.dots@[k]).state == after_epoch(
                    old(store).dots@,
                    k,
                    now,
                    *config,
                    true,
                ),
        decreases n - i,
    {
        let mut dot = store.dots[i];
        assert(store.dots@[i as int].wf());
        let met: State = if flags[i] {
            State::Asymptomatic(now + config.incubation_duration)
        } else {
            dot.state
        };
        assert(met == after_contacts(
            old(store).dots@,
            i as int,
            now,
            config.reach_spec(),
            config.incubation_duration,
        ));
        let ripe: State = met.tick(now, config.infectious_duration);
        let last: State = if ripe.is_outcome_due(now) {
            let fatal = draw_ratio(rng, config.fatality_numerator, config.fatality_denominator);
            ripe.resolve(now, fatal)
        } else {
            ripe
        };
        dot.state = last;
        store.set(i, dot);
        i += 1;
    }
}

/// Whether a particle in this state is dead.
fn is_dead(state: &State) -> (dead: bool)
    ensures
        dead == (*state is Dead),
{
    match state {
        State::Dead => true,
        _ => false,
    }
}

/// Whether a particle in this state is susceptible.
fn is_susceptible(state: &State) -> (yes: bool)
    ensures
        yes == (*state is Susceptible),
{
    match state {
        State::Susceptible => true,
        _ => false,
    }
}

} // verus!
