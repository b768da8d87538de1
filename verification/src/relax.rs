//! Metropolis relaxation, one particle at a time.
//!
//! A pass visits the living particles in the order of the store. For each
//! it asks for a proposed step until one stays inside the domain, hands
//! out what the energy of the move depends on, and commits the move or
//! drops it as the Metropolis rule says. Sampling a step and weighing an
//! energy are the caller's part: the pass itself decides what happens
//! next.

use vstd::prelude::*;
use crate::domain::Domain;
use crate::health::State;
use crate::particle::Dot;
use crate::store::ParticleStore;
use crate::vec2::V;

verus! {

/// The time an accepted move takes.
pub const MOVE_TIME: u64 = 200_000_000;

/// The shape of the potential between two particles.
#[derive(Clone, Copy, Debug, PartialEq, Eq, Structural)]
pub enum Potential {
    /// Attractive at a distance and repulsive close by.
    Attractive,
    /// Repulsive at every distance.
    Repulsive,
}

/// What one other particle adds to the energy of a move: the shape of the
/// potential between the two, and the squared distance between them
/// before and after the move.
#[derive(Clone, Copy, Debug, PartialEq, Eq, Structural)]
pub struct PairTerm {
    pub kind: Potential,
    pub before: u64,
    pub after: u64,
}

/// The sign of the energy before a move less the energy after it.
#[derive(Clone, Copy, Debug, PartialEq, Eq, Structural)]
pub enum Delta {
    Negative,
    Zero,
    Positive,
}

/// What the caller hands to a pass.
#[derive(Clone, Copy, Debug, PartialEq, Eq, Structural)]
pub enum Reply {
    /// A step sampled for the particle that is to be moved.
    Proposal(V),
    /// The sign of the energy difference of the pending move, and a lot
    /// that came out `true` with the probability that the Metropolis rule
    /// gives a move of negative difference.
    Verdict { delta: Delta, draw: bool },
}

/// What a pass asks of the caller.
#[derive(Debug)]
pub enum Request {
    /// Sample a step for the particle `index`, whose target is `from`.
    Propose { index: usize, from: V },
    /// Weigh the move of particle `index` from `from` to `to`.
    Weigh { index: usize, from: V, to: V, terms: Vec<PairTerm> },
    /// Every living particle had its turn.
    Finished,
}

/// The progress of one pass over a store.
#[derive(Clone, Copy, Debug, PartialEq, Eq, Structural)]
pub struct Relaxer {
    /// The particle whose turn it is; the number of particles when the
    /// pass is over.
    pub cursor: usize,
    /// The target of the move that waits for its verdict.
    pub pending: Option<V>,
}

/// The potential between particles in the states `a` and `b`: repulsive
/// where exactly one of them is infected, attractive otherwise.
pub open spec fn potential_between_spec(a: State, b: State) -> Potential {
    if (a is Infected) != (b is Infected) {
        Potential::Repulsive
    } else {
        Potential::Attractive
    }
}

/// The Metropolis rule: a move that does not raise the energy is always
/// accepted, any other as the lot says.
pub open spec fn accepts_spec(delta: Delta, draw: bool) -> bool {
    match delta {
        Delta::Positive => true,
        Delta::Zero => true,
        Delta::Negative => draw,
    }
}

/// What particle `b` adds to the energy of a move of particle `a` to `to`.
/// A pair at distance zero, before or after the move, adds nothing.
pub open spec fn pair_term(a: Dot, b: Dot, to: V) -> Option<PairTerm> {
    let before = V::dist_sq_spec(a.new_pos, b.new_pos);
    let after = V::dist_sq_spec(to, b.new_pos);
    if before == 0 || after == 0 {
        None
    } else {
        Some(
            PairTerm {
                kind: potential_between_spec(a.state, b.state),
                before: before as u64,
                after: after as u64,
            },
        )
    }
}

/// What the first `upto` particles add to the energy of a move of
/// particle `i` to `to`, in the order of the store.
pub open spec fn pair_terms_spec(dots: Seq<Dot>, i: int, to: V, upto: int) -> Seq<PairTerm>
    decreases upto,
{
    if upto <= 0 {
        Seq::empty()
    } else {
        let rest = pair_terms_spec(dots, i, to, upto - 1);
        match pair_term(dots[i], dots[upto - 1], to) {
            Some(term) => rest.push(term),
            None => rest,
        }
    }
}

/// The index of the first living particle at or behind `from`; the
/// number of particles if there is none.
pub open spec fn next_mover(dots: Seq<Dot>, from: int) -> int
    decreases dots.len() - from,
{
    if from >= dots.len() {
        dots.len() as int
    } else if dots[from].state is Dead {
        next_mover(dots, from + 1)
    } else {
        from
    }
}

/// The store after particle `i` committed a move to `to` at `now`.
pub open spec fn moved(dots: Seq<Dot>, i: int, to: V, now: u64) -> Seq<Dot> {
    dots.update(
        i,
        (Dot {
            new_pos: to,
            new_t: (now + MOVE_TIME) as u64,
            last_pos: dots[i].pos_spec(now),
            last_t: now,
            ..dots[i]
        }),
    )
}

/// The move of particle `i` to `to` leaves the energy as it is, whatever
/// the potentials: no other particle adds a term and there is no global
/// potential.
pub open spec fn costs_nothing(dots: Seq<Dot>, i: int, to: V, strength: i64) -> bool {
    strength == 0 && pair_terms_spec(dots, i, to, dots.len() as int).len() == 0
}

/// The next living particle is a living particle, and none was passed
/// over.
pub proof fn lemma_next_mover(dots: Seq<Dot>, from: int)
    requires
        0 <= from <= dots.len(),
    ensures
        from <= next_mover(dots, from) <= dots.len(),
        next_mover(dots, from) < dots.len() ==> !(dots[next_mover(dots, from)].state is Dead),
        forall|k: int|
            from <= k < next_mover(dots, from) ==> (#[trigger] dots[k]).state is Dead,
    decreases dots.len() - from,
{
    if from < dots.len() && dots[from].state is Dead {
        lemma_next_mover(dots, from + 1);
    }
}

/// Which potential acts between particles in the states `a` and `b`.
pub fn potential_between(a: State, b: State) -> (kind: Potential)
    ensures
        kind == potential_between_spec(a, b),
{
    match (a, b) {
        (State::Infected(_), State::Infected(_)) => Potential::Attractive,
        (State::Infected(_), _) => Potential::Repulsive,
        (_, State::Infected(_)) => Potential::Repulsive,
        (_, _) => Potential::Attractive,
    }
}

/// Whether the Metropolis rule accepts a move.
pub fn accepts(delta: Delta, draw: bool) -> (yes: bool)
    ensures
        yes == accepts_spec(delta, draw),
        delta == Delta::Zero ==> yes,
{
    match delta {
        Delta::Positive => true,
        Delta::Zero => true,
        Delta::Negative => draw,
    }
}

/// What the other particles add to the energy of a move of particle `i`
/// to `to`, in the order of the store.
pub fn pair_terms(store: &ParticleStore, i: usize, to: V) -> (terms: Vec<PairTerm>)
    requires
        store.wf(),
        i < store.dots@.len(),
        to.in_range(),
    ensures
        terms@ == pair_terms_spec(store.dots@, i as int, to, store.dots@.len() as int),
{
    let a = store.dots[i];
    let n = store.dots.len();
    let mut terms: Vec<PairTerm> = Vec::new();
    let mut k: usize = 0;
    while k < n
        invariant
            store.wf(),
            n == store.dots@.len(),
            i < n,
            k <= n,
            a == store.dots@[i as int],
            to.in_range(),
            terms@ == pair_terms_spec(store.dots@, i as int, to, k as int),
        decreases n - k,
    {
        let b = store.dots[k];
        assert(store.dots@[k as int].wf());
        assert(store.dots@[i as int].wf());
        let before = V::dist_sq(a.new_pos, b.new_pos);
        let after = V::dist_sq(to, b.new_pos);
        if before != 0 && after != 0 {
            terms.push(PairTerm { kind: potential_between(a.state, b.state), before, after });
        }
        k += 1;
    }
    terms
}

impl Relaxer {
    /// The pass fits the store: its cursor is within the store, and a
    /// pending move belongs to a particle and ends on the lattice.
    pub open spec fn wf(&self, dots: Seq<Dot>) -> bool {
        &&& self.cursor <= dots.len()
        &&& self.pending matches Some(to) ==> self.cursor < dots.len() && to.in_range()
    }

    /// The pass is over.
    pub open spec fn finished(&self, dots: Seq<Dot>) -> bool {
        self.cursor >= dots.len()
    }

    /// `request` is what the pass asks of the caller in its present state.
    pub open spec fn asks(&self, dots: Seq<Dot>, request: Request) -> bool {
        if self.cursor >= dots.len() {
            request is Finished
        } else {
            match self.pending {
                None => request == (Request::Propose {
                    index: self.cursor,
                    from: dots[self.cursor as int].new_pos,
                }),
                Some(target) => {
                    &&& request matches Request::Weigh { index, from, to, terms }
                    &&& index == self.cursor
                    &&& from == dots[self.cursor as int].new_pos
                    &&& to == target
                    &&& terms@ == pair_terms_spec(
                        dots,
                        self.cursor as int,
                        target,
                        dots.len() as int,
                    )
                },
            }
        }
    }

    /// The pass and the store after the pass took `reply`.
    ///
    /// A proposal is heard while no move is pending. One that leaves the
    /// domain changes nothing, so that the same request is made again. One
    /// that costs nothing is committed at once. Any other becomes the
    /// pending move. A verdict is heard while a move is pending: the move
    /// is committed if the Metropolis rule accepts it, and the turn passes
    /// to the next living particle. A reply that is not asked for changes
    /// nothing.
    pub open spec fn spec_step(
        self,
        dots: Seq<Dot>,
        reply: Reply,
        domain: Domain,
        strength: i64,
        now: u64,
    ) -> (Relaxer, Seq<Dot>) {
        let i = self.cursor as int;
        let onward = Relaxer { cursor: next_mover(dots, i + 1) as usize, pending: None };
        if self.cursor >= dots.len() {
            (self, dots)
        } else {
            match (self.pending, reply) {
                (None, Reply::Proposal(step)) => {
                    let to = V((dots[i].new_pos.0 + step.0) as i64, (dots[i].new_pos.1 + step.1) as i64);
                    if !domain.admits_spec(dots[i].new_pos, step) {
                        (self, dots)
                    } else if costs_nothing(dots, i, to, strength) {
                        (onward, moved(dots, i, to, now))
                    } else {
                        (Relaxer { cursor: self.cursor, pending: Some(to) }, dots)
                    }
                },
                (Some(to), Reply::Verdict { delta, draw }) => {
                    if accepts_spec(delta, draw) {
                        (onward, moved(dots, i, to, now))
                    } else {
                        (onward, dots)
                    }
                },
                _ => (self, dots),
            }
        }
    }

    /// A pass at its start: the turn is with the first living particle.
    pub fn begin(store: &ParticleStore) -> (relaxer: Relaxer)
        ensures
            relaxer.wf(store.dots@),
            relaxer == (Relaxer { cursor: next_mover(store.dots@, 0) as usize, pending: None }),
    {
        Relaxer { cursor: first_living(store, 0), pending: None }
    }

    /// What the pass asks of the caller in its present state.
    pub fn request(&self, store: &ParticleStore) -> (request: Request)
        requires
            store.wf(),
            self.wf(store.dots@),
        ensures
            self.asks(store.dots@, request),
    {
        if self.cursor >= store.dots.len() {
            Request::Finished
        } else {
            let from = store.dots[self.cursor].new_pos;
            match self.pending {
                None => Request::Propose { index: self.cursor, from },
                Some(to) => Request::Weigh {
                    index: self.cursor,
                    from,
                    to,
                    terms: pair_terms(store, self.cursor, to),
                },
            }
        }
    }

    /// Takes one reply at the time `now` and returns the next request.
    pub fn step(
        &mut self,
        store: &mut ParticleStore,
        reply: Reply,
        domain: &Domain,
        strength: i64,
        now: u64,
    ) -> (request: Request)
        requires
            old(store).wf(),
            old(self).wf(old(store).dots@),
            domain.wf(),
            now + MOVE_TIME <= u64::MAX,
        ensures
            final(store).wf(),
            final(self).wf(final(store).dots@),
            (*final(self), final(store).dots@) == old(self).spec_step(
                old(store).dots@,
                reply,
                *domain,
                strength,
                now,
            ),
            final(self).asks(final(store).dots@, request),
            final(store).dots@.len() == old(store).dots@.len(),
    {
        let n = store.dots.len();
        if self.cursor < n {
            let i = self.cursor;
            match (self.pending, reply) {
                (None, Reply::Proposal(step)) => {
                    let from = store.dots[i].new_pos;
                    assert(store.dots@[i as int].wf());
                    match domain.admits(from, step) {
                        None => {},
                        Some(to) => {
                            let free = strength == 0 && pair_terms(store, i, to).len() == 0;
                            if free {
                                store.commit_move(i, to, MOVE_TIME, now);
                                self.cursor = first_living(store, i + 1);
                                proof {
                                    lemma_same_movers(
                                        old(store).dots@,
                                        store.dots@,
                                        i as int + 1,
                                    );
                                }
                            } else {
                                self.pending = Some(to);
                            }
                        },
                    }
                },
                (Some(to), Reply::Verdict { delta, draw }) => {
                    if accepts(delta, draw) {
                        store.commit_move(i, to, MOVE_TIME, now);
                    }
                    self.cursor = first_living(store, i + 1);
                    self.pending = None;
                    proof {
                        lemma_same_movers(old(store).dots@, store.dots@, i as int + 1);
                    }
                },
                _ => {},
            }
        }
        self.request(store)
    }
}

/// Two stores whose particles agree in their health have the same next
/// living particle.
pub proof fn lemma_same_movers(before: Seq<Dot>, after: Seq<Dot>, from: int)
    requires
        before.len() == after.len(),
        forall|k: int| 0 <= k < before.len() ==> (#[trigger] before[k]).state == after[k].state,
        0 <= from,
    ensures
        next_mover(before, from) == next_mover(after, from),
    decreases before.len() - from,
{
    if from < before.len() {
        assert(before[from].state == after[from].state);
        if before[from].state is Dead {
            lemma_same_movers(before, after, from + 1);
        }
    }
}

/// The index of the first living particle at or behind `from`.
fn first_living(store: &ParticleStore, from: usize) -> (index: usize)
    requires
        from <= store.dots@.len(),
    ensures
        index == next_mover(store.dots@, from as int),
        from <= index <= store.dots@.len(),
{
    let n = store.dots.len();
    let mut k: usize = from;
    while k < n && is_dead(&store.dots[k].state)
        invariant
            n == store.dots@.len(),
            from <= k <= n,
            next_mover(store.dots@, from as int) == next_mover(store.dots@, k as int),
        decreases n - k,
    {
        k += 1;
    }
    k
}

/// Whether a particle in this state is dead.
fn is_dead(state: &State) -> (dead: bool)
    ensures
        dead == (*state is Dead),
{
    match state {
        State::Dead => true,
        _ => false,
    }
}

} // verus!
