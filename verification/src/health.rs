//! The health of a particle: a state machine driven by contacts and timers.
//!
//! Time is counted in nanoseconds from an origin that the caller chooses.

use vstd::prelude::*;

verus! {

/// The health of one particle. The two time-bounded states carry the
/// moment at which they end.
#[derive(Clone, Copy, Debug, PartialEq, Eq, Structural)]
pub enum State {
    Susceptible,
    Asymptomatic(u64),
    Infected(u64),
    Recovered,
    Dead,
}

/// What can happen to the health of a particle.
#[derive(Clone, Copy, Debug, PartialEq, Eq, Structural)]
pub enum Event {
    /// Another particle in the given state came within reach at `now`;
    /// an infection would incubate for `incubation`.
    Contact { other: State, now: u64, incubation: u64 },
    /// The clock is read at `now`; an illness that starts lasts `infectious`.
    Timer { now: u64, infectious: u64 },
    /// The clock is read at `now` and a lot was drawn on the outcome of an
    /// illness that has run its course.
    Outcome { now: u64, fatal: bool },
}

impl State {
    /// How far along the course of the illness a state is.
    pub open spec fn rank(self) -> nat {
        match self {
            State::Susceptible => 0,
            State::Asymptomatic(_) => 1,
            State::Infected(_) => 2,
            State::Recovered => 3,
            State::Dead => 3,
        }
    }

    /// `later` is `self` or a state further along the course of the illness.
    pub open spec fn precedes(self, later: State) -> bool {
        self == later || self.rank() < later.rank()
    }

    /// A particle in this state passes the infection on.
    pub open spec fn contagious(self) -> bool {
        self is Asymptomatic || self is Infected
    }

    /// The state after a contact with a particle in state `other`.
    pub open spec fn spec_contact(self, other: State, now: u64, incubation: u64) -> State {
        if self is Susceptible && other.contagious() {
            State::Asymptomatic((now + incubation) as u64)
        } else {
            self
        }
    }

    /// The state after the clock was read at `now`.
    pub open spec fn spec_tick(self, now: u64, infectious: u64) -> State {
        match self {
            State::Asymptomatic(deadline) if now >= deadline => State::Infected(
                (now + infectious) as u64,
            ),
            _ => self,
        }
    }

    /// The illness has run its course at `now` and its outcome is open.
    pub open spec fn outcome_due(self, now: u64) -> bool {
        self matches State::Infected(deadline) && now >= deadline
    }

    /// The state after a lot was drawn on the outcome at `now`.
    pub open spec fn spec_resolve(self, now: u64, fatal: bool) -> State {
        if self.outcome_due(now) {
            if fatal {
                State::Dead
            } else {
                State::Recovered
            }
        } else {
            self
        }
    }

    /// The colour of a state, as red, green and blue out of 255.
    pub open spec fn color_spec(self) -> Seq<u8> {
        match self {
            State::Susceptible => seq![255u8, 255u8, 255u8],
            State::Asymptomatic(_) => seq![255u8, 255u8, 255u8],
            State::Infected(_) => seq![255u8, 0u8, 0u8],
            State::Recovered => seq![0u8, 255u8, 0u8],
            State::Dead => seq![255u8, 0u8, 255u8],
        }
    }

    /// The state after one event.
    pub open spec fn after(self, event: Event) -> State {
        match event {
            Event::Contact { other, now, incubation } => self.spec_contact(other, now, incubation),
            Event::Timer { now, infectious } => self.spec_tick(now, infectious),
            Event::Outcome { now, fatal } => self.spec_resolve(now, fatal),
        }
    }

    /// The state after a sequence of events, the first of them first.
    pub open spec fn after_all(self, events: Seq<Event>) -> State
        decreases events.len(),
    {
        if events.len() == 0 {
            self
        } else {
            self.after(events[0]).after_all(events.skip(1))
        }
    }

    /// The colour in which a particle in this state is drawn, as red, green
    /// and blue out of 255: white while the illness does not show, red
    /// while it does, green after recovery and magenta after death.
    pub fn color(&self) -> (rgb: [u8; 3])
        ensures
            rgb@ == self.color_spec(),
    {
        match self {
            State::Susceptible => [255, 255, 255],
            State::Asymptomatic(_) => [255, 255, 255],
            State::Infected(_) => [255, 0, 0],
            State::Recovered => [0, 255, 0],
            State::Dead => [255, 0, 255],
        }
    }

    /// Whether a particle in this state passes the infection on.
    pub fn is_contagious(&self) -> (yes: bool)
        ensures
            yes == self.contagious(),
    {
        match self {
            State::Asymptomatic(_) => true,
            State::Infected(_) => true,
            _ => false,
        }
    }

    /// Whether the illness has run its course at `now`, so that a lot must
    /// be drawn on its outcome.
    pub fn is_outcome_due(&self, now: u64) -> (yes: bool)
        ensures
            yes == self.outcome_due(now),
    {
        match self {
            State::Infected(deadline) => now >= *deadline,
            _ => false,
        }
    }

    /// The proximity rule: a susceptible particle that meets a contagious
    /// one starts to incubate; every other meeting changes nothing.
    pub fn contact(self, other: State, now: u64, incubation: u64) -> (next: State)
        requires
            now + incubation <= u64::MAX,
        ensures
            next == self.spec_contact(other, now, incubation),
    {
        match self {
            State::Susceptible => if other.is_contagious() {
                State::Asymptomatic(now + incubation)
            } else {
                self
            },
            _ => self,
        }
    }

    /// The timer rule: an incubation that has reached its deadline turns
    /// into an illness that lasts `infectious`.
    pub fn tick(self, now: u64, infectious: u64) -> (next: State)
        requires
            now + infectious <= u64::MAX,
        ensures
            next == self.spec_tick(now, infectious),
    {
        match self {
            State::Asymptomatic(deadline) => if now >= deadline {
                State::Infected(now + infectious)
            } else {
                self
            },
            _ => self,
        }
    }

    /// The outcome rule: an illness that has reached its deadline ends in
    /// death if the lot `fatal` says so, and in recovery otherwise.
    pub fn resolve(self, now: u64, fatal: bool) -> (next: State)
        ensures
            next == self.spec_resolve(now, fatal),
    {
        if self.is_outcome_due(now) {
            if fatal {
                State::Dead
            } else {
                State::Recovered
            }
        } else {
            self
        }
    }
}

/// No single event takes a particle back: the state after it is the state
/// before it or one further along the course of the illness.
pub proof fn lemma_event_never_rewinds(state: State, event: Event)
    ensures
        state.precedes(state.after(event)),
{
}

/// A contact that is looked at twice counts once: the proximity rule
/// gives the same state whether it is applied once or again.
pub proof fn lemma_contact_is_idempotent(state: State, other: State, now: u64, incubation: u64)
    ensures
        state.spec_contact(other, now, incubation).spec_contact(other, now, incubation)
            == state.spec_contact(other, now, incubation),
{
}

/// Going forward is transitive.
pub proof fn lemma_precedes_transitive(a: State, b: State, c: State)
    requires
        a.precedes(b),
        b.precedes(c),
    ensures
        a.precedes(c),
{
}

/// No sequence of contacts, timer readings and outcome lots takes a
/// particle back: a recovered or dead particle stays as it is, and any
/// other ends in its own state, deadline included, or further along.
pub proof fn lemma_history_never_rewinds(state: State, events: Seq<Event>)
    ensures
        state.precedes(state.after_all(events)),
        (state is Recovered || state is Dead) ==> state.after_all(events) == state,
    decreases events.len(),
{
    if events.len() > 0 {
        let next = state.after(events[0]);
        lemma_event_never_rewinds(state, events[0]);
        lemma_history_never_rewinds(next, events.skip(1));
        lemma_precedes_transitive(state, next, next.after_all(events.skip(1)));
    }
}

} // verus!
