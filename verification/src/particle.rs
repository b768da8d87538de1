//! One particle: where it is heading, where it was seen last, and how it
//! is drawn in between.

use vstd::prelude::*;
use vstd::arithmetic::div_mod::lemma_div_is_ordered;
use vstd::arithmetic::div_mod::lemma_div_multiples_vanish;
use vstd::arithmetic::div_mod::lemma_fundamental_div_mod;
use vstd::arithmetic::div_mod::lemma_mod_bound;
use crate::health::State;
use crate::vec2::COORD_LIMIT;
use crate::vec2::V;

verus! {

/// The time a new particle takes to settle at the place where it was put.
pub const SETTLE_TIME: u64 = 1_000_000_000;

/// The part `elapsed / window` of the length `span`, rounded down.
pub open spec fn share(span: int, elapsed: int, window: int) -> int {
    (span * elapsed) / window
}

/// The point of the line from `from` to `to` that is reached when
/// `elapsed` of `window` has passed, rounded towards `from`.
pub open spec fn blend(from: int, to: int, elapsed: int, window: int) -> int {
    if to >= from {
        from + share(to - from, elapsed, window)
    } else {
        from - share(from - to, elapsed, window)
    }
}

/// A share lies between nothing and the whole span, and is less than one
/// unit short of the exact fraction.
pub proof fn lemma_share_bounds(span: int, elapsed: int, window: int)
    requires
        0 <= span,
        0 <= elapsed <= window,
        0 < window,
    ensures
        0 <= share(span, elapsed, window) <= span,
        elapsed == 0 ==> share(span, elapsed, window) == 0,
        elapsed == window ==> share(span, elapsed, window) == span,
        window * share(span, elapsed, window) <= span * elapsed,
        span * elapsed < window * share(span, elapsed, window) + window,
{
    let q = share(span, elapsed, window);
    assert(0 <= span * elapsed <= span * window) by (nonlinear_arith)
        requires
            0 <= span,
            0 <= elapsed <= window,
    ;
    lemma_fundamental_div_mod(span * elapsed, window);
    lemma_mod_bound(span * elapsed, window);
    lemma_div_is_ordered(0, span * elapsed, window);
    lemma_div_is_ordered(span * elapsed, span * window, window);
    lemma_div_multiples_vanish(span, window);
    assert(span * window == window * span) by (nonlinear_arith);
    if elapsed == 0 {
        assert(span * elapsed == 0) by (nonlinear_arith)
            requires
                elapsed == 0,
        ;
    }
}

/// A share does not shrink as time passes.
pub proof fn lemma_share_monotone(span: int, earlier: int, later: int, window: int)
    requires
        0 <= span,
        0 <= earlier <= later,
        0 < window,
    ensures
        share(span, earlier, window) <= share(span, later, window),
{
    assert(span * earlier <= span * later) by (nonlinear_arith)
        requires
            0 <= span,
            earlier <= later,
    ;
    lemma_div_is_ordered(span * earlier, span * later, window);
}

/// `mid` lies between `from` and `to`, the ends included.
pub open spec fn between(from: int, mid: int, to: int) -> bool {
    (from <= mid <= to) || (to <= mid <= from)
}

/// A blend lies between its two ends, starts at `from` and ends at `to`,
/// and is less than one unit away from the exact point of the line.
pub proof fn lemma_blend_bounds(from: int, to: int, elapsed: int, window: int)
    requires
        0 <= elapsed <= window,
        0 < window,
    ensures
        between(from, blend(from, to, elapsed, window), to),
        elapsed == 0 ==> blend(from, to, elapsed, window) == from,
        elapsed == window ==> blend(from, to, elapsed, window) == to,
        -window < window * (blend(from, to, elapsed, window) - from) - elapsed * (to - from)
            < window,
{
    let at = blend(from, to, elapsed, window);
    if to >= from {
        lemma_share_bounds(to - from, elapsed, window);
        assert(window * (at - from) - elapsed * (to - from) == window * share(
            to - from,
            elapsed,
            window,
        ) - (to - from) * elapsed) by (nonlinear_arith)
            requires
                at - from == share(to - from, elapsed, window),
        ;
    } else {
        lemma_share_bounds(from - to, elapsed, window);
        assert(window * (at - from) - elapsed * (to - from) == (from - to) * elapsed - window
            * share(from - to, elapsed, window)) by (nonlinear_arith)
            requires
                from - at == share(from - to, elapsed, window),
        ;
    }
}

/// A blend does not turn back as time passes: the earlier one lies
/// between the start and the later one.
pub proof fn lemma_blend_monotone(from: int, to: int, earlier: int, later: int, window: int)
    requires
        0 <= earlier <= later <= window,
        0 < window,
    ensures
        between(from, blend(from, to, earlier, window), blend(from, to, later, window)),
        between(blend(from, to, earlier, window), blend(from, to, later, window), to),
{
    lemma_blend_bounds(from, to, earlier, window);
    lemma_blend_bounds(from, to, later, window);
    if to >= from {
        lemma_share_monotone(to - from, earlier, later, window);
    } else {
        lemma_share_monotone(from - to, earlier, later, window);
    }
}

/// A particle.
#[derive(Clone, Copy, Debug, PartialEq, Eq, Structural)]
pub struct Dot {
    /// The place the particle is moving to.
    pub new_pos: V,
    /// When it arrives there.
    pub new_t: u64,
    /// Where it was when its last move was committed.
    pub last_pos: V,
    /// When that move was committed.
    pub last_t: u64,
    /// Its velocity, for the collision dynamics.
    pub velocity: V,
    /// An anchored particle keeps its velocity in every collision.
    pub anchored: bool,
    /// Its health.
    pub state: State,
    /// Its radius.
    pub radius: i64,
}

impl Dot {
    /// The particle is valid: its move does not end before it starts, both
    /// ends of the move lie on the lattice, and its radius is positive.
    pub open spec fn wf(&self) -> bool {
        &&& self.last_t <= self.new_t
        &&& self.new_pos.in_range()
        &&& self.last_pos.in_range()
        &&& 0 < self.radius <= COORD_LIMIT
    }

    /// The length of the current move in time.
    pub open spec fn window(&self) -> int {
        self.new_t - self.last_t
    }

    /// The time spent on the current move at `now`, between nothing and
    /// the whole window.
    pub open spec fn elapsed(&self, now: u64) -> int {
        if now <= self.last_t {
            0
        } else if now >= self.new_t {
            self.window()
        } else {
            now - self.last_t
        }
    }

    /// Where the particle is drawn at `now`: on the way from `last_pos` to
    /// `new_pos`, as far as the elapsed part of the window; at `new_pos`
    /// if the window is empty.
    pub open spec fn pos_spec(&self, now: u64) -> V {
        if self.window() == 0 {
            self.new_pos
        } else {
            V(
                blend(
                    self.last_pos.0 as int,
                    self.new_pos.0 as int,
                    self.elapsed(now),
                    self.window(),
                ) as i64,
                blend(
                    self.last_pos.1 as int,
                    self.new_pos.1 as int,
                    self.elapsed(now),
                    self.window(),
                ) as i64,
            )
        }
    }

    /// The position drawn at `now` is less than one lattice unit away, on
    /// each axis, from the point of the line from `last_pos` to `new_pos`
    /// at the elapsed part of the window. With `w` for the window and `e`
    /// for the elapsed time, that point is `last_pos + (new_pos -
    /// last_pos) * e / w`; in an empty window it is `new_pos`.
    pub open spec fn near_line(&self, now: u64) -> bool {
        let w = self.window();
        let e = self.elapsed(now);
        let p = self.pos_spec(now);
        if w == 0 {
            p == self.new_pos
        } else {
            &&& -w < w * (p.0 - self.last_pos.0) - e * (self.new_pos.0 - self.last_pos.0) < w
            &&& -w < w * (p.1 - self.last_pos.1) - e * (self.new_pos.1 - self.last_pos.1) < w
        }
    }

    /// A susceptible particle at rest at `pos`, free to move, which
    /// settles there within `SETTLE_TIME` of `now`.
    pub fn new(pos: V, now: u64, radius: i64) -> (dot: Dot)
        requires
            pos.in_range(),
            0 < radius <= COORD_LIMIT,
            now + SETTLE_TIME <= u64::MAX,
        ensures
            dot.wf(),
            dot == (Dot {
                new_pos: pos,
                new_t: (now + SETTLE_TIME) as u64,
                last_pos: pos,
                last_t: now,
                velocity: V(0, 0),
                anchored: false,
                state: State::Susceptible,
                radius,
            }),
    {
        Dot {
            new_pos: pos,
            new_t: now + SETTLE_TIME,
            last_pos: pos,
            last_t: now,
            velocity: V(0, 0),
            anchored: false,
            state: State::Susceptible,
            radius,
        }
    }

    /// The position at which the particle is drawn at `now`.
    pub fn pos(&self, now: u64) -> (p: V)
        requires
            self.wf(),
        ensures
            p == self.pos_spec(now),
            p.in_range(),
    {
        if self.new_t == self.last_t {
            return self.new_pos;
        }
        let window: u64 = self.new_t - self.last_t;
        let elapsed: u64 = if now <= self.last_t {
            0
        } else if now >= self.new_t {
            window
        } else {
            now - self.last_t
        };
        V(
            blend_exec(self.last_pos.0, self.new_pos.0, elapsed, window),
            blend_exec(self.last_pos.1, self.new_pos.1, elapsed, window),
        )
    }

    /// Commits a move to `new_pos` that takes `dt` from `now`. The move
    /// starts where the particle is drawn at `now`, so that the drawn path
    /// has no jump.
    pub fn mov(&mut self, new_pos: V, dt: u64, now: u64)
        requires
            old(self).wf(),
            new_pos.in_range(),
            now + dt <= u64::MAX,
        ensures
            final(self).wf(),
            *final(self) == (Dot {
                new_pos,
                new_t: (now + dt) as u64,
                last_pos: old(self).pos_spec(now),
                last_t: now,
                ..*old(self)
            }),
            dt > 0 ==> final(self).pos_spec(now) == old(self).pos_spec(now),
    {
        let here: V = self.pos(now);
        self.last_pos = here;
        self.last_t = now;
        self.new_pos = new_pos;
        self.new_t = now + dt;
        proof {
            if dt > 0 {
                lemma_share_bounds(
                    if new_pos.0 >= here.0 {
                        new_pos.0 - here.0
                    } else {
                        here.0 - new_pos.0
                    },
                    0,
                    dt as int,
                );
                lemma_share_bounds(
                    if new_pos.1 >= here.1 {
                        new_pos.1 - here.1
                    } else {
                        here.1 - new_pos.1
                    },
                    0,
                    dt as int,
                );
            }
        }
    }
}

/// The drawn position advances along the line from `last_pos` to
/// `new_pos` and never turns back. For two moments of the move, the
/// earlier of them first:
/// the later moment has used up at least as much of the window, and more
/// if it is later indeed; on each axis the earlier position lies between
/// the start and the later position, and the later between the earlier
/// and the target; a position is less than one lattice unit away, on each
/// axis, from the exact point of the line for its moment.
pub proof fn lemma_pos_advances_along_segment(dot: Dot, earlier: u64, later: u64)
    requires
        dot.wf(),
        dot.last_t <= earlier <= later <= dot.new_t,
    ensures
        dot.elapsed(earlier) <= dot.elapsed(later),
        earlier < later ==> dot.elapsed(earlier) < dot.elapsed(later),
        between(
            dot.last_pos.0 as int,
            dot.pos_spec(earlier).0 as int,
            dot.pos_spec(later).0 as int,
        ),
        between(
            dot.last_pos.1 as int,
            dot.pos_spec(earlier).1 as int,
            dot.pos_spec(later).1 as int,
        ),
        between(dot.pos_spec(earlier).0 as int, dot.pos_spec(later).0 as int, dot.new_pos.0 as int),
        between(dot.pos_spec(earlier).1 as int, dot.pos_spec(later).1 as int, dot.new_pos.1 as int),
        dot.near_line(earlier),
        dot.near_line(later),
        dot.pos_spec(dot.last_t) == if dot.window() == 0 {
            dot.new_pos
        } else {
            dot.last_pos
        },
        dot.pos_spec(dot.new_t) == dot.new_pos,
{
    let w = dot.window();
    if w > 0 {
        let e1 = dot.elapsed(earlier);
        let e2 = dot.elapsed(later);
        lemma_blend_monotone(dot.last_pos.0 as int, dot.new_pos.0 as int, e1, e2, w);
        lemma_blend_monotone(dot.last_pos.1 as int, dot.new_pos.1 as int, e1, e2, w);
        lemma_blend_bounds(dot.last_pos.0 as int, dot.new_pos.0 as int, e1, w);
        lemma_blend_bounds(dot.last_pos.1 as int, dot.new_pos.1 as int, e1, w);
        lemma_blend_bounds(dot.last_pos.0 as int, dot.new_pos.0 as int, e2, w);
        lemma_blend_bounds(dot.last_pos.1 as int, dot.new_pos.1 as int, e2, w);
        lemma_blend_bounds(dot.last_pos.0 as int, dot.new_pos.0 as int, 0, w);
        lemma_blend_bounds(dot.last_pos.1 as int, dot.new_pos.1 as int, 0, w);
        lemma_blend_bounds(dot.last_pos.0 as int, dot.new_pos.0 as int, w, w);
        lemma_blend_bounds(dot.last_pos.1 as int, dot.new_pos.1 as int, w, w);
    } else {
        assert(0 * (dot.new_pos.0 - dot.last_pos.0) == 0) by (nonlinear_arith);
        assert(0 * (dot.new_pos.1 - dot.last_pos.1) == 0) by (nonlinear_arith);
    }
}

/// One coordinate of a drawn position.
fn blend_exec(from: i64, to: i64, elapsed: u64, window: u64) -> (at: i64)
    requires
        -COORD_LIMIT <= from <= COORD_LIMIT,
        -COORD_LIMIT <= to <= COORD_LIMIT,
        elapsed <= window,
        0 < window,
    ensures
        at == blend(from as int, to as int, elapsed as int, window as int),
        from <= to ==> from <= at <= to,
        to <= from ==> to <= at <= from,
{
    if to >= from {
        let span: i128 = (to - from) as i128;
        proof {
            lemma_share_bounds(span as int, elapsed as int, window as int);
            assert(span * elapsed <= 0x8000_0000 * 0x1_0000_0000_0000_0000) by (nonlinear_arith)
                requires
                    0 <= span <= 0x8000_0000,
                    0 <= elapsed <= 0x1_0000_0000_0000_0000,
            ;
        }
        let part: i128 = (span * (elapsed as i128)) / (window as i128);
        from + (part as i64)
    } else {
        let span: i128 = (from - to) as i128;
        proof {
            lemma_share_bounds(span as int, elapsed as int, window as int);
            assert(span * elapsed <= 0x8000_0000 * 0x1_0000_0000_0000_0000) by (nonlinear_arith)
                requires
                    0 <= span <= 0x8000_0000,
                    0 <= elapsed <= 0x1_0000_0000_0000_0000,
            ;
        }
        let part: i128 = (span * (elapsed as i128)) / (window as i128);
        from - (part as i64)
    }
}

} // verus!
