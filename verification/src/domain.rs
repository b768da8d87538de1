//! The region of the plane in which particles may be placed.

use vstd::prelude::*;
use crate::vec2::COORD_LIMIT;
use crate::vec2::V;

verus! {

/// The shape of a domain.
#[derive(Clone, Copy, Debug, PartialEq, Eq, Structural)]
pub enum Shape {
    /// The open disk around the origin whose radius is the domain's size.
    Disk,
    /// The open square around the origin whose half side is the domain's
    /// size.
    Square,
}

/// A domain around the origin.
#[derive(Clone, Copy, Debug, PartialEq, Eq, Structural)]
pub struct Domain {
    pub shape: Shape,
    pub size: i64,
}

impl Domain {
    /// The size is positive and the domain fits on the lattice.
    pub open spec fn wf(&self) -> bool {
        0 < self.size <= COORD_LIMIT
    }

    /// The point `(x, y)` lies inside the domain. The border is outside.
    pub open spec fn holds(&self, x: int, y: int) -> bool {
        match self.shape {
            Shape::Disk => x * x + y * y < self.size * self.size,
            Shape::Square => -self.size < x < self.size && -self.size < y < self.size,
        }
    }

    /// The point reached from `from` by `step` lies inside the domain.
    pub open spec fn admits_spec(&self, from: V, step: V) -> bool {
        self.holds(from.0 + step.0, from.1 + step.1)
    }

    /// A point inside a valid domain is on the lattice.
    pub proof fn lemma_inside_is_in_range(&self, x: int, y: int)
        requires
            self.wf(),
            self.holds(x, y),
        ensures
            -COORD_LIMIT < x < COORD_LIMIT,
            -COORD_LIMIT < y < COORD_LIMIT,
    {
        let s = self.size as int;
        assert(x * x + y * y < s * s ==> (-s < x < s && -s < y < s)) by (nonlinear_arith)
            requires
                0 < s,
        ;
    }

    /// Whether `p` lies inside the domain.
    pub fn contains(&self, p: V) -> (inside: bool)
        requires
            self.wf(),
        ensures
            inside == self.holds(p.0 as int, p.1 as int),
            inside ==> p.in_range(),
    {
        proof {
            if self.holds(p.0 as int, p.1 as int) {
                self.lemma_inside_is_in_range(p.0 as int, p.1 as int);
            }
        }
        if !p.is_in_range() {
            return false;
        }
        match self.shape {
            Shape::Disk => {
                let size: u64 = self.size as u64;
                assert(size * size <= 0x4000_0000 * 0x4000_0000) by (nonlinear_arith)
                    requires
                        0 <= size <= 0x4000_0000,
                ;
                p.norm_sq() < size * size
            },
            Shape::Square => -self.size < p.0 && p.0 < self.size && -self.size < p.1 && p.1
                < self.size,
        }
    }

    /// The point reached from `from` by `step`, if it lies inside the
    /// domain.
    pub fn admits(&self, from: V, step: V) -> (to: Option<V>)
        requires
            self.wf(),
        ensures
            to is Some <==> self.admits_spec(from, step),
            to matches Some(p) ==> p.0 == from.0 + step.0 && p.1 == from.1 + step.1
                && p.in_range(),
    {
        let x: i128 = from.0 as i128 + step.0 as i128;
        let y: i128 = from.1 as i128 + step.1 as i128;
        proof {
            if self.holds(x as int, y as int) {
                self.lemma_inside_is_in_range(x as int, y as int);
            }
        }
        if x < -(COORD_LIMIT as i128) || x > COORD_LIMIT as i128 || y < -(COORD_LIMIT as i128) || y
            > COORD_LIMIT as i128 {
            return None;
        }
        let p = V(x as i64, y as i64);
        if self.contains(p) {
            Some(p)
        } else {
            None
        }
    }
}

} // verus!
