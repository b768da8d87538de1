//! The particles of a simulation, in a fixed order.

use vstd::prelude::*;
use crate::collision::collide;
use crate::collision::collide_spec;
use crate::collision::touching;
use crate::particle::Dot;
use crate::vec2::V;

verus! {

/// Borrows two different elements of a slice at once. There is nothing to
/// borrow where the two indices are equal or one of them is out of bounds.
pub fn index_twice<T>(slc: &mut [T], a: usize, b: usize) -> (pair: Option<(&mut T, &mut T)>)
    ensures
        pair is None <==> (a == b || a >= old(slc)@.len() || b >= old(slc)@.len()),
        pair matches Some((first, second)) ==> {
            &&& *first == old(slc)@[a as int]
            &&& *second == old(slc)@[b as int]
            &&& final(slc)@ == old(slc)@.update(a as int, *final(first)).update(
                b as int,
                *final(second),
            )
        },
        pair is None ==> final(slc)@ == old(slc)@,
{
    if a == b {
        None
    } else if a >= slc.len() || b >= slc.len() {
        None
    } else if a < b {
        let (low, high) = slc.split_at_mut(b);
        let (_, mid) = low.split_at_mut(a);
        let first = mid.first_mut().unwrap();
        let second = high.first_mut().unwrap();
        Some((first, second))
    } else {
        let (low, high) = slc.split_at_mut(a);
        let (_, mid) = low.split_at_mut(b);
        let second = mid.first_mut().unwrap();
        let first = high.first_mut().unwrap();
        Some((first, second))
    }
}

/// The particles of one simulation. Particles are added at the start and
/// never removed; each keeps its index.
#[derive(Debug)]
pub struct ParticleStore {
    pub dots: Vec<Dot>,
}

impl ParticleStore {
    /// Every particle of the store is valid.
    pub open spec fn wf(&self) -> bool {
        forall|i: int| 0 <= i < self.dots@.len() ==> (#[trigger] self.dots@[i]).wf()
    }

    /// The positions at which the particles are drawn at `now`.
    pub open spec fn positions_spec(&self, now: u64) -> Seq<V> {
        Seq::new(self.dots@.len(), |i: int| self.dots@[i].pos_spec(now))
    }

    /// A store without particles.
    pub fn new() -> (store: ParticleStore)
        ensures
            store.dots@.len() == 0,
            store.wf(),
    {
        ParticleStore { dots: Vec::new() }
    }

    /// The number of particles.
    pub fn len(&self) -> (n: usize)
        ensures
            n == self.dots@.len(),
    {
        self.dots.len()
    }

    /// Adds a particle behind the others and returns its index.
    pub fn push(&mut self, dot: Dot) -> (index: usize)
        requires
            old(self).wf(),
            dot.wf(),
        ensures
            final(self).wf(),
            final(self).dots@ == old(self).dots@.push(dot),
            index == old(self).dots@.len(),
    {
        let index = self.dots.len();
        self.dots.push(dot);
        index
    }

    /// The particle at index `i`.
    pub fn get(&self, i: usize) -> (dot: Dot)
        requires
            i < self.dots@.len(),
        ensures
            dot == self.dots@[i as int],
    {
        self.dots[i]
    }

    /// Replaces the particle at index `i`.
    pub fn set(&mut self, i: usize, dot: Dot)
        requires
            old(self).wf(),
            i < old(self).dots@.len(),
            dot.wf(),
        ensures
            final(self).wf(),
            final(self).dots@ == old(self).dots@.update(i as int, dot),
    {
        self.dots[i] = dot;
    }

    /// Borrows the particles at two different indices at once.
    pub fn pair_mut(&mut self, a: usize, b: usize) -> (pair: Option<(&mut Dot, &mut Dot)>)
        ensures
            pair is None <==> (a == b || a >= old(self).dots@.len() || b >= old(
                self,
            ).dots@.len()),
            pair matches Some((first, second)) ==> {
                &&& *first == old(self).dots@[a as int]
                &&& *second == old(self).dots@[b as int]
                &&& final(self).dots@ == old(self).dots@.update(a as int, *final(first)).update(
                    b as int,
                    *final(second),
                )
            },
            pair is None ==> final(self).dots@ == old(self).dots@,
    {
        index_twice(self.dots.as_mut_slice(), a, b)
    }

    /// Commits a move of particle `i` to `new_target` that takes
    /// `duration` from `now`. The move starts where the particle is drawn
    /// at `now`, not at its former target, so that the drawn path has no
    /// jump.
    pub fn commit_move(&mut self, i: usize, new_target: V, duration: u64, now: u64)
        requires
            old(self).wf(),
            i < old(self).dots@.len(),
            new_target.in_range(),
            now + duration <= u64::MAX,
        ensures
            final(self).wf(),
            final(self).dots@ == old(self).dots@.update(
                i as int,
                (Dot {
                    new_pos: new_target,
                    new_t: (now + duration) as u64,
                    last_pos: old(self).dots@[i as int].pos_spec(now),
                    last_t: now,
                    ..old(self).dots@[i as int]
                }),
            ),
            duration > 0 ==> final(self).positions_spec(now) == old(self).positions_spec(now),
    {
        let mut dot = self.dots[i];
        dot.mov(new_target, duration, now);
        self.dots[i] = dot;
        proof {
            if duration > 0 {
                assert(final(self).positions_spec(now) =~= old(self).positions_spec(now));
            }
        }
    }

    /// Resolves the collision of the particles `i` and `j` and tells
    /// whether they overlap. A particle does not collide with itself.
    pub fn collide(&mut self, i: usize, j: usize) -> (hit: bool)
        requires
            old(self).wf(),
            i < old(self).dots@.len(),
            j < old(self).dots@.len(),
            old(self).dots@[i as int].velocity.in_range(),
            old(self).dots@[j as int].velocity.in_range(),
        ensures
            final(self).wf(),
            final(self).dots@.len() == old(self).dots@.len(),
            hit == (i != j && touching(old(self).dots@[i as int], old(self).dots@[j as int])),
            i == j ==> final(self).dots@ == old(self).dots@,
            i != j ==> {
                let a = old(self).dots@[i as int];
                let b = old(self).dots@[j as int];
                let after = collide_spec(a, b);
                &&& final(self).dots@[i as int] == (Dot {
                    velocity: V(after.0.0 as i64, after.0.1 as i64),
                    ..a
                })
                &&& final(self).dots@[j as int] == (Dot {
                    velocity: V(after.1.0 as i64, after.1.1 as i64),
                    ..b
                })
                &&& forall|k: int|
                    0 <= k < final(self).dots@.len() && k != i && k != j ==> final(self).dots@[k]
                        == old(self).dots@[k]
            },
    {
        match self.pair_mut(i, j) {
            Some((a, b)) => collide(a, b),
            None => false,
        }
    }

    /// The positions at which the particles are drawn at `now`, in the
    /// order of the store.
    pub fn positions(&self, now: u64) -> (points: Vec<V>)
        requires
            self.wf(),
        ensures
            points@ == self.positions_spec(now),
            forall|i: int| 0 <= i < points@.len() ==> (#[trigger] points@[i]).in_range(),
    {
        let mut points: Vec<V> = Vec::new();
        let n = self.dots.len();
        let mut i: usize = 0;
        while i < n
            invariant
                self.wf(),
                n == self.dots@.len(),
                i <= n,
                points@.len() == i,
                forall|k: int| 0 <= k < i ==> #[trigger] points@[k] == self.dots@[k].pos_spec(now),
                forall|k: int| 0 <= k < i ==> (#[trigger] points@[k]).in_range(),
            decreases n - i,
        {
            let p = self.dots[i].pos(now);
            points.push(p);
            i += 1;
        }
        assert(points@ =~= self.positions_spec(now));
        points
    }
}

} // verus!
