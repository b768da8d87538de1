//! A grid over the lattice that finds the particles near a point without
//! looking at every pair.

use std::collections::HashMap;
use vstd::prelude::*;
use vstd::arithmetic::div_mod::lemma_div_is_ordered;
use vstd::arithmetic::div_mod::lemma_div_plus_one;
use vstd::arithmetic::div_mod::lemma_fundamental_div_mod;
use vstd::arithmetic::div_mod::lemma_fundamental_div_mod_converse;
use vstd::arithmetic::div_mod::lemma_mod_bound;
use crate::vec2::lemma_square_reflects;
use crate::vec2::square;
use crate::vec2::COORD_LIMIT;
use crate::vec2::V;

verus! {

broadcast use {vstd::std_specs::hash::group_hash_axioms, vstd::seq_lib::lemma_seq_contains_after_push};

/// Cell coordinates lie within `CELL_SHIFT` of zero.
pub const CELL_SHIFT: i64 = 0x8000_0000;

/// The number of cell coordinates that a key tells apart on each axis.
pub const CELL_SPAN: i64 = 0x1_0000_0000;

/// The cell coordinate of the lattice coordinate `x` on a grid of cells
/// of the given size: `x / size`, rounded down.
pub open spec fn cell_of(x: int, size: int) -> int {
    x / size
}

/// A cell coordinate that a key can hold.
pub open spec fn cell_in_range(c: int) -> bool {
    -CELL_SHIFT <= c < CELL_SHIFT
}

/// The key under which the cell `(cx, cy)` is filed.
pub open spec fn key_of(cx: int, cy: int) -> int {
    (cx + CELL_SHIFT) * CELL_SPAN + (cy + CELL_SHIFT)
}

/// Two cells are the same or touch, corners included.
pub open spec fn adjacent(ax: int, ay: int, bx: int, by: int) -> bool {
    -1 <= ax - bx <= 1 && -1 <= ay - by <= 1
}

/// Different cells have different keys.
pub proof fn lemma_key_is_injective(ax: int, ay: int, bx: int, by: int)
    requires
        cell_in_range(ax),
        cell_in_range(ay),
        cell_in_range(bx),
        cell_in_range(by),
        key_of(ax, ay) == key_of(bx, by),
    ensures
        ax == bx,
        ay == by,
{
}

/// The cell of a lattice coordinate is well away from the largest cell
/// coordinate that a key can hold.
pub proof fn lemma_cell_bounds(x: int, size: int)
    requires
        -COORD_LIMIT <= x <= COORD_LIMIT,
        0 < size,
    ensures
        -COORD_LIMIT <= cell_of(x, size) <= COORD_LIMIT,
{
    lemma_fundamental_div_mod(x, size);
    lemma_mod_bound(x, size);
    let q = x / size;
    if q > COORD_LIMIT {
        assert(size * q >= q) by (nonlinear_arith)
            requires
                q >= 0,
                size >= 1,
        ;
    }
    if q < -COORD_LIMIT {
        assert(size * (q + 1) <= q + 1) by (nonlinear_arith)
            requires
                q + 1 <= 0,
                size >= 1,
        ;
        assert(size * q == size * (q + 1) - size) by (nonlinear_arith);
    }
}

/// Two lattice coordinates less than a cell size apart lie in the same
/// cell or in neighbouring cells.
pub proof fn lemma_close_coordinates_share_cells(a: int, b: int, size: int)
    requires
        0 < size,
        -size < a - b < size,
    ensures
        -1 <= cell_of(a, size) - cell_of(b, size) <= 1,
{
    if a <= b {
        lemma_div_is_ordered(a, b, size);
        lemma_div_is_ordered(b, size + a, size);
        lemma_div_plus_one(a, size);
    } else {
        lemma_div_is_ordered(b, a, size);
        lemma_div_is_ordered(a, size + b, size);
        lemma_div_plus_one(b, size);
    }
}

/// Two points of the plane closer to each other than a cell is wide lie
/// in the same cell or in cells that touch.
pub proof fn lemma_close_points_share_cells(a: V, b: V, size: int)
    requires
        0 < size,
        V::dist_sq_spec(a, b) < size * size,
    ensures
        adjacent(
            cell_of(a.0 as int, size),
            cell_of(a.1 as int, size),
            cell_of(b.0 as int, size),
            cell_of(b.1 as int, size),
        ),
{
    let dx = if a.0 >= b.0 {
        a.0 - b.0
    } else {
        b.0 - a.0
    };
    let dy = if a.1 >= b.1 {
        a.1 - b.1
    } else {
        b.1 - a.1
    };
    assert(dx * dx == square(a.0 - b.0)) by (nonlinear_arith)
        requires
            dx == a.0 - b.0 || dx == b.0 - a.0,
    ;
    assert(dy * dy == square(a.1 - b.1)) by (nonlinear_arith)
        requires
            dy == a.1 - b.1 || dy == b.1 - a.1,
    ;
    assert(dx * dx >= 0 && dy * dy >= 0) by (nonlinear_arith);
    lemma_square_reflects(dx, size);
    lemma_square_reflects(dy, size);
    lemma_close_coordinates_share_cells(a.0 as int, b.0 as int, size);
    lemma_close_coordinates_share_cells(a.1 as int, b.1 as int, size);
}

/// Particle `j` is in use, is not particle `i`, and is closer to it than
/// `reach`.
pub open spec fn within_reach(points: Seq<V>, active: Seq<bool>, i: int, j: int, reach: int) -> bool {
    &&& 0 <= j < points.len()
    &&& active[j]
    &&& j != i
    &&& V::dist_sq_spec(points[i], points[j]) < reach * reach
}

/// The cell coordinate of `x` on a grid of cells of the given size.
pub fn cell_coordinate(x: i64, size: i64) -> (c: i64)
    requires
        0 < size,
    ensures
        c == cell_of(x as int, size as int),
{
    if x >= 0 {
        x / size
    } else {
        let below: i64 = -(x + 1);
        let m: i64 = below / size;
        proof {
            lemma_fundamental_div_mod(below as int, size as int);
            lemma_mod_bound(below as int, size as int);
            let r = (below as int) % (size as int);
            assert(size * m == m * size) by (nonlinear_arith);
            assert((-m - 1) * size == -(m * size) - size) by (nonlinear_arith);
            lemma_fundamental_div_mod_converse(x as int, size as int, -m - 1, size - 1 - r);
            assert(0 <= m <= below) by (nonlinear_arith)
                requires
                    below == size * m + r,
                    0 <= r < size,
                    0 < size,
                    0 <= below,
            ;
        }
        -m - 1
    }
}

/// The key under which the cell `(cx, cy)` is filed.
pub fn cell_key(cx: i64, cy: i64) -> (key: u64)
    requires
        cell_in_range(cx as int),
        cell_in_range(cy as int),
    ensures
        key == key_of(cx as int, cy as int),
{
    let column: u64 = (cx + CELL_SHIFT) as u64;
    let row: u64 = (cy + CELL_SHIFT) as u64;
    assert(column * 0x1_0000_0000 <= 0xffff_ffff * 0x1_0000_0000) by (nonlinear_arith)
        requires
            column <= 0xffff_ffff,
    ;
    column * (CELL_SPAN as u64) + row
}

/// A grid of square cells, each with the list of the particles filed
/// under it. The grid holds indices only.
pub struct SpatialIndex {
    /// The side of a cell.
    pub cell: i64,
    /// The number of the bucket of each cell that has one.
    pub slots: HashMap<u64, usize>,
    /// The buckets, in the order in which their cells were first used.
    pub buckets: Vec<Vec<usize>>,
}

impl SpatialIndex {
    /// The grid is valid: its cells have a size, every cell that has a
    /// bucket has one of its own.
    pub open spec fn wf(&self) -> bool {
        &&& 0 < self.cell <= COORD_LIMIT
        &&& forall|k: u64| #[trigger]
            self.slots@.contains_key(k) ==> self.slots@[k] < self.buckets@.len()
        &&& forall|j: u64, k: u64|
            #![trigger self.slots@[j], self.slots@[k]]
            self.slots@.contains_key(j) && self.slots@.contains_key(k) && j != k
                ==> self.slots@[j] != self.slots@[k]
    }

    /// The particles filed under the cell `(cx, cy)`.
    pub open spec fn bucket_at(&self, cx: int, cy: int) -> Seq<usize> {
        let key = key_of(cx, cy) as u64;
        if self.slots@.contains_key(key) {
            self.buckets@[self.slots@[key] as int]@
        } else {
            Seq::empty()
        }
    }

    /// Particle `p` is filed under the cell `(cx, cy)`.
    pub open spec fn lists(&self, cx: int, cy: int, p: usize) -> bool {
        self.bucket_at(cx, cy).contains(p)
    }

    /// A grid of cells of the given size with nothing filed.
    pub fn empty(cell: i64) -> (index: SpatialIndex)
        requires
            0 < cell <= COORD_LIMIT,
        ensures
            index.wf(),
            index.cell == cell,
            forall|cx: int, cy: int| #[trigger] index.bucket_at(cx, cy) == Seq::<usize>::empty(),
    {
        SpatialIndex { cell, slots: HashMap::new(), buckets: Vec::new() }
    }

    /// Files particle `p` under the cell `(cx, cy)`.
    pub fn insert(&mut self, cx: i64, cy: i64, p: usize)
        requires
            old(self).wf(),
            cell_in_range(cx as int),
            cell_in_range(cy as int),
        ensures
            final(self).wf(),
            final(self).cell == old(self).cell,
            final(self).bucket_at(cx as int, cy as int) == old(self).bucket_at(
                cx as int,
                cy as int,
            ).push(p),
            forall|ox: int, oy: int|
                cell_in_range(ox) && cell_in_range(oy) && (ox != cx || oy != cy)
                    ==> #[trigger] final(self).bucket_at(ox, oy) == old(self).bucket_at(ox, oy),
    {
        let key = cell_key(cx, cy);
        let found: Option<usize> = match self.slots.get(&key) {
            Some(slot) => Some(*slot),
            None => None,
        };
        match found {
            Some(slot) => {
                self.buckets[slot].push(p);
            },
            None => {
                let slot = self.buckets.len();
                let mut bucket: Vec<usize> = Vec::new();
                bucket.push(p);
                self.buckets.push(bucket);
                self.slots.insert(key, slot);
            },
        }
        proof {
            assert forall|ox: int, oy: int|
                cell_in_range(ox) && cell_in_range(oy) && (ox != cx || oy != cy)
                    implies #[trigger] final(self).bucket_at(ox, oy) == old(self).bucket_at(ox, oy) by {
                if key_of(ox, oy) == key_of(cx as int, cy as int) {
                    lemma_key_is_injective(ox, oy, cx as int, cy as int);
                }
            }
        }
    }

    /// Every particle in use is filed under its own cell and under the
    /// eight cells around it.
    pub open spec fn covers(&self, points: Seq<V>, active: Seq<bool>) -> bool {
        forall|p: usize, cx: int, cy: int|
            p < points.len() && active[p as int] && adjacent(
                cx,
                cy,
                cell_of(points[p as int].0 as int, self.cell as int),
                cell_of(points[p as int].1 as int, self.cell as int),
            ) ==> #[trigger] self.lists(cx, cy, p)
    }

    /// Nothing is filed but particles in use, each under its own cell and
    /// the eight cells around it.
    pub open spec fn lists_only(&self, points: Seq<V>, active: Seq<bool>) -> bool {
        forall|p: usize, cx: int, cy: int|
            cell_in_range(cx) && cell_in_range(cy) && #[trigger] self.lists(cx, cy, p) ==> {
                &&& p < points.len()
                &&& active[p as int]
                &&& adjacent(
                    cx,
                    cy,
                    cell_of(points[p as int].0 as int, self.cell as int),
                    cell_of(points[p as int].1 as int, self.cell as int),
                )
            }
    }

    /// Files particle `p`, which is at `at`, under the cell of `at` and
    /// under the eight cells around it.
    pub fn file(&mut self, at: V, p: usize)
        requires
            old(self).wf(),
            at.in_range(),
        ensures
            final(self).wf(),
            final(self).cell == old(self).cell,
            forall|cx: int, cy: int|
                cell_in_range(cx) && cell_in_range(cy) ==> #[trigger] final(self).bucket_at(cx, cy)
                    == if adjacent(
                    cx,
                    cy,
                    cell_of(at.0 as int, old(self).cell as int),
                    cell_of(at.1 as int, old(self).cell as int),
                ) {
                    old(self).bucket_at(cx, cy).push(p)
                } else {
                    old(self).bucket_at(cx, cy)
                },
    {
        proof {
            lemma_cell_bounds(at.0 as int, self.cell as int);
            lemma_cell_bounds(at.1 as int, self.cell as int);
        }
        let cx = cell_coordinate(at.0, self.cell);
        let cy = cell_coordinate(at.1, self.cell);
        self.insert(cx - 1, cy - 1, p);
        self.insert(cx - 1, cy, p);
        self.insert(cx - 1, cy + 1, p);
        self.insert(cx, cy - 1, p);
        self.insert(cx, cy, p);
        self.insert(cx, cy + 1, p);
        self.insert(cx + 1, cy - 1, p);
        self.insert(cx + 1, cy, p);
        self.insert(cx + 1, cy + 1, p);
    }

    /// The grid of cells of the given size over the points in use.
    pub fn build(points: &Vec<V>, active: &Vec<bool>, cell: i64) -> (index: SpatialIndex)
        requires
            points@.len() == active@.len(),
            forall|i: int| 0 <= i < points@.len() ==> (#[trigger] points@[i]).in_range(),
            0 < cell <= COORD_LIMIT,
        ensures
            index.wf(),
            index.cell == cell,
            index.covers(points@, active@),
            index.lists_only(points@, active@),
    {
        let mut index = SpatialIndex::empty(cell);
        let n = points.len();
        let mut k: usize = 0;
        while k < n
            invariant
                n == points@.len(),
                n == active@.len(),
                k <= n,
                forall|i: int| 0 <= i < points@.len() ==> (#[trigger] points@[i]).in_range(),
                index.wf(),
                index.cell == cell,
                forall|p: usize, cx: int, cy: int|
                    p < k && active@[p as int] && adjacent(
                        cx,
                        cy,
                        cell_of(points@[p as int].0 as int, cell as int),
                        cell_of(points@[p as int].1 as int, cell as int),
                    ) ==> #[trigger] index.lists(cx, cy, p),
                forall|p: usize, cx: int, cy: int|
                    cell_in_range(cx) && cell_in_range(cy) && #[trigger] index.lists(cx, cy, p) ==> {
                        &&& p < k
                        &&& active@[p as int]
                        &&& adjacent(
                            cx,
                            cy,
                            cell_of(points@[p as int].0 as int, cell as int),
                            cell_of(points@[p as int].1 as int, cell as int),
                        )
                    },
            decreases n - k,
        {
            if active[k] {
                let ghost before = index;
                index.file(points[k], k);
                proof {
                    assert forall|p: usize, cx: int, cy: int|
                        p < k + 1 && active@[p as int] && adjacent(
                            cx,
                            cy,
                            cell_of(points@[p as int].0 as int, cell as int),
                            cell_of(points@[p as int].1 as int, cell as int),
                        ) implies #[trigger] index.lists(cx, cy, p) by {
                        lemma_cell_bounds(points@[p as int].0 as int, cell as int);
                        lemma_cell_bounds(points@[p as int].1 as int, cell as int);
                        if p < k {
                            assert(before.lists(cx, cy, p));
                        }
                    }
                    assert forall|p: usize, cx: int, cy: int|
                        cell_in_range(cx) && cell_in_range(cy) && #[trigger] index.lists(
                            cx,
                            cy,
                            p,
                        ) implies p < k + 1 && active@[p as int] && adjacent(
                        cx,
                        cy,
                        cell_of(points@[p as int].0 as int, cell as int),
                        cell_of(points@[p as int].1 as int, cell as int),
                    ) by {
                        if p != k {
                            assert(before.lists(cx, cy, p));
                        }
                    }
                }
            }
            k += 1;
        }
        index
    }

    /// The particles in use that are closer than `reach` to particle `i`,
    /// each of them once.
    pub fn neighbours(&self, points: &Vec<V>, active: &Vec<bool>, i: usize, reach: i64) -> (found:
        Vec<usize>)
        requires
            self.wf(),
            self.covers(points@, active@),
            points@.len() == active@.len(),
            forall|k: int| 0 <= k < points@.len() ==> (#[trigger] points@[k]).in_range(),
            i < points@.len(),
            0 < reach <= self.cell,
        ensures
            forall|j: usize|
                #[trigger] found@.contains(j) <==> within_reach(
                    points@,
                    active@,
                    i as int,
                    j as int,
                    reach as int,
                ),
            found@.no_duplicates(),
    {
        let n = points.len();
        let here = points[i];
        proof {
            lemma_cell_bounds(here.0 as int, self.cell as int);
            lemma_cell_bounds(here.1 as int, self.cell as int);
        }
        let cx = cell_coordinate(here.0, self.cell);
        let cy = cell_coordinate(here.1, self.cell);
        let key = cell_key(cx, cy);
        let mut found: Vec<usize> = Vec::new();
        let span: u64 = reach as u64;
        assert(span * span <= 0x4000_0000 * 0x4000_0000) by (nonlinear_arith)
            requires
                0 <= span <= 0x4000_0000,
        ;
        let limit: u64 = span * span;
        proof {
            assert forall|j: usize|
                within_reach(points@, active@, i as int, j as int, reach as int) implies self.lists(
                cx as int,
                cy as int,
                j,
            ) by {
                assert(reach * reach <= self.cell * self.cell) by (nonlinear_arith)
                    requires
                        0 < reach <= self.cell,
                ;
                lemma_close_points_share_cells(here, points@[j as int], self.cell as int);
            }
        }
        match self.slots.get(&key) {
            None => {
                assert(self.bucket_at(cx as int, cy as int) == Seq::<usize>::empty());
                assert forall|j: usize| #[trigger]
                    found@.contains(j) <==> within_reach(
                        points@,
                        active@,
                        i as int,
                        j as int,
                        reach as int,
                    ) by {
                    if within_reach(points@, active@, i as int, j as int, reach as int) {
                        assert(self.lists(cx as int, cy as int, j));
                    }
                }
            },
            Some(slot) => {
                let bucket = &self.buckets[*slot];
                assert(bucket@ == self.bucket_at(cx as int, cy as int));
                let m = bucket.len();
                let mut t: usize = 0;
                while t < m
                    invariant
                        m == bucket@.len(),
                        t <= m,
                        n == points@.len(),
                        n == active@.len(),
                        i < n,
                        here == points@[i as int],
                        limit == reach * reach,
                        found@.no_duplicates(),
                        forall|k: int| 0 <= k < points@.len() ==> (#[trigger] points@[k]).in_range(),
                        forall|j: usize|
                            #[trigger] found@.contains(j) <==> (within_reach(
                                points@,
                                active@,
                                i as int,
                                j as int,
                                reach as int,
                            ) && bucket@.take(t as int).contains(j)),
                    decreases m - t,
                {
                    let e = bucket[t];
                    assert(bucket@.take(t + 1) =~= bucket@.take(t as int).push(e));
                    if e < n && e != i && active[e] && !contains_index(&found, e) {
                        if V::dist_sq(here, points[e]) < limit {
                            found.push(e);
                        }
                    }
                    t += 1;
                }
                assert(bucket@.take(m as int) =~= bucket@);
                assert forall|j: usize| #[trigger]
                    found@.contains(j) <==> within_reach(
                        points@,
                        active@,
                        i as int,
                        j as int,
                        reach as int,
                    ) by {
                    if within_reach(points@, active@, i as int, j as int, reach as int) {
                        assert(self.lists(cx as int, cy as int, j));
                    }
                }
            },
        }
        found
    }
}

/// Whether `list` holds `index`.
fn contains_index(list: &Vec<usize>, index: usize) -> (yes: bool)
    ensures
        yes == list@.contains(index),
{
    let mut k: usize = 0;
    while k < list.len()
        invariant
            k <= list@.len(),
            !list@.take(k as int).contains(index),
        decreases list@.len() - k,
    {
        if list[k] == index {
            return true;
        }
        assert(list@.take(k + 1) =~= list@.take(k as int).push(list@[k as int]));
        k += 1;
    }
    assert(list@.take(list@.len() as int) =~= list@);
    false
}

/// Two particles in use that are closer to each other than a cell is wide
/// are filed together under at least one cell: under the cell of each of
/// them.
pub proof fn lemma_index_is_complete(
    index: SpatialIndex,
    points: Seq<V>,
    active: Seq<bool>,
    a: usize,
    b: usize,
)
    requires
        index.wf(),
        index.covers(points, active),
        points.len() == active.len(),
        a < points.len(),
        b < points.len(),
        active[a as int],
        active[b as int],
        V::dist_sq_spec(points[a as int], points[b as int]) < index.cell * index.cell,
    ensures
        index.lists(
            cell_of(points[b as int].0 as int, index.cell as int),
            cell_of(points[b as int].1 as int, index.cell as int),
            a,
        ),
        index.lists(
            cell_of(points[b as int].0 as int, index.cell as int),
            cell_of(points[b as int].1 as int, index.cell as int),
            b,
        ),
        exists|cx: int, cy: int| #[trigger] index.lists(cx, cy, a) && index.lists(cx, cy, b),
{
    V::lemma_dist_sq_symmetric(points[a as int], points[b as int]);
    lemma_close_points_share_cells(points[b as int], points[a as int], index.cell as int);
    let cx = cell_of(points[b as int].0 as int, index.cell as int);
    let cy = cell_of(points[b as int].1 as int, index.cell as int);
    assert(index.lists(cx, cy, a) && index.lists(cx, cy, b));
}

} // verus!
