//! Two-dimensional lattice vectors.

use vstd::prelude::*;

verus! {

/// Largest magnitude of a coordinate that the engine works with.
pub const COORD_LIMIT: i64 = 1_073_741_824;

/// A vector of the plane with integer components.
#[derive(Clone, Copy, Debug, PartialEq, Eq, Structural)]
pub struct V(pub i64, pub i64);

/// The square of an integer.
pub open spec fn square(x: int) -> int {
    x * x
}

/// `r` is a natural number and `n` lies between its square and the square
/// of its successor.
pub open spec fn is_floor_sqrt(n: int, r: int) -> bool {
    r >= 0 && r * r <= n < (r + 1) * (r + 1)
}

/// The largest natural number whose square does not exceed `n`.
pub open spec fn floor_sqrt(n: int) -> int
    recommends
        n >= 0,
{
    choose|r: int| is_floor_sqrt(n, r)
}

/// Squaring keeps the order of natural numbers.
pub proof fn lemma_square_monotone(a: int, b: int)
    requires
        0 <= a <= b,
    ensures
        a * a <= b * b,
{
    assert(a * a <= b * b) by (nonlinear_arith)
        requires
            0 <= a <= b,
    ;
}

/// Two natural numbers whose squares are ordered strictly are ordered
/// the same way.
pub proof fn lemma_square_reflects(a: int, b: int)
    requires
        0 <= a,
        0 <= b,
        a * a < b * b,
    ensures
        a < b,
{
    if a >= b {
        lemma_square_monotone(b, a);
    }
}

/// A natural number that brackets `n` between its square and the square of
/// its successor is the floor of the square root of `n`.
pub proof fn lemma_floor_sqrt_unique(n: int, r: int)
    requires
        is_floor_sqrt(n, r),
    ensures
        floor_sqrt(n) == r,
{
    let s = floor_sqrt(n);
    assert(is_floor_sqrt(n, s));
    if s < r {
        lemma_square_monotone(s + 1, r);
    } else if r < s {
        lemma_square_monotone(r + 1, s);
    }
}

impl V {
    /// Both components lie within `limit` of zero.
    pub open spec fn within(self, limit: int) -> bool {
        &&& -limit <= self.0 <= limit
        &&& -limit <= self.1 <= limit
    }

    /// Both components lie within `COORD_LIMIT` of zero.
    pub open spec fn in_range(self) -> bool {
        self.within(COORD_LIMIT as int)
    }

    /// The scalar product as a mathematical integer.
    pub open spec fn dot_spec(a: V, b: V) -> int {
        a.0 * b.0 + a.1 * b.1
    }

    /// The squared Euclidean length as a mathematical integer.
    pub open spec fn norm_sq_spec(self) -> int {
        V::dot_spec(self, self)
    }

    /// The squared Euclidean distance between two points.
    pub open spec fn dist_sq_spec(a: V, b: V) -> int {
        square(a.0 - b.0) + square(a.1 - b.1)
    }

    /// The distance from `a` to `b` is the distance from `b` to `a`.
    pub proof fn lemma_dist_sq_symmetric(a: V, b: V)
        ensures
            V::dist_sq_spec(a, b) == V::dist_sq_spec(b, a),
    {
        let dx = a.0 - b.0;
        let dy = a.1 - b.1;
        assert(dx * dx == (-dx) * (-dx)) by (nonlinear_arith);
        assert(dy * dy == (-dy) * (-dy)) by (nonlinear_arith);
    }

    /// The vector with the components `x` and `y`.
    pub fn new(x: i64, y: i64) -> (v: V)
        ensures
            v == V(x, y),
    {
        V(x, y)
    }

    /// Whether both components lie within `COORD_LIMIT` of zero.
    pub fn is_in_range(&self) -> (ok: bool)
        ensures
            ok == self.in_range(),
    {
        -COORD_LIMIT <= self.0 && self.0 <= COORD_LIMIT && -COORD_LIMIT <= self.1 && self.1
            <= COORD_LIMIT
    }

    /// The scalar product of two vectors.
    pub fn dot(a: V, b: V) -> (d: i128)
        requires
            a.within(2 * COORD_LIMIT),
            b.within(2 * COORD_LIMIT),
        ensures
            d == V::dot_spec(a, b),
    {
        let ax: i128 = a.0 as i128;
        let ay: i128 = a.1 as i128;
        let bx: i128 = b.0 as i128;
        let by: i128 = b.1 as i128;
        assert(-0x4000_0000_0000_0000 <= ax * bx <= 0x4000_0000_0000_0000) by (nonlinear_arith)
            requires
                -0x8000_0000 <= ax <= 0x8000_0000,
                -0x8000_0000 <= bx <= 0x8000_0000,
        ;
        assert(-0x4000_0000_0000_0000 <= ay * by <= 0x4000_0000_0000_0000) by (nonlinear_arith)
            requires
                -0x8000_0000 <= ay <= 0x8000_0000,
                -0x8000_0000 <= by <= 0x8000_0000,
        ;
        ax * bx + ay * by
    }

    /// The squared Euclidean length.
    pub fn norm_sq(&self) -> (n: u64)
        requires
            self.within(2 * COORD_LIMIT),
        ensures
            n == self.norm_sq_spec(),
    {
        let d: i128 = V::dot(*self, *self);
        assert(0 <= self.0 * self.0 <= 0x4000_0000_0000_0000) by (nonlinear_arith)
            requires
                -0x8000_0000 <= self.0 <= 0x8000_0000,
        ;
        assert(0 <= self.1 * self.1 <= 0x4000_0000_0000_0000) by (nonlinear_arith)
            requires
                -0x8000_0000 <= self.1 <= 0x8000_0000,
        ;
        d as u64
    }

    /// The squared Euclidean distance between two points of the lattice.
    pub fn dist_sq(a: V, b: V) -> (n: u64)
        requires
            a.in_range(),
            b.in_range(),
        ensures
            n == V::dist_sq_spec(a, b),
    {
        (a - b).norm_sq()
    }

    /// The Euclidean length, rounded down to a whole number.
    pub fn norm(&self) -> (r: u64)
        requires
            self.within(2 * COORD_LIMIT),
        ensures
            r == floor_sqrt(self.norm_sq_spec()),
            r * r <= self.norm_sq_spec() < (r + 1) * (r + 1),
    {
        let n: u64 = self.norm_sq();
        let mut lo: u64 = 0;
        let mut hi: u64 = 0x1_0000_0000;
        assert(n < 0x1_0000_0000 * 0x1_0000_0000);
        while hi - lo > 1
            invariant
                lo < hi <= 0x1_0000_0000,
                lo * lo <= n < hi * hi,
            decreases hi - lo,
        {
            let mid: u64 = lo + (hi - lo) / 2;
            assert(mid * mid < 0x1_0000_0000 * 0x1_0000_0000) by (nonlinear_arith)
                requires
                    0 <= mid < 0x1_0000_0000,
            ;
            if mid * mid <= n {
                lo = mid;
            } else {
                hi = mid;
            }
        }
        proof {
            lemma_floor_sqrt_unique(n as int, lo as int);
        }
        lo
    }
}

impl vstd::std_specs::ops::AddSpecImpl for V {
    open spec fn obeys_add_spec() -> bool {
        true
    }

    open spec fn add_req(self, rhs: V) -> bool {
        &&& i64::MIN <= self.0 + rhs.0 <= i64::MAX
        &&& i64::MIN <= self.1 + rhs.1 <= i64::MAX
    }

    open spec fn add_spec(self, rhs: V) -> V {
        V((self.0 + rhs.0) as i64, (self.1 + rhs.1) as i64)
    }
}

/// The sum of two vectors, component by component, where it fits.
impl core::ops::Add for V {
    type Output = V;

    fn add(self, rhs: V) -> V {
        V(self.0 + rhs.0, self.1 + rhs.1)
    }
}

impl vstd::std_specs::ops::SubSpecImpl for V {
    open spec fn obeys_sub_spec() -> bool {
        true
    }

    open spec fn sub_req(self, rhs: V) -> bool {
        &&& i64::MIN <= self.0 - rhs.0 <= i64::MAX
        &&& i64::MIN <= self.1 - rhs.1 <= i64::MAX
    }

    open spec fn sub_spec(self, rhs: V) -> V {
        V((self.0 - rhs.0) as i64, (self.1 - rhs.1) as i64)
    }
}

/// The difference of two vectors, component by component, where it fits.
impl core::ops::Sub for V {
    type Output = V;

    fn sub(self, rhs: V) -> V {
        V(self.0 - rhs.0, self.1 - rhs.1)
    }
}

impl vstd::std_specs::ops::NegSpecImpl for V {
    open spec fn obeys_neg_spec() -> bool {
        true
    }

    open spec fn neg_req(self) -> bool {
        self.0 != i64::MIN && self.1 != i64::MIN
    }

    open spec fn neg_spec(self) -> V {
        V((-self.0) as i64, (-self.1) as i64)
    }
}

/// The opposite of a vector, where it fits.
impl core::ops::Neg for V {
    type Output = V;

    fn neg(self) -> V {
        V(-self.0, -self.1)
    }
}

} // verus!
