//! Elastic collisions between two particles of equal mass.

use vstd::prelude::*;
use vstd::arithmetic::div_mod::lemma_div_is_ordered;
use vstd::arithmetic::div_mod::lemma_div_multiples_vanish;
use crate::particle::Dot;
use crate::vec2::square;
use crate::vec2::COORD_LIMIT;
use crate::vec2::V;

verus! {

/// `num / den`, rounded towards zero.
pub open spec fn quotient_towards_zero(num: int, den: int) -> int
    recommends
        den > 0,
{
    if num >= 0 {
        num / den
    } else {
        -((-num) / den)
    }
}

/// The two particles overlap: their centres are apart, and closer than
/// the sum of their radii, which is twice the radius for particles of
/// one size.
pub open spec fn touching(a: Dot, b: Dot) -> bool {
    0 < V::dist_sq_spec(a.new_pos, b.new_pos) < square(a.radius + b.radius)
}

/// The velocity that a collision moves along the normal `(nx, ny)`, for
/// the velocity `(rx, ry)` with which the two bodies approach: `weight`
/// times the part of `(rx, ry)` along the normal, each component rounded
/// towards zero. Bodies that do not approach exchange nothing.
pub open spec fn impulse(rx: int, ry: int, nx: int, ny: int, weight: int) -> (int, int) {
    let along = rx * nx + ry * ny;
    let nn = nx * nx + ny * ny;
    if along > 0 {
        (
            quotient_towards_zero(weight * along * nx, nn),
            quotient_towards_zero(weight * along * ny, nn),
        )
    } else {
        (0, 0)
    }
}

/// The velocities of `a` and `b` after their collision was resolved.
///
/// Particles that do not overlap, or that are both anchored, keep their
/// velocities. Two free particles exchange the part of their relative
/// velocity that lies along the line between their centres, if they
/// approach each other. Where one is anchored, the free one has that part
/// of its own velocity reflected, if it approaches the anchored one.
pub open spec fn collide_spec(a: Dot, b: Dot) -> ((int, int), (int, int)) {
    let nx = b.new_pos.0 - a.new_pos.0;
    let ny = b.new_pos.1 - a.new_pos.1;
    let va = (a.velocity.0 as int, a.velocity.1 as int);
    let vb = (b.velocity.0 as int, b.velocity.1 as int);
    if !touching(a, b) || (a.anchored && b.anchored) {
        (va, vb)
    } else if !a.anchored && !b.anchored {
        let j = impulse(va.0 - vb.0, va.1 - vb.1, nx, ny, 1);
        ((va.0 - j.0, va.1 - j.1), (vb.0 + j.0, vb.1 + j.1))
    } else if b.anchored {
        let j = impulse(va.0, va.1, nx, ny, 2);
        ((va.0 - j.0, va.1 - j.1), vb)
    } else {
        let j = impulse(-vb.0, -vb.1, nx, ny, 2);
        (va, (vb.0 + j.0, vb.1 + j.1))
    }
}

/// The part of a velocity along a normal is no longer than the velocity
/// allows: each component of `along * n` is at most `2 * bound * nn`.
pub proof fn lemma_projection_bound(rx: int, ry: int, nx: int, ny: int, bound: int)
    requires
        -bound <= rx <= bound,
        -bound <= ry <= bound,
    ensures
        -2 * (bound * (nx * nx + ny * ny)) <= (rx * nx + ry * ny) * nx <= 2 * (bound * (nx * nx
            + ny * ny)),
        -2 * (bound * (nx * nx + ny * ny)) <= (rx * nx + ry * ny) * ny <= 2 * (bound * (nx * nx
            + ny * ny)),
{
    let nn = nx * nx + ny * ny;
    let xx = nx * nx;
    let yy = ny * ny;
    let xy = nx * ny;
    assert(xx >= 0 && yy >= 0) by (nonlinear_arith)
        requires
            xx == nx * nx,
            yy == ny * ny,
    ;
    assert(-nn <= 2 * xy <= nn) by (nonlinear_arith)
        requires
            nn == nx * nx + ny * ny,
            xy == nx * ny,
    ;
    assert(-(bound * xx) <= rx * xx <= bound * xx) by (nonlinear_arith)
        requires
            -bound <= rx <= bound,
            xx >= 0,
    ;
    assert(-(bound * yy) <= ry * yy <= bound * yy) by (nonlinear_arith)
        requires
            -bound <= ry <= bound,
            yy >= 0,
    ;
    assert(-(bound * nn) <= 2 * (ry * xy) <= bound * nn) by (nonlinear_arith)
        requires
            -bound <= ry <= bound,
            -nn <= 2 * xy <= nn,
    ;
    assert(-(bound * nn) <= 2 * (rx * xy) <= bound * nn) by (nonlinear_arith)
        requires
            -bound <= rx <= bound,
            -nn <= 2 * xy <= nn,
    ;
    assert((rx * nx + ry * ny) * nx == rx * xx + ry * xy) by (nonlinear_arith)
        requires
            xx == nx * nx,
            xy == nx * ny,
    ;
    assert((rx * nx + ry * ny) * ny == rx * xy + ry * yy) by (nonlinear_arith)
        requires
            yy == ny * ny,
            xy == nx * ny,
    ;
    assert(0 <= bound * xx <= bound * nn && 0 <= bound * yy <= bound * nn) by (nonlinear_arith)
        requires
            nn == xx + yy,
            xx >= 0,
            yy >= 0,
            bound >= 0,
    ;
}

/// One component of an impulse: `scaled * n / nn`, rounded towards zero.
fn component(scaled: i128, n: i64, nn: i128, Ghost(cap): Ghost<int>) -> (j: i64)
    requires
        0 <= scaled <= 0x1_0000_0000_0000_0000,
        -2 * COORD_LIMIT <= n <= 2 * COORD_LIMIT,
        0 < nn,
        0 <= cap <= 4 * COORD_LIMIT,
        -(cap * nn) <= scaled * n <= cap * nn,
    ensures
        j == quotient_towards_zero(scaled * n, nn as int),
        -cap <= j <= cap,
{
    let size: i128 = if n >= 0 {
        n as i128
    } else {
        -(n as i128)
    };
    assert(0 <= scaled * size <= 0x1_0000_0000_0000_0000 * 0x8000_0000) by (nonlinear_arith)
        requires
            0 <= scaled <= 0x1_0000_0000_0000_0000,
            0 <= size <= 0x8000_0000,
    ;
    assert(scaled * size == scaled * n || scaled * size == -(scaled * n)) by (nonlinear_arith)
        requires
            size == n || size == -n,
    ;
    assert(n >= 0 ==> scaled * n >= 0) by (nonlinear_arith)
        requires
            scaled >= 0,
    ;
    assert(n < 0 ==> scaled * n <= 0) by (nonlinear_arith)
        requires
            scaled >= 0,
    ;
    let part: i128 = (scaled * size) / nn;
    proof {
        lemma_div_is_ordered(0, scaled * size, nn as int);
        lemma_div_is_ordered(scaled * size, cap * nn, nn as int);
        lemma_div_multiples_vanish(cap, nn as int);
        assert(cap * nn == nn * cap) by (nonlinear_arith);
    }
    if n >= 0 {
        part as i64
    } else {
        -(part as i64)
    }
}

/// The velocity that a collision moves along the normal.
fn exchange(rx: i64, ry: i64, nx: i64, ny: i64, weight: i64) -> (j: (i64, i64))
    requires
        weight == 1 || weight == 2,
        -2 * COORD_LIMIT <= nx <= 2 * COORD_LIMIT,
        -2 * COORD_LIMIT <= ny <= 2 * COORD_LIMIT,
        nx * nx + ny * ny > 0,
        weight == 1 ==> -2 * COORD_LIMIT <= rx <= 2 * COORD_LIMIT && -2 * COORD_LIMIT <= ry <= 2
            * COORD_LIMIT,
        weight == 2 ==> -COORD_LIMIT <= rx <= COORD_LIMIT && -COORD_LIMIT <= ry <= COORD_LIMIT,
    ensures
        (j.0 as int, j.1 as int) == impulse(rx as int, ry as int, nx as int, ny as int, weight as int),
        -4 * COORD_LIMIT <= j.0 <= 4 * COORD_LIMIT,
        -4 * COORD_LIMIT <= j.1 <= 4 * COORD_LIMIT,
{
    let along: i128 = V::dot(V(rx, ry), V(nx, ny));
    proof {
        assert(-0x4000_0000_0000_0000 <= rx * nx <= 0x4000_0000_0000_0000) by (nonlinear_arith)
            requires
                -0x8000_0000 <= rx <= 0x8000_0000,
                -0x8000_0000 <= nx <= 0x8000_0000,
        ;
        assert(-0x4000_0000_0000_0000 <= ry * ny <= 0x4000_0000_0000_0000) by (nonlinear_arith)
            requires
                -0x8000_0000 <= ry <= 0x8000_0000,
                -0x8000_0000 <= ny <= 0x8000_0000,
        ;
    }
    if along <= 0 {
        return (0, 0);
    }
    let nn: i128 = V::dot(V(nx, ny), V(nx, ny));
    let scaled: i128 = if weight == 1 {
        along
    } else {
        2 * along
    };
    assert(scaled == weight * along) by (nonlinear_arith)
        requires
            (weight == 1 && scaled == along) || (weight == 2 && scaled == 2 * along),
    ;
    let ghost bound: int = if weight == 1 {
        2 * COORD_LIMIT as int
    } else {
        COORD_LIMIT as int
    };
    let ghost cap: int = 4 * COORD_LIMIT;
    proof {
        lemma_projection_bound(rx as int, ry as int, nx as int, ny as int, bound);
        let spread = bound * nn;
        assert(cap * nn == 2 * weight * spread) by (nonlinear_arith)
            requires
                cap == 2 * weight * bound,
                spread == bound * nn,
        ;
        assert(scaled * nx == weight * (along * nx) && scaled * ny == weight * (along * ny))
            by (nonlinear_arith)
            requires
                scaled == weight * along,
        ;
        assert(weight * along * nx == scaled * nx && weight * along * ny == scaled * ny)
            by (nonlinear_arith)
            requires
                scaled == weight * along,
        ;
    }
    (component(scaled, nx, nn, Ghost(cap)), component(scaled, ny, nn, Ghost(cap)))
}

/// Resolves the collision of two particles and tells whether they
/// overlap. Nothing but the two velocities changes, and an anchored
/// particle keeps its velocity.
pub fn collide(a: &mut Dot, b: &mut Dot) -> (hit: bool)
    requires
        old(a).wf(),
        old(b).wf(),
        old(a).velocity.in_range(),
        old(b).velocity.in_range(),
    ensures
        hit == touching(*old(a), *old(b)),
        *final(a) == (Dot { velocity: final(a).velocity, ..*old(a) }),
        *final(b) == (Dot { velocity: final(b).velocity, ..*old(b) }),
        (final(a).velocity.0 as int, final(a).velocity.1 as int) == collide_spec(
            *old(a),
            *old(b),
        ).0,
        (final(b).velocity.0 as int, final(b).velocity.1 as int) == collide_spec(
            *old(a),
            *old(b),
        ).1,
        old(a).anchored ==> final(a).velocity == old(a).velocity,
        old(b).anchored ==> final(b).velocity == old(b).velocity,
        final(a).velocity.within(5 * COORD_LIMIT),
        final(b).velocity.within(5 * COORD_LIMIT),
{
    let nx: i64 = b.new_pos.0 - a.new_pos.0;
    let ny: i64 = b.new_pos.1 - a.new_pos.1;
    let nn: u64 = V::dist_sq(a.new_pos, b.new_pos);
    let reach: u64 = (a.radius + b.radius) as u64;
    assert(reach * reach <= 0x8000_0000 * 0x8000_0000) by (nonlinear_arith)
        requires
            0 <= reach <= 0x8000_0000,
    ;
    proof {
        assert(nx * nx == square(a.new_pos.0 - b.new_pos.0)) by (nonlinear_arith)
            requires
                nx == -(a.new_pos.0 - b.new_pos.0),
        ;
        assert(ny * ny == square(a.new_pos.1 - b.new_pos.1)) by (nonlinear_arith)
            requires
                ny == -(a.new_pos.1 - b.new_pos.1),
        ;
    }
    if nn == 0 || nn >= reach * reach {
        return false;
    }
    if a.anchored && b.anchored {
        return true;
    }
    if !a.anchored && !b.anchored {
        let j = exchange(a.velocity.0 - b.velocity.0, a.velocity.1 - b.velocity.1, nx, ny, 1);
        a.velocity = V(a.velocity.0 - j.0, a.velocity.1 - j.1);
        b.velocity = V(b.velocity.0 + j.0, b.velocity.1 + j.1);
    } else if b.anchored {
        let j = exchange(a.velocity.0, a.velocity.1, nx, ny, 2);
        a.velocity = V(a.velocity.0 - j.0, a.velocity.1 - j.1);
    } else {
        let j = exchange(-b.velocity.0, -b.velocity.1, nx, ny, 2);
        b.velocity = V(b.velocity.0 + j.0, b.velocity.1 + j.1);
    }
    true
}

} // verus!
