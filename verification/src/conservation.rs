//! What a collision between two free particles keeps: their momentum,
//! and their kinetic energy up to what rounding to the lattice costs.

use vstd::prelude::*;
use vstd::arithmetic::div_mod::lemma_fundamental_div_mod;
use vstd::arithmetic::div_mod::lemma_mod_bound;
use crate::collision::collide_spec;
use crate::collision::impulse;
use crate::collision::quotient_towards_zero;
use crate::collision::touching;
use crate::particle::Dot;
use crate::vec2::V;

verus! {

/// The size of a number.
pub open spec fn magnitude(x: int) -> int {
    if x >= 0 {
        x
    } else {
        -x
    }
}

/// Twice the kinetic energy of a pair of particles of unit mass with the
/// velocities `u` and `v`.
pub open spec fn pair_energy(u: (int, int), v: (int, int)) -> int {
    u.0 * u.0 + u.1 * u.1 + v.0 * v.0 + v.1 * v.1
}

/// Two free particles keep their momentum in a collision: what one of
/// them loses the other gains.
pub proof fn lemma_collision_conserves_momentum(a: Dot, b: Dot)
    requires
        !a.anchored,
        !b.anchored,
    ensures
        collide_spec(a, b).0.0 + collide_spec(a, b).1.0 == a.velocity.0 + b.velocity.0,
        collide_spec(a, b).0.1 + collide_spec(a, b).1.1 == a.velocity.1 + b.velocity.1,
{
}

/// Two free particles keep their kinetic energy in a collision, but for
/// what rounding the impulse to the lattice costs: the energy of the
/// pair changes by less than `4 * (1 + |rx| + |ry|)`, where `(rx, ry)` is
/// the velocity of one particle relative to the other.
pub proof fn lemma_collision_keeps_energy(a: Dot, b: Dot)
    requires
        !a.anchored,
        !b.anchored,
    ensures
        ({
            let before = pair_energy(
                (a.velocity.0 as int, a.velocity.1 as int),
                (b.velocity.0 as int, b.velocity.1 as int),
            );
            let after = pair_energy(collide_spec(a, b).0, collide_spec(a, b).1);
            let slack = 4 * (1 + magnitude(a.velocity.0 - b.velocity.0) + magnitude(
                a.velocity.1 - b.velocity.1,
            ));
            -slack < after - before < slack
        }),
{
    let nx = b.new_pos.0 - a.new_pos.0;
    let ny = b.new_pos.1 - a.new_pos.1;
    let rx = a.velocity.0 - b.velocity.0;
    let ry = a.velocity.1 - b.velocity.1;
    let along = rx * nx + ry * ny;
    let nn = nx * nx + ny * ny;
    let spread = magnitude(rx) + magnitude(ry);
    if touching(a, b) && along > 0 {
        let j = impulse(rx, ry, nx, ny, 1);
        assert(1 * along * nx == along * nx && 1 * along * ny == along * ny) by (nonlinear_arith);
        assert(nn == V::dist_sq_spec(a.new_pos, b.new_pos)) by (nonlinear_arith)
            requires
                nx == -(a.new_pos.0 - b.new_pos.0),
                ny == -(a.new_pos.1 - b.new_pos.1),
                nn == nx * nx + ny * ny,
                V::dist_sq_spec(a.new_pos, b.new_pos) == (a.new_pos.0 - b.new_pos.0) * (a.new_pos.0
                    - b.new_pos.0) + (a.new_pos.1 - b.new_pos.1) * (a.new_pos.1 - b.new_pos.1),
        ;
        lemma_exchange_energy(rx, ry, nx, ny, j.0, j.1);
        let change = j.0 * j.0 + j.1 * j.1 - (j.0 * rx + j.1 * ry);
        let va = (a.velocity.0 as int, a.velocity.1 as int);
        let vb = (b.velocity.0 as int, b.velocity.1 as int);
        assert(pair_energy((va.0 - j.0, va.1 - j.1), (vb.0 + j.0, vb.1 + j.1)) - pair_energy(va, vb)
            == 2 * change) by (nonlinear_arith)
            requires
                rx == va.0 - vb.0,
                ry == va.1 - vb.1,
                change == j.0 * j.0 + j.1 * j.1 - (j.0 * rx + j.1 * ry),
                pair_energy((va.0 - j.0, va.1 - j.1), (vb.0 + j.0, vb.1 + j.1)) == (va.0 - j.0) * (
                va.0 - j.0) + (va.1 - j.1) * (va.1 - j.1) + (vb.0 + j.0) * (vb.0 + j.0) + (vb.1
                    + j.1) * (vb.1 + j.1),
                pair_energy(va, vb) == va.0 * va.0 + va.1 * va.1 + vb.0 * vb.0 + vb.1 * vb.1,
        ;
    }
}

/// The energy that an exchange rounded to the lattice adds or takes.
proof fn lemma_exchange_energy(rx: int, ry: int, nx: int, ny: int, jx: int, jy: int)
    requires
        nx * nx + ny * ny > 0,
        jx == quotient_towards_zero((rx * nx + ry * ny) * nx, nx * nx + ny * ny),
        jy == quotient_towards_zero((rx * nx + ry * ny) * ny, nx * nx + ny * ny),
    ensures
        -2 * (1 + magnitude(rx) + magnitude(ry)) < jx * jx + jy * jy - (jx * rx + jy * ry) < 2 * (1
            + magnitude(rx) + magnitude(ry)),
{
    let along = rx * nx + ry * ny;
    let nn = nx * nx + ny * ny;
    let spread = magnitude(rx) + magnitude(ry);
    let big_x = along * nx;
    let big_y = along * ny;
    let rest_x = big_x - nn * jx;
    let rest_y = big_y - nn * jy;
    let turn_x = 2 * big_x - nn * rx;
    let turn_y = 2 * big_y - nn * ry;
    let change = jx * jx + jy * jy - (jx * rx + jy * ry);
    lemma_quotient_towards_zero(big_x, nn);
    lemma_quotient_towards_zero(big_y, nn);
    lemma_mirror_bound(rx, ry, nx, ny);
    lemma_rounded_square(nn * jx, big_x, rest_x, nn * rx);
    lemma_rounded_square(nn * jy, big_y, rest_y, nn * ry);
    lemma_exact_exchange(rx, ry, nx, ny);
    let wide = nn + spread * nn;
    assert(-wide <= rest_x - turn_x <= wide);
    assert(-wide <= rest_y - turn_y <= wide);
    lemma_product_bound(rest_x, rest_x - turn_x, nn, wide);
    lemma_product_bound(rest_y, rest_y - turn_y, nn, wide);
    let sq = nn * nn;
    assert(sq * change == sq * (jx * jx) + sq * (jy * jy) - sq * (jx * rx) - sq * (jy * ry))
        by (nonlinear_arith)
        requires
            change == jx * jx + jy * jy - (jx * rx + jy * ry),
    ;
    assert(sq * (jx * jx) == (nn * jx) * (nn * jx)) by (nonlinear_arith)
        requires
            sq == nn * nn,
    ;
    assert(sq * (jy * jy) == (nn * jy) * (nn * jy)) by (nonlinear_arith)
        requires
            sq == nn * nn,
    ;
    assert(sq * (jx * rx) == (nn * rx) * (nn * jx)) by (nonlinear_arith)
        requires
            sq == nn * nn,
    ;
    assert(sq * (jy * ry) == (nn * ry) * (nn * jy)) by (nonlinear_arith)
        requires
            sq == nn * nn,
    ;
    assert(sq * change == rest_x * (rest_x - turn_x) + rest_y * (rest_y - turn_y));
    assert(nn * wide == sq * (1 + spread)) by (nonlinear_arith)
        requires
            wide == nn + spread * nn,
            sq == nn * nn,
    ;
    assert(wide > 0) by (nonlinear_arith)
        requires
            wide == nn + spread * nn,
            nn > 0,
            spread >= 0,
    ;
    let cap = 2 * (1 + spread);
    assert(sq > 0) by (nonlinear_arith)
        requires
            sq == nn * nn,
            nn > 0,
    ;
    assert(sq * cap == 2 * (sq * (1 + spread))) by (nonlinear_arith)
        requires
            cap == 2 * (1 + spread),
    ;
    assert(-(sq * cap) < sq * change < sq * cap);
    assert(-cap < change < cap) by (nonlinear_arith)
        requires
            -(sq * cap) < sq * change < sq * cap,
            sq > 0,
    ;
}

/// Rounding a quotient towards zero loses less than one unit.
pub proof fn lemma_quotient_towards_zero(num: int, den: int)
    requires
        den > 0,
    ensures
        -den < num - den * quotient_towards_zero(num, den) < den,
{
    if num >= 0 {
        lemma_fundamental_div_mod(num, den);
        lemma_mod_bound(num, den);
    } else {
        lemma_fundamental_div_mod(-num, den);
        lemma_mod_bound(-num, den);
        let q = (-num) / den;
        assert(den * (-q) == -(den * q)) by (nonlinear_arith);
    }
}

/// The velocity `(rx, ry)` mirrored at the normal `(nx, ny)`, and scaled
/// by the squared length of the normal, is no longer than the velocity
/// scaled likewise.
proof fn lemma_mirror_bound(rx: int, ry: int, nx: int, ny: int)
    ensures
        magnitude(2 * ((rx * nx + ry * ny) * nx) - (nx * nx + ny * ny) * rx) <= (magnitude(rx)
            + magnitude(ry)) * (nx * nx + ny * ny),
        magnitude(2 * ((rx * nx + ry * ny) * ny) - (nx * nx + ny * ny) * ry) <= (magnitude(rx)
            + magnitude(ry)) * (nx * nx + ny * ny),
{
    let nn = nx * nx + ny * ny;
    let xx = nx * nx;
    let yy = ny * ny;
    let xy = nx * ny;
    let ax = magnitude(rx);
    let ay = magnitude(ry);
    assert(xx >= 0 && yy >= 0) by (nonlinear_arith)
        requires
            xx == nx * nx,
            yy == ny * ny,
    ;
    assert(-nn <= 2 * xy <= nn) by (nonlinear_arith)
        requires
            nn == nx * nx + ny * ny,
            xy == nx * ny,
    ;
    assert(2 * ((rx * nx + ry * ny) * nx) - nn * rx == rx * (xx - yy) + ry * (2 * xy))
        by (nonlinear_arith)
        requires
            nn == nx * nx + ny * ny,
            xx == nx * nx,
            yy == ny * ny,
            xy == nx * ny,
    ;
    assert(2 * ((rx * nx + ry * ny) * ny) - nn * ry == ry * (yy - xx) + rx * (2 * xy))
        by (nonlinear_arith)
        requires
            nn == nx * nx + ny * ny,
            xx == nx * nx,
            yy == ny * ny,
            xy == nx * ny,
    ;
    assert(-(ax * nn) <= rx * (xx - yy) <= ax * nn) by (nonlinear_arith)
        requires
            -ax <= rx <= ax,
            -nn <= xx - yy <= nn,
    ;
    assert(-(ax * nn) <= rx * (2 * xy) <= ax * nn) by (nonlinear_arith)
        requires
            -ax <= rx <= ax,
            -nn <= 2 * xy <= nn,
    ;
    assert(-(ay * nn) <= ry * (yy - xx) <= ay * nn) by (nonlinear_arith)
        requires
            -ay <= ry <= ay,
            -nn <= yy - xx <= nn,
    ;
    assert(-(ay * nn) <= ry * (2 * xy) <= ay * nn) by (nonlinear_arith)
        requires
            -ay <= ry <= ay,
            -nn <= 2 * xy <= nn,
    ;
    assert((ax + ay) * nn == ax * nn + ay * nn) by (nonlinear_arith);
}

/// What rounding adds to the energy of an exchange: with `a` for `nn`
/// times a component of the impulse, `big` for the exact value of `a`,
/// `rest` for what rounding took off, and `m` for `nn` times a component
/// of the approach.
proof fn lemma_rounded_square(a: int, big: int, rest: int, m: int)
    requires
        a == big - rest,
    ensures
        a * a - m * a == big * (big - m) + rest * (rest - (2 * big - m)),
{
    assert(a * a - m * a == big * (big - m) + rest * (rest - (2 * big - m))) by (nonlinear_arith)
        requires
            a == big - rest,
    ;
}

/// An exact exchange along the normal leaves the energy as it is.
proof fn lemma_exact_exchange(rx: int, ry: int, nx: int, ny: int)
    ensures
        ({
            let along = rx * nx + ry * ny;
            let nn = nx * nx + ny * ny;
            (along * nx) * (along * nx - nn * rx) + (along * ny) * (along * ny - nn * ry) == 0
        }),
{
    let along = rx * nx + ry * ny;
    let nn = nx * nx + ny * ny;
    let px = along * nx;
    let py = along * ny;
    let aa = along * along;
    assert(px * (px - nn * rx) == px * px - px * (nn * rx)) by (nonlinear_arith);
    assert(py * (py - nn * ry) == py * py - py * (nn * ry)) by (nonlinear_arith);
    assert(px * px == aa * (nx * nx)) by (nonlinear_arith)
        requires
            px == along * nx,
            aa == along * along,
    ;
    assert(py * py == aa * (ny * ny)) by (nonlinear_arith)
        requires
            py == along * ny,
            aa == along * along,
    ;
    assert(px * (nn * rx) == (nn * along) * (rx * nx)) by (nonlinear_arith)
        requires
            px == along * nx,
    ;
    assert(py * (nn * ry) == (nn * along) * (ry * ny)) by (nonlinear_arith)
        requires
            py == along * ny,
    ;
    assert(aa * (nx * nx) + aa * (ny * ny) == aa * nn) by (nonlinear_arith)
        requires
            nn == nx * nx + ny * ny,
    ;
    assert((nn * along) * (rx * nx) + (nn * along) * (ry * ny) == (nn * along) * along)
        by (nonlinear_arith)
        requires
            along == rx * nx + ry * ny,
    ;
    assert((nn * along) * along == aa * nn) by (nonlinear_arith)
        requires
            aa == along * along,
    ;
}

/// A product of two bounded numbers is bounded by the product of the
/// bounds.
proof fn lemma_product_bound(x: int, y: int, bx: int, by: int)
    requires
        -bx < x < bx,
        -by <= y <= by,
    ensures
        -(bx * by) <= x * y <= bx * by,
        by > 0 ==> -(bx * by) < x * y < bx * by,
{
    assert(-(bx * by) <= x * y <= bx * by) by (nonlinear_arith)
        requires
            -bx < x < bx,
            -by <= y <= by,
    ;
    if by > 0 {
        assert(-(bx * by) < x * y < bx * by) by (nonlinear_arith)
            requires
                -bx < x < bx,
                -by <= y <= by,
                by > 0,
        ;
    }
}

} // verus!
