//! Points on lines: when three points lie on one line, where lines cross,
//! and how both go along when the plane is moved.

use crate::algebra::lemma_combination3_times;
use crate::algebra::lemma_combination_times;
use crate::algebra::lemma_four_factors;
use crate::algebra::lemma_product3;
use crate::algebra::lemma_times_sum2;
use crate::algebra::lemma_times_sum3;
use crate::arith::lemma_round_div_shift;
use crate::arith::round_div;
use crate::exact::collinear;
use crate::exact::det3;
use crate::exact::ExactLine;
use crate::exact::ExactPoint;
use crate::exact::foot;
use crate::exact::join;
use crate::exact::meet;
use crate::exact::perpendicular;
use vstd::prelude::*;

verus! {

/// The determinant of three points of which the first two are equal.
proof fn lemma_det3_repeated(v: ExactPoint, w: ExactPoint)
    ensures
        det3(v, v, w) == 0,
        det3(w, v, w) == 0,
{
    let (vx, vy, vw, wx, wy, ww) = (v.x, v.y, v.w, w.x, w.y, w.w);
    lemma_times_sum2(vx, vy * ww, wy * vw);
    lemma_times_sum2(vy, vx * ww, wx * vw);
    lemma_times_sum2(vw, vx * wy, wx * vy);
    lemma_product3(vx, vy, ww);
    lemma_product3(vx, wy, vw);
    lemma_product3(vy, wx, vw);
    lemma_times_sum2(wx, vy * ww, wy * vw);
    lemma_times_sum2(wy, vx * ww, wx * vw);
    lemma_times_sum2(ww, vx * wy, wx * vy);
    lemma_product3(wx, vy, ww);
    lemma_product3(wx, wy, vw);
    lemma_product3(wy, vx, ww);
}

/// Three points are collinear when a combination of them with integer
/// weights, the first weight not zero, vanishes.
pub proof fn lemma_dependent_points_collinear(
    u: ExactPoint,
    v: ExactPoint,
    w: ExactPoint,
    alpha: int,
    beta: int,
    gamma: int,
)
    requires
        alpha != 0,
        alpha * u.x + beta * v.x + gamma * w.x == 0,
        alpha * u.y + beta * v.y + gamma * w.y == 0,
        alpha * u.w + beta * v.w + gamma * w.w == 0,
    ensures
        collinear(u, v, w),
{
    let a = v.y * w.w - w.y * v.w;
    let b = v.x * w.w - w.x * v.w;
    let c = v.x * w.y - w.x * v.y;
    let d = det3(u, v, w);
    assert(d == u.x * a - u.y * b + u.w * c);
    lemma_det3_repeated(v, w);
    let dv = v.x * a - v.y * b + v.w * c;
    let dw = w.x * a - w.y * b + w.w * c;
    assert(dv == 0);
    assert(dw == 0);
    let (ux, uy, uw) = (u.x, u.y, u.w);
    let (vx, vy, vw) = (v.x, v.y, v.w);
    let (wx, wy, ww) = (w.x, w.y, w.w);
    lemma_combination3_times(alpha, ux, beta, vx, gamma, wx, a);
    lemma_combination3_times(alpha, uy, beta, vy, gamma, wy, b);
    lemma_combination3_times(alpha, uw, beta, vw, gamma, ww, c);
    lemma_times_sum3(alpha, ux * a, uy * b, uw * c);
    lemma_times_sum3(beta, vx * a, vy * b, vw * c);
    lemma_times_sum3(gamma, wx * a, wy * b, ww * c);
    assert(alpha * d == 0);
    assert(d == 0) by (nonlinear_arith)
        requires
            alpha * d == 0,
            alpha != 0,
    ;
}

/// The line from one point to another passes through both.
pub proof fn lemma_join_through_both(p: ExactPoint, q: ExactPoint)
    ensures
        join(p, q).contains(p),
        join(p, q).contains(q),
{
    let (px, py, pw) = (p.x, p.y, p.w);
    let (qx, qy, qw) = (q.x, q.y, q.w);
    lemma_times_sum2(px, qy * pw, py * qw);
    lemma_times_sum2(py, px * qw, qx * pw);
    lemma_times_sum2(pw, py * qx, px * qy);
    lemma_product3(px, qy, pw);
    lemma_product3(px, py, qw);
    lemma_product3(py, px, qw);
    lemma_product3(py, qx, pw);
    assert((qy * pw - py * qw) * px + (px * qw - qx * pw) * py + (py * qx - px * qy) * pw == 0);
    lemma_times_sum2(qx, qy * pw, py * qw);
    lemma_times_sum2(qy, px * qw, qx * pw);
    lemma_times_sum2(qw, py * qx, px * qy);
    lemma_product3(qx, qy, pw);
    lemma_product3(qy, qx, pw);
    lemma_product3(qx, py, qw);
    lemma_product3(py, qx, qw);
    lemma_product3(qy, px, qw);
    lemma_product3(px, qy, qw);
    assert((qy * pw - py * qw) * qx + (px * qw - qx * pw) * qy + (py * qx - px * qy) * qw == 0);
}

/// The point where two lines cross lies on both.
pub proof fn lemma_meet_on_both(l: ExactLine, m: ExactLine)
    ensures
        l.contains(meet(l, m)),
        m.contains(meet(l, m)),
{
    let (a1, b1, c1) = (l.a, l.b, l.c);
    let (a2, b2, c2) = (m.a, m.b, m.c);
    lemma_times_sum2(a1, b1 * c2, b2 * c1);
    lemma_times_sum2(b1, a2 * c1, a1 * c2);
    lemma_times_sum2(c1, a1 * b2, a2 * b1);
    lemma_product3(a1, b1, c2);
    lemma_product3(a1, b2, c1);
    lemma_product3(b1, a2, c1);
    assert(a1 * (b1 * c2 - b2 * c1) + b1 * (a2 * c1 - a1 * c2) + c1 * (a1 * b2 - a2 * b1) == 0);
    lemma_times_sum2(a2, b1 * c2, b2 * c1);
    lemma_times_sum2(b2, a2 * c1, a1 * c2);
    lemma_times_sum2(c2, a1 * b2, a2 * b1);
    lemma_product3(a2, b1, c2);
    lemma_product3(a2, b2, c1);
    lemma_product3(b2, a1, c2);
    assert(a2 * (b1 * c2 - b2 * c1) + b2 * (a2 * c1 - a1 * c2) + c2 * (a1 * b2 - a2 * b1) == 0);
}

/// A point on two lines lies on every combination of them.
pub proof fn lemma_on_combination(
    l: ExactLine,
    m: ExactLine,
    n: ExactLine,
    p: ExactPoint,
    alpha: int,
    beta: int,
)
    requires
        l.contains(p),
        m.contains(p),
        n.a == alpha * l.a + beta * m.a,
        n.b == alpha * l.b + beta * m.b,
        n.c == alpha * l.c + beta * m.c,
    ensures
        n.contains(p),
{
    let (x, y, w) = (p.x, p.y, p.w);
    let (la, lb, lc) = (l.a, l.b, l.c);
    let (ma, mb, mc) = (m.a, m.b, m.c);
    lemma_combination_times(alpha, la, beta, ma, x);
    lemma_combination_times(alpha, lb, beta, mb, y);
    lemma_combination_times(alpha, lc, beta, mc, w);
    lemma_times_sum3(alpha, la * x, lb * y, lc * w);
    lemma_times_sum3(beta, ma * x, mb * y, mc * w);
}

/// The foot of the perpendicular lies on the line, and on the line through
/// the point at a right angle to it; that line passes through the point.
pub proof fn lemma_foot_is_on_line(l: ExactLine, x: int, y: int)
    ensures
        l.contains(foot(l, x, y)),
        perpendicular(l, x, y).contains(foot(l, x, y)),
        perpendicular(l, x, y).eval(x, y) == 0,
        perpendicular(l, x, y).a * l.a + perpendicular(l, x, y).b * l.b == 0,
        foot(l, x, y).w == -l.norm(),
{
    lemma_meet_on_both(l, perpendicular(l, x, y));
    lemma_times_sum2(l.b, x, 0);
    lemma_times_sum2(l.a, y, 0);
    lemma_times_sum2(l.a, l.b, 0);
    lemma_times_sum2(l.a, l.a, 0);
    lemma_times_sum2(l.b, l.b, 0);
}

/// Moving two points moves the line through them with them.
pub proof fn lemma_join_moves(p: ExactPoint, q: ExactPoint, dx: int, dy: int)
    ensures
        join(p.translate(dx, dy), q.translate(dx, dy)) == join(p, q).translate(dx, dy),
{
    let (px, py, pw) = (p.x, p.y, p.w);
    let (qx, qy, qw) = (q.x, q.y, q.w);
    // a and b keep their values
    lemma_times_sum2(pw, qy, dy * qw);
    lemma_times_sum2(qw, py, dy * pw);
    lemma_product3(pw, dy, qw);
    lemma_product3(qw, dy, pw);
    assert((qy + dy * qw) * pw - (py + dy * pw) * qw == qy * pw - py * qw);
    lemma_times_sum2(qw, px, dx * pw);
    lemma_times_sum2(pw, qx, dx * qw);
    lemma_product3(qw, dx, pw);
    lemma_product3(pw, dx, qw);
    assert((px + dx * pw) * qw - (qx + dx * qw) * pw == px * qw - qx * pw);
    // c takes up the shift
    assert((py + dy * pw) * (qx + dx * qw) - (px + dx * pw) * (qy + dy * qw) == (py * qx - px
        * qy) - (qy * pw - py * qw) * dx - (px * qw - qx * pw) * dy) by {
        lemma_times_sum2(py + dy * pw, qx, dx * qw);
        lemma_times_sum2(qx, py, dy * pw);
        lemma_times_sum2(dx * qw, py, dy * pw);
        lemma_times_sum2(px + dx * pw, qy, dy * qw);
        lemma_times_sum2(qy, px, dx * pw);
        lemma_times_sum2(dy * qw, px, dx * pw);
        lemma_times_sum2(dx, qy * pw, py * qw);
        lemma_times_sum2(dy, px * qw, qx * pw);
        lemma_product3(dx, qy, pw);
        lemma_product3(dx, py, qw);
        lemma_product3(dy, px, qw);
        lemma_product3(dy, qx, pw);
        lemma_product3(qx, dy, pw);
        lemma_product3(py, dx, qw);
        lemma_product3(qy, dx, pw);
        lemma_product3(px, dy, qw);
        lemma_times_sum2(dy * pw, qx, 0);
        lemma_times_sum2(dx * qw, py, 0);
        lemma_times_sum2(dx * pw, qy, 0);
        lemma_times_sum2(dy * qw, px, 0);
        lemma_four_factors(dy, pw, dx, qw);
        lemma_times_sum2(py, qx, 0);
        lemma_times_sum2(px, qy, 0);
    }
}

/// Moving two lines moves the point where they cross with them.
pub proof fn lemma_meet_moves(l: ExactLine, m: ExactLine, dx: int, dy: int)
    ensures
        meet(l.translate(dx, dy), m.translate(dx, dy)) == meet(l, m).translate(dx, dy),
{
    let (a1, b1, c1) = (l.a, l.b, l.c);
    let (a2, b2, c2) = (m.a, m.b, m.c);
    lemma_times_sum3(b1, c2, a2 * dx, b2 * dy);
    lemma_times_sum3(b2, c1, a1 * dx, b1 * dy);
    lemma_times_sum3(a2, c1, a1 * dx, b1 * dy);
    lemma_times_sum3(a1, c2, a2 * dx, b2 * dy);
    lemma_product3(b1, a2, dx);
    lemma_product3(b1, b2, dy);
    lemma_product3(b2, a1, dx);
    lemma_product3(b2, b1, dy);
    lemma_product3(a2, a1, dx);
    lemma_product3(a2, b1, dy);
    lemma_product3(a1, a2, dx);
    lemma_product3(a1, b2, dy);
    lemma_times_sum2(dx, a1 * b2, a2 * b1);
    lemma_times_sum2(dy, a1 * b2, a2 * b1);
    lemma_times_sum2(a1, b2, 0);
    lemma_times_sum2(a2, b1, 0);
    lemma_times_sum2(a1, a2, 0);
    lemma_times_sum2(b1, b2, 0);
    assert(b1 * (c2 - a2 * dx - b2 * dy) - b2 * (c1 - a1 * dx - b1 * dy) == (b1 * c2 - b2 * c1)
        + dx * (a1 * b2 - a2 * b1));
    assert(a2 * (c1 - a1 * dx - b1 * dy) - a1 * (c2 - a2 * dx - b2 * dy) == (a2 * c1 - a1 * c2)
        + dy * (a1 * b2 - a2 * b1));
}

/// Changing the signs of the three coordinates of a rational point changes
/// neither the point nor the lattice point that it rounds to.
pub proof fn lemma_round_of_negated(p: ExactPoint)
    ensures
        p.negate().round() == p.round(),
{
    if p.w != 0 {
        assert(round_div(-p.x, -p.w) == round_div(p.x, p.w));
        assert(round_div(-p.y, -p.w) == round_div(p.y, p.w));
    }
}

/// Rounding goes with moving: the nearest lattice point of a moved
/// rational point is the moved nearest lattice point.
pub proof fn lemma_nearest_moves(p: ExactPoint, dx: int, dy: int)
    requires
        p.w != 0,
    ensures
        round_div(p.translate(dx, dy).x, p.w) == round_div(p.x, p.w) + dx,
        round_div(p.translate(dx, dy).y, p.w) == round_div(p.y, p.w) + dy,
{
    lemma_round_div_shift(p.x, p.w, dx);
    lemma_round_div_shift(p.y, p.w, dy);
}

/// Crossing two lines in the other order, or changing the signs of one of
/// them, changes the signs of the coordinates of the point; adding the first
/// line to the second changes nothing.
pub proof fn lemma_meet_rules(l: ExactLine, m: ExactLine)
    ensures
        meet(m, l) == meet(l, m).negate(),
        meet(l.scale(-1), m) == meet(l, m).negate(),
        meet(l, ExactLine { a: l.a + m.a, b: l.b + m.b, c: l.c + m.c }) == meet(l, m),
{
    lemma_times_sum2(l.a, m.b, 0);
    lemma_times_sum2(l.b, m.c, 0);
    lemma_times_sum2(l.c, m.a, 0);
    lemma_times_sum2(m.a, l.b, 0);
    lemma_times_sum2(m.b, l.c, 0);
    lemma_times_sum2(m.c, l.a, 0);
    lemma_times_sum2(m.a, l.c, 0);
    lemma_times_sum2(l.a, m.c, 0);
    assert(meet(l.scale(-1), m) == meet(l, m).negate());
    lemma_times_sum2(l.b, l.c, m.c);
    lemma_times_sum2(l.c, l.b, m.b);
    lemma_times_sum2(l.c, l.a, m.a);
    lemma_times_sum2(l.a, l.c, m.c);
    lemma_times_sum2(l.a, l.b, m.b);
    lemma_times_sum2(l.b, l.a, m.a);
    lemma_times_sum2(l.a, l.b, 0);
    lemma_times_sum2(l.b, l.c, 0);
    lemma_times_sum2(l.c, l.a, 0);
}

} // verus!
