//! Radical axes and the radical centre: the lines and the point of equal
//! power.

use crate::algebra::lemma_double_double;
use crate::algebra::lemma_four_factors;
use crate::algebra::lemma_product3;
use crate::algebra::lemma_product_of_differences;
use crate::algebra::lemma_square_of_difference;
use crate::algebra::lemma_square_of_sum;
use crate::algebra::lemma_times_sum2;
use crate::algebra::lemma_times_sum3;
use crate::exact::collinear;
use crate::exact::det3;
use crate::exact::ExactCircle;
use crate::exact::ExactLine;
use crate::exact::meet;
use crate::exact::radical_axis;
use crate::exact::radical_center;
use crate::laws::incidence::lemma_meet_moves;
use crate::laws::incidence::lemma_meet_on_both;
use crate::laws::incidence::lemma_meet_rules;
use crate::laws::incidence::lemma_on_combination;
use crate::laws::incidence::lemma_round_of_negated;
use vstd::prelude::*;

verus! {

/// The radical axis is the line of equal power: at every point its value is
/// the power with respect to the first circle less the power with respect
/// to the second.
pub proof fn lemma_radical_axis_is_power_difference(c1: ExactCircle, c2: ExactCircle, x: int, y: int)
    ensures
        radical_axis(c1, c2).eval(x, y) == c1.power(x, y) - c2.power(x, y),
{
    lemma_square_of_difference(x, c1.x);
    lemma_square_of_difference(y, c1.y);
    lemma_square_of_difference(x, c2.x);
    lemma_square_of_difference(y, c2.y);
    lemma_times_sum2(2, c2.x, c1.x);
    lemma_times_sum2(2, c2.y, c1.y);
    lemma_times_sum2(x, 2 * c2.x, 2 * c1.x);
    lemma_times_sum2(y, 2 * c2.y, 2 * c1.y);
    lemma_product3(x, 2, c2.x);
    lemma_product3(x, 2, c1.x);
    lemma_product3(y, 2, c2.y);
    lemma_product3(y, 2, c1.y);
    lemma_times_sum2(2 * (c2.x - c1.x), x, 0);
    lemma_times_sum2(2 * (c2.y - c1.y), y, 0);
}

/// The radical centre has the same power with respect to the three circles:
/// where it is a lattice point, the three powers are equal.
pub proof fn lemma_radical_center_equal_power(
    c1: ExactCircle,
    c2: ExactCircle,
    c3: ExactCircle,
    x: int,
    y: int,
)
    requires
        radical_axis(c1, c2).eval(x, y) == 0,
        radical_axis(c2, c3).eval(x, y) == 0,
    ensures
        c1.power(x, y) == c2.power(x, y),
        c2.power(x, y) == c3.power(x, y),
{
    lemma_radical_axis_is_power_difference(c1, c2, x, y);
    lemma_radical_axis_is_power_difference(c2, c3, x, y);
}

/// The three radical axes of three circles pass through one point, the
/// radical centre.
pub proof fn lemma_radical_axes_concur(c1: ExactCircle, c2: ExactCircle, c3: ExactCircle)
    ensures
        radical_axis(c1, c2).contains(radical_center(c1, c2, c3)),
        radical_axis(c2, c3).contains(radical_center(c1, c2, c3)),
        radical_axis(c3, c1).contains(radical_center(c1, c2, c3)),
{
    let l12 = radical_axis(c1, c2);
    let l23 = radical_axis(c2, c3);
    let l31 = radical_axis(c3, c1);
    lemma_meet_on_both(l12, l23);
    lemma_on_combination(l12, l23, l31, radical_center(c1, c2, c3), -1, -1);
}

/// The radical axis taken from the second circle to the first is the same
/// line with the opposite signs, and the three radical axes of three
/// circles add up to nothing.
pub proof fn lemma_radical_axes_sum(c1: ExactCircle, c2: ExactCircle, c3: ExactCircle)
    ensures
        radical_axis(c2, c1) == radical_axis(c1, c2).scale(-1),
        radical_axis(c1, c3).a == radical_axis(c1, c2).a + radical_axis(c2, c3).a,
        radical_axis(c1, c3).b == radical_axis(c1, c2).b + radical_axis(c2, c3).b,
        radical_axis(c1, c3).c == radical_axis(c1, c2).c + radical_axis(c2, c3).c,
{
}

/// Exchanging two of three circles changes the signs of the coordinates of
/// the radical centre, not the point.
pub proof fn lemma_radical_center_exchange(c1: ExactCircle, c2: ExactCircle, c3: ExactCircle)
    ensures
        radical_center(c2, c1, c3) == radical_center(c1, c2, c3).negate(),
        radical_center(c1, c3, c2) == radical_center(c1, c2, c3).negate(),
{
    let l = radical_axis(c1, c2);
    let m = radical_axis(c2, c3);
    let lm = ExactLine { a: l.a + m.a, b: l.b + m.b, c: l.c + m.c };
    let ml = ExactLine { a: m.a + l.a, b: m.b + l.b, c: m.c + l.c };
    lemma_radical_axes_sum(c1, c2, c3);
    lemma_radical_axes_sum(c3, c2, c1);
    assert(radical_axis(c1, c3) == lm);
    assert(lm == ml);
    assert(radical_axis(c2, c1) == l.scale(-1));
    assert(radical_axis(c3, c2) == m.scale(-1));
    // the first two exchanged: the axes are -l and l + m
    lemma_meet_rules(l, lm);
    lemma_meet_rules(l, m);
    // the last two exchanged: the axes are l + m and -m
    lemma_meet_rules(lm, m.scale(-1));
    lemma_meet_rules(m, ml);
    lemma_meet_rules(m, l);
}

/// The radical centre does not depend on the order of the circles: in
/// every order it is the same rational point, and it rounds to the same
/// lattice point.
pub proof fn lemma_radical_center_symmetric(c1: ExactCircle, c2: ExactCircle, c3: ExactCircle)
    ensures
        radical_center(c1, c3, c2) == radical_center(c1, c2, c3).negate(),
        radical_center(c2, c1, c3) == radical_center(c1, c2, c3).negate(),
        radical_center(c2, c3, c1) == radical_center(c1, c2, c3),
        radical_center(c3, c1, c2) == radical_center(c1, c2, c3),
        radical_center(c3, c2, c1) == radical_center(c1, c2, c3).negate(),
        radical_center(c1, c3, c2).round() == radical_center(c1, c2, c3).round(),
        radical_center(c2, c1, c3).round() == radical_center(c1, c2, c3).round(),
        radical_center(c2, c3, c1).round() == radical_center(c1, c2, c3).round(),
        radical_center(c3, c1, c2).round() == radical_center(c1, c2, c3).round(),
        radical_center(c3, c2, c1).round() == radical_center(c1, c2, c3).round(),
{
    lemma_radical_center_exchange(c1, c2, c3);
    lemma_radical_center_exchange(c2, c1, c3);
    lemma_radical_center_exchange(c1, c3, c2);
    lemma_radical_center_exchange(c2, c3, c1);
    lemma_round_of_negated(radical_center(c1, c2, c3));
}

/// Moving two circles moves their radical axis with them.
pub proof fn lemma_radical_axis_moves(c1: ExactCircle, c2: ExactCircle, dx: int, dy: int)
    ensures
        radical_axis(c1.translate(dx, dy), c2.translate(dx, dy)) == radical_axis(
            c1,
            c2,
        ).translate(dx, dy),
{
    lemma_square_of_sum(c1.x, dx);
    lemma_square_of_sum(c1.y, dy);
    lemma_square_of_sum(c2.x, dx);
    lemma_square_of_sum(c2.y, dy);
    lemma_times_sum2(2, c2.x, c1.x);
    lemma_times_sum2(2, c2.y, c1.y);
    lemma_times_sum2(dx, 2 * c2.x, 2 * c1.x);
    lemma_times_sum2(dy, 2 * c2.y, 2 * c1.y);
    lemma_product3(dx, 2, c2.x);
    lemma_product3(dx, 2, c1.x);
    lemma_product3(dy, 2, c2.y);
    lemma_product3(dy, 2, c1.y);
    lemma_times_sum2(2 * (c2.x - c1.x), dx, 0);
    lemma_times_sum2(2 * (c2.y - c1.y), dy, 0);
    lemma_times_sum2(dx, c1.x, 0);
    lemma_times_sum2(dx, c2.x, 0);
    lemma_times_sum2(dy, c1.y, 0);
    lemma_times_sum2(dy, c2.y, 0);
}

/// Moving three circles moves their radical centre with them.
pub proof fn lemma_radical_center_moves(
    c1: ExactCircle,
    c2: ExactCircle,
    c3: ExactCircle,
    dx: int,
    dy: int,
)
    ensures
        radical_center(c1.translate(dx, dy), c2.translate(dx, dy), c3.translate(dx, dy))
            == radical_center(c1, c2, c3).translate(dx, dy),
{
    lemma_radical_axis_moves(c1, c2, dx, dy);
    lemma_radical_axis_moves(c2, c3, dx, dy);
    lemma_meet_moves(radical_axis(c1, c2), radical_axis(c2, c3), dx, dy);
}

/// The radical centre is finite exactly when the centres of the three
/// circles do not lie on one line; two circles with one centre leave none.
pub proof fn lemma_radical_center_finite(c1: ExactCircle, c2: ExactCircle, c3: ExactCircle)
    ensures
        radical_center(c1, c2, c3).w == 4 * det3(c1.center(), c2.center(), c3.center()),
        radical_center(c1, c2, c3).is_finite() <==> !collinear(
            c1.center(),
            c2.center(),
            c3.center(),
        ),
        (c1.x == c2.x && c1.y == c2.y) ==> !radical_center(c1, c2, c3).is_finite(),
{
    let (ax, ay, bx, by, cx, cy) = (c1.x, c1.y, c2.x, c2.y, c3.x, c3.y);
    lemma_double_double(bx - ax, cy - by);
    lemma_double_double(cx - bx, by - ay);
    lemma_product_of_differences(bx, ax, cy, by);
    lemma_product_of_differences(cx, bx, by, ay);
    lemma_times_sum2(ax, by, cy);
    lemma_times_sum2(ay, bx, cx);
    lemma_times_sum2(ay, bx, 0);
    lemma_times_sum2(ay, cx, 0);
    lemma_times_sum2(2 * (cx - bx), 2 * (by - ay), 0);
    lemma_times_sum2(ax, ay, 0);
}

/// Enlarging two circles about the origin multiplies the coefficients `a`
/// and `b` of their radical axis by the factor and `c` by its square.
pub proof fn lemma_radical_axis_scales(c1: ExactCircle, c2: ExactCircle, k: int)
    ensures
        radical_axis(c1.scale(k), c2.scale(k)) == (ExactLine {
            a: k * radical_axis(c1, c2).a,
            b: k * radical_axis(c1, c2).b,
            c: (k * k) * radical_axis(c1, c2).c,
        }),
{
    let kk = k * k;
    lemma_times_sum2(k, c2.x, c1.x);
    lemma_times_sum2(k, c2.y, c1.y);
    lemma_product3(k, 2, c2.x - c1.x);
    lemma_product3(k, 2, c2.y - c1.y);
    lemma_four_factors(k, c1.x, k, c1.x);
    lemma_four_factors(k, c1.y, k, c1.y);
    lemma_four_factors(k, c1.r, k, c1.r);
    lemma_four_factors(k, c2.x, k, c2.x);
    lemma_four_factors(k, c2.y, k, c2.y);
    lemma_four_factors(k, c2.r, k, c2.r);
    let p1 = c1.x * c1.x + c1.y * c1.y - c1.r * c1.r;
    let p2 = c2.x * c2.x + c2.y * c2.y - c2.r * c2.r;
    lemma_times_sum3(kk, c1.x * c1.x, c1.y * c1.y, c1.r * c1.r);
    lemma_times_sum3(kk, c2.x * c2.x, c2.y * c2.y, c2.r * c2.r);
    lemma_times_sum2(kk, p1, p2);
}

/// Enlarging three circles about the origin enlarges the distance of their
/// radical centre from the origin as much.
pub proof fn lemma_radical_center_scales(c1: ExactCircle, c2: ExactCircle, c3: ExactCircle, k: int)
    requires
        k != 0,
        radical_center(c1, c2, c3).is_finite(),
    ensures
        radical_center(c1.scale(k), c2.scale(k), c3.scale(k)).same_as(
            radical_center(c1, c2, c3).scale(k),
        ),
{
    let l = radical_axis(c1, c2);
    let m = radical_axis(c2, c3);
    let p = meet(l, m);
    let kk = k * k;
    let kkk = k * kk;
    lemma_radical_axis_scales(c1, c2, k);
    lemma_radical_axis_scales(c2, c3, k);
    let q = radical_center(c1.scale(k), c2.scale(k), c3.scale(k));
    // the coordinates of the crossing take the factors k^3, k^3 and k^2
    lemma_four_factors(k, l.b, kk, m.c);
    lemma_four_factors(k, m.b, kk, l.c);
    lemma_times_sum2(kkk, l.b * m.c, m.b * l.c);
    assert(q.x == kkk * p.x);
    lemma_four_factors(k, m.a, kk, l.c);
    lemma_four_factors(k, l.a, kk, m.c);
    lemma_times_sum2(kkk, m.a * l.c, l.a * m.c);
    lemma_times_sum2(k, m.a, 0);
    lemma_times_sum2(k, l.a, 0);
    lemma_times_sum2(kk, l.c, 0);
    lemma_times_sum2(kk, m.c, 0);
    lemma_times_sum2(kk * l.c, k * m.a, 0);
    lemma_times_sum2(kk * m.c, k * l.a, 0);
    assert(q.y == kkk * p.y);
    lemma_four_factors(k, l.a, k, m.b);
    lemma_four_factors(k, m.a, k, l.b);
    lemma_times_sum2(kk, l.a * m.b, m.a * l.b);
    assert(q.w == kk * p.w);
    // and stand for the point k times as far
    lemma_product3(kkk, p.x, p.w);
    lemma_product3(kkk, p.y, p.w);
    lemma_four_factors(k, p.x, kk, p.w);
    lemma_four_factors(k, p.y, kk, p.w);
    assert(kk != 0 && kk * p.w != 0) by (nonlinear_arith)
        requires
            k != 0,
            p.w != 0,
            kk == k * k,
    ;
}

} // verus!
