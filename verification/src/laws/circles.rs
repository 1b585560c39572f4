//! The circle through three points and the chord that a line cuts from a
//! circle.

use crate::algebra::lemma_double_double;
use crate::algebra::lemma_four_factors;
use crate::algebra::lemma_product3;
use crate::algebra::lemma_product_of_differences;
use crate::algebra::lemma_square_of_difference;
use crate::algebra::lemma_square_of_product;
use crate::algebra::lemma_square_of_sum;
use crate::algebra::lemma_times_sum2;
use crate::algebra::lemma_times_sum3;
use crate::arith::floor_sqrt;
use crate::arith::lemma_floor_sqrt;
use crate::exact::bisector;
use crate::exact::circumcenter;
use crate::exact::collinear;
use crate::exact::det3;
use crate::exact::ExactCircle;
use crate::exact::ExactLine;
use crate::exact::ExactPoint;
use crate::exact::join;
use crate::exact::radical_axis;
use crate::laws::incidence::lemma_meet_moves;
use crate::laws::incidence::lemma_meet_on_both;
use crate::laws::radical::lemma_radical_axis_is_power_difference;
use crate::laws::radical::lemma_radical_axis_moves;
use crate::services::calc::chord_end;
use crate::services::calc::discriminant;
use vstd::prelude::*;

verus! {

/// The doubled bisector of two points is the line of equal distance: at
/// every point its value is the squared distance to the first point less
/// the squared distance to the second.
pub proof fn lemma_bisector_is_distance_difference(
    px: int,
    py: int,
    qx: int,
    qy: int,
    x: int,
    y: int,
)
    ensures
        bisector(px, py, qx, qy).eval(x, y) == ((x - px) * (x - px) + (y - py) * (y - py)) - ((x
            - qx) * (x - qx) + (y - qy) * (y - qy)),
{
    let c1 = ExactCircle { x: px, y: py, r: 0 };
    let c2 = ExactCircle { x: qx, y: qy, r: 0 };
    lemma_radical_axis_is_power_difference(c1, c2, x, y);
    assert(radical_axis(c1, c2) == bisector(px, py, qx, qy));
}

/// A rational point on the bisector of two points has the same distance
/// from both.
proof fn lemma_on_bisector_equidistant(px: int, py: int, qx: int, qy: int, o: ExactPoint)
    requires
        bisector(px, py, qx, qy).contains(o),
    ensures
        (o.x - px * o.w) * (o.x - px * o.w) + (o.y - py * o.w) * (o.y - py * o.w) == (o.x - qx
            * o.w) * (o.x - qx * o.w) + (o.y - qy * o.w) * (o.y - qy * o.w),
{
    let (x, y, w) = (o.x, o.y, o.w);
    let l = bisector(px, py, qx, qy);
    // w times the value of the bisector at o is the difference of the
    // squared distances
    let (u, v) = (px * w, qx * w);
    let (s, t) = (py * w, qy * w);
    lemma_square_of_difference(x, u);
    lemma_square_of_difference(x, v);
    lemma_square_of_difference(y, s);
    lemma_square_of_difference(y, t);
    let e = l.a * x + l.b * y + l.c * w;
    assert(e == 0);
    assert(w * e == 0) by (nonlinear_arith)
        requires
            e == 0,
    ;
    lemma_times_sum3(w, l.a * x, l.b * y, l.c * w);
    // w (l.a x) = 2 x (v - u)
    lemma_product3(w, l.a, x);
    lemma_times_sum2(2, qx, px);
    lemma_times_sum2(w, 2 * qx, 2 * px);
    lemma_product3(w, 2, qx);
    lemma_product3(w, 2, px);
    lemma_times_sum2(w, qx, 0);
    lemma_times_sum2(w, px, 0);
    assert(w * l.a == 2 * v - 2 * u);
    lemma_times_sum2(x, 2 * v, 2 * u);
    lemma_product3(x, 2, v);
    lemma_product3(x, 2, u);
    lemma_times_sum2(w * l.a, x, 0);
    assert(w * (l.a * x) == 2 * (x * v) - 2 * (x * u));
    // w (l.b y) = 2 y (t - s)
    lemma_product3(w, l.b, y);
    lemma_times_sum2(2, qy, py);
    lemma_times_sum2(w, 2 * qy, 2 * py);
    lemma_product3(w, 2, qy);
    lemma_product3(w, 2, py);
    lemma_times_sum2(w, qy, 0);
    lemma_times_sum2(w, py, 0);
    assert(w * l.b == 2 * t - 2 * s);
    lemma_times_sum2(y, 2 * t, 2 * s);
    lemma_product3(y, 2, t);
    lemma_product3(y, 2, s);
    lemma_times_sum2(w * l.b, y, 0);
    assert(w * (l.b * y) == 2 * (y * t) - 2 * (y * s));
    // w (l.c w) = u^2 + s^2 - v^2 - t^2
    lemma_product3(w, l.c, w);
    lemma_times_sum2(w * w, px * px + py * py, qx * qx + qy * qy);
    lemma_times_sum2(w * w, px * px, py * py);
    lemma_times_sum2(w * w, qx * qx, qy * qy);
    lemma_square_of_product(px, w);
    lemma_square_of_product(py, w);
    lemma_square_of_product(qx, w);
    lemma_square_of_product(qy, w);
    lemma_times_sum2(w * w, l.c, 0);
    assert(w * (l.c * w) == u * u + s * s - v * v - t * t);
}

/// The circumcentre has the same distance from the three points: with the
/// circumcentre `(x / w, y / w)`, the squared distances times `w^2` are
/// equal.
pub proof fn lemma_circumcenter_equidistant(a: ExactPoint, b: ExactPoint, c: ExactPoint)
    requires
        a.w == 1,
        b.w == 1,
        c.w == 1,
    ensures
        ({
            let o = circumcenter(a, b, c);
            let da = (o.x - a.x * o.w) * (o.x - a.x * o.w) + (o.y - a.y * o.w) * (o.y - a.y * o.w);
            let db = (o.x - b.x * o.w) * (o.x - b.x * o.w) + (o.y - b.y * o.w) * (o.y - b.y * o.w);
            let dc = (o.x - c.x * o.w) * (o.x - c.x * o.w) + (o.y - c.y * o.w) * (o.y - c.y * o.w);
            da == db && db == dc
        }),
{
    let o = circumcenter(a, b, c);
    lemma_meet_on_both(bisector(a.x, a.y, b.x, b.y), bisector(b.x, b.y, c.x, c.y));
    lemma_on_bisector_equidistant(a.x, a.y, b.x, b.y, o);
    lemma_on_bisector_equidistant(b.x, b.y, c.x, c.y, o);
}

/// Moving three points moves the centre of the circle through them with
/// them.
pub proof fn lemma_circumcenter_moves(
    a: ExactPoint,
    b: ExactPoint,
    c: ExactPoint,
    dx: int,
    dy: int,
)
    requires
        a.w == 1,
        b.w == 1,
        c.w == 1,
    ensures
        circumcenter(a.translate(dx, dy), b.translate(dx, dy), c.translate(dx, dy))
            == circumcenter(a, b, c).translate(dx, dy),
{
    let ca = ExactCircle { x: a.x, y: a.y, r: 0 };
    let cb = ExactCircle { x: b.x, y: b.y, r: 0 };
    let cc = ExactCircle { x: c.x, y: c.y, r: 0 };
    lemma_radical_axis_moves(ca, cb, dx, dy);
    lemma_radical_axis_moves(cb, cc, dx, dy);
    assert(radical_axis(ca, cb) == bisector(a.x, a.y, b.x, b.y));
    assert(radical_axis(cb, cc) == bisector(b.x, b.y, c.x, c.y));
    assert(radical_axis(ca.translate(dx, dy), cb.translate(dx, dy)) == bisector(
        a.x + dx,
        a.y + dy,
        b.x + dx,
        b.y + dy,
    ));
    assert(radical_axis(cb.translate(dx, dy), cc.translate(dx, dy)) == bisector(
        b.x + dx,
        b.y + dy,
        c.x + dx,
        c.y + dy,
    ));
    lemma_meet_moves(bisector(a.x, a.y, b.x, b.y), bisector(b.x, b.y, c.x, c.y), dx, dy);
}

/// `(a^2 + b^2) (k^2 + s^2)` as a sum of two squares, in two ways.
proof fn lemma_sum_of_two_squares(a: int, b: int, k: int, s: int)
    ensures
        (b * s - a * k) * (b * s - a * k) + (-(b * k) - a * s) * (-(b * k) - a * s) == (a * a + b
            * b) * (k * k + s * s),
        (-(a * k) - b * s) * (-(a * k) - b * s) + (a * s - b * k) * (a * s - b * k) == (a * a + b
            * b) * (k * k + s * s),
{
    let (p, q, u, v) = (b * s, a * k, b * k, a * s);
    lemma_square_of_difference(p, q);
    lemma_square_of_sum(u, v);
    lemma_square_of_sum(q, p);
    lemma_square_of_difference(v, u);
    assert((-u - v) * (-u - v) == (u + v) * (u + v)) by (nonlinear_arith);
    assert((-q - p) * (-q - p) == (q + p) * (q + p)) by (nonlinear_arith);
    lemma_four_factors(b, s, a, k);
    assert(p * q == u * v);
    lemma_times_sum2(p, q, 0);
    lemma_times_sum2(u, v, 0);
    lemma_times_sum2(a * a + b * b, k * k, s * s);
    lemma_times_sum2(k * k, a * a, b * b);
    lemma_times_sum2(s * s, a * a, b * b);
    lemma_square_of_product(b, s);
    lemma_square_of_product(a, k);
    lemma_square_of_product(b, k);
    lemma_square_of_product(a, s);
    lemma_times_sum2(k * k, a * a, 0);
    lemma_times_sum2(k * k, b * b, 0);
    lemma_times_sum2(s * s, a * a, 0);
    lemma_times_sum2(s * s, b * b, 0);
}

/// Where a line meets a circle, the ends of the chord before rounding lie
/// on the line, and on the circle up to the error of the integer square
/// root: with `(dx, dy) / n` the vector from the centre to an end, the
/// squared length `dx^2 + dy^2` is `n (k^2 + s^2)`, which is at most
/// `r^2 n^2` and falls short of it by at most `2 s n`.
pub proof fn lemma_chord_end_position(l: ExactLine, c: ExactCircle, side: int)
    requires
        side == 1 || side == -1,
        l.norm() > 0,
        discriminant(l, c) >= 0,
    ensures
        l.contains(chord_end(l, c, side)),
        ({
            let e = chord_end(l, c, side);
            let n = l.norm();
            let k = l.eval(c.x, c.y);
            let s = floor_sqrt(discriminant(l, c));
            let dx = e.x - c.x * n;
            let dy = e.y - c.y * n;
            &&& dx * dx + dy * dy == n * (k * k + s * s)
            &&& dx * dx + dy * dy <= c.r * c.r * n * n
            &&& c.r * c.r * n * n - (dx * dx + dy * dy) <= n * (2 * s)
        }),
{
    let e = chord_end(l, c, side);
    let n = l.norm();
    let k = l.eval(c.x, c.y);
    let d = discriminant(l, c);
    let s = floor_sqrt(d);
    let (a, b) = (l.a, l.b);
    lemma_floor_sqrt(d);
    // on the line
    let fx = c.x * n - a * k;
    let fy = c.y * n - b * k;
    assert(a * fx + b * fy + l.c * n == 0) by {
        lemma_times_sum2(a, c.x * n, a * k);
        lemma_times_sum2(b, c.y * n, b * k);
        lemma_product3(a, c.x, n);
        lemma_product3(b, c.y, n);
        lemma_product3(a, a, k);
        lemma_product3(b, b, k);
        lemma_times_sum3(n, a * c.x, b * c.y, l.c);
        lemma_times_sum2(k, a * a, b * b);
        lemma_times_sum2(n, k, 0);
        lemma_times_sum2(n, l.c, 0);
        lemma_times_sum2(a * a, k, 0);
        lemma_times_sum2(b * b, k, 0);
    }
    assert(a * (b * s) - b * (a * s) == 0) by {
        lemma_product3(a, b, s);
    }
    let (u, v) = (b * s, a * s);
    if side == 1 {
        assert(e.x == fx + u && e.y == fy - v);
        lemma_times_sum2(a, fx, u);
        lemma_times_sum2(b, fy, v);
    } else {
        assert(e.x == fx - u && e.y == fy + v);
        lemma_times_sum2(a, fx, u);
        lemma_times_sum2(b, fy, v);
    }
    assert(l.contains(e));
    // on the circle
    let dx = e.x - c.x * n;
    let dy = e.y - c.y * n;
    lemma_sum_of_two_squares(a, b, k, s);
    if side == 1 {
        assert(dx == b * s - a * k);
        assert(dy == -(b * k) - a * s);
    } else {
        assert(dx == -(a * k) - b * s);
        assert(dy == a * s - b * k);
    }
    assert(dx * dx + dy * dy == n * (k * k + s * s));
    let rr = c.r * c.r;
    assert(rr * n * n - n * (k * k + s * s) == n * (d - s * s)) by {
        lemma_times_sum2(n, k * k, s * s);
        lemma_times_sum2(n, d, s * s);
        lemma_times_sum2(n, rr * n, k * k);
        lemma_times_sum2(n, rr * n, 0);
    }
    lemma_square_of_sum(s, 1);
    assert(0 <= n * (d - s * s) <= n * (2 * s)) by (nonlinear_arith)
        requires
            n > 0,
            0 <= d - s * s <= 2 * s,
    ;
}

/// The circumcentre is finite exactly when the three points do not lie on
/// one line.
pub proof fn lemma_circumcenter_finite(a: ExactPoint, b: ExactPoint, c: ExactPoint)
    requires
        a.w == 1,
        b.w == 1,
        c.w == 1,
    ensures
        circumcenter(a, b, c).w == 4 * det3(a, b, c),
        circumcenter(a, b, c).is_finite() <==> !collinear(a, b, c),
{
    let (ax, ay, bx, by, cx, cy) = (a.x, a.y, b.x, b.y, c.x, c.y);
    lemma_double_double(bx - ax, cy - by);
    lemma_double_double(cx - bx, by - ay);
    lemma_product_of_differences(bx, ax, cy, by);
    lemma_product_of_differences(cx, bx, by, ay);
    lemma_times_sum2(ax, by, cy);
    lemma_times_sum2(ay, bx, cx);
    lemma_times_sum2(ay, bx, 0);
    lemma_times_sum2(ay, cx, 0);
}

/// Three points lie on one line exactly when two of the segments between
/// them make a flat angle, whichever two are taken.
pub proof fn lemma_flat_is_collinear(a: ExactPoint, b: ExactPoint, c: ExactPoint)
    requires
        a.w == 1,
        b.w == 1,
        c.w == 1,
    ensures
        join(a, b).is_parallel_to(join(b, c)) <==> collinear(a, b, c),
        join(b, c).is_parallel_to(join(c, a)) <==> collinear(a, b, c),
        join(c, a).is_parallel_to(join(a, b)) <==> collinear(a, b, c),
{
    let (ax, ay, bx, by, cx, cy) = (a.x, a.y, b.x, b.y, c.x, c.y);
    lemma_times_sum2(ax, by, cy);
    lemma_times_sum2(ay, bx, cx);
    lemma_times_sum2(ay, bx, 0);
    lemma_times_sum2(ay, cx, 0);
    lemma_times_sum2(ax, by, 0);
    lemma_times_sum2(ax, cy, 0);
    lemma_times_sum2(by, cx, 0);
    lemma_times_sum2(bx, cy, 0);
    lemma_times_sum2(ax, ay, 0);
    lemma_times_sum2(bx, by, 0);
    lemma_times_sum2(cx, cy, 0);
    // (by - ay) (bx - cx) - (cy - by) (ax - bx)
    lemma_product_of_differences(by, ay, bx, cx);
    lemma_product_of_differences(cy, by, ax, bx);
    // (cy - by) (cx - ax) - (ay - cy) (bx - cx)
    lemma_product_of_differences(cy, by, cx, ax);
    lemma_product_of_differences(ay, cy, bx, cx);
    // (ay - cy) (ax - bx) - (by - ay) (cx - ax)
    lemma_product_of_differences(ay, cy, ax, bx);
    lemma_product_of_differences(by, ay, cx, ax);
    let d = det3(a, b, c);
    assert(d == ax * (by - cy) - ay * (bx - cx) + (bx * cy - cx * by));
    assert(join(a, b).a * join(b, c).b - join(b, c).a * join(a, b).b == d);
    assert(join(b, c).a * join(c, a).b - join(c, a).a * join(b, c).b == d);
    assert(join(c, a).a * join(a, b).b - join(a, b).a * join(c, a).b == d);
}

} // verus!
