//! Pole and polar with respect to a circle.

use crate::algebra::lemma_product3;
use crate::algebra::lemma_times_sum2;
use crate::algebra::lemma_times_sum3;
use crate::exact::ExactCircle;
use crate::exact::ExactLine;
use crate::exact::ExactPoint;
use crate::exact::polar;
use crate::exact::pole;
use vstd::prelude::*;

verus! {

/// Pole and polar are inverse to each other: the polar of the pole of a
/// line is that line, its coefficients multiplied by `-r^2`.
pub proof fn lemma_polar_of_pole(l: ExactLine, c: ExactCircle)
    ensures
        polar(pole(l, c), c) == l.scale(-(c.r * c.r)),
{
    let rr = c.r * c.r;
    let k = l.eval(c.x, c.y);
    let p = pole(l, c);
    let q = polar(p, c);
    lemma_times_sum2(l.a, rr, 0);
    lemma_times_sum2(l.b, rr, 0);
    lemma_times_sum2(l.c, rr, 0);
    assert(q.a == -(rr * l.a));
    assert(q.b == -(rr * l.b));
    lemma_times_sum3(rr, l.a * c.x, l.b * c.y, l.c);
    lemma_times_sum2(rr * l.a, c.x, 0);
    lemma_times_sum2(rr * l.b, c.y, 0);
    lemma_product3(rr, l.a, c.x);
    lemma_product3(rr, l.b, c.y);
    assert(q.c == -(rr * l.c));
}

/// The pole lies on the line through the centre at a right angle to its
/// polar, on the same side of the centre as the line, and the product of
/// the distances of pole and line from the centre is `r^2`: with `k` the
/// value of the line at the centre, `k (P - O) == -r^2 (a, b)`.
pub proof fn lemma_pole_position(l: ExactLine, c: ExactCircle)
    ensures
        ({
            let p = pole(l, c);
            &&& p.w == l.eval(c.x, c.y)
            &&& p.x - c.x * p.w == -(c.r * c.r * l.a)
            &&& p.y - c.y * p.w == -(c.r * c.r * l.b)
        }),
{
}

/// Moving a line and a circle moves the pole of the line with them.
pub proof fn lemma_pole_moves(l: ExactLine, c: ExactCircle, dx: int, dy: int)
    ensures
        pole(l.translate(dx, dy), c.translate(dx, dy)) == pole(l, c).translate(dx, dy),
        l.translate(dx, dy).eval(c.x + dx, c.y + dy) == l.eval(c.x, c.y),
{
    let k = l.eval(c.x, c.y);
    lemma_times_sum2(l.a, c.x, dx);
    lemma_times_sum2(l.b, c.y, dy);
    assert(l.translate(dx, dy).eval(c.x + dx, c.y + dy) == k);
    lemma_times_sum2(k, c.x, dx);
    lemma_times_sum2(k, c.y, dy);
    lemma_times_sum2(dx, k, 0);
    lemma_times_sum2(dy, k, 0);
}

/// The value of the polar of `p` at `q`, written so that `p` and `q` can
/// change places.
proof fn lemma_polar_value(p: ExactPoint, q: ExactPoint, c: ExactCircle)
    ensures
        polar(p, c).a * q.x + polar(p, c).b * q.y + polar(p, c).c * q.w == (p.x - c.x * p.w) * (
        q.x - c.x * q.w) + (p.y - c.y * p.w) * (q.y - c.y * q.w) - (c.r * c.r) * (p.w * q.w),
{
    let a = p.x - c.x * p.w;
    let b = p.y - c.y * p.w;
    let rr = c.r * c.r;
    lemma_times_sum2(a, q.x, c.x * q.w);
    lemma_times_sum2(b, q.y, c.y * q.w);
    lemma_times_sum3(q.w, a * c.x, b * c.y, rr * p.w);
    lemma_times_sum2(q.w, -(a * c.x) - b * c.y - rr * p.w, 0);
    lemma_times_sum2(q.w, a * c.x + b * c.y + rr * p.w, 0);
    lemma_product3(q.w, a, c.x);
    lemma_product3(q.w, b, c.y);
    lemma_product3(q.w, rr, p.w);
    lemma_product3(a, c.x, q.w);
    lemma_product3(b, c.y, q.w);
    lemma_product3(rr, p.w, q.w);
}

/// Reciprocity of pole and polar: a point lies on the polar of another
/// exactly when the other lies on its polar.
pub proof fn lemma_polar_reciprocity(p: ExactPoint, q: ExactPoint, c: ExactCircle)
    ensures
        polar(p, c).contains(q) <==> polar(q, c).contains(p),
{
    lemma_polar_value(p, q, c);
    lemma_polar_value(q, p, c);
    lemma_times_sum2(p.x - c.x * p.w, q.x - c.x * q.w, 0);
    lemma_times_sum2(p.y - c.y * p.w, q.y - c.y * q.w, 0);
    lemma_times_sum2(p.w, q.w, 0);
}

/// The polar of a point passes through the point exactly when the point
/// lies on the circle: it is then the tangent at that point.
pub proof fn lemma_tangent_is_polar(p: ExactPoint, c: ExactCircle)
    ensures
        polar(p, c).contains(p) <==> c.passes_through(p),
{
    lemma_polar_value(p, p, c);
}

/// The pole of a line lies on the polar of every point of the line. So the
/// pole is found where the tangent at a point in which the line cuts the
/// circle, or the polar of the foot of the perpendicular from the centre,
/// crosses that perpendicular.
pub proof fn lemma_pole_on_polars(l: ExactLine, c: ExactCircle, q: ExactPoint)
    requires
        l.contains(q),
    ensures
        polar(q, c).contains(pole(l, c)),
{
    let rr = c.r * c.r;
    lemma_polar_of_pole(l, c);
    let m = l.scale(-rr);
    assert(m.contains(q)) by {
        lemma_times_sum3(-rr, l.a * q.x, l.b * q.y, l.c * q.w);
        lemma_product3(-rr, l.a, q.x);
        lemma_product3(-rr, l.b, q.y);
        lemma_product3(-rr, l.c, q.w);
        lemma_times_sum2(l.a, -rr, 0);
        lemma_times_sum2(l.b, -rr, 0);
        lemma_times_sum2(l.c, -rr, 0);
        lemma_times_sum2(-rr, 0, 0);
    }
    lemma_polar_reciprocity(pole(l, c), q, c);
}

} // verus!
