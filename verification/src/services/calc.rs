//! The constructions of plane geometry on the lattice. Each computes an exact
//! rational result and rounds it to the nearest lattice point; a result that
//! does not exist, or that leaves the lattice, is `None`.

use crate::algebra::lemma_square_order;
use crate::algebra::lemma_times_sum2;
use crate::arith::div_round;
use crate::arith::floor_sqrt;
use crate::arith::isqrt;
use crate::arith::lemma_product_bound;
use crate::arith::lemma_round_div_between;
use crate::arith::product;
use crate::arith::within;
use crate::exact::bisector;
use crate::exact::circumcenter;
use crate::exact::collinear;
use crate::exact::dist_sq;
use crate::exact::ExactCircle;
use crate::exact::ExactLine;
use crate::exact::ExactPoint;
use crate::exact::external_center;
use crate::exact::foot;
use crate::exact::internal_center;
use crate::exact::join;
use crate::exact::meet;
use crate::exact::perpendicular;
use crate::exact::pole;
use crate::exact::radical_axis;
use crate::laws::circles::lemma_circumcenter_finite;
use crate::models::circle::Circle;
use crate::models::point::COORD_LIMIT;
use crate::models::point::Point;
use crate::models::point::round_point;
use crate::models::segment::Segment;
use crate::models::straightline::NORMAL_LIMIT;
use crate::models::straightline::OFFSET_LIMIT;
use crate::models::straightline::StraightLine;
use vstd::prelude::*;

verus! {

/// The external homothetic centre of two circles, rounded to the lattice.
/// There is none when the radii are equal, or when the centre lies outside
/// the lattice.
pub fn get_external_homothetic_center(c1: Circle, c2: Circle) -> (res: Option<Point>)
    requires
        c1.wf(),
        c2.wf(),
    ensures
        res == external_center(c1@, c2@).round(),
        c1.radius == c2.radius ==> res is None,
        res matches Some(p) ==> p.wf(),
{
    let lim: Ghost<int> = Ghost(COORD_LIMIT as int);
    let r1: i128 = c1.radius as i128;
    let r2: i128 = c2.radius as i128;
    let x: i128 = product(r2, c1.center.x as i128, lim, lim) - product(
        r1,
        c2.center.x as i128,
        lim,
        lim,
    );
    let y: i128 = product(r2, c1.center.y as i128, lim, lim) - product(
        r1,
        c2.center.y as i128,
        lim,
        lim,
    );
    round_point(x, y, r2 - r1)
}

/// The internal homothetic centre lies between the two centres, so it never
/// leaves the lattice.
pub proof fn lemma_internal_center_on_lattice(c1: Circle, c2: Circle)
    requires
        c1.wf(),
        c2.wf(),
    ensures
        internal_center(c1@, c2@).round() is Some,
{
    let h = internal_center(c1@, c2@);
    let lim = COORD_LIMIT as int;
    lemma_product_bound(c2@.r, c1@.x, c2@.r, lim);
    lemma_product_bound(c1@.r, c2@.x, c1@.r, lim);
    lemma_product_bound(c2@.r, c1@.y, c2@.r, lim);
    lemma_product_bound(c1@.r, c2@.y, c1@.r, lim);
    lemma_times_sum2(lim, c2@.r, c1@.r);
    lemma_times_sum2(-lim, c2@.r, c1@.r);
    lemma_times_sum2(lim, c2@.r, 0);
    lemma_times_sum2(lim, c1@.r, 0);
    lemma_round_div_between(h.x, h.w, -lim, lim);
    lemma_round_div_between(h.y, h.w, -lim, lim);
}

/// The internal homothetic centre of two circles, rounded to the lattice.
/// It always exists.
pub fn get_internal_homothetic_center(c1: Circle, c2: Circle) -> (res: Option<Point>)
    requires
        c1.wf(),
        c2.wf(),
    ensures
        res == internal_center(c1@, c2@).round(),
        res is Some,
        res matches Some(p) ==> p.wf(),
{
    proof {
        lemma_internal_center_on_lattice(c1, c2);
    }
    let lim: Ghost<int> = Ghost(COORD_LIMIT as int);
    let r1: i128 = c1.radius as i128;
    let r2: i128 = c2.radius as i128;
    let x: i128 = product(r2, c1.center.x as i128, lim, lim) + product(
        r1,
        c2.center.x as i128,
        lim,
        lim,
    );
    let y: i128 = product(r2, c1.center.y as i128, lim, lim) + product(
        r1,
        c2.center.y as i128,
        lim,
        lim,
    );
    round_point(x, y, r2 + r1)
}

/// `x * x + y * y - r * r` for a circle with centre `(x, y)` and radius `r`.
fn power_of_origin(c: Circle) -> (p: i128)
    requires
        c.wf(),
    ensures
        p == c@.x * c@.x + c@.y * c@.y - c@.r * c@.r,
        within(p as int, 2 * (COORD_LIMIT * COORD_LIMIT)),
{
    let lim: Ghost<int> = Ghost(COORD_LIMIT as int);
    let x: i128 = c.center.x as i128;
    let y: i128 = c.center.y as i128;
    let r: i128 = c.radius as i128;
    let xx: i128 = product(x, x, lim, lim);
    let yy: i128 = product(y, y, lim, lim);
    let rr: i128 = product(r, r, lim, lim);
    proof {
        lemma_square_order(x as int, 0);
        lemma_square_order(y as int, 0);
        lemma_square_order(r as int, 0);
    }
    xx + yy - rr
}

/// The radical axis of two circles. It is not a proper line when the circles
/// have the same centre.
pub fn get_radical_axis(c1: Circle, c2: Circle) -> (l: StraightLine)
    requires
        c1.wf(),
        c2.wf(),
    ensures
        l@ == radical_axis(c1@, c2@),
        l.wf(),
{
    let a: i128 = 2 * (c2.center.x as i128 - c1.center.x as i128);
    let b: i128 = 2 * (c2.center.y as i128 - c1.center.y as i128);
    let c: i128 = power_of_origin(c1) - power_of_origin(c2);
    StraightLine { a: a as i64, b: b as i64, c: c as i64 }
}

/// The line in which two intersecting circles meet: the radical axis, taken
/// from the second circle to the first.
pub fn get_circles_intersection_as_straight_line(c1: &Circle, c2: &Circle) -> (l: StraightLine)
    requires
        c1.wf(),
        c2.wf(),
    ensures
        l@ == radical_axis(c2@, c1@),
        l.wf(),
{
    get_radical_axis(*c2, *c1)
}

/// The line through `p` at a right angle to `l`.
pub fn orthoganalize(l: &StraightLine, p: Point) -> (res: StraightLine)
    requires
        l.wf(),
        p.wf(),
    ensures
        res@ == perpendicular(l@, p.x as int, p.y as int),
        res.wf(),
{
    let lim: Ghost<int> = Ghost(COORD_LIMIT as int);
    let nlim: Ghost<int> = Ghost(NORMAL_LIMIT as int);
    let t1: i128 = product(-(l.b as i128), p.x as i128, nlim, lim);
    let t2: i128 = product(l.a as i128, p.y as i128, nlim, lim);
    StraightLine { a: l.b, b: -l.a, c: (t1 + t2) as i64 }
}

/// The point where two lines cross, rounded to the lattice. There is none
/// when the lines are parallel or one of them is not a proper line, or when
/// the point lies outside the lattice.
pub fn find_intersection(l1: &StraightLine, l2: &StraightLine) -> (res: Option<Point>)
    requires
        l1.wf(),
        l2.wf(),
    ensures
        res == meet(l1@, l2@).round(),
        res matches Some(p) ==> p.wf(),
{
    let nlim: Ghost<int> = Ghost(NORMAL_LIMIT as int);
    let olim: Ghost<int> = Ghost(OFFSET_LIMIT as int);
    let a1: i128 = l1.a as i128;
    let b1: i128 = l1.b as i128;
    let c1: i128 = l1.c as i128;
    let a2: i128 = l2.a as i128;
    let b2: i128 = l2.b as i128;
    let c2: i128 = l2.c as i128;
    let x: i128 = product(b1, c2, nlim, olim) - product(b2, c1, nlim, olim);
    let y: i128 = product(a2, c1, nlim, olim) - product(a1, c2, nlim, olim);
    let w: i128 = product(a1, b2, nlim, nlim) - product(a2, b1, nlim, nlim);
    round_point(x, y, w)
}

/// The foot of the perpendicular from `p` to `l`, rounded to the lattice.
/// There is none when `l` is not a proper line, or when the foot lies
/// outside the lattice.
pub fn find_projection(l: &StraightLine, p: Point) -> (res: Option<Point>)
    requires
        l.wf(),
        p.wf(),
    ensures
        res == foot(l@, p.x as int, p.y as int).round(),
        res matches Some(q) ==> q.wf(),
{
    let ort_l: StraightLine = orthoganalize(l, p);
    find_intersection(l, &ort_l)
}

/// The middle of a segment, rounded to the lattice.
pub fn mid_point(s: &Segment) -> (m: Point)
    requires
        s.wf(),
    ensures
        Some(m) == (ExactPoint { x: s.0.x + s.1.x, y: s.0.y + s.1.y, w: 2 }).round(),
        m.wf(),
{
    proof {
        let lim = COORD_LIMIT as int;
        lemma_round_div_between(s.0.x + s.1.x, 2, -lim, lim);
        lemma_round_div_between(s.0.y + s.1.y, 2, -lim, lim);
    }
    let x: i128 = div_round(s.0.x as i128 + s.1.x as i128, 2);
    let y: i128 = div_round(s.0.y as i128 + s.1.y as i128, 2);
    Point { x: x as i64, y: y as i64 }
}

/// The line meets the circle: it is a proper line and its distance from the
/// centre does not exceed the radius.
pub open spec fn touches(l: ExactLine, c: ExactCircle) -> bool {
    l.is_proper() && c.r * c.r * l.norm() >= l.eval(c.x, c.y) * l.eval(c.x, c.y)
}

/// `r^2 n - k^2` for the circle `c` and the line `l`, with `n` the squared
/// length of the normal of `l` and `k` the value of `l` at the centre. The
/// line meets the circle exactly when this is not negative and `n > 0`.
pub open spec fn discriminant(l: ExactLine, c: ExactCircle) -> int {
    c.r * c.r * l.norm() - l.eval(c.x, c.y) * l.eval(c.x, c.y)
}

/// An end of the chord that the line `l` cuts from the circle `c`, before
/// it is rounded to the lattice. With `k` the value of the line at the
/// centre and `n` the squared length of its normal, the foot of the
/// perpendicular from the centre is `O - k (a, b) / n`; the ends lie at
/// `foot + s (b, -a) / n` (for `side == 1`) and `foot - s (b, -a) / n` (for
/// `side == -1`), where `s` is the integer square root of the discriminant.
pub open spec fn chord_end(l: ExactLine, c: ExactCircle, side: int) -> ExactPoint {
    let n = l.norm();
    let k = l.eval(c.x, c.y);
    let s = floor_sqrt(discriminant(l, c));
    ExactPoint {
        x: (c.x * n - l.a * k) + side * (l.b * s),
        y: (c.y * n - l.b * k) - side * (l.a * s),
        w: n,
    }
}

/// The chord that the line `l` cuts from the circle `c`, its end points
/// rounded to the lattice: from the end on the side of `(b, -a)`, the normal
/// turned clockwise, to the opposite end. There is none when `l` is not a
/// proper line or misses the circle, or when an end leaves the lattice.
pub open spec fn chord(l: ExactLine, c: ExactCircle) -> Option<Segment> {
    if l.norm() == 0 || discriminant(l, c) < 0 {
        None
    } else {
        match (chord_end(l, c, 1).round(), chord_end(l, c, -1).round()) {
            (Some(p), Some(q)) => Some(Segment(p, q)),
            _ => None,
        }
    }
}

/// The circle through three lattice points: its centre is the circumcentre
/// rounded to the lattice, its radius the distance from that centre to the
/// first point, rounded down.
pub open spec fn circle_through(a: Point, b: Point, c: Point) -> Option<Circle> {
    match circumcenter(a@, b@, c@).round() {
        None => None,
        Some(o) => {
            let r = floor_sqrt(dist_sq(o.x as int, o.y as int, a.x as int, a.y as int));
            if 0 < r <= COORD_LIMIT {
                Some(Circle { center: o, radius: r as i64 })
            } else {
                None
            }
        },
    }
}

/// The point that divides the segment from `p1` to `p2` in the ratio
/// `s : t`, rounded to the lattice.
pub open spec fn division_point(p1: Point, p2: Point, s: int, t: int) -> Option<Point> {
    if p1 == p2 {
        None
    } else if s <= 0 {
        if t <= 0 {
            None
        } else {
            Some(p1)
        }
    } else if t <= 0 {
        Some(p2)
    } else {
        (ExactPoint { x: t * p1.x + s * p2.x, y: t * p1.y + s * p2.y, w: s + t }).round()
    }
}

/// `x * x + y * y` for a lattice point.
fn square_norm(p: Point) -> (n: i128)
    requires
        p.wf(),
    ensures
        n == p.x * p.x + p.y * p.y,
        0 <= n <= 2 * (COORD_LIMIT * COORD_LIMIT),
{
    let lim: Ghost<int> = Ghost(COORD_LIMIT as int);
    let x: i128 = p.x as i128;
    let y: i128 = p.y as i128;
    let xx: i128 = product(x, x, lim, lim);
    let yy: i128 = product(y, y, lim, lim);
    proof {
        lemma_square_order(x as int, 0);
        lemma_square_order(y as int, 0);
    }
    xx + yy
}

/// The doubled perpendicular bisector of two lattice points.
fn bisector_of(p: Point, q: Point) -> (l: StraightLine)
    requires
        p.wf(),
        q.wf(),
    ensures
        l@ == bisector(p.x as int, p.y as int, q.x as int, q.y as int),
        l.wf(),
{
    let a: i128 = 2 * (q.x as i128 - p.x as i128);
    let b: i128 = 2 * (q.y as i128 - p.y as i128);
    let c: i128 = square_norm(p) - square_norm(q);
    StraightLine { a: a as i64, b: b as i64, c: c as i64 }
}

/// The squared distance between two lattice points.
fn squared_distance(p: Point, q: Point) -> (d: i128)
    requires
        p.wf(),
        q.wf(),
    ensures
        d == dist_sq(p.x as int, p.y as int, q.x as int, q.y as int),
        0 <= d <= 0x800_0000_0000_0000,
{
    let lim: Ghost<int> = Ghost(0x2000_0000);
    let dx: i128 = q.x as i128 - p.x as i128;
    let dy: i128 = q.y as i128 - p.y as i128;
    let xx: i128 = product(dx, dx, lim, lim);
    let yy: i128 = product(dy, dy, lim, lim);
    proof {
        lemma_square_order(dx as int, 0);
        lemma_square_order(dy as int, 0);
    }
    xx + yy
}

/// The circle through three lattice points; `None` when they lie on one
/// line or when the circle does not fit the lattice.
pub fn get_circle_3_points(p1: Point, p2: Point, p3: Point) -> (res: Option<Circle>)
    requires
        p1.wf(),
        p2.wf(),
        p3.wf(),
    ensures
        res == circle_through(p1, p2, p3),
        collinear(p1@, p2@, p3@) ==> res is None,
        res matches Some(circle) ==> circle.wf(),
{
    proof {
        lemma_circumcenter_finite(p1@, p2@, p3@);
    }
    let l1: StraightLine = bisector_of(p1, p2);
    let l2: StraightLine = bisector_of(p2, p3);
    match find_intersection(&l1, &l2) {
        None => None,
        Some(o) => {
            let r: i128 = isqrt(squared_distance(o, p1));
            if 0 < r && r <= COORD_LIMIT as i128 {
                Some(Circle { center: o, radius: r as i64 })
            } else {
                None
            }
        },
    }
}

/// The point that divides the segment from `p1` to `p2` in the ratio
/// `ratio_s : ratio_t`, rounded to the lattice. A ratio that is not positive
/// counts as zero; there is no such point when the end points coincide or
/// both ratios are zero.
pub fn internal_division_ratio(p1: Point, p2: Point, ratio_s: i64, ratio_t: i64) -> (res: Option<
    Point,
>)
    requires
        p1.wf(),
        p2.wf(),
        within(ratio_s as int, COORD_LIMIT as int),
        within(ratio_t as int, COORD_LIMIT as int),
    ensures
        res == division_point(p1, p2, ratio_s as int, ratio_t as int),
        res matches Some(p) ==> p.wf(),
{
    if p1.x == p2.x && p1.y == p2.y {
        return None;
    }
    if ratio_s <= 0 {
        if ratio_t <= 0 {
            None
        } else {
            Some(p1)
        }
    } else {
        if ratio_t <= 0 {
            return Some(p2);
        }
        let lim: Ghost<int> = Ghost(COORD_LIMIT as int);
        let s: i128 = ratio_s as i128;
        let t: i128 = ratio_t as i128;
        let x: i128 = product(t, p1.x as i128, lim, lim) + product(s, p2.x as i128, lim, lim);
        let y: i128 = product(t, p1.y as i128, lim, lim) + product(s, p2.y as i128, lim, lim);
        round_point(x, y, s + t)
    }
}

/// The two segments have the same or opposite directions, so that the angle
/// between them is flat. A segment whose end points coincide has every
/// direction.
pub fn check_if_flat_angle(s1: &Segment, s2: &Segment) -> (flat: bool)
    requires
        s1.wf(),
        s2.wf(),
    ensures
        flat == join(s1.0@, s1.1@).is_parallel_to(join(s2.0@, s2.1@)),
{
    let lim: Ghost<int> = Ghost(0x2000_0000);
    let l1: StraightLine = s1.as_straight_line();
    let l2: StraightLine = s2.as_straight_line();
    let t1: i128 = product(l1.a as i128, l2.b as i128, lim, lim);
    let t2: i128 = product(l2.a as i128, l1.b as i128, lim, lim);
    t1 - t2 == 0
}


/// The squared length of the normal of `l` and the value of `l` at `p`.
fn norm_and_value(l: &StraightLine, p: Point) -> (res: (i128, i128))
    requires
        l.wf(),
        p.wf(),
    ensures
        res.0 == l@.norm(),
        res.1 == l@.eval(p.x as int, p.y as int),
        0 <= res.0 <= 0x2000_0000_0000_0000,
        within(res.1 as int, 0x2000_0000_0000_0000),
{
    let lim: Ghost<int> = Ghost(COORD_LIMIT as int);
    let nlim: Ghost<int> = Ghost(NORMAL_LIMIT as int);
    let a: i128 = l.a as i128;
    let b: i128 = l.b as i128;
    let aa: i128 = product(a, a, nlim, nlim);
    let bb: i128 = product(b, b, nlim, nlim);
    proof {
        lemma_square_order(a as int, 0);
        lemma_square_order(b as int, 0);
    }
    let k: i128 = product(a, p.x as i128, nlim, lim) + product(b, p.y as i128, nlim, lim)
        + l.c as i128;
    (aa + bb, k)
}

/// The chord that a line cuts from a circle.
fn cut(l: &StraightLine, c: &Circle) -> (res: Option<Segment>)
    requires
        l.wf(),
        c.wf(),
    ensures
        res == chord(l@, c@),
        res matches Some(s) ==> s.wf(),
{
    let lim: Ghost<int> = Ghost(COORD_LIMIT as int);
    let nlim: Ghost<int> = Ghost(NORMAL_LIMIT as int);
    let big: Ghost<int> = Ghost(0x2000_0000_0000_0000);
    let a: i128 = l.a as i128;
    let b: i128 = l.b as i128;
    let r: i128 = c.radius as i128;
    let (n, k) = norm_and_value(l, c.center);
    let rr: i128 = product(r, r, lim, lim);
    let rrn: i128 = product(rr, n, Ghost(0x100_0000_0000_0000), big);
    let kk: i128 = product(k, k, big, big);
    let d: i128 = rrn - kk;
    if n == 0 || d < 0 {
        return None;
    }
    let s: i128 = isqrt(d);
    proof {
        lemma_square_order(k as int, 0);
        lemma_square_order(0x800_0000_0000_0000, s as int);
        assert(0x800_0000_0000_0000 * 0x800_0000_0000_0000 > d);
    }
    let half: Ghost<int> = Ghost(0x800_0000_0000_0000);
    let fx: i128 = product(c.center.x as i128, n, lim, big) - product(a, k, nlim, big);
    let fy: i128 = product(c.center.y as i128, n, lim, big) - product(b, k, nlim, big);
    let bs: i128 = product(b, s, nlim, half);
    let a_s: i128 = product(a, s, nlim, half);
    proof {
        assert(chord_end(l@, c@, 1).x == fx + bs && chord_end(l@, c@, 1).y == fy - a_s);
        assert(chord_end(l@, c@, -1).x == fx - bs && chord_end(l@, c@, -1).y == fy + a_s);
    }
    let p: Option<Point> = round_point(fx + bs, fy - a_s, n);
    let q: Option<Point> = round_point(fx - bs, fy + a_s, n);
    match (p, q) {
        (Some(p0), Some(p1)) => Some(Segment(p0, p1)),
        _ => None,
    }
}

/// The chord that a line cuts from a circle, its end points rounded to the
/// lattice; `None` when there is no line, when the line is not proper or
/// misses the circle, or when an end point leaves the lattice.
pub fn get_circle_straight_line_intersection(l: &Option<StraightLine>, c: &Circle) -> (res: Option<
    Segment,
>)
    requires
        l matches Some(line) ==> line.wf(),
        c.wf(),
    ensures
        res == match *l {
            Some(line) => chord(line@, c@),
            None => None,
        },
        res matches Some(s) ==> s.wf(),
{
    match l {
        Some(strl) => cut(strl, c),
        None => None,
    }
}

/// The common chord of two circles, cut from the first circle by the line in
/// which the two meet; `None` when the circles have no common point or the
/// same centre.
pub fn get_circles_intersection(c1: &Circle, c2: &Circle) -> (res: Option<Segment>)
    requires
        c1.wf(),
        c2.wf(),
    ensures
        res == chord(radical_axis(c2@, c1@), c1@),
        res matches Some(s) ==> s.wf(),
{
    let t0: StraightLine = get_circles_intersection_as_straight_line(c1, c2);
    cut(&t0, c1)
}

/// The line that carries the segment meets the circle.
pub fn is_segment_intersecting_circle(s: &Segment, c: &Circle) -> (res: bool)
    requires
        s.wf(),
        c.wf(),
    ensures
        res == touches(join(s.0@, s.1@), c@),
{
    let lim: Ghost<int> = Ghost(COORD_LIMIT as int);
    let big: Ghost<int> = Ghost(0x2000_0000_0000_0000);
    let l: StraightLine = s.as_straight_line();
    let r: i128 = c.radius as i128;
    let (n, k) = norm_and_value(&l, c.center);
    let rr: i128 = product(r, r, lim, lim);
    let rrn: i128 = product(rr, n, Ghost(0x100_0000_0000_0000), big);
    let kk: i128 = product(k, k, big, big);
    proof {
        lemma_square_order(l@.a, 0);
        lemma_square_order(l@.b, 0);
    }
    n != 0 && rrn >= kk
}

/// The distance from `p` to the line `l`, rounded down; `None` when `l` is
/// not a proper line.
pub fn calculate_distance(l: &StraightLine, p: Point) -> (res: Option<i64>)
    requires
        l.wf(),
        p.wf(),
    ensures
        res is Some <==> l@.is_proper(),
        res matches Some(d) ==> {
            let k = l@.eval(p.x as int, p.y as int);
            0 <= d && d * d * l@.norm() <= k * k < (d + 1) * (d + 1) * l@.norm()
        },
{
    let big: Ghost<int> = Ghost(0x2000_0000_0000_0000);
    let (n, k) = norm_and_value(l, p);
    proof {
        lemma_square_order(l@.a, 0);
        lemma_square_order(l@.b, 0);
    }
    if n == 0 {
        return None;
    }
    let kk: i128 = product(k, k, big, big);
    proof {
        lemma_square_order(k as int, 0);
    }
    let q: i128 = kk / n;
    proof {
        vstd::arithmetic::div_mod::lemma_fundamental_div_mod(kk as int, n as int);
        vstd::arithmetic::div_mod::lemma_div_pos_is_pos(kk as int, n as int);
        vstd::arithmetic::div_mod::lemma_div_is_ordered_by_denominator(kk as int, 1, n as int);
        vstd::arithmetic::div_mod::lemma_div_basics(kk as int);
    }
    let d: i128 = isqrt(q);
    proof {
        // d^2 <= q and q n <= k^2 < (q + 1) n <= (d + 1)^2 n
        vstd::arithmetic::mul::lemma_mul_inequality(d * d, q as int, n as int);
        vstd::arithmetic::mul::lemma_mul_inequality(q + 1, (d + 1) * (d + 1), n as int);
        lemma_times_sum2(n as int, q as int, 1);
        lemma_times_sum2(n as int, q as int, 0);
    }
    Some(d as i64)
}

/// The pole of the line that carries the segment `s`, with respect to the
/// circle `c`, rounded to the lattice. There is none when the line passes
/// through the centre of the circle or the end points of `s` coincide.
pub fn get_inverse_pole(s: &Segment, c: Circle) -> (res: Option<Point>)
    requires
        s.wf(),
        c.wf(),
    ensures
        res == pole(join(s.0@, s.1@), c@).round(),
        res matches Some(p) ==> p.wf(),
{
    let lim: Ghost<int> = Ghost(COORD_LIMIT as int);
    let nlim: Ghost<int> = Ghost(NORMAL_LIMIT as int);
    let big: Ghost<int> = Ghost(0x2000_0000_0000_0000);
    let l: StraightLine = s.as_straight_line();
    let r: i128 = c.radius as i128;
    let (n, k) = norm_and_value(&l, c.center);
    let rr: i128 = product(r, r, lim, lim);
    let x: i128 = product(c.center.x as i128, k, lim, big) - product(
        rr,
        l.a as i128,
        Ghost(0x100_0000_0000_0000),
        nlim,
    );
    let y: i128 = product(c.center.y as i128, k, lim, big) - product(
        rr,
        l.b as i128,
        Ghost(0x100_0000_0000_0000),
        nlim,
    );
    round_point(x, y, k)
}

} // verus!
