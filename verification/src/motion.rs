//! Moving the three given circles by a vector moves everything that is built
//! on them by the same vector, as long as nothing enters or leaves the
//! lattice on the way.

use crate::algebra::lemma_times_sum2;
use crate::exact::circumcenter;
use crate::exact::dist_sq;
use crate::exact::ExactCircle;
use crate::exact::ExactLine;
use crate::exact::ExactPoint;
use crate::exact::external_center;
use crate::exact::internal_center;
use crate::exact::join;
use crate::exact::pole;
use crate::exact::radical_center;
use crate::laws::circles::lemma_circumcenter_moves;
use crate::laws::homothety::lemma_centers_move;
use crate::laws::incidence::lemma_join_moves;
use crate::laws::incidence::lemma_nearest_moves;
use crate::laws::polarity::lemma_pole_moves;
use crate::laws::radical::lemma_radical_center_moves;
use crate::models::apollonius_pair::apollonius_pair;
use crate::models::apollonius_pair::circle_of;
use crate::models::apollonius_pair::tangency;
use crate::models::circle::Circle;
use crate::models::circle::moved_circle;
use crate::models::homothetic_set::axis_of;
use crate::models::homothetic_set::pair_of;
use crate::models::inverse_pole_set::center_set;
use crate::models::inverse_pole_set::chord_towards;
use crate::models::inverse_pole_set::moved_pairs;
use crate::models::inverse_pole_set::PointSegmentPair;
use crate::models::inverse_pole_set::pole_and_chord;
use crate::models::inverse_pole_set::pole_set;
use crate::models::point::in_range;
use crate::models::point::Point;
use crate::models::segment::Segment;
use crate::services::calc::chord;
use crate::services::calc::chord_end;
use crate::services::calc::circle_through;
use crate::services::calc::discriminant;
use crate::services::calc::lemma_internal_center_on_lattice;
use crate::solver::inverse_pole_set_of;
use crate::solver::picks;
use crate::solver::construction;
use crate::solver::precedes;
use crate::solver::solution_of;
use crate::solver::sorted_by_radius;
use crate::solver::SolveOptions;
use vstd::prelude::*;

verus! {

/// The point stays on the lattice when it is moved by `(dx, dy)`.
pub open spec fn stays(p: Point, dx: int, dy: int) -> bool {
    p.wf() && in_range(p.x + dx) && in_range(p.y + dy)
}

/// Both ends of the segment stay on the lattice when moved.
pub open spec fn segment_stays(s: Segment, dx: int, dy: int) -> bool {
    stays(s.0, dx, dy) && stays(s.1, dx, dy)
}

/// The circle stays well formed when it is moved by `(dx, dy)`.
pub open spec fn circle_stays(c: Circle, dx: int, dy: int) -> bool {
    c.wf() && stays(c.center, dx, dy)
}

/// `new` is `old` moved, and neither has left the lattice; or both are
/// missing.
pub open spec fn point_follows(old: Option<Point>, new: Option<Point>, dx: int, dy: int) -> bool {
    match (old, new) {
        (Some(p), Some(q)) => stays(p, dx, dy) && q == p.moved(dx, dy),
        (None, None) => true,
        _ => false,
    }
}

/// `new` is `old` moved, and neither has left the lattice; or both are
/// missing.
pub open spec fn segment_follows(old: Option<Segment>, new: Option<Segment>, dx: int, dy: int)
    -> bool {
    match (old, new) {
        (Some(s), Some(t)) => segment_stays(s, dx, dy) && t == s.moved(dx, dy),
        (None, None) => true,
        _ => false,
    }
}

/// A point that stays on the lattice is moved as its exact point is.
pub proof fn lemma_moved_point(p: Point, dx: int, dy: int)
    requires
        stays(p, dx, dy),
    ensures
        p.moved(dx, dy)@ == p@.translate(dx, dy),
        p.moved(dx, dy).wf(),
        stays(p.moved(dx, dy), -dx, -dy),
{
}

/// A circle that stays on the lattice is moved as its exact circle is.
pub proof fn lemma_moved_circle(c: Circle, dx: int, dy: int)
    requires
        circle_stays(c, dx, dy),
    ensures
        c.moved(dx, dy)@ == c@.translate(dx, dy),
        c.moved(dx, dy).wf(),
        c.moved(dx, dy).radius == c.radius,
{
}

/// Rounding goes with moving: where a rational point and the moved point
/// both round to lattice points, or both to none, the second is the first
/// moved.
pub proof fn lemma_round_follows(p: ExactPoint, dx: int, dy: int)
    ensures
        (p.round() is Some <==> p.translate(dx, dy).round() is Some) ==> point_follows(
            p.round(),
            p.translate(dx, dy).round(),
            dx,
            dy,
        ),
{
    if p.w != 0 {
        lemma_nearest_moves(p, dx, dy);
    }
}

/// The homothetic centres of moved circles are the moved centres.
pub proof fn lemma_pair_follows(c1: Circle, c2: Circle, dx: int, dy: int)
    requires
        circle_stays(c1, dx, dy),
        circle_stays(c2, dx, dy),
    ensures
        ({
            let old = pair_of(c1, c2);
            let new = pair_of(c1.moved(dx, dy), c2.moved(dx, dy));
            &&& (old.ex is Some <==> new.ex is Some) ==> point_follows(old.ex, new.ex, dx, dy)
            &&& point_follows(old.ir, new.ir, dx, dy)
        }),
{
    lemma_moved_circle(c1, dx, dy);
    lemma_moved_circle(c2, dx, dy);
    lemma_centers_move(c1@, c2@, dx, dy);
    lemma_round_follows(external_center(c1@, c2@), dx, dy);
    lemma_round_follows(internal_center(c1@, c2@), dx, dy);
    lemma_internal_center_on_lattice(c1, c2);
    lemma_internal_center_on_lattice(c1.moved(dx, dy), c2.moved(dx, dy));
}

/// The axis through moved centres is the moved axis.
pub proof fn lemma_axis_follows(
    a: Option<Point>,
    b: Option<Point>,
    c: Option<Point>,
    a2: Option<Point>,
    b2: Option<Point>,
    c2: Option<Point>,
    dx: int,
    dy: int,
)
    requires
        point_follows(a, a2, dx, dy),
        point_follows(b, b2, dx, dy),
        point_follows(c, c2, dx, dy),
    ensures
        segment_follows(axis_of(a, b, c), axis_of(a2, b2, c2), dx, dy),
{
}

/// The radical centre of moved circles is the moved radical centre.
pub proof fn lemma_radical_center_follows(c1: Circle, c2: Circle, c3: Circle, dx: int, dy: int)
    requires
        circle_stays(c1, dx, dy),
        circle_stays(c2, dx, dy),
        circle_stays(c3, dx, dy),
    ensures
        ({
            let old = radical_center(c1@, c2@, c3@).round();
            let new = radical_center(
                c1.moved(dx, dy)@,
                c2.moved(dx, dy)@,
                c3.moved(dx, dy)@,
            ).round();
            (old is Some <==> new is Some) ==> point_follows(old, new, dx, dy)
        }),
{
    lemma_moved_circle(c1, dx, dy);
    lemma_moved_circle(c2, dx, dy);
    lemma_moved_circle(c3, dx, dy);
    lemma_radical_center_moves(c1@, c2@, c3@, dx, dy);
    lemma_round_follows(radical_center(c1@, c2@, c3@), dx, dy);
}

/// Moving a line and a circle changes neither the discriminant nor the
/// squared length of the normal, and moves the ends of the chord.
pub proof fn lemma_chord_end_moves(l: ExactLine, c: ExactCircle, side: int, dx: int, dy: int)
    ensures
        l.translate(dx, dy).norm() == l.norm(),
        discriminant(l.translate(dx, dy), c.translate(dx, dy)) == discriminant(l, c),
        chord_end(l.translate(dx, dy), c.translate(dx, dy), side) == chord_end(
            l,
            c,
            side,
        ).translate(dx, dy),
{
    lemma_pole_moves(l, c, dx, dy);
    let n = l.norm();
    lemma_times_sum2(n, c.x, dx);
    lemma_times_sum2(n, c.y, dy);
    lemma_times_sum2(dx, n, 0);
    lemma_times_sum2(dy, n, 0);
}

/// The chord that a moved line cuts from a moved circle is the moved chord.
pub proof fn lemma_chord_follows(l: ExactLine, c: ExactCircle, dx: int, dy: int)
    ensures
        ({
            let old = chord(l, c);
            let new = chord(l.translate(dx, dy), c.translate(dx, dy));
            (old is Some <==> new is Some) ==> segment_follows(old, new, dx, dy)
        }),
{
    lemma_chord_end_moves(l, c, 1, dx, dy);
    lemma_chord_end_moves(l, c, -1, dx, dy);
    lemma_round_follows(chord_end(l, c, 1), dx, dy);
    lemma_round_follows(chord_end(l, c, -1), dx, dy);
}

/// The chord on the line from a moved point to the moved radical centre is
/// the moved chord.
pub proof fn lemma_chord_towards_follows(from: Point, center: Point, c: Circle, dx: int, dy: int)
    requires
        stays(from, dx, dy),
        stays(center, dx, dy),
        circle_stays(c, dx, dy),
    ensures
        ({
            let old = chord_towards(from, center, c);
            let new = chord_towards(from.moved(dx, dy), center.moved(dx, dy), c.moved(dx, dy));
            (old is Some <==> new is Some) ==> segment_follows(old, new, dx, dy)
        }),
{
    lemma_moved_point(from, dx, dy);
    lemma_moved_point(center, dx, dy);
    lemma_moved_circle(c, dx, dy);
    lemma_join_moves(from@, center@, dx, dy);
    lemma_chord_follows(join(from@, center@), c@, dx, dy);
}

/// The pole of a moved axis with respect to a moved circle is the moved
/// pole.
pub proof fn lemma_pole_follows(line: Segment, c: Circle, dx: int, dy: int)
    requires
        segment_stays(line, dx, dy),
        circle_stays(c, dx, dy),
    ensures
        ({
            let old = pole(join(line.0@, line.1@), c@).round();
            let moved = line.moved(dx, dy);
            let new = pole(join(moved.0@, moved.1@), c.moved(dx, dy)@).round();
            (old is Some <==> new is Some) ==> point_follows(old, new, dx, dy)
        }),
{
    lemma_moved_point(line.0, dx, dy);
    lemma_moved_point(line.1, dx, dy);
    lemma_moved_circle(c, dx, dy);
    lemma_join_moves(line.0@, line.1@, dx, dy);
    lemma_pole_moves(join(line.0@, line.1@), c@, dx, dy);
    lemma_round_follows(pole(join(line.0@, line.1@), c@), dx, dy);
}

/// The circle through three moved points is the moved circle.
pub proof fn lemma_circle_through_follows(a: Point, b: Point, c: Point, dx: int, dy: int)
    requires
        stays(a, dx, dy),
        stays(b, dx, dy),
        stays(c, dx, dy),
    ensures
        ({
            let old = circle_through(a, b, c);
            let new = circle_through(a.moved(dx, dy), b.moved(dx, dy), c.moved(dx, dy));
            (old is Some <==> new is Some) ==> new == moved_circle(old, dx, dy)
        }),
{
    lemma_moved_point(a, dx, dy);
    lemma_moved_point(b, dx, dy);
    lemma_moved_point(c, dx, dy);
    lemma_circumcenter_moves(a@, b@, c@, dx, dy);
    let o = circumcenter(a@, b@, c@);
    lemma_round_follows(o, dx, dy);
    let old = circle_through(a, b, c);
    let new = circle_through(a.moved(dx, dy), b.moved(dx, dy), c.moved(dx, dy));
    if old is Some && new is Some {
        let p = o.round().unwrap();
        let q = o.translate(dx, dy).round().unwrap();
        assert(q == p.moved(dx, dy));
        assert(dist_sq(q.x as int, q.y as int, a.moved(dx, dy).x as int, a.moved(dx, dy).y as int)
            == dist_sq(p.x as int, p.y as int, a.x as int, a.y as int));
    }
}


/// `new` holds the poles and chords of `old` moved, and none has left the
/// lattice; or both are missing.
pub open spec fn pairs_follow(
    old: Option<Seq<PointSegmentPair>>,
    new: Option<Seq<PointSegmentPair>>,
    dx: int,
    dy: int,
) -> bool {
    match (old, new) {
        (Some(a), Some(b)) => {
            &&& a.len() == b.len()
            &&& forall|j: int|
                0 <= j < a.len() ==> point_follows(
                    (#[trigger] a[j]).point,
                    b[j].point,
                    dx,
                    dy,
                ) && segment_follows(a[j].segment, b[j].segment, dx, dy)
        },
        (None, None) => true,
        _ => false,
    }
}

/// What follows is what has been moved.
pub proof fn lemma_follows_is_moved(
    old: Option<Seq<PointSegmentPair>>,
    new: Option<Seq<PointSegmentPair>>,
    dx: int,
    dy: int,
)
    requires
        pairs_follow(old, new, dx, dy),
    ensures
        new == moved_pairs(old, dx, dy),
{
    if old is Some {
        let a = old.unwrap();
        let b = new.unwrap();
        let m = moved_pairs(old, dx, dy).unwrap();
        assert forall|j: int| 0 <= j < a.len() implies b[j] == m[j] by {
            assert(point_follows(a[j].point, b[j].point, dx, dy));
            assert(segment_follows(a[j].segment, b[j].segment, dx, dy));
        }
        assert(b =~= m);
    }
}

/// The pole and chord of a moved axis are the moved pole and chord.
pub proof fn lemma_pole_and_chord_follow(
    line: Segment,
    c: Circle,
    center: Point,
    dx: int,
    dy: int,
)
    requires
        segment_stays(line, dx, dy),
        circle_stays(c, dx, dy),
        stays(center, dx, dy),
    ensures
        ({
            let old = pole_and_chord(line, c, center);
            let new = pole_and_chord(line.moved(dx, dy), c.moved(dx, dy), center.moved(dx, dy));
            &&& old is Some && new is Some ==> point_follows(
                old.unwrap().point,
                new.unwrap().point,
                dx,
                dy,
            )
            &&& old is Some && new is Some && (old.unwrap().segment is Some
                <==> new.unwrap().segment is Some) ==> segment_follows(
                old.unwrap().segment,
                new.unwrap().segment,
                dx,
                dy,
            )
        }),
{
    lemma_pole_follows(line, c, dx, dy);
    let old = pole_and_chord(line, c, center);
    let new = pole_and_chord(line.moved(dx, dy), c.moved(dx, dy), center.moved(dx, dy));
    if old is Some && new is Some {
        let p = old.unwrap().point.unwrap();
        assert(new.unwrap().point == Some(p.moved(dx, dy)));
        lemma_chord_towards_follows(p, center, c, dx, dy);
    }
}

/// The poles and chords of a moved axis are the moved poles and chords.
pub proof fn lemma_pole_set_follows(
    line: Option<Segment>,
    line2: Option<Segment>,
    circles: Seq<Circle>,
    circles2: Seq<Circle>,
    center: Point,
    dx: int,
    dy: int,
)
    requires
        segment_follows(line, line2, dx, dy),
        circles.len() >= 3,
        circles2.len() >= 3,
        forall|i: int|
            0 <= i < 3 ==> circle_stays(#[trigger] circles[i], dx, dy) && circles2[i]
                == circles[i].moved(dx, dy),
        stays(center, dx, dy),
    ensures
        ({
            let old = pole_set(line, circles, center);
            let new = pole_set(line2, circles2, center.moved(dx, dy));
            &&& (old is Some <==> new is Some)
            &&& old is Some && new is Some ==> forall|j: int|
                0 <= j < 3 ==> ((#[trigger] old.unwrap()[j]).segment is Some
                    <==> new.unwrap()[j].segment is Some)
        } ==> pairs_follow(
            pole_set(line, circles, center),
            pole_set(line2, circles2, center.moved(dx, dy)),
            dx,
            dy,
        )),
{
    let old = pole_set(line, circles, center);
    let new = pole_set(line2, circles2, center.moved(dx, dy));
    if old is Some && new is Some {
        let l = line.unwrap();
        assert(line2 == Some(l.moved(dx, dy)));
        assert(circle_stays(circles[0], dx, dy) && circles2[0] == circles[0].moved(dx, dy));
        assert(circle_stays(circles[1], dx, dy) && circles2[1] == circles[1].moved(dx, dy));
        assert(circle_stays(circles[2], dx, dy) && circles2[2] == circles[2].moved(dx, dy));
        lemma_pole_and_chord_follow(l, circles[0], center, dx, dy);
        lemma_pole_and_chord_follow(l, circles[1], center, dx, dy);
        lemma_pole_and_chord_follow(l, circles[2], center, dx, dy);
        let a = old.unwrap();
        let b = new.unwrap();
        assert(a[0] == pole_and_chord(l, circles[0], center).unwrap());
        assert(a[1] == pole_and_chord(l, circles[1], center).unwrap());
        assert(a[2] == pole_and_chord(l, circles[2], center).unwrap());
        assert(b[0] == pole_and_chord(
            l.moved(dx, dy),
            circles2[0],
            center.moved(dx, dy),
        ).unwrap());
        assert(b[1] == pole_and_chord(
            l.moved(dx, dy),
            circles2[1],
            center.moved(dx, dy),
        ).unwrap());
        assert(b[2] == pole_and_chord(
            l.moved(dx, dy),
            circles2[2],
            center.moved(dx, dy),
        ).unwrap());
    }
}

/// The chords towards the radical centre from the centres of moved circles
/// are the moved chords.
pub proof fn lemma_center_set_follows(
    circles: Seq<Circle>,
    circles2: Seq<Circle>,
    center: Point,
    dx: int,
    dy: int,
)
    requires
        circles.len() == circles2.len(),
        forall|i: int|
            0 <= i < circles.len() ==> circle_stays(#[trigger] circles[i], dx, dy) && circles2[i]
                == circles[i].moved(dx, dy),
        stays(center, dx, dy),
    ensures
        ({
            let old = center_set(circles, center);
            let new = center_set(circles2, center.moved(dx, dy));
            forall|j: int|
                0 <= j < circles.len() ==> ((#[trigger] old[j]).segment is Some
                    <==> new[j].segment is Some)
        } ==> pairs_follow(
            Some(center_set(circles, center)),
            Some(center_set(circles2, center.moved(dx, dy))),
            dx,
            dy,
        )),
{
    let old = center_set(circles, center);
    let new = center_set(circles2, center.moved(dx, dy));
    assert forall|j: int|
        0 <= j < circles.len() && ((#[trigger] old[j]).segment is Some
            <==> new[j].segment is Some) implies point_follows(old[j].point, new[j].point, dx, dy)
        && segment_follows(old[j].segment, new[j].segment, dx, dy) by {
        assert(circle_stays(circles[j], dx, dy) && circles2[j] == circles[j].moved(dx, dy));
        lemma_chord_towards_follows(circles[j].center, center, circles[j], dx, dy);
    }
}

/// The circles through the chord ends of moved chords are the moved
/// circles.
pub proof fn lemma_apollonius_follows(
    old: Option<Seq<PointSegmentPair>>,
    new: Option<Seq<PointSegmentPair>>,
    ord: (int, int, int),
    dx: int,
    dy: int,
)
    requires
        pairs_follow(old, new, dx, dy),
        old matches Some(pairs) ==> pairs.len() >= 3,
    ensures
        ({
            let a = apollonius_pair(old, ord);
            let b = apollonius_pair(new, ord);
            &&& (a.circle_1 is Some <==> b.circle_1 is Some) ==> b.circle_1 == moved_circle(
                a.circle_1,
                dx,
                dy,
            )
            &&& (a.circle_2 is Some <==> b.circle_2 is Some) ==> b.circle_2 == moved_circle(
                a.circle_2,
                dx,
                dy,
            )
        }),
{
    if old is Some {
        lemma_circle_of_follows(old.unwrap(), new.unwrap(), ord, dx, dy);
        lemma_circle_of_follows(
            old.unwrap(),
            new.unwrap(),
            (1 - ord.0, 1 - ord.1, 1 - ord.2),
            dx,
            dy,
        );
    }
}

/// The circle through one end of each moved chord is the moved circle.
proof fn lemma_circle_of_follows(
    old: Seq<PointSegmentPair>,
    new: Seq<PointSegmentPair>,
    ord: (int, int, int),
    dx: int,
    dy: int,
)
    requires
        pairs_follow(Some(old), Some(new), dx, dy),
        old.len() >= 3,
    ensures
        (circle_of(old, ord) is Some <==> circle_of(new, ord) is Some) ==> circle_of(new, ord)
            == moved_circle(circle_of(old, ord), dx, dy),
{
    assert(segment_follows(old[0].segment, new[0].segment, dx, dy));
    assert(segment_follows(old[1].segment, new[1].segment, dx, dy));
    assert(segment_follows(old[2].segment, new[2].segment, dx, dy));
    let a = tangency(old, 0, ord.0);
    let b = tangency(old, 1, ord.1);
    let c = tangency(old, 2, ord.2);
    if a is Some && b is Some && c is Some {
        lemma_circle_through_follows(a.unwrap(), b.unwrap(), c.unwrap(), dx, dy);
    }
}


/// The poles and chords of one axis of moved circles are the moved poles
/// and chords.
proof fn lemma_inverse_pole_set_follows(
    axis: int,
    line: Option<Segment>,
    line2: Option<Segment>,
    circles: Seq<Circle>,
    circles2: Seq<Circle>,
    center: Option<Point>,
    center2: Option<Point>,
    special: bool,
    dx: int,
    dy: int,
)
    requires
        segment_follows(line, line2, dx, dy),
        circles.len() == 3,
        circles2.len() == 3,
        forall|i: int|
            0 <= i < 3 ==> circle_stays(#[trigger] circles[i], dx, dy) && circles2[i]
                == circles[i].moved(dx, dy),
        point_follows(center, center2, dx, dy),
        ({
            let old = inverse_pole_set_of(axis, line, circles, center, special);
            let new = inverse_pole_set_of(axis, line2, circles2, center2, special);
            &&& (old is Some <==> new is Some)
            &&& old is Some && new is Some ==> forall|j: int|
                0 <= j < 3 ==> ((#[trigger] old.unwrap()[j]).segment is Some
                    <==> new.unwrap()[j].segment is Some)
        }),
    ensures
        pairs_follow(
            inverse_pole_set_of(axis, line, circles, center, special),
            inverse_pole_set_of(axis, line2, circles2, center2, special),
            dx,
            dy,
        ),
        inverse_pole_set_of(axis, line, circles, center, special) matches Some(pairs)
            ==> pairs.len() == 3,
{
    if center is Some {
        let r = center.unwrap();
        assert(center2 == Some(r.moved(dx, dy)));
        if axis == 0 && special {
            lemma_center_set_follows(circles, circles2, r, dx, dy);
        } else {
            lemma_pole_set_follows(line, line2, circles, circles2, r, dx, dy);
        }
    }
}

/// Moved circles are sorted as the circles themselves.
pub proof fn lemma_sorted_follows(c1: Circle, c2: Circle, c3: Circle, dx: int, dy: int)
    requires
        circle_stays(c1, dx, dy),
        circle_stays(c2, dx, dy),
        circle_stays(c3, dx, dy),
    ensures
        ({
            let old = sorted_by_radius(c1, c2, c3);
            let new = sorted_by_radius(c1.moved(dx, dy), c2.moved(dx, dy), c3.moved(dx, dy));
            &&& old.len() == 3
            &&& new.len() == 3
            &&& forall|i: int|
                0 <= i < 3 ==> circle_stays(#[trigger] old[i], dx, dy) && new[i] == old[i].moved(
                    dx,
                    dy,
                )
        }),
{
    let (d1, d2, d3) = (c1.moved(dx, dy), c2.moved(dx, dy), c3.moved(dx, dy));
    assert(precedes(d1, d2) == precedes(c1, c2));
    assert(precedes(d2, d3) == precedes(c2, c3));
    assert(precedes(d1, d3) == precedes(c1, c3));
}

/// What is built on moved circles and the moved radical centre is what is
/// built on the circles and their radical centre, moved.
pub proof fn lemma_construction_follows(
    s: Seq<Circle>,
    s2: Seq<Circle>,
    center: Option<Point>,
    center2: Option<Point>,
    special: bool,
    dx: int,
    dy: int,
)
    requires
        s.len() == 3,
        s2.len() == 3,
        forall|i: int|
            0 <= i < 3 ==> circle_stays(#[trigger] s[i], dx, dy) && s2[i] == s[i].moved(dx, dy),
        point_follows(center, center2, dx, dy),
        construction(s, center, special).same_presence(construction(s2, center2, special)),
    ensures
        construction(s2, center2, special) == construction(s, center, special).moved(dx, dy),
{
    let old = construction(s, center, special);
    let new = construction(s2, center2, special);
    let want = old.moved(dx, dy);
    assert(s2 =~= want.circles);
    // the homothetic centres
    assert(circle_stays(s[0], dx, dy) && s2[0] == s[0].moved(dx, dy));
    assert(circle_stays(s[1], dx, dy) && s2[1] == s[1].moved(dx, dy));
    assert(circle_stays(s[2], dx, dy) && s2[2] == s[2].moved(dx, dy));
    lemma_pair_follows(s[0], s[1], dx, dy);
    lemma_pair_follows(s[1], s[2], dx, dy);
    lemma_pair_follows(s[2], s[0], dx, dy);
    assert(old.pairs[0].ex is Some <==> new.pairs[0].ex is Some);
    assert(old.pairs[1].ex is Some <==> new.pairs[1].ex is Some);
    assert(old.pairs[2].ex is Some <==> new.pairs[2].ex is Some);
    assert(new.pairs =~= want.pairs);
    // the axes
    let (p, q) = (old.pairs, new.pairs);
    lemma_axis_follows(p[0].ex, p[1].ex, p[2].ex, q[0].ex, q[1].ex, q[2].ex, dx, dy);
    lemma_axis_follows(p[0].ex, p[1].ir, p[2].ir, q[0].ex, q[1].ir, q[2].ir, dx, dy);
    lemma_axis_follows(p[0].ir, p[1].ex, p[2].ir, q[0].ir, q[1].ex, q[2].ir, dx, dy);
    lemma_axis_follows(p[0].ir, p[1].ir, p[2].ex, q[0].ir, q[1].ir, q[2].ex, dx, dy);
    assert forall|i: int| 0 <= i < 4 implies segment_follows(
        #[trigger] old.lines[i],
        new.lines[i],
        dx,
        dy,
    ) by {}
    assert(new.lines =~= want.lines);
    // the radical centre
    assert(new.radical_center == want.radical_center);
    // the poles and chords, and the circles through the chord ends
    assert forall|i: int| 0 <= i < 4 implies #[trigger] new.inverse_pole_sets[i] == moved_pairs(
        old.inverse_pole_sets[i],
        dx,
        dy,
    ) && new.apollonius_pairs[i] == old.apollonius_pairs[i].moved(dx, dy) by {
        let a = old.inverse_pole_sets[i];
        let b = new.inverse_pole_sets[i];
        assert(a is Some <==> b is Some);
        assert(a is Some && b is Some ==> forall|j: int|
            0 <= j < 3 ==> ((#[trigger] a.unwrap()[j]).segment is Some
                <==> b.unwrap()[j].segment is Some));
        assert(segment_follows(old.lines[i], new.lines[i], dx, dy));
        lemma_inverse_pole_set_follows(
            i,
            old.lines[i],
            new.lines[i],
            s,
            s2,
            center,
            center2,
            special,
            dx,
            dy,
        );
        lemma_follows_is_moved(a, b, dx, dy);
        lemma_apollonius_follows(a, b, picks(i), dx, dy);
        assert(old.apollonius_pairs[i].circle_1 is Some <==> new.apollonius_pairs[i].circle_1
            is Some);
        assert(old.apollonius_pairs[i].circle_2 is Some <==> new.apollonius_pairs[i].circle_2
            is Some);
    }
    assert(new.inverse_pole_sets =~= want.inverse_pole_sets);
    assert(new.apollonius_pairs =~= want.apollonius_pairs);
}

/// Moving the three given circles by a vector moves the whole solution by
/// that vector, where the circles stay on the lattice and the two solutions
/// have the same centres, chords and circles present.
pub proof fn lemma_solution_moves(
    c1: Circle,
    c2: Circle,
    c3: Circle,
    options: SolveOptions,
    dx: int,
    dy: int,
)
    requires
        circle_stays(c1, dx, dy),
        circle_stays(c2, dx, dy),
        circle_stays(c3, dx, dy),
        solution_of(c1, c2, c3, options).same_presence(
            solution_of(c1.moved(dx, dy), c2.moved(dx, dy), c3.moved(dx, dy), options),
        ),
    ensures
        solution_of(c1.moved(dx, dy), c2.moved(dx, dy), c3.moved(dx, dy), options) == solution_of(
            c1,
            c2,
            c3,
            options,
        ).moved(dx, dy),
{
    let special = options.promote_equal_radii_case && c1.radius == c2.radius && c2.radius
        == c3.radius;
    lemma_sorted_follows(c1, c2, c3, dx, dy);
    lemma_radical_center_follows(c1, c2, c3, dx, dy);
    lemma_construction_follows(
        sorted_by_radius(c1, c2, c3),
        sorted_by_radius(c1.moved(dx, dy), c2.moved(dx, dy), c3.moved(dx, dy)),
        radical_center(c1@, c2@, c3@).round(),
        radical_center(c1.moved(dx, dy)@, c2.moved(dx, dy)@, c3.moved(dx, dy)@).round(),
        special,
        dx,
        dy,
    );
}

} // verus!
