//! For one axis of similitude: its pole with respect to each circle, and
//! the chord that the line from the pole to the radical centre cuts from
//! that circle. The end points of the chords are where the circles of
//! Apollonius touch the given circles.

use crate::exact::join;
use crate::exact::pole;
use crate::models::circle::Circle;
use crate::models::point::moved_point;
use crate::models::point::Point;
use crate::models::segment::moved_segment;
use crate::models::segment::Segment;
use crate::models::straightline::StraightLine;
use crate::services::calc::chord;
use crate::services::calc::get_circle_straight_line_intersection;
use vstd::prelude::*;

verus! {

/// A pole and the chord that belongs to it.
#[derive(Clone, Copy, Debug, PartialEq, Eq)]
pub struct PointSegmentPair {
    pub point: Option<Point>,
    pub segment: Option<Segment>,
}

/// The poles and chords of one axis, a pair for each circle.
#[derive(Clone, Debug, PartialEq, Eq)]
pub struct InversePoleSet {
    pub point_segment_pairs: Vec<PointSegmentPair>,
}

impl View for InversePoleSet {
    type V = Seq<PointSegmentPair>;

    open spec fn view(&self) -> Seq<PointSegmentPair> {
        self.point_segment_pairs@
    }
}

impl PointSegmentPair {
    /// The pole and the chord, where defined, lie on the lattice.
    pub open spec fn wf(&self) -> bool {
        &&& self.point matches Some(p) ==> p.wf()
        &&& self.segment matches Some(s) ==> s.wf()
    }

    /// The pole and the chord moved by the vector `(dx, dy)`.
    pub open spec fn moved(self, dx: int, dy: int) -> PointSegmentPair {
        PointSegmentPair {
            point: moved_point(self.point, dx, dy),
            segment: moved_segment(self.segment, dx, dy),
        }
    }
}

/// The poles and chords moved by the vector `(dx, dy)`, if there are any.
pub open spec fn moved_pairs(set: Option<Seq<PointSegmentPair>>, dx: int, dy: int) -> Option<
    Seq<PointSegmentPair>,
> {
    match set {
        Some(pairs) => Some(Seq::new(pairs.len(), |i: int| pairs[i].moved(dx, dy))),
        None => None,
    }
}

/// Every pair of the sequence lies on the lattice.
pub open spec fn pairs_wf(pairs: Seq<PointSegmentPair>) -> bool {
    forall|i: int| 0 <= i < pairs.len() ==> (#[trigger] pairs[i]).wf()
}

/// The chord that the line from `from` to the radical centre cuts from the
/// circle `c`. Of its two ends the first lies in the direction from the
/// radical centre to `from`, the second in the opposite direction.
pub open spec fn chord_towards(from: Point, radical_center: Point, c: Circle) -> Option<Segment> {
    chord(join(from@, radical_center@), c@)
}

/// The pole of the axis `line` with respect to `c`, rounded to the lattice,
/// with its chord; `None` when there is no such pole.
pub open spec fn pole_and_chord(line: Segment, c: Circle, radical_center: Point) -> Option<
    PointSegmentPair,
> {
    match pole(join(line.0@, line.1@), c@).round() {
        None => None,
        Some(p) => Some(
            PointSegmentPair { point: Some(p), segment: chord_towards(p, radical_center, c) },
        ),
    }
}

/// The poles and chords of the axis `line` for the first three circles of
/// `circles`; `None` when there is no axis or when one of the poles is
/// missing.
pub open spec fn pole_set(line: Option<Segment>, circles: Seq<Circle>, radical_center: Point)
    -> Option<Seq<PointSegmentPair>> {
    match line {
        None => None,
        Some(l) => match (
            pole_and_chord(l, circles[0], radical_center),
            pole_and_chord(l, circles[1], radical_center),
            pole_and_chord(l, circles[2], radical_center),
        ) {
            (Some(a), Some(b), Some(c)) => Some(seq![a, b, c]),
            _ => None,
        },
    }
}

/// The pair that takes the centre of `c` in the place of a pole.
pub open spec fn center_and_chord(c: Circle, radical_center: Point) -> PointSegmentPair {
    PointSegmentPair {
        point: Some(c.center),
        segment: chord_towards(c.center, radical_center, c),
    }
}

/// The pairs of `center_and_chord`, one for each circle.
pub open spec fn center_set(circles: Seq<Circle>, radical_center: Point) -> Seq<PointSegmentPair> {
    Seq::new(circles.len(), |i: int| center_and_chord(circles[i], radical_center))
}

/// The chord that the line from `from` to `radical_center` cuts from `c`.
fn chord_from(from: Point, radical_center: Point, c: &Circle) -> (res: Option<Segment>)
    requires
        from.wf(),
        radical_center.wf(),
        c.wf(),
    ensures
        res == chord_towards(from, radical_center, *c),
        res matches Some(s) ==> s.wf(),
{
    let line: StraightLine = Segment(from, radical_center).as_straight_line();
    get_circle_straight_line_intersection(&Some(line), c)
}

impl InversePoleSet {
    /// The poles of the axis `line` with respect to the first three circles
    /// of `circles`, each with the chord that the line from it to the
    /// radical centre cuts from its circle. `None` when there is no axis or
    /// a pole is missing.
    pub fn new(line: Option<Segment>, circles: &[Circle], radical_center: Point) -> (res: Option<
        Self,
    >)
        requires
            circles@.len() >= 3,
            circles@[0].wf(),
            circles@[1].wf(),
            circles@[2].wf(),
            line matches Some(l) ==> l.wf(),
            radical_center.wf(),
        ensures
            match res {
                Some(set) => pole_set(line, circles@, radical_center) == Some(set@),
                None => pole_set(line, circles@, radical_center) is None,
            },
            res matches Some(set) ==> set.wf(),
    {
        let p1: Option<Point> = Self::get_inverse_pole(&line, circles[0]);
        let p2: Option<Point> = Self::get_inverse_pole(&line, circles[1]);
        let p3: Option<Point> = Self::get_inverse_pole(&line, circles[2]);
        match (p1, p2, p3) {
            (Some(q1), Some(q2), Some(q3)) => {
                let mut point_segment_pairs: Vec<PointSegmentPair> = Vec::new();
                point_segment_pairs.push(
                    PointSegmentPair {
                        point: p1,
                        segment: chord_from(q1, radical_center, &circles[0]),
                    },
                );
                point_segment_pairs.push(
                    PointSegmentPair {
                        point: p2,
                        segment: chord_from(q2, radical_center, &circles[1]),
                    },
                );
                point_segment_pairs.push(
                    PointSegmentPair {
                        point: p3,
                        segment: chord_from(q3, radical_center, &circles[2]),
                    },
                );
                assert(point_segment_pairs@ =~= pole_set(
                    line,
                    circles@,
                    radical_center,
                ).unwrap());
                Some(InversePoleSet { point_segment_pairs })
            },
            _ => None,
        }
    }

    /// The set for the axis at infinity of circles with one radius: the
    /// centre of each circle takes the place of the pole.
    pub fn new_special(circles: &[Circle], radical_center: Point) -> (res: Option<Self>)
        requires
            forall|i: int| 0 <= i < circles@.len() ==> (#[trigger] circles@[i]).wf(),
            radical_center.wf(),
        ensures
            res matches Some(set) && set@ == center_set(circles@, radical_center) && set.wf(),
    {
        let mut point_segment_pairs: Vec<PointSegmentPair> = Vec::new();
        let n: usize = circles.len();
        let mut i: usize = 0;
        while i < n
            invariant
                i <= n,
                n == circles@.len(),
                radical_center.wf(),
                forall|k: int| 0 <= k < circles@.len() ==> (#[trigger] circles@[k]).wf(),
                point_segment_pairs@.len() == i,
                forall|k: int|
                    0 <= k < i ==> #[trigger] point_segment_pairs@[k] == center_and_chord(
                        circles@[k],
                        radical_center,
                    ),
                pairs_wf(point_segment_pairs@),
            decreases n - i,
        {
            let circle: &Circle = &circles[i];
            point_segment_pairs.push(
                PointSegmentPair {
                    point: Some(circle.center),
                    segment: chord_from(circle.center, radical_center, circle),
                },
            );
            i = i + 1;
        }
        assert(point_segment_pairs@ =~= center_set(circles@, radical_center));
        Some(InversePoleSet { point_segment_pairs })
    }

    /// Every pole and every chord of the set lies on the lattice.
    pub open spec fn wf(&self) -> bool {
        pairs_wf(self@)
    }

    /// The chord that belongs to the circle with the index `idx`.
    pub fn get_segment(&self, idx: usize) -> (res: Option<Segment>)
        requires
            idx < self@.len(),
        ensures
            res == self@[idx as int].segment,
    {
        self.point_segment_pairs[idx].segment
    }

    /// The pole of the axis `s` with respect to the circle `c`, rounded to
    /// the lattice: the point whose polar is the line of the axis. `None`
    /// when there is no axis, when its line passes through the centre of
    /// `c`, or when the pole leaves the lattice.
    pub fn get_inverse_pole(s: &Option<Segment>, c: Circle) -> (res: Option<Point>)
        requires
            s matches Some(sgm) ==> sgm.wf(),
            c.wf(),
        ensures
            res == match *s {
                Some(sgm) => pole(join(sgm.0@, sgm.1@), c@).round(),
                None => None,
            },
            res matches Some(p) ==> p.wf(),
    {
        match s {
            Some(sgm) => crate::services::calc::get_inverse_pole(sgm, c),
            None => None,
        }
    }
}

} // verus!
