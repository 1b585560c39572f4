//! The two circles of Apollonius that belong to one axis of similitude.

use crate::models::circle::Circle;
use crate::models::circle::moved_circle;
use crate::models::inverse_pole_set::InversePoleSet;
use crate::models::inverse_pole_set::PointSegmentPair;
use crate::models::point::Point;
use crate::models::segment::Segment;
use crate::services::calc::circle_through;
use vstd::prelude::*;

verus! {

/// A pair of circles, each tangent to the three given circles.
#[derive(Clone, Copy, Debug, PartialEq, Eq)]
pub struct ApolloniusPair {
    pub circle_1: Option<Circle>,
    pub circle_2: Option<Circle>,
}

/// The end of the chord of circle `i` that `pick` selects: the first end
/// for 0, the second end otherwise.
pub open spec fn tangency(pairs: Seq<PointSegmentPair>, i: int, pick: int) -> Option<Point> {
    match pairs[i].segment {
        Some(s) => Some(
            if pick == 0 {
                s.0
            } else {
                s.1
            },
        ),
        None => None,
    }
}

/// The circle through one chord end of each of the first three circles.
pub open spec fn circle_of(pairs: Seq<PointSegmentPair>, ord: (int, int, int)) -> Option<Circle> {
    match (tangency(pairs, 0, ord.0), tangency(pairs, 1, ord.1), tangency(pairs, 2, ord.2)) {
        (Some(a), Some(b), Some(c)) => circle_through(a, b, c),
        _ => None,
    }
}

/// The two circles of one axis: the first through the chord ends that `ord`
/// selects, the second through the opposite ends.
pub open spec fn apollonius_pair(set: Option<Seq<PointSegmentPair>>, ord: (int, int, int))
    -> ApolloniusPair {
    match set {
        None => ApolloniusPair { circle_1: None, circle_2: None },
        Some(pairs) => ApolloniusPair {
            circle_1: circle_of(pairs, ord),
            circle_2: circle_of(pairs, (1 - ord.0, 1 - ord.1, 1 - ord.2)),
        },
    }
}

/// The view of an optional set.
pub open spec fn view_of(set: Option<InversePoleSet>) -> Option<Seq<PointSegmentPair>> {
    match set {
        Some(s) => Some(s@),
        None => None,
    }
}

/// The end of `s` that `num` selects.
fn get_segment_point(num: i8, s: &Segment) -> (p: Point)
    ensures
        p == if num == 0 {
            s.0
        } else {
            s.1
        },
{
    if num == 0 {
        s.0
    } else {
        s.1
    }
}

/// The chord end of circle `idx` that `pick` selects.
fn get_option_point(set: &InversePoleSet, idx: usize, pick: i8) -> (res: Option<Point>)
    requires
        idx < set@.len(),
        set.wf(),
    ensures
        res == tangency(set@, idx as int, pick as int),
        res matches Some(p) ==> p.wf(),
{
    match set.get_segment(idx) {
        Some(s) => Some(get_segment_point(pick, &s)),
        None => None,
    }
}

impl ApolloniusPair {
    /// The two circles of Apollonius of one axis. Each passes through one
    /// end of the chord of each circle: the first circle through the ends
    /// that `ord` selects (0 for the first end, 1 for the second), the
    /// second circle through the opposite ends. A circle is missing when the
    /// set or one of its chords is missing, or when its three points lie on
    /// one line.
    pub fn get_apollonius_circles(inverse_pole_set: &Option<InversePoleSet>, ord: (i8, i8, i8))
        -> (pair: ApolloniusPair)
        requires
            inverse_pole_set matches Some(set) ==> set@.len() >= 3 && set.wf(),
            0 <= ord.0 <= 1,
            0 <= ord.1 <= 1,
            0 <= ord.2 <= 1,
        ensures
            pair == apollonius_pair(
                view_of(*inverse_pole_set),
                (ord.0 as int, ord.1 as int, ord.2 as int),
            ),
            pair.wf(),
    {
        let mut circle_1: Option<Circle> = None;
        let mut circle_2: Option<Circle> = None;
        if let Some(set) = inverse_pole_set {
            circle_1 =
            Circle::get_circle_3_points(
                &get_option_point(set, 0, ord.0),
                &get_option_point(set, 1, ord.1),
                &get_option_point(set, 2, ord.2),
            );
            circle_2 =
            Circle::get_circle_3_points(
                &get_option_point(set, 0, 1 - ord.0),
                &get_option_point(set, 1, 1 - ord.1),
                &get_option_point(set, 2, 1 - ord.2),
            );
        }
        ApolloniusPair { circle_1, circle_2 }
    }

    /// The circles that exist are well formed.
    pub open spec fn wf(&self) -> bool {
        &&& self.circle_1 matches Some(c) ==> c.wf()
        &&& self.circle_2 matches Some(c) ==> c.wf()
    }

    /// The two circles moved by the vector `(dx, dy)`.
    pub open spec fn moved(self, dx: int, dy: int) -> ApolloniusPair {
        ApolloniusPair {
            circle_1: moved_circle(self.circle_1, dx, dy),
            circle_2: moved_circle(self.circle_2, dx, dy),
        }
    }

    /// The two circles in order.
    pub fn as_array(self) -> (res: [Option<Circle>; 2])
        ensures
            res@ == seq![self.circle_1, self.circle_2],
    {
        let res: [Option<Circle>; 2] = [self.circle_1, self.circle_2];
        assert(res@ =~= seq![self.circle_1, self.circle_2]);
        res
    }
}

} // verus!
