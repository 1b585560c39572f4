//! Directed segments between lattice points.

use crate::arith::product;
use crate::exact::join;
use crate::models::point::COORD_LIMIT;
use crate::models::point::Point;
use crate::models::straightline::StraightLine;
use vstd::prelude::*;

verus! {

/// The directed segment from `.0` to `.1`.
#[derive(Clone, Copy, Debug, PartialEq, Eq, Structural)]
pub struct Segment(pub Point, pub Point);

/// The index of the first defined point at or after `from`, or the length of
/// `points` when there is none.
pub open spec fn first_defined(points: Seq<Option<Point>>, from: int) -> int
    decreases points.len() - from,
{
    if from < 0 || from >= points.len() {
        points.len() as int
    } else if points[from] is Some {
        from
    } else {
        first_defined(points, from + 1)
    }
}

/// The segment from the first defined point of `points` to the second one,
/// if two points are defined.
pub open spec fn first_two_defined(points: Seq<Option<Point>>) -> Option<Segment> {
    let i = first_defined(points, 0);
    let j = first_defined(points, i + 1);
    if j < points.len() {
        Some(Segment(points[i].unwrap(), points[j].unwrap()))
    } else {
        None
    }
}

/// `first_defined` names a defined point that no defined point precedes.
pub proof fn lemma_first_defined(points: Seq<Option<Point>>, from: int)
    requires
        0 <= from,
    ensures
        from <= first_defined(points, from) || first_defined(points, from) == points.len(),
        first_defined(points, from) <= points.len(),
        first_defined(points, from) < points.len() ==> points[first_defined(points, from)] is Some,
        forall|k: int| from <= k < first_defined(points, from) ==> points[k] is None,
    decreases points.len() - from,
{
    if from < points.len() && points[from] is None {
        lemma_first_defined(points, from + 1);
    }
}

/// The segment moved by the vector `(dx, dy)`, if there is a segment.
pub open spec fn moved_segment(s: Option<Segment>, dx: int, dy: int) -> Option<Segment> {
    match s {
        Some(t) => Some(t.moved(dx, dy)),
        None => None,
    }
}

impl Segment {
    /// Both end points lie on the lattice.
    pub open spec fn wf(&self) -> bool {
        self.0.wf() && self.1.wf()
    }

    /// The segment moved by the vector `(dx, dy)`.
    pub open spec fn moved(self, dx: int, dy: int) -> Segment {
        Segment(self.0.moved(dx, dy), self.1.moved(dx, dy))
    }

    /// The line through the two end points, directed from the first to the
    /// second. It is not a proper line when the end points coincide.
    pub fn as_straight_line(&self) -> (l: StraightLine)
        requires
            self.wf(),
        ensures
            l@ == join(self.0@, self.1@),
            l.wf(),
    {
        let x0: i128 = self.0.x as i128;
        let y0: i128 = self.0.y as i128;
        let x1: i128 = self.1.x as i128;
        let y1: i128 = self.1.y as i128;
        let lim: Ghost<int> = Ghost(COORD_LIMIT as int);
        let t1: i128 = product(y0, x1, lim, lim);
        let t2: i128 = product(x0, y1, lim, lim);
        StraightLine {
            a: (y1 - y0) as i64,
            b: (x0 - x1) as i64,
            c: (t1 - t2) as i64,
        }
    }

    /// The segment from the first defined point of `points` to the second
    /// defined one; `None` when fewer than two points are defined.
    pub fn get_any_valid_segment(points: &Vec<Option<Point>>) -> (res: Option<Self>)
        ensures
            res == first_two_defined(points@),
    {
        let n: usize = points.len();
        let mut i: usize = 0;
        while i < n && points[i].is_none()
            invariant
                i <= n,
                n == points@.len(),
                first_defined(points@, 0) == first_defined(points@, i as int),
            decreases n - i,
        {
            i = i + 1;
        }
        if i >= n {
            return None;
        }
        let mut j: usize = i + 1;
        while j < n && points[j].is_none()
            invariant
                i < j <= n,
                n == points@.len(),
                first_defined(points@, i + 1) == first_defined(points@, j as int),
            decreases n - j,
        {
            j = j + 1;
        }
        if j >= n {
            return None;
        }
        match (points[i], points[j]) {
            (Some(p), Some(q)) => Some(Segment(p, q)),
            _ => None,
        }
    }
}

} // verus!
