//! The homothetic centres of three circles, pair by pair, and the four axes
//! of similitude on which they lie three by three.

use crate::exact::external_center;
use crate::exact::internal_center;
use crate::models::circle::Circle;
use crate::models::point::moved_point;
use crate::models::point::Point;
use crate::models::segment::first_defined;
use crate::models::segment::first_two_defined;
use crate::models::segment::Segment;
use vstd::prelude::*;

verus! {

/// The two homothetic centres of a pair of circles.
#[derive(Clone, Copy, Debug, PartialEq, Eq)]
pub struct HomotheticPair {
    /// The external centre; there is none when the radii are equal.
    pub ex: Option<Point>,
    /// The internal centre.
    pub ir: Option<Point>,
}

/// The homothetic centres of the pairs (1, 2), (2, 3) and (3, 1) of three
/// circles, and the four axes of similitude.
#[derive(Clone, Copy, Debug, PartialEq, Eq)]
pub struct HomotheticSet {
    pub pairs: [HomotheticPair; 3],
    pub lines: [Option<Segment>; 4],
}

/// The homothetic centres of two circles, rounded to the lattice.
pub open spec fn pair_of(c1: Circle, c2: Circle) -> HomotheticPair {
    HomotheticPair {
        ex: external_center(c1@, c2@).round(),
        ir: internal_center(c1@, c2@).round(),
    }
}

/// The axis through three centres that lie on one line: the segment from
/// the first defined centre to the second defined one.
pub open spec fn axis_of(a: Option<Point>, b: Option<Point>, c: Option<Point>) -> Option<Segment> {
    match (a, b, c) {
        (Some(p), Some(q), _) => Some(Segment(p, q)),
        (Some(p), None, Some(q)) => Some(Segment(p, q)),
        (None, Some(p), Some(q)) => Some(Segment(p, q)),
        _ => None,
    }
}

/// The four axes of similitude, from the centres of the pairs (1, 2),
/// (2, 3) and (3, 1): the axis of the three external centres, then the
/// three axes of one external centre and the two internal centres of the
/// other pairs.
pub open spec fn axes_of(p12: HomotheticPair, p23: HomotheticPair, p31: HomotheticPair) -> Seq<
    Option<Segment>,
> {
    seq![
        axis_of(p12.ex, p23.ex, p31.ex),
        axis_of(p12.ex, p23.ir, p31.ir),
        axis_of(p12.ir, p23.ex, p31.ir),
        axis_of(p12.ir, p23.ir, p31.ex),
    ]
}

/// On three points, the first two defined ones are found by `axis_of`.
pub proof fn lemma_axis_of(a: Option<Point>, b: Option<Point>, c: Option<Point>)
    ensures
        first_two_defined(seq![a, b, c]) == axis_of(a, b, c),
{
    let s = seq![a, b, c];
    reveal_with_fuel(first_defined, 5);
    assert(s.len() == 3);
    assert(s[0] == a && s[1] == b && s[2] == c);
}

impl HomotheticPair {
    /// The two homothetic centres of `circle_1` and `circle_2`.
    pub fn new(circle_1: Circle, circle_2: Circle) -> (pair: Self)
        requires
            circle_1.wf(),
            circle_2.wf(),
        ensures
            pair == pair_of(circle_1, circle_2),
            pair.wf(),
    {
        Self {
            ex: HomotheticSet::get_external_homothetic_center(circle_1, circle_2),
            ir: HomotheticSet::get_internal_homothetic_center(circle_1, circle_2),
        }
    }

    /// The centres that are defined lie on the lattice.
    pub open spec fn wf(&self) -> bool {
        &&& self.ex matches Some(p) ==> p.wf()
        &&& self.ir matches Some(p) ==> p.wf()
    }

    /// The two centres moved by the vector `(dx, dy)`.
    pub open spec fn moved(self, dx: int, dy: int) -> HomotheticPair {
        HomotheticPair { ex: moved_point(self.ex, dx, dy), ir: moved_point(self.ir, dx, dy) }
    }
}

/// The axis through three centres, as `axis_of` defines it.
fn axis(a: Option<Point>, b: Option<Point>, c: Option<Point>) -> (res: Option<Segment>)
    ensures
        res == axis_of(a, b, c),
{
    proof {
        lemma_axis_of(a, b, c);
    }
    let points: Vec<Option<Point>> = vec![a, b, c];
    assert(points@ =~= seq![a, b, c]);
    Segment::get_any_valid_segment(&points)
}

impl HomotheticSet {
    /// The homothetic centres and the axes of similitude of the first three
    /// circles of `circles`.
    pub fn new(circles: &[Circle]) -> (set: Self)
        requires
            circles@.len() >= 3,
            circles@[0].wf(),
            circles@[1].wf(),
            circles@[2].wf(),
        ensures
            set.pairs@ == seq![
                pair_of(circles@[0], circles@[1]),
                pair_of(circles@[1], circles@[2]),
                pair_of(circles@[2], circles@[0]),
            ],
            set.lines@ == axes_of(set.pairs@[0], set.pairs@[1], set.pairs@[2]),
            set.wf(),
    {
        let p12: HomotheticPair = HomotheticPair::new(circles[0], circles[1]);
        let p23: HomotheticPair = HomotheticPair::new(circles[1], circles[2]);
        let p31: HomotheticPair = HomotheticPair::new(circles[2], circles[0]);
        let pairs: [HomotheticPair; 3] = [p12, p23, p31];
        let lines: [Option<Segment>; 4] = [
            axis(p12.ex, p23.ex, p31.ex),
            axis(p12.ex, p23.ir, p31.ir),
            axis(p12.ir, p23.ex, p31.ir),
            axis(p12.ir, p23.ir, p31.ex),
        ];
        assert(pairs@ =~= seq![p12, p23, p31]);
        assert(lines@ =~= axes_of(p12, p23, p31));
        Self { pairs, lines }
    }

    /// Every centre and every axis lies on the lattice.
    pub open spec fn wf(&self) -> bool {
        &&& forall|i: int| 0 <= i < 3 ==> (#[trigger] self.pairs@[i]).wf()
        &&& forall|i: int|
            0 <= i < 4 ==> ((#[trigger] self.lines@[i]) matches Some(s) ==> s.wf())
    }

    /// The external homothetic centre of two circles, rounded to the
    /// lattice; `None` when the radii are equal or the centre leaves the
    /// lattice.
    pub fn get_external_homothetic_center(c1: Circle, c2: Circle) -> (res: Option<Point>)
        requires
            c1.wf(),
            c2.wf(),
        ensures
            res == external_center(c1@, c2@).round(),
            c1.radius == c2.radius ==> res is None,
            res matches Some(p) ==> p.wf(),
    {
        crate::services::calc::get_external_homothetic_center(c1, c2)
    }

    /// The internal homothetic centre of two circles, rounded to the
    /// lattice. It always exists.
    pub fn get_internal_homothetic_center(c1: Circle, c2: Circle) -> (res: Option<Point>)
        requires
            c1.wf(),
            c2.wf(),
        ensures
            res == internal_center(c1@, c2@).round(),
            res is Some,
            res matches Some(p) ==> p.wf(),
    {
        crate::services::calc::get_internal_homothetic_center(c1, c2)
    }
}

} // verus!
