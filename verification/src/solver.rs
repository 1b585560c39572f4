//! The whole construction: from three circles to the eight circles of
//! Apollonius, with everything that is built on the way.

use crate::exact::radical_center;
use crate::models::apollonius_pair::apollonius_pair;
use crate::models::apollonius_pair::ApolloniusPair;
use crate::models::apollonius_pair::view_of;
use crate::models::circle::Circle;
use crate::models::homothetic_set::axes_of;
use crate::models::homothetic_set::HomotheticPair;
use crate::models::homothetic_set::HomotheticSet;
use crate::models::homothetic_set::pair_of;
use crate::models::inverse_pole_set::center_set;
use crate::models::inverse_pole_set::InversePoleSet;
use crate::models::inverse_pole_set::moved_pairs;
use crate::models::inverse_pole_set::PointSegmentPair;
use crate::models::inverse_pole_set::pole_set;
use crate::models::point::moved_point;
use crate::models::point::Point;
use crate::models::segment::moved_segment;
use crate::models::segment::Segment;
use crate::models::straightline::StraightLine;
use crate::services::calc::find_intersection;
use crate::services::calc::get_radical_axis;
use vstd::multiset::Multiset;
use vstd::prelude::*;

verus! {

/// How the construction treats its special cases.
#[derive(Clone, Copy, Debug, PartialEq, Eq, Structural)]
pub struct SolveOptions {
    /// With three equal radii the axis of the external centres lies at
    /// infinity. When this is set, the centres of the circles then take the
    /// place of its poles; otherwise that axis yields no circles.
    pub promote_equal_radii_case: bool,
}

/// Everything that the construction builds.
#[derive(Clone, Debug, PartialEq, Eq)]
pub struct Solution {
    /// The given circles in the order of their radii, circles of equal
    /// radius in the order of their centres.
    pub circles: [Circle; 3],
    /// The homothetic centres of the sorted circles and the four axes.
    pub homothetic_set: HomotheticSet,
    /// The radical centre of the given circles.
    pub radical_center: Option<Point>,
    /// The poles and chords of each axis.
    pub inverse_pole_sets: [Option<InversePoleSet>; 4],
    /// The two circles of Apollonius of each axis.
    pub apollonius_pairs: [ApolloniusPair; 4],
}

/// What a [`Solution`] holds, as mathematical values.
pub struct SolutionView {
    pub circles: Seq<Circle>,
    pub pairs: Seq<HomotheticPair>,
    pub lines: Seq<Option<Segment>>,
    pub radical_center: Option<Point>,
    pub inverse_pole_sets: Seq<Option<Seq<PointSegmentPair>>>,
    pub apollonius_pairs: Seq<ApolloniusPair>,
}

impl SolutionView {
    /// Everything moved by the vector `(dx, dy)`.
    pub open spec fn moved(self, dx: int, dy: int) -> SolutionView {
        SolutionView {
            circles: Seq::new(self.circles.len(), |i: int| self.circles[i].moved(dx, dy)),
            pairs: Seq::new(self.pairs.len(), |i: int| self.pairs[i].moved(dx, dy)),
            lines: Seq::new(self.lines.len(), |i: int| moved_segment(self.lines[i], dx, dy)),
            radical_center: moved_point(self.radical_center, dx, dy),
            inverse_pole_sets: Seq::new(
                self.inverse_pole_sets.len(),
                |i: int| moved_pairs(self.inverse_pole_sets[i], dx, dy),
            ),
            apollonius_pairs: Seq::new(
                self.apollonius_pairs.len(),
                |i: int| self.apollonius_pairs[i].moved(dx, dy),
            ),
        }
    }

    /// The same centres, chords and circles are present in both: what one
    /// of the two lacks, the other lacks too.
    pub open spec fn same_presence(self, other: SolutionView) -> bool {
        &&& forall|i: int|
            0 <= i < 3 ==> ((#[trigger] self.pairs[i]).ex is Some <==> other.pairs[i].ex is Some)
        &&& self.radical_center is Some <==> other.radical_center is Some
        &&& forall|i: int|
            0 <= i < 4 ==> ((#[trigger] self.inverse_pole_sets[i]) is Some
                <==> other.inverse_pole_sets[i] is Some)
        &&& forall|i: int, j: int|
            0 <= i < 4 && 0 <= j < 3 && self.inverse_pole_sets[i] is Some
                && other.inverse_pole_sets[i] is Some ==> ((
            #[trigger] self.inverse_pole_sets[i].unwrap()[j]).segment is Some
                <==> other.inverse_pole_sets[i].unwrap()[j].segment is Some)
        &&& forall|i: int|
            0 <= i < 4 ==> ((#[trigger] self.apollonius_pairs[i]).circle_1 is Some
                <==> other.apollonius_pairs[i].circle_1 is Some)
        &&& forall|i: int|
            0 <= i < 4 ==> ((#[trigger] self.apollonius_pairs[i]).circle_2 is Some
                <==> other.apollonius_pairs[i].circle_2 is Some)
    }
}

impl Solution {
    /// Everything that the solution holds lies on the lattice.
    pub open spec fn wf(&self) -> bool {
        &&& forall|i: int| 0 <= i < 3 ==> (#[trigger] self.circles@[i]).wf()
        &&& self.homothetic_set.wf()
        &&& self.radical_center matches Some(p) ==> p.wf()
        &&& forall|i: int|
            0 <= i < 4 ==> ((#[trigger] self.inverse_pole_sets@[i]) matches Some(set)
                ==> set@.len() == 3 && set.wf())
        &&& forall|i: int| 0 <= i < 4 ==> (#[trigger] self.apollonius_pairs@[i]).wf()
    }
}

impl View for Solution {
    type V = SolutionView;

    open spec fn view(&self) -> SolutionView {
        SolutionView {
            circles: self.circles@,
            pairs: self.homothetic_set.pairs@,
            lines: self.homothetic_set.lines@,
            radical_center: self.radical_center,
            inverse_pole_sets: Seq::new(4, |i: int| view_of(self.inverse_pole_sets@[i])),
            apollonius_pairs: self.apollonius_pairs@,
        }
    }
}

/// The order in which the circles are taken: by radius, circles of equal
/// radius by the `x` of their centres, and those of equal `x` by the `y`.
/// Of two different circles exactly one precedes the other.
pub open spec fn precedes(a: Circle, b: Circle) -> bool {
    ||| a.radius < b.radius
    ||| a.radius == b.radius && a.center.x < b.center.x
    ||| a.radius == b.radius && a.center.x == b.center.x && a.center.y <= b.center.y
}

/// The three circles in the order of `precedes`: by radius, and circles of
/// equal radius by their centres.
pub open spec fn sorted_by_radius(c1: Circle, c2: Circle, c3: Circle) -> Seq<Circle> {
    if precedes(c1, c2) {
        if precedes(c2, c3) {
            seq![c1, c2, c3]
        } else if precedes(c1, c3) {
            seq![c1, c3, c2]
        } else {
            seq![c3, c1, c2]
        }
    } else {
        if precedes(c1, c3) {
            seq![c2, c1, c3]
        } else if precedes(c2, c3) {
            seq![c2, c3, c1]
        } else {
            seq![c3, c2, c1]
        }
    }
}

/// The chord ends through which the first circle of an axis passes, one for
/// each of the sorted circles: 0 is the end of the chord on the side of the
/// pole, 1 the other end. The second circle of the axis passes through the
/// opposite ends. Two circles whose centres go with one external centre of
/// the axis take the same end, the third circle takes the other.
pub open spec fn picks(axis: int) -> (int, int, int) {
    if axis == 0 {
        (0, 0, 0)
    } else if axis == 1 {
        (0, 0, 1)
    } else if axis == 2 {
        (0, 1, 1)
    } else {
        (1, 0, 1)
    }
}

/// The poles and chords of the axis with the index `axis`.
pub open spec fn inverse_pole_set_of(
    axis: int,
    line: Option<Segment>,
    circles: Seq<Circle>,
    center: Option<Point>,
    special: bool,
) -> Option<Seq<PointSegmentPair>> {
    match center {
        None => None,
        Some(r) => if axis == 0 && special {
            Some(center_set(circles, r))
        } else {
            pole_set(line, circles, r)
        },
    }
}

/// What is built on three sorted circles and their radical centre. With
/// `special` set, the centres of the circles take the place of the poles
/// of the first axis.
pub open spec fn construction(circles: Seq<Circle>, center: Option<Point>, special: bool)
    -> SolutionView {
    let pairs = seq![
        pair_of(circles[0], circles[1]),
        pair_of(circles[1], circles[2]),
        pair_of(circles[2], circles[0]),
    ];
    let lines = axes_of(pairs[0], pairs[1], pairs[2]);
    let sets = Seq::new(4, |i: int| inverse_pole_set_of(i, lines[i], circles, center, special));
    SolutionView {
        circles,
        pairs,
        lines,
        radical_center: center,
        inverse_pole_sets: sets,
        apollonius_pairs: Seq::new(4, |i: int| apollonius_pair(sets[i], picks(i))),
    }
}

/// The construction on three circles: on the sorted circles and the
/// radical centre of the three. With three equal radii the first axis is
/// treated as `options` says.
pub open spec fn solution_of(c1: Circle, c2: Circle, c3: Circle, options: SolveOptions)
    -> SolutionView {
    construction(
        sorted_by_radius(c1, c2, c3),
        radical_center(c1@, c2@, c3@).round(),
        options.promote_equal_radii_case && c1.radius == c2.radius && c2.radius == c3.radius,
    )
}

/// `a` comes before `b` in the order of `precedes`.
fn comes_first(a: &Circle, b: &Circle) -> (res: bool)
    ensures
        res == precedes(*a, *b),
{
    a.radius < b.radius || (a.radius == b.radius && (a.center.x < b.center.x || (a.center.x
        == b.center.x && a.center.y <= b.center.y)))
}

/// The three circles in the order of their radii, circles of equal radius
/// in the order of their centres. The result does not depend on the order
/// in which the circles are given.
pub fn sort_by_radius(c1: Circle, c2: Circle, c3: Circle) -> (res: [Circle; 3])
    ensures
        res@ == sorted_by_radius(c1, c2, c3),
        precedes(res@[0], res@[1]) && precedes(res@[1], res@[2]),
        res@[0].radius <= res@[1].radius <= res@[2].radius,
        res@.to_multiset() == seq![c1, c2, c3].to_multiset(),
{
    let res: [Circle; 3] = if comes_first(&c1, &c2) {
        if comes_first(&c2, &c3) {
            [c1, c2, c3]
        } else if comes_first(&c1, &c3) {
            [c1, c3, c2]
        } else {
            [c3, c1, c2]
        }
    } else {
        if comes_first(&c1, &c3) {
            [c2, c1, c3]
        } else if comes_first(&c2, &c3) {
            [c2, c3, c1]
        } else {
            [c3, c2, c1]
        }
    };
    proof {
        assert(res@ =~= sorted_by_radius(c1, c2, c3));
        lemma_sorted_is_permutation(c1, c2, c3);
    }
    res
}

/// Sorting keeps the three circles.
pub proof fn lemma_sorted_is_permutation(c1: Circle, c2: Circle, c3: Circle)
    ensures
        sorted_by_radius(c1, c2, c3).to_multiset() == seq![c1, c2, c3].to_multiset(),
{
    let s = sorted_by_radius(c1, c2, c3);
    let t = seq![c1, c2, c3];
    lemma_three_multiset(c1, c2, c3);
    if precedes(c1, c2) {
        if precedes(c2, c3) {
        } else if precedes(c1, c3) {
            lemma_three_multiset(c1, c3, c2);
        } else {
            lemma_three_multiset(c3, c1, c2);
        }
    } else {
        if precedes(c1, c3) {
            lemma_three_multiset(c2, c1, c3);
        } else if precedes(c2, c3) {
            lemma_three_multiset(c2, c3, c1);
        } else {
            lemma_three_multiset(c3, c2, c1);
        }
    }
    assert(s.to_multiset() =~= t.to_multiset());
}

/// Sorting does not depend on the order in which the circles are given.
pub proof fn lemma_sorted_ignores_order(c1: Circle, c2: Circle, c3: Circle)
    ensures
        sorted_by_radius(c1, c3, c2) == sorted_by_radius(c1, c2, c3),
        sorted_by_radius(c2, c1, c3) == sorted_by_radius(c1, c2, c3),
        sorted_by_radius(c2, c3, c1) == sorted_by_radius(c1, c2, c3),
        sorted_by_radius(c3, c1, c2) == sorted_by_radius(c1, c2, c3),
        sorted_by_radius(c3, c2, c1) == sorted_by_radius(c1, c2, c3),
{
    let s = sorted_by_radius(c1, c2, c3);
    assert(sorted_by_radius(c1, c3, c2) =~= s);
    assert(sorted_by_radius(c2, c1, c3) =~= s);
    assert(sorted_by_radius(c2, c3, c1) =~= s);
    assert(sorted_by_radius(c3, c1, c2) =~= s);
    assert(sorted_by_radius(c3, c2, c1) =~= s);
}

/// The multiset of a sequence of three.
proof fn lemma_three_multiset(a: Circle, b: Circle, c: Circle)
    ensures
        seq![a, b, c].to_multiset() =~= Multiset::<Circle>::empty().insert(a).insert(b).insert(c),
{
    let s0 = Seq::<Circle>::empty();
    let s1 = s0.push(a);
    let s2 = s1.push(b);
    let s3 = s2.push(c);
    assert(seq![a, b, c] =~= s3);
    s0.to_multiset_ensures();
    s1.to_multiset_ensures();
    s2.to_multiset_ensures();
    assert(s0.to_multiset() =~= Multiset::<Circle>::empty()) by {
        s0.to_multiset_ensures();
        assert(s0.to_multiset().len() == 0);
    }
}

/// The chord ends of the first circle of the axis with the index `axis`.
pub fn selection(axis: usize) -> (ord: (i8, i8, i8))
    requires
        axis < 4,
    ensures
        (ord.0 as int, ord.1 as int, ord.2 as int) == picks(axis as int),
        0 <= ord.0 <= 1,
        0 <= ord.1 <= 1,
        0 <= ord.2 <= 1,
{
    if axis == 0 {
        (0, 0, 0)
    } else if axis == 1 {
        (0, 0, 1)
    } else if axis == 2 {
        (0, 1, 1)
    } else {
        (1, 0, 1)
    }
}

/// The poles and chords of one axis.
fn inverse_pole_set(
    axis: usize,
    line: Option<Segment>,
    circles: &[Circle; 3],
    center: Option<Point>,
    special: bool,
) -> (res: Option<InversePoleSet>)
    requires
        axis < 4,
        circles@[0].wf(),
        circles@[1].wf(),
        circles@[2].wf(),
        line matches Some(l) ==> l.wf(),
        center matches Some(r) ==> r.wf(),
    ensures
        view_of(res) == inverse_pole_set_of(axis as int, line, circles@, center, special),
        res matches Some(set) ==> set@.len() == 3 && set.wf(),
{
    match center {
        None => None,
        Some(r) => {
            if axis == 0 && special {
                InversePoleSet::new_special(circles.as_slice(), r)
            } else {
                InversePoleSet::new(line, circles.as_slice(), r)
            }
        },
    }
}

/// The poles and chords of the four axes.
fn inverse_pole_sets(
    lines: &[Option<Segment>; 4],
    circles: &[Circle; 3],
    center: Option<Point>,
    special: bool,
) -> (sets: [Option<InversePoleSet>; 4])
    requires
        circles@[0].wf(),
        circles@[1].wf(),
        circles@[2].wf(),
        forall|i: int| 0 <= i < 4 ==> ((#[trigger] lines@[i]) matches Some(s) ==> s.wf()),
        center matches Some(r) ==> r.wf(),
    ensures
        forall|i: int|
            0 <= i < 4 ==> view_of(#[trigger] sets@[i]) == inverse_pole_set_of(
                i,
                lines@[i],
                circles@,
                center,
                special,
            ),
        forall|i: int|
            0 <= i < 4 ==> ((#[trigger] sets@[i]) matches Some(set) ==> set@.len() == 3
                && set.wf()),
{
    let set_1: Option<InversePoleSet> = inverse_pole_set(0, lines[0], circles, center, special);
    let set_2: Option<InversePoleSet> = inverse_pole_set(1, lines[1], circles, center, special);
    let set_3: Option<InversePoleSet> = inverse_pole_set(2, lines[2], circles, center, special);
    let set_4: Option<InversePoleSet> = inverse_pole_set(3, lines[3], circles, center, special);
    [set_1, set_2, set_3, set_4]
}

/// The two circles of each of the four axes.
fn apollonius_pairs(sets: &[Option<InversePoleSet>; 4]) -> (pairs: [ApolloniusPair; 4])
    requires
        forall|i: int|
            0 <= i < 4 ==> ((#[trigger] sets@[i]) matches Some(set) ==> set@.len() == 3
                && set.wf()),
    ensures
        forall|i: int|
            0 <= i < 4 ==> #[trigger] pairs@[i] == apollonius_pair(view_of(sets@[i]), picks(i)),
        forall|i: int| 0 <= i < 4 ==> (#[trigger] pairs@[i]).wf(),
{
    [
        ApolloniusPair::get_apollonius_circles(&sets[0], selection(0)),
        ApolloniusPair::get_apollonius_circles(&sets[1], selection(1)),
        ApolloniusPair::get_apollonius_circles(&sets[2], selection(2)),
        ApolloniusPair::get_apollonius_circles(&sets[3], selection(3)),
    ]
}

/// Builds the circles of Apollonius of three circles. The circles are
/// sorted by radius; their homothetic centres give the four axes of
/// similitude; each axis has a pole with respect to each circle; the line
/// from a pole to the radical centre cuts its circle in the two points
/// where the two circles of that axis touch it.
pub fn solve(c1: Circle, c2: Circle, c3: Circle, options: SolveOptions) -> (sol: Solution)
    requires
        c1.wf(),
        c2.wf(),
        c3.wf(),
    ensures
        sol@ == solution_of(c1, c2, c3, options),
        sol.wf(),
{
    let circles: [Circle; 3] = sort_by_radius(c1, c2, c3);
    proof {
        lemma_sorted_wf(c1, c2, c3);
    }
    let homothetic_set: HomotheticSet = HomotheticSet::new(circles.as_slice());
    let axis_12: StraightLine = get_radical_axis(c1, c2);
    let axis_23: StraightLine = get_radical_axis(c2, c3);
    let center: Option<Point> = find_intersection(&axis_12, &axis_23);
    let special: bool = options.promote_equal_radii_case && c1.radius == c2.radius && c2.radius
        == c3.radius;
    let sets: [Option<InversePoleSet>; 4] = inverse_pole_sets(
        &homothetic_set.lines,
        &circles,
        center,
        special,
    );
    let pairs: [ApolloniusPair; 4] = apollonius_pairs(&sets);
    let sol: Solution = Solution {
        circles,
        homothetic_set,
        radical_center: center,
        inverse_pole_sets: sets,
        apollonius_pairs: pairs,
    };
    proof {
        let want = solution_of(c1, c2, c3, options);
        assert(sol@.pairs =~= want.pairs);
        assert(sol@.lines =~= want.lines);
        assert(sol@.inverse_pole_sets =~= want.inverse_pole_sets);
        assert(sol@.apollonius_pairs =~= want.apollonius_pairs);
    }
    sol
}

/// Sorting keeps the circles well formed.
pub proof fn lemma_sorted_wf(c1: Circle, c2: Circle, c3: Circle)
    requires
        c1.wf(),
        c2.wf(),
        c3.wf(),
    ensures
        forall|i: int| 0 <= i < 3 ==> (#[trigger] sorted_by_radius(c1, c2, c3)[i]).wf(),
{
}

/// The chord ends through which a circle of an axis passes: those of
/// `picks` for the first circle of the axis, the opposite ends for the
/// second.
pub open spec fn ends(axis: int, second: bool) -> (int, int, int) {
    let ord = picks(axis);
    if second {
        (1 - ord.0, 1 - ord.1, 1 - ord.2)
    } else {
        ord
    }
}

/// The eight circles take the eight choices of one chord end for each
/// given circle, each choice once.
pub proof fn lemma_ends_complete(a: int, b: int, c: int)
    requires
        0 <= a <= 1,
        0 <= b <= 1,
        0 <= c <= 1,
    ensures
        exists|axis: int, second: bool| 0 <= axis < 4 && #[trigger] ends(axis, second) == (a, b, c),
        forall|axis1: int, second1: bool, axis2: int, second2: bool|
            0 <= axis1 < 4 && 0 <= axis2 < 4 && #[trigger] ends(axis1, second1) == (a, b, c)
                && #[trigger] ends(axis2, second2) == (a, b, c) ==> axis1 == axis2 && second1
                == second2,
{
    let axis: int = if a == b && b == c {
        0
    } else if a == b {
        1
    } else if b == c {
        2
    } else {
        3
    };
    let second = picks(axis) != (a, b, c);
    assert(ends(axis, second) == (a, b, c));
}

/// The order in which the circles are given does not matter: every order
/// leads to the same solution.
pub proof fn lemma_solution_ignores_order(c1: Circle, c2: Circle, c3: Circle, options: SolveOptions)
    ensures
        solution_of(c1, c3, c2, options) == solution_of(c1, c2, c3, options),
        solution_of(c2, c1, c3, options) == solution_of(c1, c2, c3, options),
        solution_of(c2, c3, c1, options) == solution_of(c1, c2, c3, options),
        solution_of(c3, c1, c2, options) == solution_of(c1, c2, c3, options),
        solution_of(c3, c2, c1, options) == solution_of(c1, c2, c3, options),
{
    crate::laws::radical::lemma_radical_center_symmetric(c1@, c2@, c3@);
    lemma_sorted_ignores_order(c1, c2, c3);
}


/// Without a radical centre there are no poles, no chords and no circles.
pub proof fn lemma_nothing_without_radical_center(
    c1: Circle,
    c2: Circle,
    c3: Circle,
    options: SolveOptions,
)
    requires
        solution_of(c1, c2, c3, options).radical_center is None,
    ensures
        forall|i: int|
            0 <= i < 4 ==> (#[trigger] solution_of(c1, c2, c3, options).inverse_pole_sets[i])
                is None,
        forall|i: int|
            0 <= i < 4 ==> #[trigger] solution_of(c1, c2, c3, options).apollonius_pairs[i]
                == (ApolloniusPair { circle_1: None, circle_2: None }),
{
}

/// Three circles whose centres lie on one line have no radical centre.
pub proof fn lemma_centers_in_line(c1: Circle, c2: Circle, c3: Circle, options: SolveOptions)
    requires
        crate::exact::collinear(c1@.center(), c2@.center(), c3@.center()),
    ensures
        solution_of(c1, c2, c3, options).radical_center is None,
{
    crate::laws::radical::lemma_radical_center_finite(c1@, c2@, c3@);
}

/// With equal radii there is no external homothetic centre, and with three
/// equal radii no first axis.
pub proof fn lemma_equal_radii(c1: Circle, c2: Circle, c3: Circle, options: SolveOptions)
    requires
        c1.radius == c2.radius,
        c2.radius == c3.radius,
    ensures
        forall|i: int|
            0 <= i < 3 ==> (#[trigger] solution_of(c1, c2, c3, options).pairs[i]).ex is None,
        solution_of(c1, c2, c3, options).lines[0] is None,
        !options.promote_equal_radii_case ==> solution_of(
            c1,
            c2,
            c3,
            options,
        ).inverse_pole_sets[0] is None,
{
}

} // verus!
