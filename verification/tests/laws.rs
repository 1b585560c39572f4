use apollonius::models::circle::Circle;
use apollonius::models::homothetic_set::HomotheticSet;
use apollonius::models::inverse_pole_set::InversePoleSet;
use apollonius::models::point::Point;
use apollonius::models::segment::Segment;
use apollonius::models::straightline::StraightLine;
use apollonius::services::calc::find_intersection;
use apollonius::services::calc::find_projection;
use apollonius::services::calc::get_circle_3_points;
use apollonius::services::calc::get_circle_straight_line_intersection;
use apollonius::services::calc::get_external_homothetic_center;
use apollonius::services::calc::get_internal_homothetic_center;
use apollonius::services::calc::get_inverse_pole;
use apollonius::services::calc::get_radical_axis;

fn pt(x: i64, y: i64) -> Point {
    Point { x, y }
}

fn circle(x: i64, y: i64, r: i64) -> Circle {
    Circle { center: pt(x, y), radius: r }
}

/// Twice the area of the triangle of three points, with its sign.
fn cross(a: Point, b: Point, c: Point) -> i64 {
    (b.x - a.x) * (c.y - a.y) - (b.y - a.y) * (c.x - a.x)
}

fn value(l: StraightLine, p: Point) -> i64 {
    l.a * p.x + l.b * p.y + l.c
}

fn power(c: Circle, p: Point) -> i64 {
    let dx = p.x - c.center.x;
    let dy = p.y - c.center.y;
    dx * dx + dy * dy - c.radius * c.radius
}

/// Radii 1, 2 and 3 with centres on multiples of 60: every homothetic
/// centre is a lattice point, so that nothing is rounded.
const EXACT: [(i64, i64, i64); 3] = [(0, 0, 1), (60, 0, 2), (0, 120, 3)];

fn exact_circles() -> [Circle; 3] {
    EXACT.map(|(x, y, r)| circle(x, y, r))
}

#[test]
fn external_centres_lie_on_one_line() {
    let [c1, c2, c3] = exact_circles();
    let e12 = get_external_homothetic_center(c1, c2).unwrap();
    let e23 = get_external_homothetic_center(c2, c3).unwrap();
    let e31 = get_external_homothetic_center(c3, c1).unwrap();
    assert_eq!((e12, e23, e31), (pt(-60, 0), pt(180, -240), pt(0, -60)));
    assert_eq!(cross(e12, e23, e31), 0);
}

#[test]
fn external_centre_lies_on_one_line_with_two_internal_centres() {
    let [c1, c2, c3] = exact_circles();
    let e12 = get_external_homothetic_center(c1, c2).unwrap();
    let e23 = get_external_homothetic_center(c2, c3).unwrap();
    let e31 = get_external_homothetic_center(c3, c1).unwrap();
    let i12 = get_internal_homothetic_center(c1, c2).unwrap();
    let i23 = get_internal_homothetic_center(c2, c3).unwrap();
    let i31 = get_internal_homothetic_center(c3, c1).unwrap();
    assert_eq!((i12, i23, i31), (pt(20, 0), pt(36, 48), pt(0, 30)));
    assert_eq!(cross(e12, i23, i31), 0);
    assert_eq!(cross(i12, e23, i31), 0);
    assert_eq!(cross(i12, i23, e31), 0);
    // three internal centres do not
    assert_ne!(cross(i12, i23, i31), 0);
}

#[test]
fn axes_of_similitude_carry_three_centres_each() {
    let set = HomotheticSet::new(&exact_circles());
    let [p12, p23, p31] = set.pairs;
    let triples = [
        [p12.ex, p23.ex, p31.ex],
        [p12.ex, p23.ir, p31.ir],
        [p12.ir, p23.ex, p31.ir],
        [p12.ir, p23.ir, p31.ex],
    ];
    for (line, triple) in set.lines.iter().zip(triples) {
        let Segment(a, b) = line.unwrap();
        assert_eq!(Some(a), triple[0]);
        assert_eq!(Some(b), triple[1]);
        assert_eq!(cross(a, b, triple[2].unwrap()), 0);
    }
}

#[test]
fn homothetic_centres_divide_in_the_ratio_of_the_radii() {
    let [c1, c2, _] = exact_circles();
    let e = get_external_homothetic_center(c1, c2).unwrap();
    let i = get_internal_homothetic_center(c1, c2).unwrap();
    // r2 (H - O1) = r1 (H - O2) from outside, with the opposite sign from inside
    assert_eq!(c2.radius * (e.x - c1.center.x), c1.radius * (e.x - c2.center.x));
    assert_eq!(c2.radius * (e.y - c1.center.y), c1.radius * (e.y - c2.center.y));
    assert_eq!(c2.radius * (i.x - c1.center.x), -c1.radius * (i.x - c2.center.x));
    assert_eq!(c2.radius * (i.y - c1.center.y), -c1.radius * (i.y - c2.center.y));
}

/// Three circles whose radical centre is the lattice point (6, 6).
fn circles_about_6_6() -> [Circle; 3] {
    [circle(0, 0, 6), circle(10, 0, 4), circle(0, 10, 4)]
}

#[test]
fn radical_axes_pass_through_one_point() {
    let [c1, c2, c3] = circles_about_6_6();
    let l12 = get_radical_axis(c1, c2);
    let l23 = get_radical_axis(c2, c3);
    let l31 = get_radical_axis(c3, c1);
    let center = find_intersection(&l12, &l23).unwrap();
    assert_eq!(center, pt(6, 6));
    assert_eq!(value(l12, center), 0);
    assert_eq!(value(l23, center), 0);
    assert_eq!(value(l31, center), 0);
    assert_eq!(find_intersection(&l23, &l31), Some(center));
    assert_eq!(find_intersection(&l31, &l12), Some(center));
    // the three axes add up to nothing
    assert_eq!((l12.a + l23.a + l31.a, l12.b + l23.b + l31.b, l12.c + l23.c + l31.c), (0, 0, 0));
}

#[test]
fn radical_centre_has_one_power() {
    let [c1, c2, c3] = circles_about_6_6();
    let l12 = get_radical_axis(c1, c2);
    let center = find_intersection(&l12, &get_radical_axis(c2, c3)).unwrap();
    assert_eq!(power(c1, center), 36);
    assert_eq!(power(c2, center), 36);
    assert_eq!(power(c3, center), 36);
    // the value of a radical axis is the difference of the powers
    for p in [pt(0, 0), pt(3, -7), pt(-100, 250)] {
        assert_eq!(value(l12, p), power(c1, p) - power(c2, p));
    }
}

#[test]
fn radical_centre_in_every_order() {
    let c = [circle(3, -8, 20), circle(41, 5, 28), circle(-7, 40, 4)];
    let center = |a: Circle, b: Circle, d: Circle| {
        find_intersection(&get_radical_axis(a, b), &get_radical_axis(b, d))
    };
    let first = center(c[0], c[1], c[2]);
    assert!(first.is_some());
    assert_eq!(center(c[0], c[2], c[1]), first);
    assert_eq!(center(c[1], c[0], c[2]), first);
    assert_eq!(center(c[1], c[2], c[0]), first);
    assert_eq!(center(c[2], c[0], c[1]), first);
    assert_eq!(center(c[2], c[1], c[0]), first);
}

#[test]
fn pole_lies_across_its_polar() {
    // the pole lies on the perpendicular from the centre to the line, and
    // the distances of pole and line from the centre multiply to r^2
    let c = circle(3, 4, 10);
    let axis = Segment(pt(6, 8), pt(10, 5));
    let pole = get_inverse_pole(&axis, c).unwrap();
    let foot = find_projection(&axis.as_straight_line(), c.center).unwrap();
    assert_eq!(foot, pt(6, 8));
    assert_eq!(cross(c.center, foot, pole), 0);
    let to_foot = (foot.x - c.center.x, foot.y - c.center.y);
    let to_pole = (pole.x - c.center.x, pole.y - c.center.y);
    assert_eq!(to_foot.0 * to_pole.0 + to_foot.1 * to_pole.1, c.radius * c.radius);
}

#[test]
fn chord_ends_lie_on_line_and_circle() {
    let c = circle(10, 20, 25);
    let l = StraightLine { a: 4, b: -3, c: 20 };
    let Segment(p, q) = get_circle_straight_line_intersection(&Some(l), &c).unwrap();
    for end in [p, q] {
        assert_eq!(value(l, end), 0);
        assert_eq!(power(c, end), 0);
    }
    assert_ne!(p, q);
}

#[test]
fn circle_centre_is_as_far_from_each_point() {
    let (a, b, c) = (pt(13, 0), pt(-5, 12), pt(0, -13));
    let found = get_circle_3_points(a, b, c).unwrap();
    for p in [a, b, c] {
        assert_eq!(power(found, p), 0);
    }
}

#[test]
fn poles_of_an_axis_in_a_set() {
    let circles = exact_circles();
    let set = HomotheticSet::new(&circles);
    let poles = InversePoleSet::new(set.lines[0], &circles, pt(1000, 1000)).unwrap();
    for (pair, c) in poles.point_segment_pairs.iter().zip(circles) {
        let axis = set.lines[0].unwrap();
        assert_eq!(pair.point, get_inverse_pole(&axis, c));
    }
}
