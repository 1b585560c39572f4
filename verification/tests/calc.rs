use apollonius::models::circle::Circle;
use apollonius::models::point::Point;
use apollonius::models::segment::Segment;
use apollonius::models::straightline::StraightLine;
use apollonius::services::calc::calculate_distance;
use apollonius::services::calc::check_if_flat_angle;
use apollonius::services::calc::find_intersection;
use apollonius::services::calc::find_projection;
use apollonius::services::calc::get_circle_3_points;
use apollonius::services::calc::get_circle_straight_line_intersection;
use apollonius::services::calc::get_circles_intersection;
use apollonius::services::calc::get_circles_intersection_as_straight_line;
use apollonius::services::calc::get_external_homothetic_center;
use apollonius::services::calc::get_internal_homothetic_center;
use apollonius::services::calc::get_inverse_pole;
use apollonius::services::calc::get_radical_axis;
use apollonius::services::calc::internal_division_ratio;
use apollonius::services::calc::is_segment_intersecting_circle;
use apollonius::services::calc::mid_point;
use apollonius::services::calc::orthoganalize;

fn pt(x: i64, y: i64) -> Point {
    Point { x, y }
}

fn circle(x: i64, y: i64, r: i64) -> Circle {
    Circle { center: pt(x, y), radius: r }
}

fn line(a: i64, b: i64, c: i64) -> StraightLine {
    StraightLine { a, b, c }
}

const LIMIT: i64 = 268_435_456;

#[test]
fn external_center_follows_the_formula() {
    // (r2 O1 - r1 O2) / (r2 - r1) = (3 (0, 0) - 1 (4, 0)) / 2
    assert_eq!(get_external_homothetic_center(circle(0, 0, 1), circle(4, 0, 3)), Some(pt(-2, 0)));
    // (2 (10, 20) - 5 (40, -10)) / (2 - 5) = (-180, 90) / -3
    assert_eq!(
        get_external_homothetic_center(circle(10, 20, 5), circle(40, -10, 2)),
        Some(pt(60, -30))
    );
}

#[test]
fn external_center_is_rounded() {
    // (3 (0, 0) - 1 (5, 1)) / 2 = (-2.5, -0.5)
    assert_eq!(get_external_homothetic_center(circle(0, 0, 1), circle(5, 1, 3)), Some(pt(-2, 0)));
}

#[test]
fn external_center_is_absent_for_equal_radii() {
    assert_eq!(get_external_homothetic_center(circle(0, 0, 7), circle(40, 3, 7)), None);
}

#[test]
fn external_center_is_absent_outside_the_lattice() {
    let far = get_external_homothetic_center(circle(0, 0, LIMIT - 1), circle(LIMIT, 0, LIMIT));
    assert_eq!(far, None);
}

#[test]
fn internal_center_follows_the_formula() {
    // (r2 O1 + r1 O2) / (r2 + r1) = (3 (0, 0) + 1 (4, 0)) / 4
    assert_eq!(get_internal_homothetic_center(circle(0, 0, 1), circle(4, 0, 3)), Some(pt(1, 0)));
    assert_eq!(
        get_internal_homothetic_center(circle(10, 20, 5), circle(40, -10, 5)),
        Some(pt(25, 5))
    );
}

#[test]
fn internal_center_exists_at_the_rim_of_the_lattice() {
    let c1 = circle(LIMIT, -LIMIT, LIMIT);
    let c2 = circle(LIMIT, LIMIT, 1);
    assert_eq!(get_internal_homothetic_center(c1, c2), Some(pt(LIMIT, LIMIT - 2)));
}

#[test]
fn radical_axis_follows_the_formula() {
    // a = 2 (x2 - x1), b = 2 (y2 - y1), c = (|O1|^2 - r1^2) - (|O2|^2 - r2^2)
    let l = get_radical_axis(circle(1, 2, 3), circle(5, -1, 2));
    assert_eq!(l, line(8, -6, (1 + 4 - 9) - (25 + 1 - 4)));
}

#[test]
fn radical_axis_of_tangent_circles_passes_through_the_point_of_contact() {
    let l = get_radical_axis(circle(0, 0, 1), circle(2, 0, 1));
    assert_eq!(l, line(4, 0, -4));
    assert_eq!(l.a * 1 + l.b * 0 + l.c, 0);
}

#[test]
fn circles_line_is_the_reversed_radical_axis() {
    let c1 = circle(1, 2, 3);
    let c2 = circle(5, -1, 2);
    assert_eq!(get_circles_intersection_as_straight_line(&c1, &c2), get_radical_axis(c2, c1));
    assert_eq!(get_circles_intersection_as_straight_line(&c1, &c2), line(-8, 6, 26));
}

#[test]
fn orthogonal_line_passes_through_the_point() {
    let l = line(3, 4, -5);
    let p = pt(7, -2);
    let o = orthoganalize(&l, p);
    assert_eq!(o, line(4, -3, -4 * 7 + 3 * -2));
    assert_eq!(o.a * p.x + o.b * p.y + o.c, 0);
    assert_eq!(o.a * l.a + o.b * l.b, 0);
}

#[test]
fn intersection_by_cramers_rule() {
    // x + y = 10 and x - y = 2
    assert_eq!(find_intersection(&line(1, 1, -10), &line(1, -1, -2)), Some(pt(6, 4)));
    // the same lines with other factors
    assert_eq!(find_intersection(&line(-3, -3, 30), &line(5, -5, -10)), Some(pt(6, 4)));
}

#[test]
fn intersection_is_rounded() {
    // 2 x = 5 and 3 y = 4
    assert_eq!(find_intersection(&line(2, 0, -5), &line(0, 3, -4)), Some(pt(3, 1)));
}

#[test]
fn intersection_of_parallel_lines_is_absent() {
    assert_eq!(find_intersection(&line(1, 2, 3), &line(2, 4, -9)), None);
    assert_eq!(find_intersection(&line(1, 2, 3), &line(1, 2, 3)), None);
    assert_eq!(find_intersection(&line(0, 0, 0), &line(1, 2, 3)), None);
}

#[test]
fn intersection_outside_the_lattice_is_absent() {
    // x = 2^28 + 1 and y = 0
    assert_eq!(find_intersection(&line(1, 0, -(LIMIT + 1)), &line(0, 1, 0)), None);
    assert_eq!(find_intersection(&line(1, 0, -LIMIT), &line(0, 1, 0)), Some(pt(LIMIT, 0)));
}

#[test]
fn projection_is_the_foot_of_the_perpendicular() {
    // onto the line y = x
    assert_eq!(find_projection(&line(1, -1, 0), pt(4, 0)), Some(pt(2, 2)));
    // onto the line x = 3
    assert_eq!(find_projection(&line(1, 0, -3), pt(10, 7)), Some(pt(3, 7)));
    // a point of the line is its own foot
    assert_eq!(find_projection(&line(3, 4, -25), pt(3, 4)), Some(pt(3, 4)));
}

#[test]
fn projection_on_an_improper_line_is_absent() {
    assert_eq!(find_projection(&line(0, 0, 5), pt(1, 1)), None);
}

#[test]
fn mid_point_is_rounded_up_at_a_half() {
    assert_eq!(mid_point(&Segment(pt(0, 0), pt(4, 6))), pt(2, 3));
    assert_eq!(mid_point(&Segment(pt(0, 0), pt(5, 7))), pt(3, 4));
    assert_eq!(mid_point(&Segment(pt(0, 0), pt(-5, -7))), pt(-2, -3));
    assert_eq!(mid_point(&Segment(pt(LIMIT, -LIMIT), pt(LIMIT, -LIMIT))), pt(LIMIT, -LIMIT));
}

#[test]
fn division_point_follows_the_formula() {
    // (t P1 + s P2) / (s + t) with s : t = 1 : 3
    assert_eq!(internal_division_ratio(pt(0, 0), pt(8, 4), 1, 3), Some(pt(2, 1)));
    assert_eq!(internal_division_ratio(pt(0, 0), pt(8, 4), 3, 1), Some(pt(6, 3)));
    assert_eq!(internal_division_ratio(pt(0, 0), pt(8, 4), 1, 1), Some(pt(4, 2)));
}

#[test]
fn division_point_with_a_ratio_of_zero_is_an_end_point() {
    assert_eq!(internal_division_ratio(pt(1, 2), pt(8, 4), 0, 3), Some(pt(1, 2)));
    assert_eq!(internal_division_ratio(pt(1, 2), pt(8, 4), -2, 3), Some(pt(1, 2)));
    assert_eq!(internal_division_ratio(pt(1, 2), pt(8, 4), 3, 0), Some(pt(8, 4)));
    assert_eq!(internal_division_ratio(pt(1, 2), pt(8, 4), 3, -1), Some(pt(8, 4)));
}

#[test]
fn division_point_is_absent_without_a_ratio_or_a_segment() {
    assert_eq!(internal_division_ratio(pt(1, 2), pt(8, 4), 0, 0), None);
    assert_eq!(internal_division_ratio(pt(1, 2), pt(8, 4), -1, -1), None);
    assert_eq!(internal_division_ratio(pt(1, 2), pt(1, 2), 1, 1), None);
}

#[test]
fn flat_angle_means_parallel_segments() {
    let s = Segment(pt(0, 0), pt(2, 1));
    assert!(check_if_flat_angle(&s, &Segment(pt(5, 5), pt(9, 7))));
    assert!(check_if_flat_angle(&s, &Segment(pt(9, 7), pt(5, 5))));
    assert!(check_if_flat_angle(&s, &s));
    assert!(!check_if_flat_angle(&s, &Segment(pt(0, 0), pt(2, 2))));
    assert!(!check_if_flat_angle(&s, &Segment(pt(0, 0), pt(-1, 2))));
    assert!(!check_if_flat_angle(&s, &Segment(pt(0, 0), pt(200_000_000, 100_000_001))));
}

#[test]
fn flat_angle_with_a_segment_without_length() {
    let s = Segment(pt(0, 0), pt(2, 1));
    assert!(check_if_flat_angle(&s, &Segment(pt(3, 3), pt(3, 3))));
}

#[test]
fn segment_meets_circle_up_to_tangency() {
    let c = circle(0, 0, 5);
    assert!(is_segment_intersecting_circle(&Segment(pt(-9, 3), pt(9, 3)), &c));
    assert!(is_segment_intersecting_circle(&Segment(pt(-9, 5), pt(9, 5)), &c));
    assert!(!is_segment_intersecting_circle(&Segment(pt(-9, 6), pt(9, 6)), &c));
    // the line counts, not the segment
    assert!(is_segment_intersecting_circle(&Segment(pt(100, 3), pt(200, 3)), &c));
    // 3 x + 4 y = 25 touches, 3 x + 4 y = 26 misses
    assert!(is_segment_intersecting_circle(&Segment(pt(3, 4), pt(7, 1)), &c));
    assert!(!is_segment_intersecting_circle(&Segment(pt(6, 2), pt(10, -1)), &c));
}

#[test]
fn segment_without_length_meets_no_circle() {
    assert!(!is_segment_intersecting_circle(&Segment(pt(1, 1), pt(1, 1)), &circle(0, 0, 5)));
}

#[test]
fn distance_is_rounded_down() {
    // |3 x + 4 y - 25| / 5
    assert_eq!(calculate_distance(&line(3, 4, -25), pt(0, 0)), Some(5));
    assert_eq!(calculate_distance(&line(3, 4, -25), pt(3, 4)), Some(0));
    assert_eq!(calculate_distance(&line(3, 4, -24), pt(0, 0)), Some(4));
    assert_eq!(calculate_distance(&line(3, 4, 26), pt(0, 0)), Some(5));
    // |x - y| / sqrt 2 at (10, 0) is 7.07
    assert_eq!(calculate_distance(&line(1, -1, 0), pt(10, 0)), Some(7));
    assert_eq!(calculate_distance(&line(0, 0, 3), pt(10, 0)), None);
}

#[test]
fn chord_runs_against_the_normal_turned() {
    // the line y = 0 with the normal (0, 1): first end at +(b, -a) = (1, 0)
    let c = circle(0, 0, 5);
    let s = get_circle_straight_line_intersection(&Some(line(0, 1, 0)), &c);
    assert_eq!(s, Some(Segment(pt(5, 0), pt(-5, 0))));
    let s = get_circle_straight_line_intersection(&Some(line(0, -1, 0)), &c);
    assert_eq!(s, Some(Segment(pt(-5, 0), pt(5, 0))));
}

#[test]
fn chord_of_a_line_off_the_centre() {
    // y = 3 cuts x^2 + y^2 = 25 at x = 4 and x = -4
    let c = circle(0, 0, 5);
    let s = get_circle_straight_line_intersection(&Some(line(0, 2, -6)), &c);
    assert_eq!(s, Some(Segment(pt(4, 3), pt(-4, 3))));
    // 3 x + 4 y = 0 through the centre of a circle at (10, 20)
    let c = circle(10, 20, 25);
    let s = get_circle_straight_line_intersection(&Some(line(4, -3, 20)), &c);
    assert_eq!(s, Some(Segment(pt(-5, 0), pt(25, 40))));
}

#[test]
fn chord_of_a_tangent_has_no_length() {
    let c = circle(0, 0, 5);
    let s = get_circle_straight_line_intersection(&Some(line(0, 1, -5)), &c);
    assert_eq!(s, Some(Segment(pt(0, 5), pt(0, 5))));
}

#[test]
fn chord_is_rounded() {
    // y = x cuts x^2 + y^2 = 100 at 7.07
    let c = circle(0, 0, 10);
    let s = get_circle_straight_line_intersection(&Some(line(1, -1, 0)), &c);
    assert_eq!(s, Some(Segment(pt(-7, -7), pt(7, 7))));
}

#[test]
fn chord_is_absent_without_a_cut() {
    let c = circle(0, 0, 5);
    assert_eq!(get_circle_straight_line_intersection(&None, &c), None);
    assert_eq!(get_circle_straight_line_intersection(&Some(line(0, 1, -6)), &c), None);
    assert_eq!(get_circle_straight_line_intersection(&Some(line(0, 0, 0)), &c), None);
    assert_eq!(get_circle_straight_line_intersection(&Some(line(0, 0, 1)), &c), None);
}

#[test]
fn chord_is_absent_outside_the_lattice() {
    let c = circle(LIMIT, 0, 5);
    assert_eq!(get_circle_straight_line_intersection(&Some(line(0, 1, 0)), &c), None);
}

#[test]
fn circles_meet_in_their_common_chord() {
    // x^2 + y^2 = 25 and (x - 6)^2 + y^2 = 25 meet at (3, 4) and (3, -4)
    // the line of the two is -12 x + 36 = 0; the first end lies at +(b, -a) = (0, 12)
    let s = get_circles_intersection(&circle(0, 0, 5), &circle(6, 0, 5));
    assert_eq!(s, Some(Segment(pt(3, 4), pt(3, -4))));
    let s = get_circles_intersection(&circle(6, 0, 5), &circle(0, 0, 5));
    assert_eq!(s, Some(Segment(pt(3, -4), pt(3, 4))));
}

#[test]
fn circles_apart_have_no_common_chord() {
    assert_eq!(get_circles_intersection(&circle(0, 0, 5), &circle(20, 0, 5)), None);
    assert_eq!(get_circles_intersection(&circle(0, 0, 5), &circle(0, 0, 3)), None);
    assert_eq!(get_circles_intersection(&circle(0, 0, 5), &circle(1, 0, 1)), None);
}

#[test]
fn pole_of_a_line_outside_the_circle() {
    // the polar of (r^2 / d, 0) is x = d: d = 20, r = 10
    let c = circle(0, 0, 10);
    assert_eq!(get_inverse_pole(&Segment(pt(20, -3), pt(20, 8)), c), Some(pt(5, 0)));
    assert_eq!(get_inverse_pole(&Segment(pt(20, 8), pt(20, -3)), c), Some(pt(5, 0)));
}

#[test]
fn pole_of_a_line_that_cuts_the_circle() {
    // x = 5 cuts the circle of radius 10: the pole lies at (20, 0)
    let c = circle(0, 0, 10);
    assert_eq!(get_inverse_pole(&Segment(pt(5, 0), pt(5, 1)), c), Some(pt(20, 0)));
    // a tangent has its point of contact for a pole
    assert_eq!(get_inverse_pole(&Segment(pt(10, 0), pt(10, 1)), c), Some(pt(10, 0)));
}

#[test]
fn pole_with_respect_to_a_circle_off_the_origin() {
    // 3 x + 4 y = 50 has the distance 5 from (3, 4); r = 10: pole at O + 4 (3, 4)
    let c = circle(3, 4, 10);
    assert_eq!(get_inverse_pole(&Segment(pt(6, 8), pt(10, 5)), c), Some(pt(15, 20)));
}

#[test]
fn pole_is_absent_for_a_line_through_the_centre() {
    let c = circle(3, 4, 10);
    assert_eq!(get_inverse_pole(&Segment(pt(0, 0), pt(6, 8)), c), None);
    assert_eq!(get_inverse_pole(&Segment(pt(6, 8), pt(6, 8)), c), None);
}

#[test]
fn circle_through_three_points() {
    // a right angle at the origin: the hypotenuse is a diameter
    let c = get_circle_3_points(pt(0, 0), pt(6, 0), pt(0, 8));
    assert_eq!(c, Some(circle(3, 4, 5)));
    let c = get_circle_3_points(pt(0, 8), pt(0, 0), pt(6, 0));
    assert_eq!(c, Some(circle(3, 4, 5)));
    let c = get_circle_3_points(pt(13, 0), pt(-5, 12), pt(0, -13));
    assert_eq!(c, Some(circle(0, 0, 13)));
}

#[test]
fn circle_through_three_points_is_rounded() {
    // centre (1, 1), radius sqrt 2
    assert_eq!(get_circle_3_points(pt(0, 0), pt(2, 0), pt(0, 2)), Some(circle(1, 1, 1)));
    // centre (1.5, 1.5) rounds to (2, 2); the radius from there to (0, 0) is 2.83
    assert_eq!(get_circle_3_points(pt(0, 0), pt(3, 0), pt(0, 3)), Some(circle(2, 2, 2)));
}

#[test]
fn circle_through_points_of_one_line_is_absent() {
    assert_eq!(get_circle_3_points(pt(0, 0), pt(2, 2), pt(5, 5)), None);
    assert_eq!(get_circle_3_points(pt(0, 0), pt(0, 0), pt(5, 5)), None);
    assert_eq!(get_circle_3_points(pt(1, 1), pt(1, 1), pt(1, 1)), None);
    assert_eq!(get_circle_3_points(pt(0, 3), pt(5, 3), pt(-7, 3)), None);
}

#[test]
fn circle_below_the_resolution_of_the_lattice_is_absent() {
    // centre (0.5, 0.5) rounds to (1, 1), which is the first point
    assert_eq!(get_circle_3_points(pt(1, 1), pt(0, 1), pt(1, 0)), None);
}
