use apollonius::models::apollonius_pair::ApolloniusPair;
use apollonius::models::circle::Circle;
use apollonius::models::point::Point;
use apollonius::models::segment::Segment;
use apollonius::solver::solve;
use apollonius::solver::sort_by_radius;
use apollonius::solver::selection;
use apollonius::solver::Solution;
use apollonius::solver::SolveOptions;

fn pt(x: i64, y: i64) -> Point {
    Point { x, y }
}

fn circle(x: i64, y: i64, r: i64) -> Circle {
    Circle { center: pt(x, y), radius: r }
}

fn pair(c1: Circle, c2: Circle) -> ApolloniusPair {
    ApolloniusPair { circle_1: Some(c1), circle_2: Some(c2) }
}

const PROMOTE: SolveOptions = SolveOptions { promote_equal_radii_case: true };
const PLAIN: SolveOptions = SolveOptions { promote_equal_radii_case: false };

/// Circles given in units, put on a lattice of `scale` points per unit.
fn on_lattice(circles: [(f64, f64, f64); 3], scale: f64) -> [Circle; 3] {
    circles.map(|(x, y, r)| {
        circle((x * scale).round() as i64, (y * scale).round() as i64, (r * scale).round() as i64)
    })
}

fn solve_units(circles: [(f64, f64, f64); 3], scale: f64, options: SolveOptions) -> Solution {
    let [c1, c2, c3] = on_lattice(circles, scale);
    solve(c1, c2, c3, options)
}

fn produced(sol: &Solution) -> Vec<Circle> {
    sol.apollonius_pairs.iter().flat_map(|p| p.as_array()).flatten().collect()
}

fn distance(a: &Circle, b: &Circle) -> f64 {
    let dx = (a.center.x - b.center.x) as f64;
    let dy = (a.center.y - b.center.y) as f64;
    (dx * dx + dy * dy).sqrt()
}

/// How far two circles are from touching from outside and from inside.
fn defects(a: &Circle, b: &Circle) -> (f64, f64) {
    let d = distance(a, b);
    let outside = (d - (a.radius + b.radius) as f64).abs();
    let inside = (d - (a.radius - b.radius).abs() as f64).abs();
    (outside, inside)
}

/// The size of the box that holds the three circles.
fn extent(given: &[Circle; 3]) -> f64 {
    let lo_x = given.iter().map(|c| c.center.x - c.radius).min().unwrap();
    let hi_x = given.iter().map(|c| c.center.x + c.radius).max().unwrap();
    let lo_y = given.iter().map(|c| c.center.y - c.radius).min().unwrap();
    let hi_y = given.iter().map(|c| c.center.y + c.radius).max().unwrap();
    (hi_x - lo_x).max(hi_y - lo_y) as f64
}

/// Every produced circle touches every given circle: in the box of the
/// given circles scaled to one unit, the defect stays under 1e-5.
fn assert_all_tangent(sol: &Solution) {
    let size = extent(&sol.circles);
    for c in produced(sol) {
        for g in sol.circles.iter() {
            let (outside, inside) = defects(&c, g);
            let defect = outside.min(inside) / size;
            assert!(defect < 1e-5, "{:?} misses {:?} by {}", c, g, defect);
        }
    }
}

/// For each produced circle, which of the sorted circles it touches from
/// outside: one bit for each.
fn tangency_kinds(sol: &Solution) -> Vec<u8> {
    produced(sol)
        .iter()
        .map(|c| {
            let mut kind: u8 = 0;
            for g in sol.circles.iter() {
                let (outside, inside) = defects(c, g);
                kind = 2 * kind + if outside < inside { 1 } else { 0 };
            }
            kind
        })
        .collect()
}

fn close(a: &Circle, b: &Circle, tolerance: i64) -> bool {
    (a.center.x - b.center.x).abs() <= tolerance
        && (a.center.y - b.center.y).abs() <= tolerance
        && (a.radius - b.radius).abs() <= tolerance
}

const SCALE: f64 = 1_048_576.0;

const APART: [(f64, f64, f64); 3] = [(0.0, 0.0, 1.0), (4.0, 0.0, 1.0), (2.0, 3.0, 1.0)];
const EQUAL_RADII: [(f64, f64, f64); 3] = [(0.0, 0.0, 1.0), (3.0, 0.0, 1.0), (1.5, 2.598, 1.0)];
const NESTED_IN_LINE: [(f64, f64, f64); 3] = [(0.0, 0.0, 5.0), (1.0, 0.0, 1.0), (-1.0, 0.0, 1.0)];
const TANGENT_PAIR: [(f64, f64, f64); 3] = [(0.0, 0.0, 1.0), (2.0, 0.0, 1.0), (0.0, 3.0, 1.0)];
const IN_LINE: [(f64, f64, f64); 3] = [(0.0, 0.0, 1.0), (3.0, 0.0, 2.0), (7.0, 0.0, 1.0)];

#[test]
fn three_circles_apart_give_eight_circles() {
    let sol = solve_units(APART, SCALE, PROMOTE);
    assert_eq!(produced(&sol).len(), 8);
    assert_all_tangent(&sol);
}

#[test]
fn three_circles_apart_give_each_kind_of_tangency_once() {
    let sol = solve_units(APART, SCALE, PROMOTE);
    let mut kinds = tangency_kinds(&sol);
    kinds.sort();
    assert_eq!(kinds, vec![0, 1, 2, 3, 4, 5, 6, 7]);
}

#[test]
fn three_circles_apart_on_a_coarse_lattice() {
    let sol = solve_units(APART, 65536.0, PROMOTE);
    assert_eq!(sol.radical_center, Some(pt(131072, 54613)));
    assert_eq!(
        sol.apollonius_pairs,
        [
            pair(circle(131072, 54613, 207530), circle(131072, 54613, 76458)),
            pair(circle(36750, 117495, 188644), circle(196900, 10728, 131655)),
            pair(circle(65244, 10728, 131656), circle(225394, 117495, 188644)),
            pair(circle(131072, 137625, 124518), circle(131072, -98303, 229375)),
        ]
    );
}

#[test]
fn three_circles_apart_have_a_circle_between_them() {
    // the circle that touches all three from outside has its centre at the
    // same distance from the three centres: (2, 5/6), radius 13/6 - 1
    let sol = solve_units(APART, SCALE, PROMOTE);
    let inner = sol.apollonius_pairs[0].circle_2.unwrap();
    assert!((inner.center.x as f64 / SCALE - 2.0).abs() < 1e-5);
    assert!((inner.center.y as f64 / SCALE - 5.0 / 6.0).abs() < 1e-5);
    assert!((inner.radius as f64 / SCALE - 7.0 / 6.0).abs() < 1e-5);
    for g in sol.circles.iter() {
        let (outside, inside) = defects(&inner, g);
        assert!(outside < inside);
    }
    // its mate holds all three
    let outer = sol.apollonius_pairs[0].circle_1.unwrap();
    assert!((outer.radius as f64 / SCALE - 19.0 / 6.0).abs() < 1e-5);
}

#[test]
fn equal_radii_have_no_first_axis() {
    let sol = solve_units(EQUAL_RADII, 64000.0, PROMOTE);
    assert_eq!(sol.homothetic_set.lines[0], None);
    for p in sol.homothetic_set.pairs.iter() {
        assert_eq!(p.ex, None);
        assert!(p.ir.is_some());
    }
    assert!(sol.homothetic_set.lines[1].is_some());
    assert!(sol.homothetic_set.lines[2].is_some());
    assert!(sol.homothetic_set.lines[3].is_some());
}

#[test]
fn equal_radii_promoted_give_eight_circles() {
    let sol = solve_units(EQUAL_RADII, 64000.0 * 16.0, PROMOTE);
    assert_eq!(produced(&sol).len(), 8);
    assert_all_tangent(&sol);
    let mut kinds = tangency_kinds(&sol);
    kinds.sort();
    assert_eq!(kinds, vec![0, 1, 2, 3, 4, 5, 6, 7]);
    // the centres of the circles take the place of the poles
    let set = sol.inverse_pole_sets[0].as_ref().unwrap();
    for (pair, c) in set.point_segment_pairs.iter().zip(sol.circles.iter()) {
        assert_eq!(pair.point, Some(c.center));
    }
}

#[test]
fn equal_radii_not_promoted_give_six_circles() {
    let sol = solve_units(EQUAL_RADII, 64000.0 * 16.0, PLAIN);
    assert_eq!(sol.inverse_pole_sets[0], None);
    assert_eq!(sol.apollonius_pairs[0], ApolloniusPair { circle_1: None, circle_2: None });
    assert_eq!(produced(&sol).len(), 6);
    assert_all_tangent(&sol);
}

#[test]
fn equal_radii_on_a_coarse_lattice() {
    let sol = solve_units(EQUAL_RADII, 64000.0, PROMOTE);
    assert_eq!(sol.radical_center, Some(pt(96000, 55422)));
    assert_eq!(
        sol.apollonius_pairs,
        [
            pair(circle(96000, 55422, 174849), circle(96000, 55423, 46849)),
            pair(circle(-39681, 133760, 203521), circle(161864, 17395, 98795)),
            pair(circle(30136, 17395, 98796), circle(231681, 133760, 203521)),
            pair(circle(96000, 131477, 98794), circle(96000, -101264, 203536)),
        ]
    );
}

#[test]
fn promotion_changes_nothing_for_different_radii() {
    let c = [circle(50, 50, 35), circle(-60, 10, 50), circle(40, -30, 20)];
    assert_eq!(solve(c[0], c[1], c[2], PROMOTE), solve(c[0], c[1], c[2], PLAIN));
    // two equal radii are not three
    let c = [circle(50, 50, 35), circle(-60, 10, 35), circle(40, -30, 20)];
    assert_eq!(solve(c[0], c[1], c[2], PROMOTE), solve(c[0], c[1], c[2], PLAIN));
}

fn assert_all_absent(sol: &Solution) {
    assert_eq!(sol.radical_center, None);
    for set in sol.inverse_pole_sets.iter() {
        assert_eq!(*set, None);
    }
    for p in sol.apollonius_pairs.iter() {
        assert_eq!(*p, ApolloniusPair { circle_1: None, circle_2: None });
    }
}

#[test]
fn nested_circles_with_centres_on_one_line_give_nothing() {
    let sol = solve_units(NESTED_IN_LINE, 65536.0, PROMOTE);
    assert_eq!(
        sol.circles,
        [circle(-65536, 0, 65536), circle(65536, 0, 65536), circle(0, 0, 327680)]
    );
    assert_all_absent(&sol);
    // the centres and axes of similitude are there all the same
    assert_eq!(sol.homothetic_set.pairs[0].ex, None);
    assert_eq!(sol.homothetic_set.pairs[1].ex, Some(pt(81920, 0)));
    assert_eq!(sol.homothetic_set.pairs[2].ex, Some(pt(-81920, 0)));
    assert_eq!(sol.homothetic_set.lines[0], Some(Segment(pt(81920, 0), pt(-81920, 0))));
}

#[test]
fn nested_circles_give_eight_circles() {
    // two small circles inside a large one, the centres not on one line
    let given = [(0.0, 0.0, 10.0), (3.0, 1.0, 2.0), (-2.0, 4.0, 3.0)];
    let sol = solve_units(given, SCALE, PROMOTE);
    assert_eq!(produced(&sol).len(), 8);
    assert_all_tangent(&sol);
    // each touches the large circle, the last of the sorted ones, from inside
    for kind in tangency_kinds(&sol) {
        assert_eq!(kind % 2, 0);
    }
}

#[test]
fn tangent_pair_has_its_radical_centre_on_the_common_tangent() {
    let sol = solve_units(TANGENT_PAIR, 65536.0, PROMOTE);
    // the radical axis of the first two is x = 1
    assert_eq!(sol.radical_center, Some(pt(65536, 98304)));
    let found = produced(&sol);
    assert!(found.len() < 8);
    assert_eq!(found.len(), 4);
    assert_all_tangent(&sol);
    // the circles that would touch the pair from different sides pass
    // through its point of contact twice and are absent
    assert_eq!(sol.apollonius_pairs[1], ApolloniusPair { circle_1: None, circle_2: None });
    assert_eq!(sol.apollonius_pairs[2], ApolloniusPair { circle_1: None, circle_2: None });
    // the tangent circles are the first and the last of the sorted ones
    let set = sol.inverse_pole_sets[1].as_ref().unwrap();
    assert_eq!(set.get_segment(0), Some(Segment(pt(65536, 0), pt(65536, 0))));
    assert_eq!(set.get_segment(2), Some(Segment(pt(65536, 0), pt(65536, 0))));
}

#[test]
fn centres_on_one_line_give_nothing() {
    let sol = solve_units(IN_LINE, 65536.0, PROMOTE);
    assert_all_absent(&sol);
    let sol = solve_units(IN_LINE, 65536.0, PLAIN);
    assert_all_absent(&sol);
}

#[test]
fn concentric_circles_give_nothing() {
    let sol = solve(circle(0, 0, 10), circle(0, 0, 20), circle(50, 10, 5), PROMOTE);
    assert_all_absent(&sol);
    let sol = solve(circle(50, 10, 5), circle(0, 0, 10), circle(0, 0, 20), PROMOTE);
    assert_all_absent(&sol);
}

fn permutations(c: [Circle; 3]) -> [[Circle; 3]; 6] {
    [
        [c[0], c[1], c[2]],
        [c[0], c[2], c[1]],
        [c[1], c[0], c[2]],
        [c[1], c[2], c[0]],
        [c[2], c[0], c[1]],
        [c[2], c[1], c[0]],
    ]
}

#[test]
fn order_of_equal_circles_changes_nothing() {
    let given = on_lattice(APART, SCALE);
    let first = solve(given[0], given[1], given[2], PROMOTE);
    assert_eq!(produced(&first).len(), 8);
    for p in permutations(given) {
        assert_eq!(solve(p[0], p[1], p[2], PROMOTE), first);
    }
    // two equal circles and a third
    let given = [circle(0, 0, 20000), circle(100000, 0, 20000), circle(30000, 90000, 30000)];
    let first = solve(given[0], given[1], given[2], PLAIN);
    assert_eq!(produced(&first).len(), 8);
    for p in permutations(given) {
        assert_eq!(solve(p[0], p[1], p[2], PLAIN), first);
    }
}

#[test]
fn order_of_different_circles_changes_nothing() {
    let given = [circle(51200, 51200, 35840), circle(-61440, 10240, 51200), circle(
        40960, -30720, 20480,
    )];
    let first = solve(given[0], given[1], given[2], PROMOTE);
    for p in permutations(given) {
        assert_eq!(solve(p[0], p[1], p[2], PROMOTE), first);
    }
}

#[test]
fn default_circles_on_a_lattice_of_1024() {
    let sol = solve(
        circle(51200, 51200, 35840),
        circle(-61440, 10240, 51200),
        circle(40960, -30720, 20480),
        PLAIN,
    );
    assert_eq!(
        sol.circles,
        [circle(40960, -30720, 20480), circle(51200, 51200, 35840), circle(-61440, 10240, 51200)]
    );
    assert_eq!(sol.radical_center, Some(pt(8472, 9661)));
    assert_eq!(sol.homothetic_set.pairs[0].ex, Some(pt(27307, -139947)));
    assert_eq!(sol.homothetic_set.pairs[1].ex, Some(pt(314027, 146773)));
    assert_eq!(sol.homothetic_set.pairs[2].ex, Some(pt(109227, -58027)));
    assert_eq!(sol.homothetic_set.pairs[0].ir, Some(pt(44684, -931)));
    assert_eq!(sol.homothetic_set.pairs[1].ir, Some(pt(4819, 34334)));
    assert_eq!(sol.homothetic_set.pairs[2].ir, Some(pt(11703, -19017)));
    let set = sol.inverse_pole_sets[2].as_ref().unwrap();
    assert_eq!(set.point_segment_pairs[0].point, Some(pt(32670, -15604)));
    assert_eq!(set.get_segment(0), Some(Segment(pt(58012, -42063), pt(30363, -13195))));
    assert_eq!(set.point_segment_pairs[2].point, Some(pt(-40716, -27550)));
    assert_eq!(set.get_segment(2), Some(Segment(pt(-58316, -40865), pt(-13112, -6668))));
    assert_eq!(
        sol.apollonius_pairs,
        [
            pair(circle(-13724, 31858, 103583), circle(13636, 4498, 24094)),
            pair(circle(61659, 16523, 72059), circle(-43566, 2946, 70504)),
            pair(circle(24678, -19889, 40035), circle(-70172, 153070, 194297)),
            pair(circle(37218, 42156, 52492), circle(-66149, -74694, 136264)),
        ]
    );
    assert_all_tangent(&sol);
}

#[test]
fn default_circles_without_scaling() {
    let sol = solve(circle(50, 50, 35), circle(-60, 10, 50), circle(40, -30, 20), PLAIN);
    assert_eq!(sol.radical_center, Some(pt(8, 9)));
    assert_eq!(
        sol.apollonius_pairs,
        [
            pair(circle(-13, 31, 100), circle(13, 5, 24)),
            pair(circle(60, 16, 69), circle(-42, 3, 68)),
            pair(circle(24, -19, 39), circle(-68, 150, 190)),
            pair(circle(36, 41, 51), circle(-66, -76, 135)),
        ]
    );
}

fn moved(c: Circle, dx: i64, dy: i64) -> Circle {
    circle(c.center.x + dx, c.center.y + dy, c.radius)
}

#[test]
fn moving_the_circles_moves_the_result() {
    let given = on_lattice([(0.0, 0.0, 1.0), (5.0, 1.0, 2.0), (2.0, 6.0, 3.0)], 65536.0);
    let sol = solve(given[0], given[1], given[2], PLAIN);
    assert_eq!(produced(&sol).len(), 8);
    for (dx, dy) in [(1, 0), (0, -1), (12345, -6789), (-1_000_000, 2_000_000)] {
        let there = solve(moved(given[0], dx, dy), moved(given[1], dx, dy), moved(given[2], dx, dy), PLAIN);
        assert_eq!(there.radical_center, sol.radical_center.map(|p| pt(p.x + dx, p.y + dy)));
        for (a, b) in sol.homothetic_set.pairs.iter().zip(there.homothetic_set.pairs.iter()) {
            assert_eq!(b.ex, a.ex.map(|p| pt(p.x + dx, p.y + dy)));
            assert_eq!(b.ir, a.ir.map(|p| pt(p.x + dx, p.y + dy)));
        }
        for (a, b) in sol.apollonius_pairs.iter().zip(there.apollonius_pairs.iter()) {
            assert_eq!(b.circle_1, a.circle_1.map(|c| moved(c, dx, dy)));
            assert_eq!(b.circle_2, a.circle_2.map(|c| moved(c, dx, dy)));
        }
    }
}

#[test]
fn scaling_the_circles_scales_the_result() {
    let units = [(0.0, 0.0, 1.0), (5.0, 1.0, 2.0), (2.0, 6.0, 3.0)];
    let small = produced(&solve_units(units, 65536.0, PLAIN));
    let large = produced(&solve_units(units, 16.0 * 65536.0, PLAIN));
    assert_eq!(small.len(), 8);
    assert_eq!(large.len(), 8);
    for (s, l) in small.iter().zip(large.iter()) {
        // within eight points of the coarse lattice
        let scaled = circle(16 * s.center.x, 16 * s.center.y, 16 * s.radius);
        assert!(close(&scaled, l, 16 * 8), "{:?} against {:?}", scaled, l);
    }
}

#[test]
fn sorting_by_radius() {
    let a = circle(1, 0, 10);
    let b = circle(2, 0, 20);
    let c = circle(3, 0, 30);
    for p in permutations([a, b, c]) {
        assert_eq!(sort_by_radius(p[0], p[1], p[2]), [a, b, c]);
    }
}

#[test]
fn sorting_takes_equal_radii_by_their_centres() {
    let a = circle(1, 5, 10);
    let b = circle(2, 0, 10);
    let c = circle(2, 3, 10);
    let d = circle(0, 0, 30);
    for p in permutations([a, b, c]) {
        assert_eq!(sort_by_radius(p[0], p[1], p[2]), [a, b, c]);
    }
    for p in permutations([a, d, b]) {
        assert_eq!(sort_by_radius(p[0], p[1], p[2]), [a, b, d]);
    }
    assert_eq!(sort_by_radius(c, c, a), [a, c, c]);
    assert_eq!(sort_by_radius(b, b, b), [b, b, b]);
}

#[test]
fn selections_cover_every_choice_of_ends_once() {
    let mut seen: Vec<(i8, i8, i8)> = Vec::new();
    for axis in 0..4 {
        let (a, b, c) = selection(axis);
        seen.push((a, b, c));
        seen.push((1 - a, 1 - b, 1 - c));
    }
    seen.sort();
    assert_eq!(
        seen,
        vec![
            (0, 0, 0),
            (0, 0, 1),
            (0, 1, 0),
            (0, 1, 1),
            (1, 0, 0),
            (1, 0, 1),
            (1, 1, 0),
            (1, 1, 1),
        ]
    );
    assert_eq!(selection(0), (0, 0, 0));
    assert_eq!(selection(1), (0, 0, 1));
    assert_eq!(selection(2), (0, 1, 1));
    assert_eq!(selection(3), (1, 0, 1));
}
