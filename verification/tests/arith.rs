use apollonius::arith::div_round;
use apollonius::arith::isqrt;

#[test]
fn div_round_rounds_to_nearest() {
    assert_eq!(div_round(5, 3), 2);
    assert_eq!(div_round(4, 3), 1);
    assert_eq!(div_round(-5, 3), -2);
    assert_eq!(div_round(-4, 3), -1);
    assert_eq!(div_round(12, 4), 3);
    assert_eq!(div_round(-12, 4), -3);
    assert_eq!(div_round(0, 7), 0);
}

#[test]
fn div_round_sends_a_tie_up() {
    assert_eq!(div_round(7, 2), 4);
    assert_eq!(div_round(-7, 2), -3);
    assert_eq!(div_round(1, 2), 1);
    assert_eq!(div_round(-1, 2), 0);
    assert_eq!(div_round(3, 6), 1);
    assert_eq!(div_round(-3, 6), 0);
}

#[test]
fn div_round_depends_on_the_fraction_alone() {
    let cases: [(i128, i128); 6] = [(7, 2), (-7, 2), (5, 3), (-5, 3), (1, 2), (-1, 2)];
    for (n, d) in cases {
        assert_eq!(div_round(-n, -d), div_round(n, d));
        assert_eq!(div_round(3 * n, 3 * d), div_round(n, d));
        assert_eq!(div_round(-5 * n, -5 * d), div_round(n, d));
    }
}

#[test]
fn div_round_moves_with_multiples_of_the_denominator() {
    for n in -20i128..20 {
        for d in [1i128, 2, 3, 7, -1, -2, -5] {
            for t in -3i128..4 {
                assert_eq!(div_round(n + t * d, d), div_round(n, d) + t);
            }
        }
    }
}

#[test]
fn div_round_leaves_at_most_half_a_denominator() {
    for n in -50i128..50 {
        for d in 1i128..9 {
            let q = div_round(n, d);
            assert!(-d <= 2 * (n - q * d));
            assert!(2 * (n - q * d) < d);
        }
    }
}

#[test]
fn div_round_takes_large_operands() {
    let big: i128 = 1 << 124;
    assert_eq!(div_round(big, big), 1);
    assert_eq!(div_round(-big, big), -1);
    assert_eq!(div_round(big, -big), -1);
    assert_eq!(div_round(big, 1), big);
    assert_eq!(div_round(big - 1, 2), 1 << 123);
}

#[test]
fn isqrt_of_small_numbers() {
    let expected: [i128; 18] = [0, 1, 1, 1, 2, 2, 2, 2, 2, 3, 3, 3, 3, 3, 3, 3, 4, 4];
    for (n, s) in expected.iter().enumerate() {
        assert_eq!(isqrt(n as i128), *s);
    }
}

#[test]
fn isqrt_is_the_floor_of_the_root() {
    for n in 0i128..2000 {
        let s = isqrt(n);
        assert!(s * s <= n);
        assert!(n < (s + 1) * (s + 1));
    }
}

#[test]
fn isqrt_of_large_numbers() {
    assert_eq!(isqrt(1 << 120), 1 << 60);
    assert_eq!(isqrt((1 << 120) - 1), (1 << 60) - 1);
    assert_eq!(isqrt((1 << 126) - 1), (1 << 63) - 1);
    assert_eq!(isqrt(1_000_000_000_000_000_000_000_000), 1_000_000_000_000);
    assert_eq!(isqrt(999_999_999_999_999_999_999_999), 999_999_999_999);
}
