//! Integer arithmetic that the lattice geometry is built on: products with
//! known magnitude, division rounded to the nearest integer, and the integer
//! square root.

use vstd::arithmetic::div_mod::lemma_fundamental_div_mod;
use vstd::arithmetic::div_mod::lemma_fundamental_div_mod_converse;
use vstd::prelude::*;

verus! {

/// Largest magnitude that the operands of [`div_round`] may have (2^124).
pub const DIV_LIMIT: i128 = 0x1000_0000_0000_0000_0000_0000_0000_0000;

/// Exclusive upper bound of the argument of [`isqrt`] (2^126).
pub const SQRT_LIMIT: i128 = 0x4000_0000_0000_0000_0000_0000_0000_0000;

/// `-bound <= v <= bound`.
pub open spec fn within(v: int, bound: int) -> bool {
    -bound <= v <= bound
}

/// The integer nearest to `n / d`; a tie goes to the larger integer.
/// For `d == 0` the value is 0 and carries no meaning.
pub open spec fn round_div(n: int, d: int) -> int {
    if d > 0 {
        (2 * n + d) / (2 * d)
    } else if d < 0 {
        (-(2 * n) - d) / (-(2 * d))
    } else {
        0
    }
}

/// `s` is the integer square root of `n`: the largest integer whose square
/// does not exceed `n`.
pub open spec fn is_floor_sqrt(s: int, n: int) -> bool {
    0 <= s && s * s <= n < (s + 1) * (s + 1)
}

/// The integer square root of `n`, for `n >= 0`.
pub open spec fn floor_sqrt(n: int) -> int {
    choose|s: int| is_floor_sqrt(s, n)
}

/// A product is bounded by the product of the bounds of its factors.
pub proof fn lemma_product_bound(a: int, b: int, ba: int, bb: int)
    by (nonlinear_arith)
    requires
        within(a, ba),
        within(b, bb),
    ensures
        within(a * b, ba * bb),
{
    if a >= 0 {
        if b >= 0 {
            assert(a * b <= ba * bb);
            assert(a * b >= 0);
        } else {
            assert(a * (-b) <= ba * bb);
            assert(a * (-b) >= 0);
        }
    } else {
        if b >= 0 {
            assert((-a) * b <= ba * bb);
            assert((-a) * b >= 0);
        } else {
            assert((-a) * (-b) <= ba * bb);
            assert((-a) * (-b) >= 0);
        }
    }
}

/// `round_div` is the nearest integer: twice the remainder that it leaves is
/// at least `-|d|` and less than `|d|`.
pub proof fn lemma_round_div_nearest(n: int, d: int)
    requires
        d != 0,
    ensures
        d > 0 ==> -d <= 2 * (n - round_div(n, d) * d) < d,
        d < 0 ==> d < 2 * (n - round_div(n, d) * d) <= -d,
{
    let q = round_div(n, d);
    if d > 0 {
        lemma_fundamental_div_mod(2 * n + d, 2 * d);
        assert((2 * d) * q == 2 * (q * d)) by (nonlinear_arith);
    } else {
        lemma_fundamental_div_mod(-(2 * n) - d, -(2 * d));
        assert((-(2 * d)) * q == -(2 * (q * d))) by (nonlinear_arith);
    }
}

/// An integer that leaves such a remainder is the rounded quotient.
pub proof fn lemma_round_div_unique(n: int, d: int, q: int)
    requires
        d > 0,
        -d <= 2 * (n - q * d) < d,
    ensures
        q == round_div(n, d),
{
    let r = 2 * n + d - q * (2 * d);
    assert(q * (2 * d) == 2 * (q * d)) by (nonlinear_arith);
    lemma_fundamental_div_mod_converse(2 * n + d, 2 * d, q, r);
}

/// The rounded quotient depends on the fraction alone, not on how it is
/// written: multiplying numerator and denominator by `k != 0` changes nothing.
pub proof fn lemma_round_div_scale(n: int, d: int, k: int)
    requires
        d != 0,
        k != 0,
    ensures
        round_div(n * k, d * k) == round_div(n, d),
{
    let q = round_div(n, d);
    lemma_round_div_nearest(n, d);
    if d > 0 {
        if k > 0 {
            assert(d * k > 0) by (nonlinear_arith)
                requires
                    d > 0,
                    k > 0,
            ;
            assert(-(d * k) <= 2 * (n * k - q * (d * k)) < d * k) by (nonlinear_arith)
                requires
                    k > 0,
                    -d <= 2 * (n - q * d) < d,
            ;
            lemma_round_div_unique(n * k, d * k, q);
        } else {
            assert(-(d * k) > 0) by (nonlinear_arith)
                requires
                    d > 0,
                    k < 0,
            ;
            assert(d * k <= 2 * (-(n * k) - q * (-(d * k))) < -(d * k)) by (nonlinear_arith)
                requires
                    k < 0,
                    -d <= 2 * (n - q * d) < d,
            ;
            lemma_round_div_unique(-(n * k), -(d * k), q);
            assert(-(2 * (n * k)) - d * k == 2 * (-(n * k)) + (-(d * k)));
            assert(-(2 * (d * k)) == 2 * (-(d * k)));
        }
    } else {
        assert(round_div(n, d) == round_div(-n, -d));
        if k > 0 {
            assert(d * k < 0) by (nonlinear_arith)
                requires
                    d < 0,
                    k > 0,
            ;
            assert(d * k <= 2 * (-(n * k) - q * (-(d * k))) < -(d * k)) by (nonlinear_arith)
                requires
                    k > 0,
                    d < 2 * (n - q * d) <= -d,
            ;
            lemma_round_div_unique(-(n * k), -(d * k), q);
            assert(-(2 * (n * k)) - d * k == 2 * (-(n * k)) + (-(d * k)));
            assert(-(2 * (d * k)) == 2 * (-(d * k)));
        } else {
            assert(d * k > 0) by (nonlinear_arith)
                requires
                    d < 0,
                    k < 0,
            ;
            assert(-(d * k) <= 2 * (n * k - q * (d * k)) < d * k) by (nonlinear_arith)
                requires
                    k < 0,
                    d < 2 * (n - q * d) <= -d,
            ;
            lemma_round_div_unique(n * k, d * k, q);
        }
    }
}

/// Adding a multiple of the denominator to the numerator moves the rounded
/// quotient by that multiple.
pub proof fn lemma_round_div_shift(n: int, d: int, t: int)
    requires
        d != 0,
    ensures
        round_div(n + t * d, d) == round_div(n, d) + t,
{
    let q = round_div(n, d);
    lemma_round_div_nearest(n, d);
    if d > 0 {
        assert((q + t) * d == q * d + t * d) by (nonlinear_arith);
        lemma_round_div_unique(n + t * d, d, q + t);
    } else {
        assert((q + t) * (-d) == -(q * d) - t * d) by (nonlinear_arith);
        lemma_round_div_unique(-n - t * d, -d, q + t);
        assert(-(2 * (n + t * d)) - d == 2 * (-n - t * d) + (-d));
    }
}

/// Rounding goes with enlarging up to half the factor: the rounded
/// quotient of a numerator `k` times as large is within `k / 2` of `k`
/// times the rounded quotient.
pub proof fn lemma_round_div_enlarged(n: int, d: int, k: int)
    requires
        d != 0,
        k >= 1,
    ensures
        -k <= 2 * (round_div(k * n, d) - k * round_div(n, d)) <= k,
{
    if d > 0 {
        lemma_round_div_enlarged_positive(n, d, k);
    } else {
        lemma_round_div_enlarged_positive(-n, -d, k);
        assert(k * -n == -(k * n)) by (nonlinear_arith);
        assert(round_div(k * n, d) == round_div(k * -n, -d));
        assert(round_div(n, d) == round_div(-n, -d));
    }
}

/// `lemma_round_div_enlarged` for a positive denominator.
proof fn lemma_round_div_enlarged_positive(n: int, d: int, k: int)
    requires
        d > 0,
        k >= 1,
    ensures
        -k <= 2 * (round_div(k * n, d) - k * round_div(n, d)) <= k,
{
    let r = round_div(n, d);
    let rk = round_div(k * n, d);
    lemma_round_div_nearest(n, d);
    lemma_round_div_nearest(k * n, d);
    let e = n - r * d;
    let f = k * n - rk * d;
    let delta = rk - k * r;
    assert(k * e == k * n - (k * r) * d) by (nonlinear_arith)
        requires
            e == n - r * d,
    ;
    assert(delta * d == rk * d - (k * r) * d) by (nonlinear_arith)
        requires
            delta == rk - k * r,
    ;
    assert(delta * d == k * e - f);
    assert(-(k * d) <= k * (2 * e) < k * d) by (nonlinear_arith)
        requires
            k >= 1,
            -d <= 2 * e < d,
    ;
    assert(k * (2 * e) == 2 * (k * e)) by (nonlinear_arith);
    assert(-((k + 1) * d) < 2 * (delta * d) < (k + 1) * d) by (nonlinear_arith)
        requires
            2 * (delta * d) == 2 * (k * e) - 2 * f,
            -(k * d) <= 2 * (k * e) < k * d,
            -d <= 2 * f < d,
    ;
    assert(-(k + 1) < 2 * delta < k + 1) by (nonlinear_arith)
        requires
            d > 0,
            -((k + 1) * d) < 2 * (delta * d) < (k + 1) * d,
    ;
}

/// A fraction between two integers rounds to an integer between them.
pub proof fn lemma_round_div_between(n: int, d: int, lo: int, hi: int)
    requires
        d > 0,
        lo * d <= n <= hi * d,
    ensures
        lo <= round_div(n, d) <= hi,
{
    let q = round_div(n, d);
    lemma_round_div_nearest(n, d);
    assert(lo <= q <= hi) by (nonlinear_arith)
        requires
            d > 0,
            lo * d <= n <= hi * d,
            -d <= 2 * (n - q * d) < d,
    ;
}

/// Every number that is not negative has an integer square root.
pub proof fn lemma_floor_sqrt(n: int)
    requires
        n >= 0,
    ensures
        is_floor_sqrt(floor_sqrt(n), n),
    decreases n,
{
    if n == 0 {
        assert(is_floor_sqrt(0, n));
    } else {
        lemma_floor_sqrt(n - 1);
        let s = floor_sqrt(n - 1);
        if (s + 1) * (s + 1) <= n {
            assert(n < (s + 2) * (s + 2)) by (nonlinear_arith)
                requires
                    0 <= s,
                    n - 1 < (s + 1) * (s + 1),
            ;
            assert(is_floor_sqrt(s + 1, n));
        } else {
            assert(is_floor_sqrt(s, n));
        }
    }
}

/// There is exactly one integer square root.
pub proof fn lemma_floor_sqrt_unique(s: int, t: int, n: int)
    by (nonlinear_arith)
    requires
        is_floor_sqrt(s, n),
        is_floor_sqrt(t, n),
    ensures
        s == t,
{
    if s < t {
        assert((s + 1) * (s + 1) <= t * t);
    } else if t < s {
        assert((t + 1) * (t + 1) <= s * s);
    }
}

/// The product of two factors whose magnitudes are known.
pub(crate) fn product(a: i128, b: i128, Ghost(ba): Ghost<int>, Ghost(bb): Ghost<int>) -> (p: i128)
    requires
        within(a as int, ba),
        within(b as int, bb),
        ba * bb <= i128::MAX,
    ensures
        p == a * b,
        within(p as int, ba * bb),
{
    proof {
        lemma_product_bound(a as int, b as int, ba, bb);
    }
    a * b
}

/// Quotient of a non-negative numerator, rounded down.
fn div_floor_of_negative(m: i128, d: i128) -> (q: i128)
    requires
        0 < m <= 4 * DIV_LIMIT,
        0 < d <= 2 * DIV_LIMIT,
    ensures
        q == (-m) / (d as int),
{
    let up: i128 = m + (d - 1);
    let c: i128 = up / d;
    proof {
        let rem = (up as int) % (d as int);
        lemma_fundamental_div_mod(up as int, d as int);
        assert((d as int) * (c as int) == (-(c as int)) * (d as int) * (-1)) by (nonlinear_arith);
        lemma_fundamental_div_mod_converse(-m, d as int, -(c as int), d - 1 - rem);
    }
    -c
}

/// `n / d` rounded to the nearest integer, a tie going up.
pub fn div_round(n: i128, d: i128) -> (q: i128)
    requires
        d != 0,
        within(n as int, DIV_LIMIT as int),
        within(d as int, DIV_LIMIT as int),
    ensures
        q == round_div(n as int, d as int),
{
    let nn: i128 = if d > 0 { n } else { -n };
    let dd: i128 = if d > 0 { d } else { -d };
    let num: i128 = 2 * nn + dd;
    let den: i128 = 2 * dd;
    if num >= 0 {
        num / den
    } else {
        div_floor_of_negative(-num, den)
    }
}

/// The integer square root, found by bisection.
pub fn isqrt(n: i128) -> (s: i128)
    requires
        0 <= n < SQRT_LIMIT,
    ensures
        is_floor_sqrt(s as int, n as int),
        s == floor_sqrt(n as int),
        s < 0x8000_0000_0000_0000,
{
    let mut lo: i128 = 0;
    let mut hi: i128 = 0x8000_0000_0000_0000;
    assert(hi * hi == SQRT_LIMIT) by (nonlinear_arith)
        requires
            hi == 0x8000_0000_0000_0000,
    ;
    while hi - lo > 1
        invariant
            0 <= lo < hi <= 0x8000_0000_0000_0000,
            lo * lo <= n < hi * hi,
        decreases hi - lo,
    {
        let mid: i128 = lo + (hi - lo) / 2;
        let sq: i128 = product(mid, mid, Ghost(0x8000_0000_0000_0000), Ghost(0x8000_0000_0000_0000));
        if sq <= n {
            lo = mid;
        } else {
            hi = mid;
        }
    }
    proof {
        assert(hi == lo + 1);
        assert(is_floor_sqrt(lo as int, n as int));
        let t = floor_sqrt(n as int);
        assert(is_floor_sqrt(t, n as int));
        lemma_floor_sqrt_unique(lo as int, t, n as int);
    }
    lo
}

} // verus!
