//! Identities of the ring of integers, stated one step at a time so that
//! proofs about polynomials can be put together from them.

use vstd::prelude::*;

verus! {

/// `a * (x + y)` and `a * (x - y)` multiplied out, on either side.
pub proof fn lemma_times_sum2(a: int, x: int, y: int)
    ensures
        a * (x + y) == a * x + a * y,
        a * (x - y) == a * x - a * y,
        (x + y) * a == x * a + y * a,
        (x - y) * a == x * a - y * a,
        (-a) * x == -(a * x),
        a * (-x) == -(a * x),
        a * x == x * a,
{
    assert(a * (x + y) == a * x + a * y) by (nonlinear_arith);
    assert(a * (x - y) == a * x - a * y) by (nonlinear_arith);
    assert((x + y) * a == x * a + y * a) by (nonlinear_arith);
    assert((x - y) * a == x * a - y * a) by (nonlinear_arith);
    assert((-a) * x == -(a * x)) by (nonlinear_arith);
    assert(a * (-x) == -(a * x)) by (nonlinear_arith);
    assert(a * x == x * a) by (nonlinear_arith);
}

/// `a * (x + y + z)` multiplied out.
pub proof fn lemma_times_sum3(a: int, x: int, y: int, z: int)
    ensures
        a * (x + y + z) == a * x + a * y + a * z,
        a * (x - y + z) == a * x - a * y + a * z,
        a * (x - y - z) == a * x - a * y - a * z,
        a * (x + y - z) == a * x + a * y - a * z,
{
    assert(a * (x + y + z) == a * x + a * y + a * z) by (nonlinear_arith);
    assert(a * (x - y + z) == a * x - a * y + a * z) by (nonlinear_arith);
    assert(a * (x - y - z) == a * x - a * y - a * z) by (nonlinear_arith);
    assert(a * (x + y - z) == a * x + a * y - a * z) by (nonlinear_arith);
}

/// A product of three factors in every grouping that a proof may meet.
pub proof fn lemma_product3(a: int, b: int, c: int)
    ensures
        a * (b * c) == (a * b) * c,
        a * (b * c) == b * (a * c),
        a * (b * c) == c * (a * b),
        a * (b * c) == a * (c * b),
        a * (b * c) == b * (c * a),
        a * (b * c) == c * (b * a),
        a * (b * c) == (b * c) * a,
{
    assert(a * (b * c) == (a * b) * c) by (nonlinear_arith);
    assert(a * (b * c) == b * (a * c)) by (nonlinear_arith);
    assert(a * (b * c) == c * (a * b)) by (nonlinear_arith);
    assert(a * (b * c) == a * (c * b)) by (nonlinear_arith);
    assert(a * (b * c) == b * (c * a)) by (nonlinear_arith);
    assert(a * (b * c) == c * (b * a)) by (nonlinear_arith);
    assert(a * (b * c) == (b * c) * a) by (nonlinear_arith);
}

/// `(a * p + b * q) * x` multiplied out.
pub proof fn lemma_combination_times(a: int, p: int, b: int, q: int, x: int)
    ensures
        (a * p + b * q) * x == a * (p * x) + b * (q * x),
{
    assert((a * p + b * q) * x == (a * p) * x + (b * q) * x) by (nonlinear_arith);
    assert((a * p) * x == a * (p * x)) by (nonlinear_arith);
    assert((b * q) * x == b * (q * x)) by (nonlinear_arith);
}

/// `(a * p + b * q + c * r) * x` multiplied out.
pub proof fn lemma_combination3_times(a: int, p: int, b: int, q: int, c: int, r: int, x: int)
    ensures
        (a * p + b * q + c * r) * x == a * (p * x) + b * (q * x) + c * (r * x),
{
    assert((a * p + b * q + c * r) * x == (a * p) * x + (b * q) * x + (c * r) * x)
        by (nonlinear_arith);
    assert((a * p) * x == a * (p * x)) by (nonlinear_arith);
    assert((b * q) * x == b * (q * x)) by (nonlinear_arith);
    assert((c * r) * x == c * (r * x)) by (nonlinear_arith);
}

/// `(x + d)^2` multiplied out.
pub proof fn lemma_square_of_sum(x: int, d: int)
    ensures
        (x + d) * (x + d) == x * x + 2 * (x * d) + d * d,
{
    assert((x + d) * (x + d) == x * x + 2 * (x * d) + d * d) by (nonlinear_arith);
}

/// `(x - t)^2` multiplied out.
pub proof fn lemma_square_of_difference(x: int, t: int)
    ensures
        (x - t) * (x - t) == x * x - 2 * (x * t) + t * t,
{
    assert((x - t) * (x - t) == x * x - 2 * (x * t) + t * t) by (nonlinear_arith);
}

/// `(a w)^2 == w^2 a^2`.
pub proof fn lemma_square_of_product(a: int, w: int)
    ensures
        (a * w) * (a * w) == (w * w) * (a * a),
{
    assert((a * w) * (a * w) == (w * w) * (a * a)) by (nonlinear_arith);
}

/// A product of two products in the groupings that a proof may meet.
pub proof fn lemma_four_factors(a: int, b: int, c: int, d: int)
    ensures
        (a * b) * (c * d) == (c * b) * (a * d),
        (c * d) * (a * b) == (c * b) * (a * d),
        (a * b) * (c * d) == (a * c) * (b * d),
        (a * b) * (c * d) == (a * d) * (c * b),
        (a * b) * (c * d) == (c * d) * (a * b),
{
    assert((a * b) * (c * d) == (c * b) * (a * d)) by (nonlinear_arith);
    assert((c * d) * (a * b) == (c * b) * (a * d)) by (nonlinear_arith);
    assert((a * b) * (c * d) == (a * c) * (b * d)) by (nonlinear_arith);
    assert((a * b) * (c * d) == (a * d) * (c * b)) by (nonlinear_arith);
    assert((a * b) * (c * d) == (c * d) * (a * b)) by (nonlinear_arith);
}

/// `(a - b) * (c - d)` multiplied out.
pub proof fn lemma_product_of_differences(a: int, b: int, c: int, d: int)
    ensures
        (a - b) * (c - d) == a * c - a * d - b * c + b * d,
{
    lemma_times_sum2(a - b, c, d);
    lemma_times_sum2(c, a, b);
    lemma_times_sum2(d, a, b);
}

/// `(2 a) (2 b) == 4 (a b)`.
pub proof fn lemma_double_double(a: int, b: int)
    ensures
        (2 * a) * (2 * b) == 4 * (a * b),
{
    assert((2 * a) * (2 * b) == 4 * (a * b)) by (nonlinear_arith);
}

/// A square is not negative, and the squares of numbers that are not
/// negative are in the order of the numbers.
pub proof fn lemma_square_order(a: int, b: int)
    ensures
        a * a >= 0,
        0 <= a <= b ==> a * a <= b * b,
        a * a == 0 <==> a == 0,
{
    assert(a * a >= 0) by (nonlinear_arith);
    assert(0 <= a <= b ==> a * a <= b * b) by (nonlinear_arith);
    assert(a * a == 0 <==> a == 0) by (nonlinear_arith);
}

} // verus!
