//! The homothetic centres of circles: what they are, the theorem of Monge,
//! and how they go along when the circles are moved or enlarged.

use crate::algebra::lemma_four_factors;
use crate::algebra::lemma_product3;
use crate::algebra::lemma_times_sum2;
use crate::arith::lemma_round_div_enlarged;
use crate::arith::lemma_round_div_scale;
use crate::arith::round_div;
use crate::exact::collinear;
use crate::exact::ExactCircle;
use crate::exact::external_center;
use crate::exact::internal_center;
use crate::laws::incidence::lemma_dependent_points_collinear;
use vstd::prelude::*;

verus! {

/// The weights with which the homothetic centres of three circles cancel:
/// each of the four combinations below is a sum of six products of two
/// radii and one coordinate that vanish in pairs.
proof fn lemma_weights_cancel(r1: int, r2: int, r3: int, x1: int, x2: int, x3: int)
    ensures
        r3 * (r2 * x1 - r1 * x2) + r1 * (r3 * x2 - r2 * x3) + r2 * (r1 * x3 - r3 * x1) == 0,
        r3 * (r2 * x1 - r1 * x2) + r1 * (r3 * x2 + r2 * x3) + (-r2) * (r1 * x3 + r3 * x1) == 0,
        (-r3) * (r2 * x1 + r1 * x2) + r1 * (r3 * x2 - r2 * x3) + r2 * (r1 * x3 + r3 * x1) == 0,
        r3 * (r2 * x1 + r1 * x2) + (-r1) * (r3 * x2 + r2 * x3) + r2 * (r1 * x3 - r3 * x1) == 0,
{
    lemma_times_sum2(r3, r2 * x1, r1 * x2);
    lemma_times_sum2(r1, r3 * x2, r2 * x3);
    lemma_times_sum2(r2, r1 * x3, r3 * x1);
    lemma_times_sum2(-r3, r2 * x1, r1 * x2);
    lemma_times_sum2(-r1, r3 * x2, r2 * x3);
    lemma_times_sum2(-r2, r1 * x3, r3 * x1);
    lemma_times_sum2(r3, r2 * x1, 0);
    lemma_times_sum2(r3, r1 * x2, 0);
    lemma_times_sum2(r1, r3 * x2, 0);
    lemma_times_sum2(r1, r2 * x3, 0);
    lemma_times_sum2(r2, r1 * x3, 0);
    lemma_times_sum2(r2, r3 * x1, 0);
    lemma_product3(r3, r2, x1);
    lemma_product3(r3, r1, x2);
    lemma_product3(r1, r2, x3);
}

/// Monge's theorem: the external homothetic centres of three circles, taken
/// pair by pair, lie on one line.
pub proof fn lemma_monge_external(c1: ExactCircle, c2: ExactCircle, c3: ExactCircle)
    requires
        c1.r > 0,
        c2.r > 0,
        c3.r > 0,
    ensures
        collinear(external_center(c1, c2), external_center(c2, c3), external_center(c3, c1)),
{
    let (r1, r2, r3) = (c1.r, c2.r, c3.r);
    let (x1, x2, x3) = (c1.x, c2.x, c3.x);
    let (y1, y2, y3) = (c1.y, c2.y, c3.y);
    lemma_weights_cancel(r1, r2, r3, x1, x2, x3);
    lemma_weights_cancel(r1, r2, r3, y1, y2, y3);
    lemma_weights_cancel(r1, r2, r3, 1, 1, 1);
    lemma_dependent_points_collinear(
        external_center(c1, c2),
        external_center(c2, c3),
        external_center(c3, c1),
        r3,
        r1,
        r2,
    );
}

/// Monge's theorem for mixed centres: the external centre of one pair of
/// circles lies on one line with the internal centres of the other two
/// pairs.
pub proof fn lemma_monge_mixed(c1: ExactCircle, c2: ExactCircle, c3: ExactCircle)
    requires
        c1.r > 0,
        c2.r > 0,
        c3.r > 0,
    ensures
        collinear(external_center(c1, c2), internal_center(c2, c3), internal_center(c3, c1)),
        collinear(internal_center(c1, c2), external_center(c2, c3), internal_center(c3, c1)),
        collinear(internal_center(c1, c2), internal_center(c2, c3), external_center(c3, c1)),
{
    let (r1, r2, r3) = (c1.r, c2.r, c3.r);
    let (x1, x2, x3) = (c1.x, c2.x, c3.x);
    let (y1, y2, y3) = (c1.y, c2.y, c3.y);
    lemma_weights_cancel(r1, r2, r3, x1, x2, x3);
    lemma_weights_cancel(r1, r2, r3, y1, y2, y3);
    lemma_weights_cancel(r1, r2, r3, 1, 1, 1);
    lemma_dependent_points_collinear(
        external_center(c1, c2),
        internal_center(c2, c3),
        internal_center(c3, c1),
        r3,
        r1,
        -r2,
    );
    lemma_dependent_points_collinear(
        internal_center(c1, c2),
        external_center(c2, c3),
        internal_center(c3, c1),
        -r3,
        r1,
        r2,
    );
    lemma_dependent_points_collinear(
        internal_center(c1, c2),
        internal_center(c2, c3),
        external_center(c3, c1),
        r3,
        -r1,
        r2,
    );
}

/// The homothetic centres divide the segment between the two centres in
/// the ratio of the radii, the external centre from outside, the internal
/// centre from inside: seen from the homothetic centre `H`, the vectors to
/// the two centres satisfy `r2 (H - O1) == r1 (H - O2)`, with the opposite
/// sign for the internal centre.
pub proof fn lemma_homothetic_ratio(c1: ExactCircle, c2: ExactCircle)
    ensures
        ({
            let h = external_center(c1, c2);
            &&& c2.r * (h.x - c1.x * h.w) == c1.r * (h.x - c2.x * h.w)
            &&& c2.r * (h.y - c1.y * h.w) == c1.r * (h.y - c2.y * h.w)
        }),
        ({
            let h = internal_center(c1, c2);
            &&& c2.r * (h.x - c1.x * h.w) == -(c1.r * (h.x - c2.x * h.w))
            &&& c2.r * (h.y - c1.y * h.w) == -(c1.r * (h.y - c2.y * h.w))
        }),
{
    lemma_ratio_one_axis(c1.r, c2.r, c1.x, c2.x);
    lemma_ratio_one_axis(c1.r, c2.r, c1.y, c2.y);
}

/// The statement of `lemma_homothetic_ratio` for one coordinate.
proof fn lemma_ratio_one_axis(r1: int, r2: int, x1: int, x2: int)
    ensures
        r2 * ((r2 * x1 - r1 * x2) - x1 * (r2 - r1)) == r1 * ((r2 * x1 - r1 * x2) - x2 * (r2 - r1)),
        r2 * ((r2 * x1 + r1 * x2) - x1 * (r2 + r1)) == -(r1 * ((r2 * x1 + r1 * x2) - x2 * (r2 + r1))),
{
    lemma_times_sum2(x1, r2, r1);
    lemma_times_sum2(x2, r2, r1);
    lemma_times_sum2(r2, x1, 0);
    lemma_times_sum2(r1, x2, 0);
    lemma_times_sum2(r1, x1, 0);
    lemma_times_sum2(r2, x2, 0);
    // external: the brackets are r1 (x1 - x2) and r2 (x1 - x2)
    lemma_times_sum2(r1, x1, x2);
    lemma_times_sum2(r2, x1, x2);
    assert((r2 * x1 - r1 * x2) - x1 * (r2 - r1) == r1 * (x1 - x2));
    assert((r2 * x1 - r1 * x2) - x2 * (r2 - r1) == r2 * (x1 - x2));
    lemma_product3(r2, r1, x1 - x2);
    // internal: the brackets are r1 (x2 - x1) and r2 (x1 - x2)
    lemma_times_sum2(r1, x2, x1);
    assert((r2 * x1 + r1 * x2) - x1 * (r2 + r1) == r1 * (x2 - x1));
    assert((r2 * x1 + r1 * x2) - x2 * (r2 + r1) == r2 * (x1 - x2));
    lemma_product3(r2, r1, x2 - x1);
    lemma_times_sum2(r2, x1 - x2, 0);
    assert(x2 - x1 == -(x1 - x2));
    lemma_times_sum2(r1 * r2, x1 - x2, 0);
    lemma_times_sum2(r2 * r1, x1 - x2, 0);
    lemma_times_sum2(r1, r2, 0);
}

/// Moving two circles moves their homothetic centres with them.
pub proof fn lemma_centers_move(c1: ExactCircle, c2: ExactCircle, dx: int, dy: int)
    ensures
        external_center(c1.translate(dx, dy), c2.translate(dx, dy)) == external_center(
            c1,
            c2,
        ).translate(dx, dy),
        internal_center(c1.translate(dx, dy), c2.translate(dx, dy)) == internal_center(
            c1,
            c2,
        ).translate(dx, dy),
{
    lemma_weighted_shift(c1.r, c2.r, c1.x, c2.x, dx);
    lemma_weighted_shift(c1.r, c2.r, c1.y, c2.y, dy);
}

/// The rule of `lemma_centers_move` for one coordinate.
proof fn lemma_weighted_shift(r1: int, r2: int, x1: int, x2: int, d: int)
    ensures
        r2 * (x1 + d) - r1 * (x2 + d) == (r2 * x1 - r1 * x2) + d * (r2 - r1),
        r2 * (x1 + d) + r1 * (x2 + d) == (r2 * x1 + r1 * x2) + d * (r2 + r1),
{
    lemma_times_sum2(r2, x1, d);
    lemma_times_sum2(r1, x2, d);
    lemma_times_sum2(d, r2, r1);
    lemma_times_sum2(d, r1, 0);
    lemma_times_sum2(d, r2, 0);
}

/// Enlarging two circles about the origin enlarges the distances of their
/// homothetic centres from the origin as much.
pub proof fn lemma_centers_scale(c1: ExactCircle, c2: ExactCircle, k: int)
    requires
        k != 0,
    ensures
        c1.r != c2.r ==> external_center(c1.scale(k), c2.scale(k)).same_as(
            external_center(c1, c2).scale(k),
        ),
        c1.r + c2.r != 0 ==> internal_center(c1.scale(k), c2.scale(k)).same_as(
            internal_center(c1, c2).scale(k),
        ),
{
    lemma_weighted_scale(c1.r, c2.r, c1.x, c2.x, k);
    lemma_weighted_scale(c1.r, c2.r, c1.y, c2.y, k);
    assert(k * c2.r - k * c1.r != 0 <==> c2.r - c1.r != 0) by (nonlinear_arith)
        requires
            k != 0,
    ;
    assert(k * c2.r + k * c1.r != 0 <==> c2.r + c1.r != 0) by (nonlinear_arith)
        requires
            k != 0,
    ;
}

/// The rule of `lemma_centers_scale` for one coordinate.
proof fn lemma_weighted_scale(r1: int, r2: int, x1: int, x2: int, k: int)
    ensures
        ((k * r2) * (k * x1) - (k * r1) * (k * x2)) * (r2 - r1) == (k * (r2 * x1 - r1 * x2)) * (k
            * r2 - k * r1),
        ((k * r2) * (k * x1) + (k * r1) * (k * x2)) * (r2 + r1) == (k * (r2 * x1 + r1 * x2)) * (k
            * r2 + k * r1),
{
    let e = r2 * x1 - r1 * x2;
    let i = r2 * x1 + r1 * x2;
    lemma_four_factors(k, r2, k, x1);
    lemma_four_factors(k, r1, k, x2);
    lemma_times_sum2(k * k, r2 * x1, r1 * x2);
    lemma_times_sum2(k, r2, r1);
    lemma_four_factors(k, e, k, r2 - r1);
    lemma_four_factors(k, i, k, r2 + r1);
    lemma_product3(k * k, e, r2 - r1);
    lemma_product3(k * k, i, r2 + r1);
}

/// On the lattice, enlarging goes with rounding up to half the factor: the
/// nearest lattice point of a homothetic centre of circles enlarged `k`
/// times lies within `k / 2` of `k` times the nearest lattice point of the
/// centre of the circles themselves.
pub proof fn lemma_centers_scale_on_lattice(c1: ExactCircle, c2: ExactCircle, k: int)
    requires
        k >= 1,
    ensures
        c1.r != c2.r ==> ({
            let p = external_center(c1, c2);
            let q = external_center(c1.scale(k), c2.scale(k));
            &&& -k <= 2 * (round_div(q.x, q.w) - k * round_div(p.x, p.w)) <= k
            &&& -k <= 2 * (round_div(q.y, q.w) - k * round_div(p.y, p.w)) <= k
        }),
        c1.r + c2.r != 0 ==> ({
            let p = internal_center(c1, c2);
            let q = internal_center(c1.scale(k), c2.scale(k));
            &&& -k <= 2 * (round_div(q.x, q.w) - k * round_div(p.x, p.w)) <= k
            &&& -k <= 2 * (round_div(q.y, q.w) - k * round_div(p.y, p.w)) <= k
        }),
{
    lemma_weighted_scale_factors(c1.r, c2.r, c1.x, c2.x, k);
    lemma_weighted_scale_factors(c1.r, c2.r, c1.y, c2.y, k);
    if c1.r != c2.r {
        let p = external_center(c1, c2);
        lemma_round_div_scale(k * p.x, p.w, k);
        lemma_round_div_scale(k * p.y, p.w, k);
        lemma_round_div_enlarged(p.x, p.w, k);
        lemma_round_div_enlarged(p.y, p.w, k);
    }
    if c1.r + c2.r != 0 {
        let p = internal_center(c1, c2);
        lemma_round_div_scale(k * p.x, p.w, k);
        lemma_round_div_scale(k * p.y, p.w, k);
        lemma_round_div_enlarged(p.x, p.w, k);
        lemma_round_div_enlarged(p.y, p.w, k);
    }
}

/// The coordinates of the homothetic centres of enlarged circles: the
/// numerators take the factor `k^2`, the denominator the factor `k`.
proof fn lemma_weighted_scale_factors(r1: int, r2: int, x1: int, x2: int, k: int)
    ensures
        (k * r2) * (k * x1) - (k * r1) * (k * x2) == (k * (r2 * x1 - r1 * x2)) * k,
        (k * r2) * (k * x1) + (k * r1) * (k * x2) == (k * (r2 * x1 + r1 * x2)) * k,
        k * r2 - k * r1 == (r2 - r1) * k,
        k * r2 + k * r1 == (r2 + r1) * k,
{
    let e = r2 * x1 - r1 * x2;
    let i = r2 * x1 + r1 * x2;
    lemma_four_factors(k, r2, k, x1);
    lemma_four_factors(k, r1, k, x2);
    lemma_times_sum2(k * k, r2 * x1, r1 * x2);
    lemma_times_sum2(k, r2, r1);
    lemma_product3(k, k, e);
    lemma_product3(k, k, i);
    lemma_product3(k, e, k);
    lemma_product3(k, i, k);
    lemma_times_sum2(k, e, 0);
    lemma_times_sum2(k, i, 0);
    lemma_times_sum2(k * e, k, 0);
    lemma_times_sum2(k * i, k, 0);
    lemma_times_sum2(k, r2 - r1, 0);
    lemma_times_sum2(k, r2 + r1, 0);
}

} // verus!
