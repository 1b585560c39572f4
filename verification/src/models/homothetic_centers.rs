//! The six homothetic centres of three circles under their own names.

use crate::models::homothetic_set::HomotheticSet;
use crate::models::point::Point;
use vstd::prelude::*;

verus! {

/// The external (`ex`) and internal (`in`) centres of the pairs (1, 2),
/// (2, 3) and (3, 1).
#[derive(Clone, Copy, Debug, PartialEq, Eq)]
pub struct HomotheticCenters {
    pub ex_12: Option<Point>,
    pub in_12: Option<Point>,
    pub ex_23: Option<Point>,
    pub in_23: Option<Point>,
    pub ex_31: Option<Point>,
    pub in_31: Option<Point>,
}

impl HomotheticCenters {
    /// The centres of a homothetic set.
    pub fn of_set(set: &HomotheticSet) -> (res: Self)
        ensures
            res.ex_12 == set.pairs@[0].ex,
            res.in_12 == set.pairs@[0].ir,
            res.ex_23 == set.pairs@[1].ex,
            res.in_23 == set.pairs@[1].ir,
            res.ex_31 == set.pairs@[2].ex,
            res.in_31 == set.pairs@[2].ir,
    {
        HomotheticCenters {
            ex_12: set.pairs[0].ex,
            in_12: set.pairs[0].ir,
            ex_23: set.pairs[1].ex,
            in_23: set.pairs[1].ir,
            ex_31: set.pairs[2].ex,
            in_31: set.pairs[2].ir,
        }
    }

    /// The six centres pair by pair, the external centre of a pair first.
    pub fn as_array(self) -> (res: [Option<Point>; 6])
        ensures
            res@ == seq![
                self.ex_12,
                self.in_12,
                self.ex_23,
                self.in_23,
                self.ex_31,
                self.in_31,
            ],
    {
        let res: [Option<Point>; 6] = [
            self.ex_12,
            self.in_12,
            self.ex_23,
            self.in_23,
            self.ex_31,
            self.in_31,
        ];
        assert(res@ =~= seq![
            self.ex_12,
            self.in_12,
            self.ex_23,
            self.in_23,
            self.ex_31,
            self.in_31,
        ]);
        res
    }
}

} // verus!
