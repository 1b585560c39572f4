//! Lines in implicit form with integer coefficients.

use crate::arith::within;
use crate::exact::ExactLine;
use vstd::prelude::*;

verus! {

/// Largest magnitude of the coefficients `a` and `b` of a line (2^30).
pub const NORMAL_LIMIT: i64 = 1_073_741_824;

/// Largest magnitude of the coefficient `c` of a line (2^60).
pub const OFFSET_LIMIT: i64 = 1_152_921_504_606_846_976;

/// The line `a * x + b * y + c == 0`.
#[derive(Clone, Copy, Debug, PartialEq, Eq, Structural)]
pub struct StraightLine {
    pub a: i64,
    pub b: i64,
    pub c: i64,
}

impl View for StraightLine {
    type V = ExactLine;

    open spec fn view(&self) -> ExactLine {
        ExactLine { a: self.a as int, b: self.b as int, c: self.c as int }
    }
}

impl StraightLine {
    /// The coefficients are small enough for every construction on lines.
    pub open spec fn wf(&self) -> bool {
        &&& within(self.a as int, NORMAL_LIMIT as int)
        &&& within(self.b as int, NORMAL_LIMIT as int)
        &&& within(self.c as int, OFFSET_LIMIT as int)
    }
}

} // verus!
