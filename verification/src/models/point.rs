//! Points of the integer lattice on which all constructions are carried out.

use crate::arith::DIV_LIMIT;
use crate::arith::div_round;
use crate::arith::within;
use crate::exact::ExactPoint;
use vstd::prelude::*;

verus! {

/// Largest magnitude of a lattice coordinate and of a radius (2^28).
pub const COORD_LIMIT: i64 = 268_435_456;

/// `v` is a coordinate of the lattice.
pub open spec fn in_range(v: int) -> bool {
    -COORD_LIMIT <= v <= COORD_LIMIT
}

/// A point with integer coordinates.
#[derive(Clone, Copy, Debug, PartialEq, Eq, Structural)]
pub struct Point {
    pub x: i64,
    pub y: i64,
}

impl View for Point {
    type V = ExactPoint;

    open spec fn view(&self) -> ExactPoint {
        ExactPoint { x: self.x as int, y: self.y as int, w: 1 }
    }
}

impl Point {
    /// Both coordinates lie on the lattice.
    pub open spec fn wf(&self) -> bool {
        in_range(self.x as int) && in_range(self.y as int)
    }

    /// The point moved by the vector `(dx, dy)`.
    pub open spec fn moved(self, dx: int, dy: int) -> Point {
        Point { x: (self.x + dx) as i64, y: (self.y + dy) as i64 }
    }
}

/// The point moved by the vector `(dx, dy)`, if there is a point.
pub open spec fn moved_point(p: Option<Point>, dx: int, dy: int) -> Option<Point> {
    match p {
        Some(q) => Some(q.moved(dx, dy)),
        None => None,
    }
}

/// The lattice point with the coordinates `(x, y)`, if there is one.
pub open spec fn lattice_point(x: int, y: int) -> Option<Point> {
    if in_range(x) && in_range(y) {
        Some(Point { x: x as i64, y: y as i64 })
    } else {
        None
    }
}

/// The lattice point `(x, y)`, or `None` when a coordinate is out of range.
pub fn to_lattice(x: i128, y: i128) -> (res: Option<Point>)
    ensures
        res == lattice_point(x as int, y as int),
        res matches Some(p) ==> p.wf(),
{
    let lim: i128 = COORD_LIMIT as i128;
    if -lim <= x && x <= lim && -lim <= y && y <= lim {
        Some(Point { x: x as i64, y: y as i64 })
    } else {
        None
    }
}

/// Rounds the rational point `(x / w, y / w)` to the lattice.
pub fn round_point(x: i128, y: i128, w: i128) -> (res: Option<Point>)
    requires
        within(x as int, DIV_LIMIT as int),
        within(y as int, DIV_LIMIT as int),
        within(w as int, DIV_LIMIT as int),
    ensures
        res == (ExactPoint { x: x as int, y: y as int, w: w as int }).round(),
        res matches Some(p) ==> p.wf(),
{
    if w == 0 {
        None
    } else {
        let qx: i128 = div_round(x, w);
        let qy: i128 = div_round(y, w);
        to_lattice(qx, qy)
    }
}

} // verus!
