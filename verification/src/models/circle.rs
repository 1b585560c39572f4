//! Circles with a lattice centre and an integer radius.

use crate::exact::ExactCircle;
use crate::models::point::COORD_LIMIT;
use crate::models::point::Point;
use crate::services::calc::circle_through;
use crate::services::calc::get_circle_3_points;
use vstd::prelude::*;

verus! {

/// A circle given by its centre and its radius.
#[derive(Clone, Copy, Debug, PartialEq, Eq, Structural)]
pub struct Circle {
    pub center: Point,
    pub radius: i64,
}

/// An axis-parallel rectangle given by two opposite corners.
#[derive(Clone, Copy, Debug, PartialEq, Eq, Structural)]
pub struct Rect {
    pub min: Point,
    pub max: Point,
}

impl View for Circle {
    type V = ExactCircle;

    open spec fn view(&self) -> ExactCircle {
        ExactCircle { x: self.center.x as int, y: self.center.y as int, r: self.radius as int }
    }
}

/// The circle moved by the vector `(dx, dy)`, if there is a circle.
pub open spec fn moved_circle(c: Option<Circle>, dx: int, dy: int) -> Option<Circle> {
    match c {
        Some(d) => Some(d.moved(dx, dy)),
        None => None,
    }
}

impl Circle {
    /// The centre lies on the lattice and the radius is positive and no
    /// larger than a coordinate may be.
    pub open spec fn wf(&self) -> bool {
        self.center.wf() && 0 < self.radius <= COORD_LIMIT
    }

    /// The circle moved by the vector `(dx, dy)`.
    pub open spec fn moved(self, dx: int, dy: int) -> Circle {
        Circle { center: self.center.moved(dx, dy), radius: self.radius }
    }

    /// The smallest axis-parallel rectangle that holds the circle.
    pub fn get_circle_clipping_rect(self) -> (rect: Rect)
        requires
            self.wf(),
        ensures
            rect.min.x == self.center.x - self.radius,
            rect.min.y == self.center.y - self.radius,
            rect.max.x == self.center.x + self.radius,
            rect.max.y == self.center.y + self.radius,
    {
        Rect {
            min: Point { x: self.center.x - self.radius, y: self.center.y - self.radius },
            max: Point { x: self.center.x + self.radius, y: self.center.y + self.radius },
        }
    }

    /// The circle through three points; `None` when a point is missing, when
    /// the three lie on one line, or when the circle does not fit the lattice.
    pub fn get_circle_3_points(a: &Option<Point>, b: &Option<Point>, c: &Option<Point>) -> (res:
        Option<Self>)
        requires
            a matches Some(p) ==> p.wf(),
            b matches Some(p) ==> p.wf(),
            c matches Some(p) ==> p.wf(),
        ensures
            res == match (*a, *b, *c) {
                (Some(p1), Some(p2), Some(p3)) => circle_through(p1, p2, p3),
                _ => None,
            },
            res matches Some(circle) ==> circle.wf(),
    {
        match (*a, *b, *c) {
            (Some(p1), Some(p2), Some(p3)) => get_circle_3_points(p1, p2, p3),
            _ => None,
        }
    }
}

} // verus!
