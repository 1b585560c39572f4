//! The exact geometry that the lattice functions round: rational points and
//! lines in homogeneous integer coordinates, and the constructions on them.
//! Everything here is ghost code: nothing is computed and nothing is rounded.

use crate::arith::round_div;
use crate::models::point::lattice_point;
use crate::models::point::Point;
use vstd::prelude::*;

verus! {

/// The rational point `(x / w, y / w)`. With `w == 0` it stands for no finite
/// point (a direction, or nothing at all when `x` and `y` vanish too).
pub struct ExactPoint {
    pub x: int,
    pub y: int,
    pub w: int,
}

/// The line `a * x + b * y + c == 0`. It is a proper line when `a` and `b` do
/// not both vanish.
pub struct ExactLine {
    pub a: int,
    pub b: int,
    pub c: int,
}

/// The circle with centre `(x, y)` and radius `r`.
pub struct ExactCircle {
    pub x: int,
    pub y: int,
    pub r: int,
}

impl ExactPoint {
    /// The point has finite coordinates.
    pub open spec fn is_finite(self) -> bool {
        self.w != 0
    }

    /// The lattice point nearest to this point, each coordinate rounded on
    /// its own; `None` where the point is not finite or leaves the lattice.
    pub open spec fn round(self) -> Option<Point> {
        if self.w == 0 {
            None
        } else {
            lattice_point(round_div(self.x, self.w), round_div(self.y, self.w))
        }
    }

    /// Both stand for the same rational point.
    pub open spec fn same_as(self, other: ExactPoint) -> bool {
        &&& self.w != 0
        &&& other.w != 0
        &&& self.x * other.w == other.x * self.w
        &&& self.y * other.w == other.y * self.w
    }

    /// The point moved by the integer vector `(dx, dy)`.
    pub open spec fn translate(self, dx: int, dy: int) -> ExactPoint {
        ExactPoint { x: self.x + dx * self.w, y: self.y + dy * self.w, w: self.w }
    }

    /// The point at `k` times the distance from the origin.
    pub open spec fn scale(self, k: int) -> ExactPoint {
        ExactPoint { x: k * self.x, y: k * self.y, w: self.w }
    }

    /// The same point with the signs of all three coordinates changed.
    pub open spec fn negate(self) -> ExactPoint {
        ExactPoint { x: -self.x, y: -self.y, w: -self.w }
    }
}

impl ExactLine {
    /// `a` and `b` do not both vanish.
    pub open spec fn is_proper(self) -> bool {
        self.a != 0 || self.b != 0
    }

    /// `a * a + b * b`, the squared length of the normal `(a, b)`.
    pub open spec fn norm(self) -> int {
        self.a * self.a + self.b * self.b
    }

    /// The line passes through `p`.
    pub open spec fn contains(self, p: ExactPoint) -> bool {
        self.a * p.x + self.b * p.y + self.c * p.w == 0
    }

    /// The value of `a * x + b * y + c` at the integer point `(x, y)`. Its
    /// square over `norm()` is the squared distance from the point to the line.
    pub open spec fn eval(self, x: int, y: int) -> int {
        self.a * x + self.b * y + self.c
    }

    /// Every coefficient multiplied by `k`: the same line when `k != 0`.
    pub open spec fn scale(self, k: int) -> ExactLine {
        ExactLine { a: self.a * k, b: self.b * k, c: self.c * k }
    }

    /// The two lines have the same direction.
    pub open spec fn is_parallel_to(self, other: ExactLine) -> bool {
        self.a * other.b - other.a * self.b == 0
    }

    /// The line moved by the integer vector `(dx, dy)`.
    pub open spec fn translate(self, dx: int, dy: int) -> ExactLine {
        ExactLine { a: self.a, b: self.b, c: self.c - self.a * dx - self.b * dy }
    }
}

impl ExactCircle {
    /// The centre as an exact point.
    pub open spec fn center(self) -> ExactPoint {
        ExactPoint { x: self.x, y: self.y, w: 1 }
    }

    /// The power of the integer point `(x, y)`: its squared distance from the
    /// centre less the squared radius.
    pub open spec fn power(self, x: int, y: int) -> int {
        (x - self.x) * (x - self.x) + (y - self.y) * (y - self.y) - self.r * self.r
    }

    /// The rational point `p` lies on the circle.
    pub open spec fn passes_through(self, p: ExactPoint) -> bool {
        (p.x - self.x * p.w) * (p.x - self.x * p.w) + (p.y - self.y * p.w) * (p.y - self.y * p.w)
            == self.r * self.r * (p.w * p.w)
    }

    /// The circle moved by the integer vector `(dx, dy)`.
    pub open spec fn translate(self, dx: int, dy: int) -> ExactCircle {
        ExactCircle { x: self.x + dx, y: self.y + dy, r: self.r }
    }

    /// The circle enlarged `k` times about the origin.
    pub open spec fn scale(self, k: int) -> ExactCircle {
        ExactCircle { x: k * self.x, y: k * self.y, r: k * self.r }
    }
}

/// The determinant of the three points' coordinates; it vanishes exactly when
/// they lie on one line.
pub open spec fn det3(p: ExactPoint, q: ExactPoint, r: ExactPoint) -> int {
    p.x * (q.y * r.w - r.y * q.w) - p.y * (q.x * r.w - r.x * q.w) + p.w * (q.x * r.y - r.x * q.y)
}

/// The three points lie on one line.
pub open spec fn collinear(p: ExactPoint, q: ExactPoint, r: ExactPoint) -> bool {
    det3(p, q, r) == 0
}

/// The line from `p` to `q`. Its normal `(a, b)` is the direction from `p` to
/// `q` turned clockwise by a right angle.
pub open spec fn join(p: ExactPoint, q: ExactPoint) -> ExactLine {
    ExactLine {
        a: q.y * p.w - p.y * q.w,
        b: p.x * q.w - q.x * p.w,
        c: p.y * q.x - p.x * q.y,
    }
}

/// The point where two lines cross, by Cramer's rule. It is finite exactly
/// when the lines are not parallel.
pub open spec fn meet(l: ExactLine, m: ExactLine) -> ExactPoint {
    ExactPoint {
        x: l.b * m.c - m.b * l.c,
        y: m.a * l.c - l.a * m.c,
        w: l.a * m.b - m.a * l.b,
    }
}

/// The line through the integer point `(x, y)` at a right angle to `l`.
pub open spec fn perpendicular(l: ExactLine, x: int, y: int) -> ExactLine {
    ExactLine { a: l.b, b: -l.a, c: -l.b * x + l.a * y }
}

/// The foot of the perpendicular from the integer point `(x, y)` to `l`.
pub open spec fn foot(l: ExactLine, x: int, y: int) -> ExactPoint {
    meet(l, perpendicular(l, x, y))
}

/// The external homothetic centre of two circles,
/// `(r2 * O1 - r1 * O2) / (r2 - r1)`; not finite when the radii are equal.
pub open spec fn external_center(c1: ExactCircle, c2: ExactCircle) -> ExactPoint {
    ExactPoint {
        x: c2.r * c1.x - c1.r * c2.x,
        y: c2.r * c1.y - c1.r * c2.y,
        w: c2.r - c1.r,
    }
}

/// The internal homothetic centre of two circles,
/// `(r2 * O1 + r1 * O2) / (r2 + r1)`.
pub open spec fn internal_center(c1: ExactCircle, c2: ExactCircle) -> ExactPoint {
    ExactPoint {
        x: c2.r * c1.x + c1.r * c2.x,
        y: c2.r * c1.y + c1.r * c2.y,
        w: c2.r + c1.r,
    }
}

/// The radical axis of two circles: the points of equal power.
pub open spec fn radical_axis(c1: ExactCircle, c2: ExactCircle) -> ExactLine {
    ExactLine {
        a: 2 * (c2.x - c1.x),
        b: 2 * (c2.y - c1.y),
        c: (c1.x * c1.x + c1.y * c1.y - c1.r * c1.r) - (c2.x * c2.x + c2.y * c2.y - c2.r * c2.r),
    }
}

/// The radical centre of three circles: where the radical axes of the first
/// two and of the last two cross.
pub open spec fn radical_center(c1: ExactCircle, c2: ExactCircle, c3: ExactCircle) -> ExactPoint {
    meet(radical_axis(c1, c2), radical_axis(c2, c3))
}

/// The pole of the line `l` with respect to the circle `c`: the point whose
/// polar is `l`. It is not finite when `l` passes through the centre.
pub open spec fn pole(l: ExactLine, c: ExactCircle) -> ExactPoint {
    let k = l.eval(c.x, c.y);
    ExactPoint { x: c.x * k - c.r * c.r * l.a, y: c.y * k - c.r * c.r * l.b, w: k }
}

/// The polar of the point `p` with respect to the circle `c`: the line of the
/// points `X` with `(p - O) . (X - O) == r * r`.
pub open spec fn polar(p: ExactPoint, c: ExactCircle) -> ExactLine {
    let a = p.x - c.x * p.w;
    let b = p.y - c.y * p.w;
    ExactLine { a, b, c: -(a * c.x) - b * c.y - c.r * c.r * p.w }
}

/// The perpendicular bisector of two integer points, doubled so that its
/// coefficients are integers.
pub open spec fn bisector(px: int, py: int, qx: int, qy: int) -> ExactLine {
    ExactLine {
        a: 2 * (qx - px),
        b: 2 * (qy - py),
        c: (px * px + py * py) - (qx * qx + qy * qy),
    }
}

/// The centre of the circle through three integer points: where the
/// bisectors of the first two and of the last two cross.
pub open spec fn circumcenter(a: ExactPoint, b: ExactPoint, c: ExactPoint) -> ExactPoint
    recommends
        a.w == 1,
        b.w == 1,
        c.w == 1,
{
    meet(bisector(a.x, a.y, b.x, b.y), bisector(b.x, b.y, c.x, c.y))
}

/// The squared distance between two integer points.
pub open spec fn dist_sq(px: int, py: int, qx: int, qy: int) -> int {
    (qx - px) * (qx - px) + (qy - py) * (qy - py)
}

} // verus!
