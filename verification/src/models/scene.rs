//! What a display of the construction starts from: the three given circles
//! and the choice of what is shown.

use crate::models::circle::Circle;
use crate::models::point::Point;
use vstd::prelude::*;

verus! {

/// The three given circles.
#[derive(Clone, Copy, Debug, PartialEq, Eq, Structural)]
pub struct InitialCircles {
    pub circle_1: Circle,
    pub circle_2: Circle,
    pub circle_3: Circle,
}

/// Which parts of the construction are shown.
#[derive(Clone, Copy, Debug, PartialEq, Eq, Structural)]
pub struct DisplayOptions {
    pub show_homothetic: bool,
    pub show_radical: bool,
    pub show_inverse_poles: bool,
    pub show_apollonius_circle_1: bool,
    pub show_apollonius_circle_2: bool,
    pub show_apollonius_circle_3: bool,
    pub show_apollonius_circle_4: bool,
}

impl InitialCircles {
    /// The three circles are well formed.
    pub open spec fn wf(&self) -> bool {
        self.circle_1.wf() && self.circle_2.wf() && self.circle_3.wf()
    }

    /// The three circles in order.
    pub fn as_array(self) -> (res: [Circle; 3])
        ensures
            res@ == seq![self.circle_1, self.circle_2, self.circle_3],
    {
        let res: [Circle; 3] = [self.circle_1, self.circle_2, self.circle_3];
        assert(res@ =~= seq![self.circle_1, self.circle_2, self.circle_3]);
        res
    }

    /// The three circles have one radius.
    pub fn same_radius(self) -> (res: bool)
        ensures
            res == (self.circle_1.radius == self.circle_2.radius && self.circle_2.radius
                == self.circle_3.radius),
    {
        self.circle_1.radius == self.circle_2.radius && self.circle_2.radius
            == self.circle_3.radius
    }
}

impl Default for InitialCircles {
    /// Three circles of different radii, none inside another.
    fn default() -> (res: Self)
        ensures
            res == (InitialCircles {
                circle_1: Circle { center: Point { x: 50, y: 50 }, radius: 35 },
                circle_2: Circle { center: Point { x: (-60i64), y: 10 }, radius: 50 },
                circle_3: Circle { center: Point { x: 40, y: (-30i64) }, radius: 20 },
            }),
            res.wf(),
    {
        Self {
            circle_1: Circle { center: Point { x: 50, y: 50 }, radius: 35 },
            circle_2: Circle { center: Point { x: -60, y: 10 }, radius: 50 },
            circle_3: Circle { center: Point { x: 40, y: -30 }, radius: 20 },
        }
    }
}

impl Default for DisplayOptions {
    /// The radical centre and the four pairs of circles are shown, the
    /// homothetic centres and the poles are not.
    fn default() -> (res: Self)
        ensures
            res == (DisplayOptions {
                show_homothetic: false,
                show_radical: true,
                show_inverse_poles: false,
                show_apollonius_circle_1: true,
                show_apollonius_circle_2: true,
                show_apollonius_circle_3: true,
                show_apollonius_circle_4: true,
            }),
    {
        Self {
            show_homothetic: false,
            show_radical: true,
            show_inverse_poles: false,
            show_apollonius_circle_1: true,
            show_apollonius_circle_2: true,
            show_apollonius_circle_3: true,
            show_apollonius_circle_4: true,
        }
    }
}

} // verus!
