//! The problem of Apollonius on an integer lattice: given three circles,
//! construct the circles that touch all three.
//!
//! The construction follows Gergonne. The homothetic centres of the three
//! circles, taken pair by pair, lie three by three on the four axes of
//! similitude. Each axis has a pole with respect to each circle, and the
//! line from that pole to the radical centre of the three circles cuts the
//! circle in two points. The two circles that belong to an axis pass each
//! through one of these points on every given circle, and touch the given
//! circle there. [`solver::solve`] runs the whole construction;
//! [`services::calc`] holds its steps.
//!
//! All coordinates are integers: the points of the lattice. Every step
//! computes its result as an exact fraction and rounds it to the nearest
//! lattice point, so the unit of the lattice is the tolerance of the
//! construction, and two numbers count as equal only when they are. A
//! result that does not exist (the external homothetic centre of equal
//! circles, the crossing of parallel lines, the circle through three points
//! of one line) is `None`, and so is a result that would lie outside the
//! lattice. What is built on a missing result is missing too.
//!
//! The exact geometry that the steps round is defined in [`exact`], in
//! homogeneous integer coordinates. The theorems about it are proved in
//! [`laws`], among them the theorem of Monge and the concurrence of the
//! radical axes; [`motion`] proves that moving the given circles moves the
//! whole construction with them.

pub mod algebra;
pub mod arith;
pub mod enums;
pub mod exact;
pub mod laws;
pub mod models;
pub mod motion;
pub mod services;
pub mod solver;
