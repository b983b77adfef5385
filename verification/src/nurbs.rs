//! The combinatorics of spline curves: knot vectors, spans, refinement and the shape of
//! a derivative. A knot enters as an order key, an integer that compares with other keys
//! as the knots compare; control points are whatever the caller computes with.

pub mod algebra;
pub mod curve;
pub mod knot;

use vstd::prelude::*;

verus! {

/// Why a curve or a knot vector cannot be built.
#[derive(Debug, Clone, Copy, PartialEq, Eq, Structural)]
pub enum ConstructError {
    KnotCountMismatch { expected: usize, got: usize },
    KnotsNotMonotone,
}

} // verus!
