//! What the planner decides about a fitted path. Curves, angles and speeds are floating
//! point and stay with the caller; a speed enters here as an order key, an integer that
//! compares with other keys as the speeds compare.

pub mod ease;
pub mod error;
pub mod reconstruct;
pub mod velocity;
