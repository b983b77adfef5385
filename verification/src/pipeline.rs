//! The stages between fitted moves and the trajectory: when the planner plans and what
//! it commits, and what the lowering stage emits around each planned move.

pub mod jerk;
pub mod lowerer;
pub mod planner;
pub mod timing;
pub mod window;
