//! The motion pump: what was sent to each lane, what came back, and what is owed.

pub mod barrier_ledger;
pub mod buzz;
pub mod drip;
pub mod endpoint_control;
pub mod execution_credit;
pub mod lanes;
pub mod transit_trace;
