//! Homing: one run at a time, from its registration to the result its caller polls.

pub mod partial;
pub mod query;
pub mod recovery;
pub mod remote_trigger;
pub mod start;
pub mod state;
pub mod transport_switch;
pub mod trip;
pub mod trip_handler;
