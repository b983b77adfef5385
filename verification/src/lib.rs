//! Host-side motion control: barrier receipts, execution credit, homing
//! lifecycle, stream pacing and the wire framing that carries them.

pub mod endpoint;
pub mod geometry;
pub mod homing;
pub mod host_io;
pub mod mcu_log;
pub mod nurbs;
pub mod pipeline;
pub mod protocol;
pub mod pump;
pub mod runtime_api;
pub mod sorted;
pub mod text;
pub mod worker;
