//! The host's side of an mcu link: events coming up, commands going down, and the
//! retransmission timer between them.

pub mod command;
pub mod events;
pub mod parser;
pub mod rtt;
