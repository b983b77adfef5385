//! The wire protocol between host and mcu: its version, its channels and the
//! messages that open a session.

pub mod bootstrap;
pub mod result_codes;

use vstd::prelude::*;

verus! {

pub const PROTO_VERSION: u8 = 0x01;

/// The channel that carries pieces of motion.
pub const MCU_CHANNEL_PIECES: u8 = 0x02;

/// The bytes ahead of every message body.
pub const PER_MESSAGE_HEADER_LEN: usize = 7;

} // verus!
