//! What an mcu answers to a dispatch, as numbers.

use vstd::prelude::*;

verus! {

pub const OK: i32 = 0;

pub const RING_FULL: i32 = -309;

pub const STREAM_HALTED: i32 = -142;

/// The EtherCAT endpoint's sample-run gate, distinct from the mcu runtime's.
pub const EC_PIECES_WHILE_HALTED: i32 = -315;

} // verus!
