//! Latency clocks of the pipeline stages.

use vstd::prelude::*;

verus! {

/// A stage phase that runs longer than this is attributed by one record. The shaper's
/// whole budget is the anchor lead, so a single phase burning 20ms is already a
/// scheduling event.
pub const SLOW_PHASE_US: u128 = 20_000;

/// Whether a phase that took `elapsed_us` is recorded.
pub fn is_slow_phase(elapsed_us: u128) -> (slow: bool)
    ensures
        slow == (elapsed_us >= 20_000),
{
    elapsed_us >= SLOW_PHASE_US
}

/// The timestamp of a time elapsed since the process-wide epoch. A clock past the last
/// representable timestamp stays there.
pub open spec fn stamp(elapsed_us: u128) -> u64 {
    if elapsed_us <= u64::MAX {
        elapsed_us as u64
    } else {
        u64::MAX
    }
}

/// A timestamp in microseconds. All stages share the epoch, so the difference of two
/// timestamps is the latency between them.
pub fn mono_us(elapsed_us: u128) -> (at: u64)
    ensures
        at == stamp(elapsed_us),
{
    if elapsed_us <= 0xffff_ffff_ffff_ffff {
        elapsed_us as u64
    } else {
        u64::MAX
    }
}

/// Later times never get earlier timestamps, and the difference of two timestamps is the
/// time between them while the clock is in range.
pub proof fn law_timestamps_measure_latency(earlier: u128, later: u128)
    requires
        earlier <= later,
    ensures
        stamp(earlier) <= stamp(later),
        later <= u64::MAX ==> stamp(later) - stamp(earlier) == later - earlier,
{
}

/// A time that a timestamp can hold is its own timestamp; 20 ms is the shortest phase that
/// is recorded.
pub proof fn law_phase_is_slow_from_20_ms_on(elapsed_us: u128, slow: bool, at: u64)
    requires
        call_ensures(is_slow_phase, (elapsed_us,), slow),
        call_ensures(mono_us, (elapsed_us,), at),
    ensures
        slow <==> elapsed_us >= 20 * 1000,
        elapsed_us <= u64::MAX ==> at == elapsed_us,
        elapsed_us > u64::MAX ==> at == u64::MAX,
{
}

} // verus!
