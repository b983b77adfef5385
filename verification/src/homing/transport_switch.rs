//! Moving a lane between its two transports.
//!
//! The switch is a transport cut, so it is ordered, not merely announced: the pump is
//! drained, the outgoing transport must have come to rest, and only the position it
//! rests at seeds the incoming one.

use crate::pump::endpoint_control::{
    missing_binding, transport_name, TRANSPORT_PHASE, TRANSPORT_PULSE,
};
use crate::pump::lanes::AxisKey;
use crate::text::append_decimal;
use vstd::prelude::*;
use vstd::string::*;

verus! {

/// How long the outgoing transport may take to come to rest.
pub const SWITCH_DEADLINE_NS: u64 = 5_000_000_000;

/// What a switch does first.
#[derive(Debug, Clone, Copy, PartialEq, Eq, Structural)]
pub enum SwitchStart {
    /// The lane is there already.
    AlreadyThere,
    /// Drain the pump, then ask for handovers from this transport.
    Drain { from: u8 },
}

/// What follows a handover's answer.
#[derive(Debug)]
pub enum SwitchStep {
    Switched { executed: i64 },
    /// Ask again in a moment.
    Retry,
    TimedOut(String),
}

pub open spec fn unknown_mode_text(mode: u8) -> Seq<char> {
    "switch_axis_transport: unknown transport "@ + crate::text::decimal(mode as nat)
        + "; known: "@ + crate::text::decimal(TRANSPORT_PULSE as nat) + "=pulse, "@
        + crate::text::decimal(TRANSPORT_PHASE as nat) + "=phase"@
}

pub open spec fn in_flight_text(key: AxisKey, from: u8) -> Seq<char> {
    "switch_axis_transport: mcu "@ + crate::text::decimal(key.mcu_id as nat) + " axis "@
        + crate::text::decimal(key.axis as nat) + " still has motion in flight on its "@
        + crate::pump::endpoint_control::transport_name_text(from)
        + " transport after a 5s drain wait"@
}

/// Whether the lane can be switched, and whether it has to be.
pub fn begin_switch(key: AxisKey, mode: u8, supported: bool, current: u8) -> (start: Result<
    SwitchStart,
    String,
>)
    ensures
        if mode != TRANSPORT_PULSE && mode != TRANSPORT_PHASE {
            start is Err && start->Err_0@ == unknown_mode_text(mode)
        } else if !supported {
            start is Err && start->Err_0@
                == crate::pump::endpoint_control::missing_binding_text(key, mode)
        } else if current == mode {
            start == Ok::<SwitchStart, String>(SwitchStart::AlreadyThere)
        } else {
            start == Ok::<SwitchStart, String>(SwitchStart::Drain { from: current })
        },
{
    if mode != TRANSPORT_PULSE && mode != TRANSPORT_PHASE {
        let mut refusal = "switch_axis_transport: unknown transport ".to_owned();
        append_decimal(&mut refusal, mode as u64);
        refusal.append("; known: ");
        append_decimal(&mut refusal, TRANSPORT_PULSE as u64);
        refusal.append("=pulse, ");
        append_decimal(&mut refusal, TRANSPORT_PHASE as u64);
        refusal.append("=phase");
        return Err(refusal);
    }
    if !supported {
        return Err(missing_binding(key, mode));
    }
    if current == mode {
        return Ok(SwitchStart::AlreadyThere);
    }
    Ok(SwitchStart::Drain { from: current })
}

/// What follows one handover's answer: the position, another try, or giving up once the
/// deadline has passed.
pub fn handover_answered(
    key: AxisKey,
    from: u8,
    executed: Option<i64>,
    waited_ns: u64,
) -> (step: SwitchStep)
    ensures
        match executed {
            Some(position) => step == (SwitchStep::Switched { executed: position }),
            None => if waited_ns >= SWITCH_DEADLINE_NS {
                step matches SwitchStep::TimedOut(reason) && reason@ == in_flight_text(key, from)
            } else {
                step == SwitchStep::Retry
            },
        },
{
    match executed {
        Some(executed) => SwitchStep::Switched { executed },
        None => {
            if waited_ns < SWITCH_DEADLINE_NS {
                return SwitchStep::Retry;
            }
            let mut reason = "switch_axis_transport: mcu ".to_owned();
            append_decimal(&mut reason, key.mcu_id as u64);
            reason.append(" axis ");
            append_decimal(&mut reason, key.axis as u64);
            reason.append(" still has motion in flight on its ");
            reason.append(transport_name(from));
            reason.append(" transport after a 5s drain wait");
            SwitchStep::TimedOut(reason)
        },
    }
}

/// A lane is switched to pulse or phase alone, and only where it is bound to it. One that is
/// there already is left; any other is drained from the transport it runs on.
pub proof fn law_switch_drains_the_current_transport(
    key: AxisKey,
    mode: u8,
    supported: bool,
    current: u8,
    start: Result<SwitchStart, String>,
)
    requires
        call_ensures(begin_switch, (key, mode, supported, current), start),
    ensures
        start is Ok <==> mode <= 1 && supported,
        start matches Ok(SwitchStart::AlreadyThere) ==> current == mode,
        start matches Ok(SwitchStart::Drain { from }) ==> from == current && current != mode,
        mode > 1 ==> start->Err_0@ == "switch_axis_transport: unknown transport "@
            + crate::text::decimal(mode as nat) + "; known: "@ + crate::text::decimal(0)
            + "=pulse, "@ + crate::text::decimal(1) + "=phase"@,
{
}

/// An answered handover switches at the position it tells. One without an answer is tried
/// again until five seconds have passed, and then given up.
pub proof fn law_handover_is_tried_for_five_seconds(
    key: AxisKey,
    from: u8,
    executed: Option<i64>,
    waited_ns: u64,
    step: SwitchStep,
)
    requires
        call_ensures(handover_answered, (key, from, executed, waited_ns), step),
    ensures
        step is Switched <==> executed is Some,
        step is Switched ==> step->executed == executed->0,
        step is Retry <==> executed is None && waited_ns < 5_000_000_000,
        step is TimedOut <==> executed is None && waited_ns >= 5_000_000_000,
{
}

} // verus!
