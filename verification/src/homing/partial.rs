//! Freezing one motor while the run goes on: the request to its mcu, what the reply
//! is worth, and the cut of the motor's stream.

use crate::homing::state::{HomingState, RemoteFreeze};
use crate::text::append_decimal;
use vstd::prelude::*;
use vstd::string::*;

verus! {

/// A request to freeze a stepper, or to let every stepper go.
#[derive(Debug, Clone, Copy, PartialEq, Eq, Structural)]
pub struct StepperSuppress {
    pub motor: u8,
    pub stepper: u8,
    pub engage: u8,
    pub stepper_oid: u8,
}

/// The motor lane a frozen stepper belongs to.
#[derive(Debug, Clone, Copy, PartialEq, Eq, Structural)]
pub struct StepcompressLane {
    pub mcu_id: u32,
    pub axis: u8,
    pub motor: usize,
    pub oid: u32,
}

pub open spec fn oid_text(freeze: RemoteFreeze) -> Seq<char> {
    "StepperSuppress: stepper oid "@ + crate::text::decimal(freeze.stepper_oid as nat)
        + " on mcu "@ + crate::text::decimal(freeze.motor_mcu as nat) + " exceeds u8"@
}

pub open spec fn zero_clock_text(freeze: RemoteFreeze) -> Seq<char> {
    "StepperSuppress on mcu "@ + crate::text::decimal(freeze.motor_mcu as nat)
        + " reported a zero effective clock — the freeze instant is unknown and the trip clock cannot be relayed"@
}

pub open spec fn no_transport_text(freeze: RemoteFreeze) -> Seq<char> {
    "StepperSuppress: no transport for mcu "@ + crate::text::decimal(freeze.motor_mcu as nat)
}

/// The request that freezes the motor; an oid beyond a byte cannot be asked for.
pub fn suppress_request(freeze: RemoteFreeze) -> (request: Result<StepperSuppress, String>)
    ensures
        match request {
            Ok(suppress) => freeze.stepper_oid <= 255 && suppress == (StepperSuppress {
                motor: freeze.motor_idx,
                stepper: freeze.stepper_idx,
                engage: 1,
                stepper_oid: freeze.stepper_oid as u8,
            }),
            Err(reason) => freeze.stepper_oid > 255 && reason@ == oid_text(freeze),
        },
{
    if freeze.stepper_oid > 255 {
        let mut reason = "StepperSuppress: stepper oid ".to_owned();
        append_decimal(&mut reason, freeze.stepper_oid as u64);
        reason.append(" on mcu ");
        append_decimal(&mut reason, freeze.motor_mcu as u64);
        reason.append(" exceeds u8");
        return Err(reason);
    }
    Ok(
        StepperSuppress {
            motor: freeze.motor_idx,
            stepper: freeze.stepper_idx,
            engage: 1,
            stepper_oid: freeze.stepper_oid as u8,
        },
    )
}

/// The request that lets every stepper of an mcu go.
pub fn suppress_clear_request() -> (request: StepperSuppress)
    ensures
        request == (StepperSuppress { motor: 0xff, stepper: 0xff, engage: 0, stepper_oid: 0xff }),
{
    StepperSuppress { motor: 0xff, stepper: 0xff, engage: 0, stepper_oid: 0xff }
}

/// The clock at which the freeze took effect; zero means that the mcu does not know.
pub fn suppress_reply(freeze: RemoteFreeze, effective_clock: u32) -> (clock: Result<u32, String>)
    ensures
        match clock {
            Ok(reported) => effective_clock != 0 && reported == effective_clock,
            Err(reason) => effective_clock == 0 && reason@ == zero_clock_text(freeze),
        },
{
    if effective_clock == 0 {
        let mut reason = "StepperSuppress on mcu ".to_owned();
        append_decimal(&mut reason, freeze.motor_mcu as u64);
        reason.append(
            " reported a zero effective clock — the freeze instant is unknown and the trip clock cannot be relayed",
        );
        return Err(reason);
    }
    Ok(effective_clock)
}

/// The refusal where the motor's mcu cannot be reached.
pub fn no_suppress_transport(freeze: RemoteFreeze) -> (reason: String)
    ensures
        reason@ == no_transport_text(freeze),
{
    let mut reason = "StepperSuppress: no transport for mcu ".to_owned();
    append_decimal(&mut reason, freeze.motor_mcu as u64);
    reason
}

/// What asking a stepper for its position came to.
#[derive(Debug)]
pub enum PositionReply {
    NoHostIo,
    CallFailed(String),
    /// The reply, with its position field where it has one.
    Reply(Option<i32>),
}

pub open spec fn position_of(lane: StepcompressLane, reply: PositionReply) -> Result<
    i64,
    Seq<char>,
> {
    let mcu = crate::text::decimal(lane.mcu_id as nat);
    let oid = crate::text::decimal(lane.oid as nat);
    match reply {
        PositionReply::NoHostIo => Err(
            "stepper_get_position: no host_io for stepcompress mcu "@ + mcu,
        ),
        PositionReply::CallFailed(reason) => Err(
            "stepper_get_position failed for mcu "@ + mcu + " oid "@ + oid + ": "@ + reason@,
        ),
        PositionReply::Reply(None) => Err(
            "stepper_position from mcu "@ + mcu + " oid "@ + oid + " carries no `pos` field"@,
        ),
        PositionReply::Reply(Some(position)) => Ok(position as i64),
    }
}

/// The step count a stepper reports, or why there is none.
pub fn step_count(lane: StepcompressLane, reply: PositionReply) -> (count: Result<i64, String>)
    ensures
        crate::pump::endpoint_control::same_outcome(count, position_of(lane, reply)),
{
    match reply {
        PositionReply::NoHostIo => {
            let mut reason = "stepper_get_position: no host_io for stepcompress mcu ".to_owned();
            append_decimal(&mut reason, lane.mcu_id as u64);
            Err(reason)
        },
        PositionReply::CallFailed(error) => {
            let mut reason = "stepper_get_position failed for mcu ".to_owned();
            append_decimal(&mut reason, lane.mcu_id as u64);
            reason.append(" oid ");
            append_decimal(&mut reason, lane.oid as u64);
            reason.append(": ");
            reason.append(error.as_str());
            Err(reason)
        },
        PositionReply::Reply(None) => {
            let mut reason = "stepper_position from mcu ".to_owned();
            append_decimal(&mut reason, lane.mcu_id as u64);
            reason.append(" oid ");
            append_decimal(&mut reason, lane.oid as u64);
            reason.append(" carries no `pos` field");
            Err(reason)
        },
        PositionReply::Reply(Some(position)) => Ok(position as i64),
    }
}

pub open spec fn no_cut_endpoint_text(lane: StepcompressLane) -> Seq<char> {
    "keyed trip: no shim endpoint registered for mcu "@ + crate::text::decimal(lane.mcu_id as nat)
        + ", so oid "@ + crate::text::decimal(lane.oid as nat) + "'s stream cannot be cut"@
}

pub open spec fn freeze_failed_text(lane: StepcompressLane, reason: Seq<char>) -> Seq<char> {
    "keyed trip: freezing mcu "@ + crate::text::decimal(lane.mcu_id as nat) + " axis "@
        + crate::text::decimal(lane.axis as nat) + " motor "@ + crate::text::decimal(
        lane.motor as nat,
    ) + ": "@ + reason
}

/// What the cut of a motor's stream asks for next.
#[derive(Debug, Clone, Copy, PartialEq, Eq, Structural)]
pub enum CutStep {
    /// Ask the stepper how far it has come.
    ReadPosition { lane: StepcompressLane },
    /// Freeze the motor at the position it has come to.
    Freeze { lane: StepcompressLane, executed: i64 },
    /// The stream is cut.
    Cut,
}

/// The cut starts once the motor's lane is known.
pub fn cut_lane(lane: Result<StepcompressLane, String>) -> (step: Result<CutStep, String>)
    ensures
        step == match lane {
            Ok(lane) => Ok::<CutStep, String>(CutStep::ReadPosition { lane }),
            Err(reason) => Err::<CutStep, String>(reason),
        },
{
    match lane {
        Ok(lane) => Ok(CutStep::ReadPosition { lane }),
        Err(reason) => Err(reason),
    }
}

/// With the position read, the motor is frozen there, provided its mcu has an endpoint.
pub fn cut_position(lane: StepcompressLane, executed: Result<i64, String>, has_endpoint: bool) -> (
step: Result<CutStep, String>)
    ensures
        match executed {
            Err(reason) => step == Err::<CutStep, String>(reason),
            Ok(count) => if has_endpoint {
                step == Ok::<CutStep, String>(CutStep::Freeze { lane, executed: count })
            } else {
                step is Err && step->Err_0@ == no_cut_endpoint_text(lane)
            },
        },
{
    match executed {
        Err(reason) => Err(reason),
        Ok(executed) => {
            if !has_endpoint {
                let mut reason = "keyed trip: no shim endpoint registered for mcu ".to_owned();
                append_decimal(&mut reason, lane.mcu_id as u64);
                reason.append(", so oid ");
                append_decimal(&mut reason, lane.oid as u64);
                reason.append("'s stream cannot be cut");
                return Err(reason);
            }
            Ok(CutStep::Freeze { lane, executed })
        },
    }
}

/// The cut is done once the motor is frozen.
pub fn cut_frozen(lane: StepcompressLane, frozen: Result<(), String>) -> (step: Result<
    CutStep,
    String,
>)
    ensures
        match frozen {
            Ok(()) => step == Ok::<CutStep, String>(CutStep::Cut),
            Err(reason) => step is Err && step->Err_0@ == freeze_failed_text(lane, reason@),
        },
{
    match frozen {
        Ok(()) => Ok(CutStep::Cut),
        Err(error) => {
            let mut reason = "keyed trip: freezing mcu ".to_owned();
            append_decimal(&mut reason, lane.mcu_id as u64);
            reason.append(" axis ");
            append_decimal(&mut reason, lane.axis as u64);
            reason.append(" motor ");
            append_decimal(&mut reason, lane.motor as u64);
            reason.append(": ");
            reason.append(error.as_str());
            Err(reason)
        },
    }
}

pub open spec fn partial_failed_text() -> Seq<char> {
    "partial homing freeze failed"@
}

/// Completes a run that a failed piece of partial work has ended, once the pump was told
/// of its [`LaneCleanup`](crate::homing::state::LaneCleanup).
pub fn complete_failed_partial<P>(state: &mut HomingState<P>, cohort: u64)
    requires
        old(state)@.completing(cohort),
    ensures
        final(state)@ == old(state)@.completed(cohort, Err(partial_failed_text())),
{
    state.complete(cohort, Err("partial homing freeze failed".to_owned()));
}

/// A run that partial work ends fails with that work's error: the error is noted
/// before the run is taken, and stands instead of the general one.
pub proof fn law_partial_error_is_the_runs_error<P>(
    state: crate::homing::state::LifecycleView<P>,
    cohort: u64,
    error: Seq<char>,
)
    requires
        state.settled(),
        !state.consumer_cancelled,
        state.awaits_partial(cohort),
        state.phase is Active,
    ensures
        state.partial_takes(cohort, Some(error)) is Some,
        state.partial_retired(cohort, Some(error)).completing(cohort),
        state.partial_retired(cohort, Some(error)).completed(cohort, Err(partial_failed_text())).phase
            == crate::homing::state::PhaseView::<P>::Finished(cohort, Err(error)),
{
}

/// A stepper's count is the position it reports, and any reply without one is an error.
pub proof fn law_count_is_the_reported_position(
    lane: StepcompressLane,
    reply: PositionReply,
    count: Result<i64, String>,
)
    requires
        call_ensures(step_count, (lane, reply), count),
    ensures
        count is Ok <==> reply is Reply && reply->Reply_0 is Some,
        count matches Ok(position) ==> reply == PositionReply::Reply(Some(position as i32))
            && i32::MIN <= position <= i32::MAX,
{
}

/// A motor is frozen by its own index, stepper and oid, where the oid fits a byte; the
/// request that lets go names every stepper and engages none.
pub proof fn law_freeze_names_its_own_stepper(
    freeze: RemoteFreeze,
    request: Result<StepperSuppress, String>,
    clear: StepperSuppress,
)
    requires
        call_ensures(suppress_request, (freeze,), request),
        call_ensures(suppress_clear_request, (), clear),
    ensures
        request is Ok <==> freeze.stepper_oid < 256,
        request matches Ok(suppress) ==> suppress.motor == freeze.motor_idx && suppress.stepper
            == freeze.stepper_idx && suppress.stepper_oid == freeze.stepper_oid && suppress.engage
            == 1,
        request matches Err(reason) ==> reason@ == "StepperSuppress: stepper oid "@
            + crate::text::decimal(freeze.stepper_oid as nat) + " on mcu "@ + crate::text::decimal(
            freeze.motor_mcu as nat,
        ) + " exceeds u8"@,
        clear.engage == 0,
        clear.motor == u8::MAX && clear.stepper == u8::MAX && clear.stepper_oid == u8::MAX,
{
}

/// A freeze took effect at the clock that was reported, unless that is zero; the refusals
/// name the motor's mcu.
pub proof fn law_freeze_takes_effect_at_its_clock(
    freeze: RemoteFreeze,
    effective_clock: u32,
    clock: Result<u32, String>,
    unreachable_mcu: String,
)
    requires
        call_ensures(suppress_reply, (freeze, effective_clock), clock),
        call_ensures(no_suppress_transport, (freeze,), unreachable_mcu),
    ensures
        clock is Err <==> effective_clock == 0,
        clock is Ok ==> clock->Ok_0 == effective_clock,
        unreachable_mcu@ == "StepperSuppress: no transport for mcu "@ + crate::text::decimal(
            freeze.motor_mcu as nat,
        ),
{
}

/// A cut reads the position of the lane it was given, freezes that lane there where its mcu
/// has an endpoint, and is done once it is frozen; whatever fails on the way is told.
pub proof fn law_cut_freezes_the_lane_it_read(
    lane: Result<StepcompressLane, String>,
    read: Result<CutStep, String>,
    known: StepcompressLane,
    executed: Result<i64, String>,
    has_endpoint: bool,
    frozen_at: Result<CutStep, String>,
    frozen: Result<(), String>,
    done: Result<CutStep, String>,
)
    requires
        call_ensures(cut_lane, (lane,), read),
        call_ensures(cut_position, (known, executed, has_endpoint), frozen_at),
        call_ensures(cut_frozen, (known, frozen), done),
    ensures
        read is Ok <==> lane is Ok,
        lane matches Ok(found) ==> read->Ok_0 == (CutStep::ReadPosition { lane: found }),
        lane matches Err(reason) ==> read->Err_0 == reason,
        frozen_at is Ok <==> executed is Ok && has_endpoint,
        frozen_at matches Ok(step) ==> step == (CutStep::Freeze {
            lane: known,
            executed: executed->Ok_0,
        }),
        executed matches Err(reason) ==> frozen_at->Err_0 == reason,
        executed is Ok && !has_endpoint ==> frozen_at->Err_0@
            == "keyed trip: no shim endpoint registered for mcu "@ + crate::text::decimal(
            known.mcu_id as nat,
        ) + ", so oid "@ + crate::text::decimal(known.oid as nat) + "'s stream cannot be cut"@,
        done is Ok <==> frozen is Ok,
        done is Ok ==> done->Ok_0 is Cut,
        frozen matches Err(reason) ==> done->Err_0@ == "keyed trip: freezing mcu "@
            + crate::text::decimal(known.mcu_id as nat) + " axis "@ + crate::text::decimal(
            known.axis as nat,
        ) + " motor "@ + crate::text::decimal(known.motor as nat) + ": "@ + reason@,
{
}

/// A run ended by partial work is completed as failed: with the failure that was noted, or
/// with the general one.
pub proof fn law_run_ended_by_partial_work_fails<P>(state: &mut HomingState<P>, cohort: u64)
    requires
        old(state)@.completing(cohort),
        !old(state)@.consumer_cancelled,
        call_ensures(complete_failed_partial::<P>, (state, cohort), ()),
    ensures
        final(state)@.phase == crate::homing::state::PhaseView::<P>::Finished(
            cohort,
            Err(
                match old(state)@.failure {
                    Some(failure) => failure,
                    None => "partial homing freeze failed"@,
                },
            ),
        ),
{
}

/// A stepper that tells no position is named with the reason: its mcu, and where it was asked its
/// own number.
pub proof fn law_missing_position_names_its_stepper(
    lane: StepcompressLane,
    reply: PositionReply,
    count: Result<i64, String>,
)
    requires
        call_ensures(step_count, (lane, reply), count),
    ensures
        reply is NoHostIo ==> count->Err_0@
            == "stepper_get_position: no host_io for stepcompress mcu "@ + crate::text::decimal(
            lane.mcu_id as nat,
        ),
        reply matches PositionReply::CallFailed(reason) ==> count->Err_0@
            == "stepper_get_position failed for mcu "@ + crate::text::decimal(lane.mcu_id as nat)
            + " oid "@ + crate::text::decimal(lane.oid as nat) + ": "@ + reason@,
        reply == PositionReply::Reply(None) ==> count->Err_0@ == "stepper_position from mcu "@
            + crate::text::decimal(lane.mcu_id as nat) + " oid "@ + crate::text::decimal(
            lane.oid as nat,
        ) + " carries no `pos` field"@,
{
}

} // verus!
