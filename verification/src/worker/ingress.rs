//! Planning ingress: when to wait for more input, when to brake to rest, and
//! what each control message does to the pipeline.
//!
//! Times are nanoseconds on the host's monotonic clock.

use crate::text::append_decimal;
use crate::worker::dispatch::BarrierAck;
use crate::worker::CommittedFrontier;
use vstd::prelude::*;
use vstd::string::*;

verus! {

/// The least runway the pacer keeps for a brake to rest.
pub const DRAIN_RESERVE_FLOOR_NS: u64 = 500_000_000;

/// How many times the slowest drain the reserve covers.
pub const DRAIN_RESERVE_SAFETY: u64 = 2;

/// How long a fresh stream may gather moves before it must drain.
pub const STARTUP_PRIME_NS: u64 = 250_000_000;

/// What the pacer decides when the inbox is silent.
#[derive(Debug, Clone, Copy, PartialEq, Eq, Structural)]
pub enum PacerStep {
    /// There is provably time to wait this long for more input.
    Wait(u64),
    /// Brake to rest now, so the drained trajectory beats the playhead to the pump.
    Drain,
}

/// Measured runway pacing.
#[derive(Debug, Clone, Copy, PartialEq, Eq, Structural)]
pub struct Pacer {
    /// Since when the pipeline holds moves that were not drained.
    pub undrained_since_ns: Option<u64>,
    /// The slowest drain measured so far.
    pub worst_drain_ns: u64,
}

impl Pacer {
    /// The runway kept for the next drain.
    pub open spec fn spec_reserve_ns(self) -> int {
        let covered = if self.worst_drain_ns * DRAIN_RESERVE_SAFETY > u64::MAX {
            u64::MAX as int
        } else {
            self.worst_drain_ns * DRAIN_RESERVE_SAFETY
        };
        if covered > DRAIN_RESERVE_FLOOR_NS {
            covered
        } else {
            DRAIN_RESERVE_FLOOR_NS as int
        }
    }

    /// How long the stream may still gather before its first drain.
    pub open spec fn spec_prime_left_ns(self, now_ns: u64) -> int {
        match self.undrained_since_ns {
            Some(since) if now_ns < since + STARTUP_PRIME_NS => if now_ns < since {
                STARTUP_PRIME_NS as int
            } else {
                since + STARTUP_PRIME_NS - now_ns
            },
            _ => 0,
        }
    }

    pub open spec fn spec_decide(self, frontier: CommittedFrontier, now_ns: u64) -> PacerStep {
        if frontier.spec_runway_ns(now_ns) > self.spec_reserve_ns() {
            PacerStep::Wait((frontier.spec_runway_ns(now_ns) - self.spec_reserve_ns()) as u64)
        } else if self.spec_prime_left_ns(now_ns) > 0 {
            PacerStep::Wait(self.spec_prime_left_ns(now_ns) as u64)
        } else {
            PacerStep::Drain
        }
    }

    pub fn new() -> (pacer: Self)
        ensures
            pacer == (Pacer { undrained_since_ns: None, worst_drain_ns: 0 }),
    {
        Pacer { undrained_since_ns: None, worst_drain_ns: 0 }
    }

    pub fn reserve_ns(&self) -> (reserve: u64)
        ensures
            reserve == self.spec_reserve_ns(),
    {
        let covered: u64 = match self.worst_drain_ns.checked_mul(DRAIN_RESERVE_SAFETY) {
            Some(covered) => covered,
            None => u64::MAX,
        };
        if covered > DRAIN_RESERVE_FLOOR_NS {
            covered
        } else {
            DRAIN_RESERVE_FLOOR_NS
        }
    }

    /// A move went into the pipeline.
    pub fn note_move(&mut self, now_ns: u64)
        ensures
            *final(self) == (Pacer {
                undrained_since_ns: Some(
                    match old(self).undrained_since_ns {
                        Some(since) => since,
                        None => now_ns,
                    },
                ),
                ..*old(self)
            }),
    {
        if self.undrained_since_ns.is_none() {
            self.undrained_since_ns = Some(now_ns);
        }
    }

    /// Everything in the pipeline is on its way out, or was dropped.
    pub fn note_drain_sent(&mut self)
        ensures
            *final(self) == (Pacer { undrained_since_ns: None, ..*old(self) }),
    {
        self.undrained_since_ns = None;
    }

    /// A drain took `latency_ns` from its request to its ack. `true` where that was
    /// the slowest yet, so the reserve has widened.
    pub fn note_drain(&mut self, latency_ns: u64) -> (slowest: bool)
        ensures
            slowest == (latency_ns > old(self).worst_drain_ns),
            *final(self) == (Pacer {
                worst_drain_ns: if latency_ns > old(self).worst_drain_ns {
                    latency_ns
                } else {
                    old(self).worst_drain_ns
                },
                ..*old(self)
            }),
    {
        if latency_ns > self.worst_drain_ns {
            self.worst_drain_ns = latency_ns;
            true
        } else {
            false
        }
    }

    /// The pacer's one decision. Called when the inbox is silent while the
    /// pipeline holds undrained moves: with runway beyond the reserve there is
    /// provably time to wait for more input, so report how long; at the
    /// reserve, drain.
    pub fn drain_or_runway(&self, frontier: &CommittedFrontier, now_ns: u64) -> (step: PacerStep)
        ensures
            step == self.spec_decide(*frontier, now_ns),
    {
        let runway: u64 = frontier.runway_ns(now_ns);
        let reserve: u64 = self.reserve_ns();
        if runway > reserve {
            return PacerStep::Wait(runway - reserve);
        }
        if let Some(since) = self.undrained_since_ns {
            let elapsed: u64 = now_ns.saturating_sub(since);
            let left: u64 = STARTUP_PRIME_NS.saturating_sub(elapsed);
            if left > 0 {
                return PacerStep::Wait(left);
            }
        }
        PacerStep::Drain
    }
}

// ---------------------------------------------------------------------------
// The receive loop
// ---------------------------------------------------------------------------

/// How a receive from the inbox ended.
#[derive(Debug, Clone, Copy, PartialEq, Eq, Structural)]
pub enum Received {
    Message,
    /// Nothing is there, or nothing came in time.
    Nothing,
    Disconnected,
}

/// What the loop has just heard.
#[derive(Debug, Clone, Copy, PartialEq, Eq, Structural)]
pub enum LoopEvent {
    /// A new turn begins.
    Turn { shutting_down: bool },
    /// The inbox was polled.
    Polled(Received),
    /// The pipeline had an idle turn; `open` is false where the execution owner is gone.
    Idled { open: bool, shutting_down: bool },
    /// The pacer decided.
    Paced(PacerStep),
    /// A wait for the inbox ended.
    Waited(Received),
}

/// What the loop does next.
#[derive(Debug, Clone, Copy, PartialEq, Eq, Structural)]
pub enum LoopAction {
    /// Leave the loop.
    Exit,
    /// Poll the inbox without waiting.
    Poll,
    /// Wait for the inbox as long as it takes.
    WaitForever,
    /// Let the pipeline plan while the inbox is silent.
    Idle,
    /// Ask the pacer.
    Pace,
    /// Wait for the inbox this long.
    WaitFor(u64),
    /// Brake to rest, then take the next turn.
    Drain,
    /// Tell the submitter a slot is free and handle the message.
    Handle,
    /// Brake to rest and leave: the submitters are gone.
    DrainAndExit,
    /// Stop the process: the execution owner closed during idle planning.
    Fatal,
    /// Take the next turn.
    NextTurn,
}

pub open spec fn spec_loop_action(undrained: bool, event: LoopEvent) -> LoopAction {
    match event {
        LoopEvent::Turn { shutting_down } => if shutting_down {
            LoopAction::Exit
        } else if undrained {
            LoopAction::Poll
        } else {
            LoopAction::WaitForever
        },
        LoopEvent::Polled(received) => match received {
            Received::Message => LoopAction::Handle,
            Received::Nothing => LoopAction::Idle,
            Received::Disconnected => LoopAction::DrainAndExit,
        },
        LoopEvent::Idled { open, shutting_down } => if open {
            LoopAction::Pace
        } else if shutting_down {
            LoopAction::Exit
        } else {
            LoopAction::Fatal
        },
        LoopEvent::Paced(step) => match step {
            PacerStep::Wait(wait_ns) => LoopAction::WaitFor(wait_ns),
            PacerStep::Drain => LoopAction::Drain,
        },
        LoopEvent::Waited(received) => match received {
            Received::Message => LoopAction::Handle,
            Received::Nothing => LoopAction::NextTurn,
            Received::Disconnected => LoopAction::DrainAndExit,
        },
    }
}

/// The receive loop's next action.
pub fn loop_action(undrained: bool, event: LoopEvent) -> (action: LoopAction)
    ensures
        action == spec_loop_action(undrained, event),
{
    match event {
        LoopEvent::Turn { shutting_down } => if shutting_down {
            LoopAction::Exit
        } else if undrained {
            LoopAction::Poll
        } else {
            LoopAction::WaitForever
        },
        LoopEvent::Polled(received) => match received {
            Received::Message => LoopAction::Handle,
            Received::Nothing => LoopAction::Idle,
            Received::Disconnected => LoopAction::DrainAndExit,
        },
        LoopEvent::Idled { open, shutting_down } => if open {
            LoopAction::Pace
        } else if shutting_down {
            LoopAction::Exit
        } else {
            LoopAction::Fatal
        },
        LoopEvent::Paced(step) => match step {
            PacerStep::Wait(wait_ns) => LoopAction::WaitFor(wait_ns),
            PacerStep::Drain => LoopAction::Drain,
        },
        LoopEvent::Waited(received) => match received {
            Received::Message => LoopAction::Handle,
            Received::Nothing => LoopAction::NextTurn,
            Received::Disconnected => LoopAction::DrainAndExit,
        },
    }
}

// ---------------------------------------------------------------------------
// Control messages
// ---------------------------------------------------------------------------

/// A control message, as far as the pipeline's order goes; its payload stays with
/// the caller.
#[derive(Debug, Clone, Copy, PartialEq, Eq, Structural)]
pub enum ControlMsg {
    Flush,
    /// Sequence point: resolves with the stream time at which everything
    /// submitted before it ends. `force` drains the pipeline (brake to rest)
    /// so the answer is immediate; otherwise it resolves as the stream
    /// naturally commits past it.
    Fence { id: u64, force: bool },
    /// `positive` where the dwell lasts longer than nothing.
    Dwell { positive: bool },
    Reset,
    SetAxisChains,
    SetMesh,
    HomeDrip { axis: u8 },
    Nudge,
    Buzz,
    Shutdown,
}

/// One step of a control message. The steps of a message run in order.
#[derive(Debug, Clone, Copy, PartialEq, Eq, Structural)]
pub enum ControlStep {
    /// Send a drain, forget the undrained moves, wait for a barrier and note how long
    /// that took.
    DrainAndFence,
    /// Wait for a barrier and adopt the stream time it acknowledges.
    Barrier,
    /// Stop the message with the last ack's error, if it has one.
    StopOnAckError,
    /// Answer with the last ack's result.
    ReplyAck,
    /// Answer that the message is done.
    ReplyDone,
    /// Answer with the outcome of the request itself.
    ReplyVerdict,
    /// Resolve the fence with the last ack's stream time and wake the submitter.
    ResolveFence { id: u64 },
    /// Resolve the fence once the stream commits past this source line.
    ArmFence { id: u64, line: u32 },
    /// Send the dwell, wait for a barrier, and advance the stream time by the dwell
    /// where the barrier acknowledged none.
    Dwell,
    /// Raise the discard gate and clear the frontier.
    RaiseDiscard,
    /// Send the reset in band.
    SendReset,
    /// Nothing is undrained any more.
    ForgetUndrained,
    /// Adopt the message's position and restart the stream at time zero.
    RestartAtPosition,
    /// Send the axis chains.
    SendAxisChains,
    /// Rebase the odometer's height and send the mesh.
    SendMesh,
    /// Build the homing move and adopt its end; stop where it cannot be built.
    BuildHomingMove,
    /// Stop: this axis cannot be homed.
    RefuseHomingAxis { axis: u8 },
    /// Let homing segments into the pump whatever its room.
    OpenHomingAdmission,
    /// Send the homing move and note that the pipeline is undrained.
    SendHomingMove,
    /// Close the homing admission again.
    CloseHomingAdmission,
    /// Plan the nudge from the current stream time; stop where it cannot be planned.
    PlanNudge,
    /// Send the nudge, a dwell over its duration, and advance the stream time.
    SendNudge,
    /// Hand the buzz to the execution owner.
    SendBuzz,
}

/// The steps that drop everything queued and restart the timeline at rest. The
/// discard gate goes up out-of-band (segments already past the shaper are dropped
/// immediately) and the in-band reset lifts it when it catches up, so nothing sent
/// before reaches the pump and everything sent after does.
pub open spec fn reset_steps() -> Seq<ControlStep> {
    seq![
        ControlStep::RaiseDiscard,
        ControlStep::SendReset,
        ControlStep::ForgetUndrained,
        ControlStep::Barrier,
        ControlStep::RestartAtPosition,
    ]
}

/// The steps of a homing drip: dispatch errors are captured while the admission is
/// open, so a failure surfaces to the homing caller.
pub open spec fn home_drip_steps(axis: u8) -> Seq<ControlStep> {
    if axis <= 2 {
        reset_steps() + seq![
            ControlStep::BuildHomingMove,
            ControlStep::OpenHomingAdmission,
            ControlStep::SendHomingMove,
            ControlStep::DrainAndFence,
            ControlStep::CloseHomingAdmission,
            ControlStep::ReplyAck,
        ]
    } else {
        reset_steps() + seq![ControlStep::RefuseHomingAxis { axis }]
    }
}

/// The steps of a control message.
pub open spec fn control_steps(msg: ControlMsg, undrained: bool, last_line: u32) -> Seq<
    ControlStep,
> {
    match msg {
        ControlMsg::Flush => seq![ControlStep::DrainAndFence, ControlStep::ReplyAck],
        ControlMsg::Fence { id, force } => if !undrained {
            seq![ControlStep::Barrier, ControlStep::ResolveFence { id }]
        } else if force {
            seq![ControlStep::DrainAndFence, ControlStep::ResolveFence { id }]
        } else {
            seq![ControlStep::ArmFence { id, line: last_line }]
        },
        ControlMsg::Dwell { positive } => if positive {
            seq![ControlStep::DrainAndFence, ControlStep::Dwell, ControlStep::ReplyDone]
        } else {
            seq![ControlStep::DrainAndFence, ControlStep::ReplyDone]
        },
        ControlMsg::Reset => reset_steps(),
        ControlMsg::SetAxisChains => seq![
            ControlStep::DrainAndFence,
            ControlStep::SendAxisChains,
            ControlStep::Barrier,
        ],
        ControlMsg::SetMesh => seq![
            ControlStep::DrainAndFence,
            ControlStep::SendMesh,
            ControlStep::Barrier,
            ControlStep::ReplyDone,
        ],
        ControlMsg::HomeDrip { axis } => home_drip_steps(axis),
        ControlMsg::Nudge => seq![
            ControlStep::DrainAndFence,
            ControlStep::StopOnAckError,
            ControlStep::PlanNudge,
            ControlStep::SendNudge,
            ControlStep::Barrier,
            ControlStep::ReplyVerdict,
        ],
        ControlMsg::Buzz => seq![
            ControlStep::DrainAndFence,
            ControlStep::StopOnAckError,
            ControlStep::SendBuzz,
            ControlStep::ReplyVerdict,
        ],
        ControlMsg::Shutdown => seq![ControlStep::DrainAndFence],
    }
}

/// The plan of one control message.
#[derive(Debug)]
pub struct ControlPlan {
    pub steps: Vec<ControlStep>,
    /// The loop ends after these steps.
    pub exit: bool,
}

fn push_reset(steps: &mut Vec<ControlStep>)
    ensures
        final(steps)@ == old(steps)@ + reset_steps(),
{
    steps.push(ControlStep::RaiseDiscard);
    steps.push(ControlStep::SendReset);
    steps.push(ControlStep::ForgetUndrained);
    steps.push(ControlStep::Barrier);
    steps.push(ControlStep::RestartAtPosition);
    assert(steps@ =~= old(steps)@ + reset_steps());
}

/// What one control message does, in order, and whether the loop ends with it.
pub fn handle_control(msg: ControlMsg, undrained: bool, last_line: u32) -> (plan: ControlPlan)
    ensures
        plan.steps@ == control_steps(msg, undrained, last_line),
        plan.exit == (msg == ControlMsg::Shutdown),
{
    let mut steps: Vec<ControlStep> = Vec::new();
    let mut exit = false;
    match msg {
        ControlMsg::Flush => {
            steps.push(ControlStep::DrainAndFence);
            steps.push(ControlStep::ReplyAck);
        },
        ControlMsg::Fence { id, force } => {
            if !undrained {
                steps.push(ControlStep::Barrier);
                steps.push(ControlStep::ResolveFence { id });
            } else if force {
                steps.push(ControlStep::DrainAndFence);
                steps.push(ControlStep::ResolveFence { id });
            } else {
                steps.push(ControlStep::ArmFence { id, line: last_line });
            }
        },
        ControlMsg::Dwell { positive } => {
            steps.push(ControlStep::DrainAndFence);
            if positive {
                steps.push(ControlStep::Dwell);
            }
            steps.push(ControlStep::ReplyDone);
        },
        ControlMsg::Reset => {
            push_reset(&mut steps);
        },
        ControlMsg::SetAxisChains => {
            steps.push(ControlStep::DrainAndFence);
            steps.push(ControlStep::SendAxisChains);
            steps.push(ControlStep::Barrier);
        },
        ControlMsg::SetMesh => {
            steps.push(ControlStep::DrainAndFence);
            steps.push(ControlStep::SendMesh);
            steps.push(ControlStep::Barrier);
            steps.push(ControlStep::ReplyDone);
        },
        ControlMsg::HomeDrip { axis } => {
            push_reset(&mut steps);
            if axis <= 2 {
                steps.push(ControlStep::BuildHomingMove);
                steps.push(ControlStep::OpenHomingAdmission);
                steps.push(ControlStep::SendHomingMove);
                steps.push(ControlStep::DrainAndFence);
                steps.push(ControlStep::CloseHomingAdmission);
                steps.push(ControlStep::ReplyAck);
            } else {
                steps.push(ControlStep::RefuseHomingAxis { axis });
            }
        },
        ControlMsg::Nudge => {
            steps.push(ControlStep::DrainAndFence);
            steps.push(ControlStep::StopOnAckError);
            steps.push(ControlStep::PlanNudge);
            steps.push(ControlStep::SendNudge);
            steps.push(ControlStep::Barrier);
            steps.push(ControlStep::ReplyVerdict);
        },
        ControlMsg::Buzz => {
            steps.push(ControlStep::DrainAndFence);
            steps.push(ControlStep::StopOnAckError);
            steps.push(ControlStep::SendBuzz);
            steps.push(ControlStep::ReplyVerdict);
        },
        ControlMsg::Shutdown => {
            steps.push(ControlStep::DrainAndFence);
            exit = true;
        },
    }
    assert(steps@ =~= control_steps(msg, undrained, last_line));
    ControlPlan { steps, exit }
}

pub open spec fn unsupported_axis_text(axis: u8) -> Seq<char> {
    "HomeDrip: unsupported axis "@ + crate::text::decimal(axis as nat) + " (only 0/1/2)"@
}

/// The cartesian axis a homing drip moves along, or why it cannot.
pub fn home_drip_axis(axis: u8) -> (outcome: Result<usize, String>)
    ensures
        match outcome {
            Ok(cartesian) => axis <= 2 && cartesian == axis,
            Err(refusal) => axis > 2 && refusal@ == unsupported_axis_text(axis),
        },
{
    if axis <= 2 {
        Ok(axis as usize)
    } else {
        let mut refusal = "HomeDrip: unsupported axis ".to_owned();
        append_decimal(&mut refusal, axis as u64);
        refusal.append(" (only 0/1/2)");
        Err(refusal)
    }
}

pub open spec fn nudge_axis_text(axis_idx: u8, max_axes: usize) -> Seq<char> {
    "nudge: axis_idx "@ + crate::text::decimal(axis_idx as nat) + " out of range (max "@
        + crate::text::decimal((max_axes - 1) as nat) + ")"@
}

/// Refuses a nudge of an axis the runtime does not have.
pub fn check_nudge_axis(axis_idx: u8, max_axes: usize) -> (outcome: Result<(), String>)
    requires
        max_axes > 0,
    ensures
        outcome is Ok <==> axis_idx < max_axes,
        outcome matches Err(refusal) ==> refusal@ == nudge_axis_text(axis_idx, max_axes),
{
    if axis_idx as usize >= max_axes {
        let mut refusal = "nudge: axis_idx ".to_owned();
        append_decimal(&mut refusal, axis_idx as u64);
        refusal.append(" out of range (max ");
        append_decimal(&mut refusal, (max_axes - 1) as u64);
        refusal.append(")");
        return Err(refusal);
    }
    Ok(())
}

/// The verdict of a nudge: the closing barrier's, its error marked as the nudge's.
pub fn nudge_verdict(barrier: Result<(), String>) -> (verdict: Result<(), String>)
    ensures
        verdict is Ok <==> barrier is Ok,
        verdict matches Err(reason) ==> reason@ == "nudge: "@ + barrier->Err_0@,
{
    match barrier {
        Ok(()) => Ok(()),
        Err(reason) => {
            let mut marked = "nudge: ".to_owned();
            marked.append(reason.as_str());
            Err(marked)
        },
    }
}

/// What an ack means to the ingress: the stream time it mirrors from then on.
pub fn adopt_stream_time<T: Copy>(current: T, acknowledged: Option<T>) -> (adopted: T)
    ensures
        adopted == match acknowledged {
            Some(t) => t,
            None => current,
        },
{
    match acknowledged {
        Some(t) => t,
        None => current,
    }
}

// ---------------------------------------------------------------------------
// What comes back
// ---------------------------------------------------------------------------

pub open spec fn cancelled_text() -> Seq<char> {
    "planning cancelled for shutdown"@
}

/// The ack of a barrier that a shutdown has cancelled.
pub open spec fn is_cancelled<T>(ack: BarrierAck<T>) -> bool {
    ack.dispatched_through is None && ack.result is Err && ack.result->Err_0@ == cancelled_text()
}

fn cancelled_ack<T>() -> (ack: BarrierAck<T>)
    ensures
        is_cancelled(ack),
{
    BarrierAck {
        dispatched_through: None,
        result: Err("planning cancelled for shutdown".to_owned()),
    }
}

/// The ack a barrier was cancelled with before it was sent, where the worker was being
/// shut down by then; else it goes down the pipeline.
pub fn barrier_before_send<T>(shutting_down: bool) -> (ack: Option<BarrierAck<T>>)
    ensures
        ack is Some <==> shutting_down,
        ack matches Some(cancelled) ==> is_cancelled(cancelled),
{
    if shutting_down {
        Some(cancelled_ack())
    } else {
        None
    }
}

/// What a barrier that was sent comes to. `reply` is what came back; where the execution
/// owner dropped it instead, a shutdown has cancelled it, and anything else is fatal.
pub fn barrier_after_send<T>(reply: Option<BarrierAck<T>>, shutting_down: bool) -> (outcome: Result<
    BarrierAck<T>,
    &'static str,
>)
    ensures
        match reply {
            Some(ack) => outcome == Ok::<BarrierAck<T>, &'static str>(ack),
            None => if shutting_down {
                outcome is Ok && is_cancelled(outcome->Ok_0)
            } else {
                outcome is Err && outcome->Err_0@ == "execution owner dropped an intake barrier"@
            },
        },
{
    match reply {
        Some(ack) => Ok(ack),
        None => if shutting_down {
            Ok(cancelled_ack())
        } else {
            Err("execution owner dropped an intake barrier")
        },
    }
}

/// What is fatal about an item that was sent: the execution owner is gone and nobody
/// asked it to go. `shutting_down` is asked for after the item was refused.
pub fn send_fault(taken: bool, shutting_down: bool) -> (fault: Option<&'static str>)
    ensures
        fault is Some <==> !taken && !shutting_down,
        fault matches Some(text) ==> text@ == "execution owner closed during planning"@,
{
    if !taken && !shutting_down {
        Some("execution owner closed during planning")
    } else {
        None
    }
}

/// The stream time after a dwell: what the barrier behind it acknowledged, or, where it
/// acknowledged none, `later`, the time before the dwell moved on by the dwell.
pub fn stream_time_after_dwell<T: Copy>(acknowledged: Option<T>, later: T) -> (adopted: T)
    ensures
        adopted == match acknowledged {
            Some(t) => t,
            None => later,
        },
{
    adopt_stream_time(later, acknowledged)
}

/// What goes down the pipeline for a nudge.
#[derive(Debug, Clone, Copy, PartialEq, Eq, Structural)]
pub enum NudgeItem {
    Nudge,
    /// A dwell over the nudge's duration.
    Dwell,
}

/// A nudge is followed by a dwell only where it lasts longer than nothing.
pub open spec fn nudge_items_of(lasts: bool) -> Seq<NudgeItem> {
    if lasts {
        seq![NudgeItem::Nudge, NudgeItem::Dwell]
    } else {
        seq![NudgeItem::Nudge]
    }
}

/// What goes down the pipeline for a nudge, in order.
pub fn nudge_items(lasts: bool) -> (items: Vec<NudgeItem>)
    ensures
        items@ == nudge_items_of(lasts),
{
    let mut items: Vec<NudgeItem> = Vec::new();
    items.push(NudgeItem::Nudge);
    if lasts {
        items.push(NudgeItem::Dwell);
    }
    assert(items@ =~= nudge_items_of(lasts));
    items
}

/// A slow drain widens the reserve for good: however fast later drains are, the
/// pacer keeps the runway to repeat the slowest one with the safety factor.
pub proof fn law_reserve_covers_the_slowest_drain(before: Pacer, after: Pacer, latency_ns: u64)
    requires
        after.worst_drain_ns == (if latency_ns > before.worst_drain_ns {
            latency_ns
        } else {
            before.worst_drain_ns
        }),
    ensures
        after.spec_reserve_ns() >= before.spec_reserve_ns(),
        after.spec_reserve_ns() >= DRAIN_RESERVE_FLOOR_NS,
        latency_ns * DRAIN_RESERVE_SAFETY <= u64::MAX ==> after.spec_reserve_ns() >= latency_ns
            * DRAIN_RESERVE_SAFETY,
{
    assert(after.worst_drain_ns * DRAIN_RESERVE_SAFETY == 2 * after.worst_drain_ns);
    assert(before.worst_drain_ns * DRAIN_RESERVE_SAFETY == 2 * before.worst_drain_ns);
}

/// A wait never eats into the reserve, except while the stream is still priming:
/// once it ends, the runway left is at least the reserve.
pub proof fn law_waiting_never_eats_the_reserve(
    pacer: Pacer,
    frontier: CommittedFrontier,
    now_ns: u64,
    wait_ns: u64,
)
    requires
        pacer.spec_decide(frontier, now_ns) == PacerStep::Wait(wait_ns),
        now_ns + wait_ns <= u64::MAX,
    ensures
        wait_ns > 0,
        frontier.spec_runway_ns((now_ns + wait_ns) as u64) >= pacer.spec_reserve_ns() || (
        pacer.undrained_since_ns is Some && wait_ns <= STARTUP_PRIME_NS),
{
}

/// Without runway beyond the reserve and past the priming time, the pacer drains.
pub proof fn law_exhausted_runway_drains(pacer: Pacer, frontier: CommittedFrontier, now_ns: u64)
    requires
        frontier.spec_runway_ns(now_ns) <= pacer.spec_reserve_ns(),
        pacer.spec_prime_left_ns(now_ns) == 0,
    ensures
        pacer.spec_decide(frontier, now_ns) == PacerStep::Drain,
{
}

/// Whatever changes the pipeline drains it first, or drops what it holds: no
/// message is adopted between moves that were planned before it.
pub proof fn law_pipeline_changes_start_drained(msg: ControlMsg, undrained: bool, last_line: u32)
    requires
        !(msg is Fence),
    ensures
        control_steps(msg, undrained, last_line)[0] == ControlStep::DrainAndFence
            || control_steps(msg, undrained, last_line)[0] == ControlStep::RaiseDiscard,
{
}

/// A fence is resolved in the same turn or armed, never both, and only a forced one
/// drains a pipeline that holds moves.
pub proof fn law_fence_is_resolved_or_armed(id: u64, force: bool, undrained: bool, last_line: u32)
    ensures
        ({
            let steps = control_steps(ControlMsg::Fence { id, force }, undrained, last_line);
            &&& steps.contains(ControlStep::ResolveFence { id }) <==> !undrained || force
            &&& steps.contains(ControlStep::ArmFence { id, line: last_line }) <==> undrained
                && !force
            &&& steps.contains(ControlStep::DrainAndFence) <==> undrained && force
        }),
{
    let steps = control_steps(ControlMsg::Fence { id, force }, undrained, last_line);
    if !undrained || force {
        assert(steps[1] == (ControlStep::ResolveFence { id }));
        assert(steps[0] == ControlStep::DrainAndFence || steps[0] == ControlStep::Barrier);
    } else {
        assert(steps[0] == (ControlStep::ArmFence { id, line: last_line }));
    }
}

/// A buzz goes out once, behind exactly one drain whose ack carried no error.
pub proof fn law_buzz_is_fenced_once(undrained: bool, last_line: u32, step: int)
    requires
        0 <= step < control_steps(ControlMsg::Buzz, undrained, last_line).len(),
    ensures
        ({
            let steps = control_steps(ControlMsg::Buzz, undrained, last_line);
            &&& steps[step] == ControlStep::SendBuzz <==> step == 2
            &&& steps[step] == ControlStep::DrainAndFence <==> step == 0
            &&& steps[step] == ControlStep::StopOnAckError <==> step == 1
        }),
{
}

/// A nudge goes down a drained pipeline, and the barrier behind it carries its verdict.
pub proof fn law_barrier_follows_the_nudge(undrained: bool, last_line: u32, step: int)
    requires
        0 <= step < control_steps(ControlMsg::Nudge, undrained, last_line).len(),
    ensures
        ({
            let steps = control_steps(ControlMsg::Nudge, undrained, last_line);
            &&& steps[0] == ControlStep::DrainAndFence
            &&& steps[step] == ControlStep::SendNudge ==> steps[step + 1] == ControlStep::Barrier
                && steps[step + 2] == ControlStep::ReplyVerdict
        }),
{
}

/// The discard gate is up before the reset that lifts it goes out, and the stream
/// restarts only behind the barrier that follows the reset.
pub proof fn law_reset_discards_what_came_before(step: int)
    requires
        0 <= step < reset_steps().len(),
    ensures
        reset_steps()[step] == ControlStep::SendReset ==> reset_steps()[step - 1]
            == ControlStep::RaiseDiscard,
        reset_steps()[step] == ControlStep::RestartAtPosition ==> reset_steps()[step - 1]
            == ControlStep::Barrier && reset_steps().take(step).contains(ControlStep::SendReset),
{
    if reset_steps()[step] == ControlStep::RestartAtPosition {
        assert(reset_steps().take(step)[1] == ControlStep::SendReset);
    }
}

/// A homing drip closes the admission it opened, after the drain that needed it.
pub proof fn law_homing_admission_is_closed_again(axis: u8)
    requires
        axis <= 2,
    ensures
        home_drip_steps(axis)[6] == ControlStep::OpenHomingAdmission,
        home_drip_steps(axis)[8] == ControlStep::DrainAndFence,
        home_drip_steps(axis)[9] == ControlStep::CloseHomingAdmission,
{
}

/// `step` is taken once, in place `at`.
pub open spec fn taken_once(steps: Seq<ControlStep>, step: ControlStep, at: int) -> bool {
    &&& 0 <= at < steps.len()
    &&& forall|i: int| 0 <= i < steps.len() ==> (#[trigger] steps[i] == step <==> i == at)
}

/// A dwell with a positive duration is sent once, after the one drain and before the one
/// answer; a dwell without one is answered behind its drain and sends nothing.
pub proof fn law_dwell_is_sent_before_it_is_answered(
    positive: bool,
    undrained: bool,
    last_line: u32,
    plan: ControlPlan,
)
    requires
        call_ensures(
            handle_control,
            (ControlMsg::Dwell { positive }, undrained, last_line),
            plan,
        ),
    ensures
        ({
            let steps = plan.steps@;
            let last = steps.len() - 1;
            &&& taken_once(steps, ControlStep::DrainAndFence, 0)
            &&& taken_once(steps, ControlStep::ReplyDone, last)
            &&& positive <==> exists|at: int| 0 < at < last && #[trigger] taken_once(
                steps,
                ControlStep::Dwell,
                at,
            )
            &&& !positive ==> !steps.contains(ControlStep::Dwell)
        }),
{
    let steps = plan.steps@;
    assert(steps == control_steps(ControlMsg::Dwell { positive }, undrained, last_line));
    if positive {
        assert(taken_once(steps, ControlStep::Dwell, 1));
    }
}

/// The step answers whoever sent the message.
pub open spec fn is_answer(step: ControlStep) -> bool {
    ||| step is ReplyAck
    ||| step is ReplyDone
    ||| step is ReplyVerdict
    ||| step is ResolveFence
    ||| step is ArmFence
    ||| step is RefuseHomingAxis
}

/// The step sends something of its own down the pipeline, or to the execution owner.
pub open spec fn is_sending(step: ControlStep) -> bool {
    ||| step is Dwell
    ||| step is SendReset
    ||| step is SendAxisChains
    ||| step is SendMesh
    ||| step is SendHomingMove
    ||| step is SendNudge
    ||| step is SendBuzz
}

/// Whoever waits for a message is answered once, by its last step: a flush and a homing
/// drip with what their drain came to, a dwell and a mesh that they are done, a nudge and a
/// buzz with their verdict, a fence with its own resolution. A message nobody waits for
/// answers nobody. Only a shutdown ends the loop.
pub proof fn law_every_request_is_answered_once(
    msg: ControlMsg,
    undrained: bool,
    last_line: u32,
    plan: ControlPlan,
)
    requires
        call_ensures(handle_control, (msg, undrained, last_line), plan),
    ensures
        ({
            let steps = plan.steps@;
            let last = steps.last();
            &&& steps.len() > 0
            &&& match msg {
                ControlMsg::Flush => last is ReplyAck,
                ControlMsg::HomeDrip { axis } => if axis <= 2 {
                    last is ReplyAck
                } else {
                    last == (ControlStep::RefuseHomingAxis { axis })
                },
                ControlMsg::Dwell { .. } | ControlMsg::SetMesh => last is ReplyDone,
                ControlMsg::Nudge | ControlMsg::Buzz => last is ReplyVerdict,
                ControlMsg::Fence { id, force } => if undrained && !force {
                    last == (ControlStep::ArmFence { id, line: last_line })
                } else {
                    last == (ControlStep::ResolveFence { id })
                },
                ControlMsg::Reset | ControlMsg::SetAxisChains | ControlMsg::Shutdown => !is_answer(
                    last,
                ),
            }
            &&& forall|i: int| 0 <= i < steps.len() - 1 ==> !is_answer(#[trigger] steps[i])
            &&& plan.exit <==> msg is Shutdown
        }),
{
    assert(plan.steps@ == control_steps(msg, undrained, last_line));
}

/// The step that sends what a message carries, where it carries anything.
pub open spec fn carried(msg: ControlMsg) -> Option<ControlStep> {
    match msg {
        ControlMsg::Dwell { positive } => if positive {
            Some(ControlStep::Dwell)
        } else {
            None
        },
        ControlMsg::Reset => Some(ControlStep::SendReset),
        ControlMsg::SetAxisChains => Some(ControlStep::SendAxisChains),
        ControlMsg::SetMesh => Some(ControlStep::SendMesh),
        ControlMsg::HomeDrip { axis } => if axis <= 2 {
            Some(ControlStep::SendHomingMove)
        } else {
            None
        },
        ControlMsg::Nudge => Some(ControlStep::SendNudge),
        ControlMsg::Buzz => Some(ControlStep::SendBuzz),
        ControlMsg::Flush | ControlMsg::Fence { .. } | ControlMsg::Shutdown => None,
    }
}

/// A message sends what it carries once and nothing else: no other message's payload goes
/// out with it, and what goes out follows the drain of all that was there before, or the
/// discarding of it.
pub proof fn law_message_sends_its_own_once(
    msg: ControlMsg,
    undrained: bool,
    last_line: u32,
    plan: ControlPlan,
    at: int,
)
    requires
        call_ensures(handle_control, (msg, undrained, last_line), plan),
        0 <= at < plan.steps@.len(),
    ensures
        ({
            let steps = plan.steps@;
            &&& carried(msg) matches Some(step) ==> exists|place: int| #[trigger]
                taken_once(steps, step, place)
            &&& msg is HomeDrip ==> exists|place: int| #[trigger]
                taken_once(steps, ControlStep::SendReset, place)
            &&& is_sending(steps[at]) ==> {
                ||| carried(msg) == Some(steps[at])
                ||| msg is HomeDrip && steps[at] is SendReset
            }
            &&& is_sending(steps[at]) ==> at > 0 && (steps[0] is DrainAndFence || steps[0] is RaiseDiscard)
        }),
{
    let steps = plan.steps@;
    assert(steps == control_steps(msg, undrained, last_line));
    match msg {
        ControlMsg::Dwell { positive } => {
            if positive {
                assert(taken_once(steps, ControlStep::Dwell, 1));
            }
        },
        ControlMsg::Reset => {
            assert(taken_once(steps, ControlStep::SendReset, 1));
        },
        ControlMsg::SetAxisChains => {
            assert(taken_once(steps, ControlStep::SendAxisChains, 1));
        },
        ControlMsg::SetMesh => {
            assert(taken_once(steps, ControlStep::SendMesh, 1));
        },
        ControlMsg::HomeDrip { axis } => {
            assert(taken_once(steps, ControlStep::SendReset, 1));
            if axis <= 2 {
                assert(taken_once(steps, ControlStep::SendHomingMove, 7));
            }
        },
        ControlMsg::Nudge => {
            assert(taken_once(steps, ControlStep::SendNudge, 3));
        },
        ControlMsg::Buzz => {
            assert(taken_once(steps, ControlStep::SendBuzz, 2));
        },
        _ => {},
    }
}

/// What goes down the pipeline has arrived before the message goes on: chains, a mesh, a
/// reset and a nudge are each followed by a barrier, and a homing move by the drain that
/// dispatches all of it.
pub proof fn law_what_is_sent_is_waited_for(
    msg: ControlMsg,
    undrained: bool,
    last_line: u32,
    plan: ControlPlan,
    at: int,
)
    requires
        call_ensures(handle_control, (msg, undrained, last_line), plan),
        0 <= at < plan.steps@.len(),
    ensures
        ({
            let steps = plan.steps@;
            let step = steps[at];
            &&& step is SendAxisChains || step is SendMesh || step is SendNudge ==> at + 1
                < steps.len() && steps[at + 1] is Barrier
            &&& step is SendReset ==> at + 3 < steps.len() && steps[at + 1] is ForgetUndrained
                && steps[at + 2] is Barrier && steps[at + 3] is RestartAtPosition
            &&& step is SendHomingMove ==> at + 1 < steps.len() && steps[at + 1] is DrainAndFence
        }),
{
    assert(plan.steps@ == control_steps(msg, undrained, last_line));
}

/// A nudge and a buzz go out only where the drain before them came back without an error,
/// and a nudge only once it is planned; no other message stops on a drain's error.
pub proof fn law_failed_drain_stops_nudge_and_buzz(
    msg: ControlMsg,
    undrained: bool,
    last_line: u32,
    plan: ControlPlan,
    at: int,
)
    requires
        call_ensures(handle_control, (msg, undrained, last_line), plan),
        0 <= at < plan.steps@.len(),
    ensures
        ({
            let steps = plan.steps@;
            &&& steps[at] is SendNudge || steps[at] is SendBuzz ==> at >= 2
                && steps[0] is DrainAndFence && steps[1] is StopOnAckError
            &&& steps[at] is SendNudge ==> steps[at - 1] is PlanNudge
            &&& steps[at] is StopOnAckError ==> msg is Nudge || msg is Buzz
            &&& steps[at] is PlanNudge ==> msg is Nudge
        }),
{
    assert(plan.steps@ == control_steps(msg, undrained, last_line));
}

/// A homing drip restarts the stream before it builds its move, and opens the admission for
/// exactly the time that the move goes out and drains; an axis that cannot be homed restarts
/// the stream and builds nothing.
pub proof fn law_homing_move_goes_out_under_its_admission(
    axis: u8,
    undrained: bool,
    last_line: u32,
    plan: ControlPlan,
)
    requires
        call_ensures(handle_control, (ControlMsg::HomeDrip { axis }, undrained, last_line), plan),
    ensures
        ({
            let steps = plan.steps@;
            &&& steps.len() > 5
            &&& steps[0] is RaiseDiscard && steps[4] is RestartAtPosition
            &&& steps.contains(ControlStep::BuildHomingMove) <==> axis <= 2
            &&& axis <= 2 ==> exists|build: int|
                {
                    &&& 4 < build && build + 5 < steps.len()
                    &&& #[trigger] steps[build] is BuildHomingMove
                    &&& steps[build + 1] is OpenHomingAdmission
                    &&& steps[build + 2] is SendHomingMove
                    &&& steps[build + 3] is DrainAndFence
                    &&& steps[build + 4] is CloseHomingAdmission
                }
        }),
{
    let steps = plan.steps@;
    assert(steps == control_steps(ControlMsg::HomeDrip { axis }, undrained, last_line));
    if axis <= 2 {
        assert(steps[5] is BuildHomingMove);
    }
}

/// The pacer keeps at least half a second, and at least twice the slowest drain as far as a
/// time can hold it; and it keeps no more than one of the two.
pub proof fn law_reserve_is_the_larger_of_floor_and_slowest(pacer: Pacer, reserve: u64)
    requires
        call_ensures(Pacer::reserve_ns, (&pacer,), reserve),
    ensures
        reserve >= 500_000_000,
        reserve >= 2 * pacer.worst_drain_ns || reserve == u64::MAX,
        reserve == 500_000_000 || reserve == 2 * pacer.worst_drain_ns || (reserve == u64::MAX && 2
            * pacer.worst_drain_ns > u64::MAX),
{
    assert(pacer.worst_drain_ns * DRAIN_RESERVE_SAFETY == 2 * pacer.worst_drain_ns);
}

/// The pacer waits exactly until the committed motion is down to the reserve. Without that
/// much motion it waits until a quarter of a second after the first undrained move, and past
/// that it drains.
pub proof fn law_pacer_waits_down_to_the_reserve(
    pacer: Pacer,
    frontier: CommittedFrontier,
    now_ns: u64,
    reserve: u64,
    step: PacerStep,
)
    requires
        call_ensures(Pacer::reserve_ns, (&pacer,), reserve),
        call_ensures(Pacer::drain_or_runway, (&pacer, &frontier, now_ns), step),
    ensures
        ({
            let deadline = match frontier.deadline_ns {
                Some(deadline) => deadline as int,
                None => 0,
            };
            if deadline > now_ns + reserve {
                step matches PacerStep::Wait(wait) && now_ns + wait + reserve == deadline
            } else {
                match pacer.undrained_since_ns {
                    Some(since) => if now_ns < since {
                        step == PacerStep::Wait(250_000_000)
                    } else if now_ns < since + 250_000_000 {
                        step matches PacerStep::Wait(wait) && now_ns + wait == since + 250_000_000
                    } else {
                        step is Drain
                    },
                    None => step is Drain,
                }
            }
        }),
{
}

/// The receive loop waits without an end only where nothing is undrained, handles every
/// message it hears, drains before it leaves where its submitters are gone, and stops the
/// process only where the execution owner went without being asked to.
pub proof fn law_loop_leaves_nothing_behind(undrained: bool, event: LoopEvent, action: LoopAction)
    requires
        call_ensures(loop_action, (undrained, event), action),
    ensures
        action is WaitForever <==> event == (LoopEvent::Turn { shutting_down: false })
            && !undrained,
        action is Poll <==> event == (LoopEvent::Turn { shutting_down: false }) && undrained,
        action is Handle <==> event == LoopEvent::Polled(Received::Message) || event
            == LoopEvent::Waited(Received::Message),
        action is DrainAndExit <==> event == LoopEvent::Polled(Received::Disconnected) || event
            == LoopEvent::Waited(Received::Disconnected),
        action is Idle <==> event == LoopEvent::Polled(Received::Nothing),
        action is NextTurn <==> event == LoopEvent::Waited(Received::Nothing),
        action is Drain <==> event == LoopEvent::Paced(PacerStep::Drain),
        action matches LoopAction::WaitFor(wait) ==> event == LoopEvent::Paced(
            PacerStep::Wait(wait),
        ),
        event matches LoopEvent::Paced(PacerStep::Wait(wait)) ==> action is WaitFor,
        action is Pace <==> event is Idled && event->open,
        action is Fatal <==> event == (LoopEvent::Idled { open: false, shutting_down: false }),
        action is Exit <==> event == (LoopEvent::Turn { shutting_down: true }) || event == (
        LoopEvent::Idled { open: false, shutting_down: true }),
{
}

/// A nudge is sent first, and a dwell over its duration behind it only where it lasts.
pub proof fn law_dwell_covers_a_lasting_nudge(lasts: bool, items: Vec<NudgeItem>)
    requires
        call_ensures(nudge_items, (lasts,), items),
    ensures
        items@.len() > 0 && items@[0] is Nudge,
        forall|i: int| 0 < i < items@.len() ==> #[trigger] items@[i] is Dwell,
        items@.len() == 2 <==> lasts,
        items@.len() <= 2,
{
}

/// A message either drains the pipeline once, before anything else, or discards it once and
/// drains only a homing move; a fence drains it only where it is forced. A barrier is waited
/// for once by each message that sends chains, a mesh, a reset or a nudge, and by a fence
/// that finds the pipeline drained, and by no other.
pub proof fn law_message_drains_or_discards_once(
    msg: ControlMsg,
    undrained: bool,
    last_line: u32,
    plan: ControlPlan,
    at: int,
)
    requires
        call_ensures(handle_control, (msg, undrained, last_line), plan),
        0 <= at < plan.steps@.len(),
    ensures
        ({
            let steps = plan.steps@;
            let discards = msg is Reset || msg is HomeDrip;
            let homes = msg is HomeDrip && msg->axis <= 2;
            &&& !discards && !(msg is Fence) ==> taken_once(steps, ControlStep::DrainAndFence, 0)
            &&& discards ==> taken_once(steps, ControlStep::RaiseDiscard, 0)
            &&& steps[at] is RaiseDiscard ==> discards
            &&& steps[at] is DrainAndFence && discards ==> homes
            &&& steps[at] is DrainAndFence && msg is Fence ==> undrained && msg->force
            &&& steps[at] is Barrier ==> msg is SetAxisChains || msg is SetMesh || msg is Nudge
                || discards || (msg is Fence && !undrained)
            &&& msg is SetAxisChains || msg is SetMesh || msg is Nudge || discards || (msg is Fence
                && !undrained) ==> exists|place: int| #[trigger]
                taken_once(steps, ControlStep::Barrier, place)
            &&& steps[at] is ForgetUndrained || steps[at] is RestartAtPosition ==> discards
            &&& steps[at] is OpenHomingAdmission || steps[at] is CloseHomingAdmission || steps[at]
                is BuildHomingMove ==> homes
        }),
{
    let steps = plan.steps@;
    assert(steps == control_steps(msg, undrained, last_line));
    match msg {
        ControlMsg::SetAxisChains | ControlMsg::SetMesh => {
            assert(taken_once(steps, ControlStep::Barrier, 2));
        },
        ControlMsg::Nudge => {
            assert(taken_once(steps, ControlStep::Barrier, 4));
        },
        ControlMsg::Reset | ControlMsg::HomeDrip { .. } => {
            assert(taken_once(steps, ControlStep::Barrier, 3));
        },
        ControlMsg::Fence { .. } => {
            if !undrained {
                assert(taken_once(steps, ControlStep::Barrier, 0));
            }
        },
        _ => {},
    }
}

/// A fence is resolved with an ack of its own: right behind the barrier it waits for in a
/// drained pipeline, or behind the drain that it forces. A flush is answered right behind
/// its drain.
pub proof fn law_fence_is_resolved_behind_its_own_ack(
    msg: ControlMsg,
    undrained: bool,
    last_line: u32,
    plan: ControlPlan,
    at: int,
)
    requires
        call_ensures(handle_control, (msg, undrained, last_line), plan),
        0 <= at < plan.steps@.len(),
    ensures
        ({
            let steps = plan.steps@;
            &&& steps[at] is ResolveFence ==> at == 1 && if undrained {
                steps[0] is DrainAndFence
            } else {
                steps[0] is Barrier
            }
            &&& steps[at] is ArmFence ==> steps.len() == 1
            &&& steps[at] is ReplyAck && msg is Flush ==> at == 1 && steps[0] is DrainAndFence
        }),
{
    assert(plan.steps@ == control_steps(msg, undrained, last_line));
}

/// A barrier that a shutdown cancels, before it is sent or because its reply was dropped,
/// reports that it was cancelled and nothing as dispatched. A reply that came is passed on,
/// and without a shutdown nothing is cancelled.
pub proof fn law_only_a_shutdown_cancels_a_barrier<T>(
    reply: Option<BarrierAck<T>>,
    shutting_down: bool,
    before: Option<BarrierAck<T>>,
    after: Result<BarrierAck<T>, &'static str>,
)
    requires
        call_ensures(barrier_before_send::<T>, (shutting_down,), before),
        call_ensures(barrier_after_send::<T>, (reply, shutting_down), after),
    ensures
        before is Some <==> shutting_down,
        before matches Some(ack) ==> ack.dispatched_through is None && ack.result is Err
            && ack.result->Err_0@ == "planning cancelled for shutdown"@,
        reply matches Some(ack) ==> after == Ok::<BarrierAck<T>, &'static str>(ack),
        reply is None ==> (after is Ok <==> shutting_down),
        reply is None && shutting_down ==> {
            let ack = after->Ok_0;
            ack.dispatched_through is None && ack.result is Err && ack.result->Err_0@
                == "planning cancelled for shutdown"@
        },
{
}

/// A refused axis is named as it was asked for.
pub proof fn law_refused_axis_is_named(
    axis: u8,
    max_axes: usize,
    homed: Result<usize, String>,
    nudged: Result<(), String>,
)
    requires
        max_axes > 0,
        call_ensures(home_drip_axis, (axis,), homed),
        call_ensures(check_nudge_axis, (axis, max_axes), nudged),
    ensures
        homed is Ok <==> axis <= 2,
        homed is Ok ==> homed->Ok_0 == axis,
        homed is Err ==> homed->Err_0@ == "HomeDrip: unsupported axis "@ + crate::text::decimal(
            axis as nat,
        ) + " (only 0/1/2)"@,
        nudged is Ok <==> axis < max_axes,
        nudged is Err ==> nudged->Err_0@ == "nudge: axis_idx "@ + crate::text::decimal(axis as nat)
            + " out of range (max "@ + crate::text::decimal((max_axes - 1) as nat) + ")"@,
{
}

/// The first move since the last drain sets the time, later ones leave it, and a drain that
/// was sent clears it. The slowest drain is remembered, and each new slowest one is told.
pub proof fn law_pacer_remembers_the_first_move_and_the_slowest_drain(
    moved: &mut Pacer,
    now_ns: u64,
    sent: &mut Pacer,
    drained: &mut Pacer,
    latency_ns: u64,
    slowest: bool,
)
    requires
        call_ensures(Pacer::note_move, (moved, now_ns), ()),
        call_ensures(Pacer::note_drain_sent, (sent,), ()),
        call_ensures(Pacer::note_drain, (drained, latency_ns), slowest),
    ensures
        old(moved).undrained_since_ns is None ==> final(moved).undrained_since_ns == Some(now_ns),
        old(moved).undrained_since_ns is Some ==> final(moved).undrained_since_ns
            == old(moved).undrained_since_ns,
        final(moved).worst_drain_ns == old(moved).worst_drain_ns,
        final(sent).undrained_since_ns is None,
        final(sent).worst_drain_ns == old(sent).worst_drain_ns,
        final(drained).worst_drain_ns >= latency_ns,
        final(drained).worst_drain_ns >= old(drained).worst_drain_ns,
        final(drained).worst_drain_ns == latency_ns || final(drained).worst_drain_ns
            == old(drained).worst_drain_ns,
        slowest <==> latency_ns > old(drained).worst_drain_ns,
        final(drained).undrained_since_ns == old(drained).undrained_since_ns,
{
}

/// An acknowledged time is adopted. Without one the stream time stays, and behind a dwell it
/// moves on by the dwell. A nudge's verdict is its barrier's, marked as the nudge's, and an
/// item that was refused is fatal exactly where no shutdown asked for it.
pub proof fn law_acknowledged_time_is_adopted<T: Copy>(
    current: T,
    acknowledged: Option<T>,
    adopted: T,
    later: T,
    dwelt: T,
    barrier: Result<(), String>,
    verdict: Result<(), String>,
    taken: bool,
    shutting_down: bool,
    fault: Option<&'static str>,
)
    requires
        call_ensures(adopt_stream_time::<T>, (current, acknowledged), adopted),
        call_ensures(stream_time_after_dwell::<T>, (acknowledged, later), dwelt),
        call_ensures(nudge_verdict, (barrier,), verdict),
        call_ensures(send_fault, (taken, shutting_down), fault),
    ensures
        acknowledged matches Some(t) ==> adopted == t && dwelt == t,
        acknowledged is None ==> adopted == current && dwelt == later,
        verdict is Ok <==> barrier is Ok,
        barrier matches Err(reason) ==> verdict->Err_0@ == "nudge: "@ + reason@,
        fault is None <==> taken || shutting_down,
{
}

} // verus!
