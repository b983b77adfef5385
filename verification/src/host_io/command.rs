//! Commands to the reactor that drives one mcu's wire.
//!
//! The reactor's queues, callbacks and the wire itself are the caller's. What is
//! decided here is which of them a command touches, what state it leaves behind, and
//! what its submitter is answered when it cannot be carried out.

use std::collections::HashMap;
use vstd::prelude::*;
use vstd::std_specs::hash::group_hash_axioms;
use vstd::string::*;

verus! {

broadcast use group_hash_axioms;

/// A batch that waited longer than this for the reactor is worth a warning.
pub const CHANNEL_WAIT_WARN_NS: u64 = 20_000_000;

/// The least time between two such warnings.
pub const CHANNEL_WAIT_WARN_PERIOD_NS: u64 = 500_000_000;

/// Why a request was not carried out.
#[derive(Debug)]
pub enum TransportError {
    /// Another request of the kind is still underway.
    Backpressure,
    Parse(String),
    Io(String),
}

/// A command, as far as the reactor's state goes; payloads and callbacks stay with the
/// caller.
#[derive(Debug, Clone, Copy, PartialEq, Eq, Structural)]
pub enum ReactorCommand {
    Call { call_id: u64 },
    Abandon { call_id: u64 },
    Shutdown,
    MarkExpectedDisconnect,
    AttachHeartbeatCallback,
    SetMcuLogHook,
    SubscribeFault,
    SubscribeRuntimeEvents,
    FireAndForget,
    FireAndForgetBatch { enqueued_at_ns: u64 },
    McuIdentify,
    McuCall,
    GetClockAndDeliver,
    Noop,
    RegisterInterceptor,
    UnregisterInterceptor { id: u64 },
}

/// What the caller does about a command.
#[derive(Debug, Clone, Copy, PartialEq, Eq, Structural)]
pub enum CommandAction {
    Nothing,
    /// Submit the call; close the link on an io fault and answer with the error.
    SubmitCall { call_id: u64 },
    MarkAbandoned { call_id: u64 },
    /// Keep the callback for heartbeats.
    KeepHeartbeatCallback,
    /// Keep the hook for log messages.
    KeepLogHook,
    /// Subscribe to the fault latch and answer with the outcome.
    SubscribeFault,
    /// Subscribe to the event lanes and answer with the outcome.
    SubscribeEvents,
    /// Send one payload; close the link on an io fault.
    SendPayload,
    /// Send a batch, having warned where the wait is given.
    SendBatch { warn_waited_ns: Option<u64> },
    /// Start an identification.
    Identify,
    /// Start a call of the mcu.
    CallMcu,
    /// Ask the mcu's clock, and deliver it when it comes.
    AskClock,
    /// Register the interceptor and answer with its number.
    Register,
    Unregister { id: u64 },
}

/// The reactor's state that commands change.
#[derive(Debug, Clone, Copy, PartialEq, Eq, Structural)]
pub struct ReactorFlags {
    pub closed: bool,
    /// The link went down because it was asked to.
    pub closed_via_shutdown: bool,
    pub last_channel_wait_warn_ns: u64,
}

/// How long a batch waited, where that is worth a warning now.
pub open spec fn wait_to_warn_of(flags: ReactorFlags, enqueued_at_ns: u64, now_ns: u64) -> Option<
    u64,
> {
    if now_ns - enqueued_at_ns > CHANNEL_WAIT_WARN_NS && now_ns - flags.last_channel_wait_warn_ns
        >= CHANNEL_WAIT_WARN_PERIOD_NS {
        Some((now_ns - enqueued_at_ns) as u64)
    } else {
        None
    }
}

pub open spec fn action_for(flags: ReactorFlags, command: ReactorCommand, now_ns: u64)
    -> CommandAction {
    match command {
        ReactorCommand::Call { call_id } => CommandAction::SubmitCall { call_id },
        ReactorCommand::Abandon { call_id } => CommandAction::MarkAbandoned { call_id },
        ReactorCommand::Shutdown => CommandAction::Nothing,
        ReactorCommand::MarkExpectedDisconnect => CommandAction::Nothing,
        ReactorCommand::AttachHeartbeatCallback => CommandAction::KeepHeartbeatCallback,
        ReactorCommand::SetMcuLogHook => CommandAction::KeepLogHook,
        ReactorCommand::SubscribeFault => CommandAction::SubscribeFault,
        ReactorCommand::SubscribeRuntimeEvents => CommandAction::SubscribeEvents,
        ReactorCommand::FireAndForget => CommandAction::SendPayload,
        ReactorCommand::FireAndForgetBatch { enqueued_at_ns } => CommandAction::SendBatch {
            warn_waited_ns: wait_to_warn_of(flags, enqueued_at_ns, now_ns),
        },
        ReactorCommand::McuIdentify => CommandAction::Identify,
        ReactorCommand::McuCall => CommandAction::CallMcu,
        ReactorCommand::GetClockAndDeliver => CommandAction::AskClock,
        ReactorCommand::Noop => CommandAction::Nothing,
        ReactorCommand::RegisterInterceptor => CommandAction::Register,
        ReactorCommand::UnregisterInterceptor { id } => CommandAction::Unregister { id },
    }
}

pub open spec fn flags_after(flags: ReactorFlags, command: ReactorCommand, now_ns: u64)
    -> ReactorFlags {
    match command {
        ReactorCommand::Shutdown => ReactorFlags {
            closed: true,
            closed_via_shutdown: true,
            ..flags
        },
        ReactorCommand::MarkExpectedDisconnect => ReactorFlags {
            closed_via_shutdown: true,
            ..flags
        },
        ReactorCommand::FireAndForgetBatch { enqueued_at_ns } => if wait_to_warn_of(
            flags,
            enqueued_at_ns,
            now_ns,
        ) is Some {
            ReactorFlags { last_channel_wait_warn_ns: now_ns, ..flags }
        } else {
            flags
        },
        _ => flags,
    }
}

impl ReactorFlags {
    /// What a command does to the reactor, and what is left to the caller.
    pub fn handle_command(&mut self, command: ReactorCommand, now_ns: u64) -> (action:
        CommandAction)
        ensures
            action == action_for(*old(self), command, now_ns),
            *final(self) == flags_after(*old(self), command, now_ns),
    {
        match command {
            ReactorCommand::Call { call_id } => CommandAction::SubmitCall { call_id },
            ReactorCommand::Abandon { call_id } => CommandAction::MarkAbandoned { call_id },
            ReactorCommand::Shutdown => {
                self.closed = true;
                self.closed_via_shutdown = true;
                CommandAction::Nothing
            },
            ReactorCommand::MarkExpectedDisconnect => {
                self.closed_via_shutdown = true;
                CommandAction::Nothing
            },
            ReactorCommand::AttachHeartbeatCallback => CommandAction::KeepHeartbeatCallback,
            ReactorCommand::SetMcuLogHook => CommandAction::KeepLogHook,
            ReactorCommand::SubscribeFault => CommandAction::SubscribeFault,
            ReactorCommand::SubscribeRuntimeEvents => CommandAction::SubscribeEvents,
            ReactorCommand::FireAndForget => CommandAction::SendPayload,
            ReactorCommand::FireAndForgetBatch { enqueued_at_ns } => {
                let waited_ns: u64 = now_ns.saturating_sub(enqueued_at_ns);
                let quiet_ns: u64 = now_ns.saturating_sub(self.last_channel_wait_warn_ns);
                if waited_ns > CHANNEL_WAIT_WARN_NS && quiet_ns >= CHANNEL_WAIT_WARN_PERIOD_NS {
                    self.last_channel_wait_warn_ns = now_ns;
                    CommandAction::SendBatch { warn_waited_ns: Some(waited_ns) }
                } else {
                    CommandAction::SendBatch { warn_waited_ns: None }
                }
            },
            ReactorCommand::McuIdentify => CommandAction::Identify,
            ReactorCommand::McuCall => CommandAction::CallMcu,
            ReactorCommand::GetClockAndDeliver => CommandAction::AskClock,
            ReactorCommand::Noop => CommandAction::Nothing,
            ReactorCommand::RegisterInterceptor => CommandAction::Register,
            ReactorCommand::UnregisterInterceptor { id } => CommandAction::Unregister { id },
        }
    }
}

// ---------------------------------------------------------------------------
// Batches
// ---------------------------------------------------------------------------

/// Where a batch stands.
#[derive(Debug, Clone, Copy, PartialEq, Eq, Structural)]
pub enum BatchStage {
    /// This block goes out next.
    Sending { block: usize },
    /// The reservation is given back, and the batch is over.
    Over { unsent: usize },
}

/// The place in the reactor that an error of a batch's block is told from.
pub const BATCH_FAULT_CONTEXT: &'static str = "handle_command/fire_and_forget_batch";

/// What the caller does next about a batch.
#[derive(Debug)]
pub enum BatchAnswer {
    /// Send this block, without giving anything back.
    Send { block: usize },
    /// Every block is out: release the reservation.
    Done { release: usize },
    /// The burst cannot be framed: release the reservation and report `detail`.
    Unpackable { release: usize, detail: String },
    /// A block failed: release the reservation, report the error, then close the link if
    /// the error is an io fault, told from `context`.
    Failed { release: usize, context: &'static str, error: TransportError },
}

impl BatchAnswer {
    /// The reservation that this answer gives back.
    pub open spec fn released(self) -> Option<usize> {
        match self {
            BatchAnswer::Send { .. } => None,
            BatchAnswer::Done { release } => Some(release),
            BatchAnswer::Unpackable { release, .. } => Some(release),
            BatchAnswer::Failed { release, .. } => Some(release),
        }
    }
}

/// A batch of blocks whose place in the queue was reserved. The blocks go out in order;
/// a block that fails ends the batch, rather than later blocks going out ahead of it.
#[derive(Debug, Clone, Copy, PartialEq, Eq, Structural)]
pub struct FireAndForgetBatch {
    pub blocks: usize,
    pub reserved_blocks: usize,
    pub stage: BatchStage,
}

/// The batch of a burst as it starts: over at once where it packs into no block or
/// cannot be packed.
pub open spec fn batch_of(packed: Result<usize, String>, reserved_blocks: usize)
    -> FireAndForgetBatch {
    let blocks = match packed {
        Ok(blocks) => blocks,
        Err(_) => 0,
    };
    FireAndForgetBatch {
        blocks,
        reserved_blocks,
        stage: if blocks == 0 {
            BatchStage::Over { unsent: 0 }
        } else {
            BatchStage::Sending { block: 0 }
        },
    }
}

impl FireAndForgetBatch {
    /// Each block on its way is one of the batch's.
    pub open spec fn wf(self) -> bool {
        match self.stage {
            BatchStage::Sending { block } => block < self.blocks,
            BatchStage::Over { unsent } => unsent <= self.blocks,
        }
    }

    /// The batch of a burst, which was packed into that many blocks or cannot be packed,
    /// and what to do first. An unpackable burst puts no block on the wire.
    pub fn start(packed: Result<usize, String>, reserved_blocks: usize) -> (started: (
        Self,
        BatchAnswer,
    ))
        ensures
            started.0.wf(),
            started.0 == batch_of(packed, reserved_blocks),
            started.1.released() == if started.0.stage is Over {
                Some(reserved_blocks)
            } else {
                None
            },
            match packed {
                Ok(blocks) => started.1 == if blocks == 0 {
                    BatchAnswer::Done { release: reserved_blocks }
                } else {
                    BatchAnswer::Send { block: 0 }
                },
                Err(detail) => started.1 == (BatchAnswer::Unpackable {
                    release: reserved_blocks,
                    detail,
                }),
            },
    {
        match packed {
            Ok(blocks) => if blocks == 0 {
                (
                    FireAndForgetBatch {
                        blocks,
                        reserved_blocks,
                        stage: BatchStage::Over { unsent: 0 },
                    },
                    BatchAnswer::Done { release: reserved_blocks },
                )
            } else {
                (
                    FireAndForgetBatch {
                        blocks,
                        reserved_blocks,
                        stage: BatchStage::Sending { block: 0 },
                    },
                    BatchAnswer::Send { block: 0 },
                )
            },
            Err(detail) => (
                FireAndForgetBatch {
                    blocks: 0,
                    reserved_blocks,
                    stage: BatchStage::Over { unsent: 0 },
                },
                BatchAnswer::Unpackable { release: reserved_blocks, detail },
            ),
        }
    }

    /// Takes in how the block went, and says what to do next. The reservation is given
    /// back once, when the last block is out or one has failed; the error of a failed
    /// block goes on to the io-fault check.
    pub fn sent(&mut self, outcome: Result<(), TransportError>) -> (answer: BatchAnswer)
        requires
            old(self).wf(),
            old(self).stage is Sending,
        ensures
            final(self).wf(),
            *final(self) == (FireAndForgetBatch {
                stage: stage_after(*old(self), outcome is Ok),
                ..*old(self)
            }),
            answer.released() == if final(self).stage is Over {
                Some(old(self).reserved_blocks)
            } else {
                None
            },
            match outcome {
                Ok(()) => answer == match final(self).stage {
                    BatchStage::Sending { block } => BatchAnswer::Send { block },
                    BatchStage::Over { .. } => BatchAnswer::Done {
                        release: old(self).reserved_blocks,
                    },
                },
                Err(error) => {
                    &&& answer is Failed
                    &&& answer->Failed_release == old(self).reserved_blocks
                    &&& answer->Failed_error == error
                    &&& answer->context@ == BATCH_FAULT_CONTEXT@
                },
            },
    {
        let reserved: usize = self.reserved_blocks;
        match (outcome, self.stage) {
            (Err(error), BatchStage::Sending { block }) => {
                self.stage = BatchStage::Over { unsent: self.blocks - block };
                BatchAnswer::Failed { release: reserved, context: BATCH_FAULT_CONTEXT, error }
            },
            (Ok(()), BatchStage::Sending { block }) => {
                if block + 1 == self.blocks {
                    self.stage = BatchStage::Over { unsent: 0 };
                    BatchAnswer::Done { release: reserved }
                } else {
                    self.stage = BatchStage::Sending { block: block + 1 };
                    BatchAnswer::Send { block: block + 1 }
                }
            },
            (_, BatchStage::Over { .. }) => BatchAnswer::Done { release: reserved },
        }
    }
}

/// The stage after one block went out or failed.
pub open spec fn stage_after(batch: FireAndForgetBatch, succeeded: bool) -> BatchStage {
    match batch.stage {
        BatchStage::Sending { block } => if !succeeded {
            BatchStage::Over { unsent: (batch.blocks - block) as usize }
        } else if block + 1 == batch.blocks {
            BatchStage::Over { unsent: 0 }
        } else {
            BatchStage::Sending { block: (block + 1) as usize }
        },
        over => over,
    }
}

// ---------------------------------------------------------------------------
// Single requests
// ---------------------------------------------------------------------------

/// The place in the reactor that an error of a call is told from.
pub const CALL_FAULT_CONTEXT: &'static str = "handle_command/call";

/// The place that an error of a single payload is told from.
pub const PAYLOAD_FAULT_CONTEXT: &'static str = "handle_command/fire_and_forget";

/// The place that an error of an identification is told from.
pub const IDENTIFY_FAULT_CONTEXT: &'static str = "handle_command/mcu_identify";

/// The place that an error of an mcu call is told from.
pub const MCU_CALL_FAULT_CONTEXT: &'static str = "handle_command/mcu_call";

/// The place that an error of a clock request is told from.
pub const CLOCK_FAULT_CONTEXT: &'static str = "handle_command/get_clock_and_deliver";

/// Who is answered with the error of a request that could not be sent.
#[derive(Debug, Clone, Copy, PartialEq, Eq, Structural)]
pub enum ErrorReply {
    Nobody,
    Submitter,
    /// Who waits for the identification, as [`McuSession::identify_write_failed`] says.
    PendingIdentify,
    /// Who waits for this call, as [`McuSession::call_write_failed`] says.
    PendingCall { correlation_id: u32 },
}

/// What the caller does about a request once it was to go out.
#[derive(Debug)]
pub enum SendAnswer {
    /// It is out.
    Done,
    /// It could not be encoded: report `detail`. Nothing was sent, and the link stays.
    Report { detail: String },
    /// It could not be sent: close the link if the error is an io fault, told from
    /// `context`, and only then answer with the error.
    Failed { context: &'static str, error: TransportError, reply: ErrorReply },
}

impl SendAnswer {
    /// This answer to a request that went out, or failed with an error.
    pub open spec fn answers(
        self,
        outcome: Result<(), TransportError>,
        context: Seq<char>,
        reply: ErrorReply,
    ) -> bool {
        match outcome {
            Ok(()) => self is Done,
            Err(error) => {
                &&& self is Failed
                &&& self->Failed_context@ == context
                &&& self->Failed_error == error
                &&& self->Failed_reply == reply
            },
        }
    }
}

fn send_answer(
    outcome: Result<(), TransportError>,
    context: &'static str,
    reply: ErrorReply,
) -> (answer: SendAnswer)
    ensures
        answer.answers(outcome, context@, reply),
{
    match outcome {
        Ok(()) => SendAnswer::Done,
        Err(error) => SendAnswer::Failed { context, error, reply },
    }
}

/// A call was submitted: one that failed is answered to its submitter.
pub fn call_submitted(outcome: Result<(), TransportError>) -> (answer: SendAnswer)
    ensures
        answer.answers(outcome, CALL_FAULT_CONTEXT@, ErrorReply::Submitter),
{
    send_answer(outcome, CALL_FAULT_CONTEXT, ErrorReply::Submitter)
}

/// A single payload was sent: nobody waits for it.
pub fn payload_sent(outcome: Result<(), TransportError>) -> (answer: SendAnswer)
    ensures
        answer.answers(outcome, PAYLOAD_FAULT_CONTEXT@, ErrorReply::Nobody),
{
    send_answer(outcome, PAYLOAD_FAULT_CONTEXT, ErrorReply::Nobody)
}

/// The frame of an identification was written.
pub fn identify_written(outcome: Result<(), TransportError>) -> (answer: SendAnswer)
    ensures
        answer.answers(outcome, IDENTIFY_FAULT_CONTEXT@, ErrorReply::PendingIdentify),
{
    send_answer(outcome, IDENTIFY_FAULT_CONTEXT, ErrorReply::PendingIdentify)
}

/// The frame of an mcu call was written.
pub fn call_written(correlation_id: u32, outcome: Result<(), TransportError>) -> (answer:
    SendAnswer)
    ensures
        answer.answers(
            outcome,
            MCU_CALL_FAULT_CONTEXT@,
            (ErrorReply::PendingCall { correlation_id }),
        ),
{
    send_answer(outcome, MCU_CALL_FAULT_CONTEXT, ErrorReply::PendingCall { correlation_id })
}

/// What came of asking for the mcu's clock.
#[derive(Debug)]
pub enum ClockRequest {
    /// The request could not be encoded, so nothing was sent.
    NotEncoded(String),
    Sent(Result<(), TransportError>),
}

/// The mcu's clock was asked for. A request that cannot be encoded is reported and
/// nothing more: the link is not at fault.
pub fn clock_asked(request: ClockRequest) -> (answer: SendAnswer)
    ensures
        match request {
            ClockRequest::NotEncoded(detail) => answer == (SendAnswer::Report { detail }),
            ClockRequest::Sent(outcome) => answer.answers(
                outcome,
                CLOCK_FAULT_CONTEXT@,
                ErrorReply::Nobody,
            ),
        },
{
    match request {
        ClockRequest::NotEncoded(detail) => SendAnswer::Report { detail },
        ClockRequest::Sent(outcome) => send_answer(
            outcome,
            CLOCK_FAULT_CONTEXT,
            ErrorReply::Nobody,
        ),
    }
}

// ---------------------------------------------------------------------------
// Identification and calls
// ---------------------------------------------------------------------------

pub open spec fn not_identified_text() -> Seq<char> {
    "kalico transport not yet identified"@
}

/// What is underway with the mcu: its identification, and the calls that wait for a
/// reply, by correlation id, each with its deadline.
#[derive(Debug)]
pub struct McuSession {
    pub identified: bool,
    pub identify_pending: bool,
    pub pending: HashMap<u32, u64>,
}

impl McuSession {
    pub fn new() -> (session: Self)
        ensures
            !session.identified,
            !session.identify_pending,
            session.pending@ == Map::<u32, u64>::empty(),
    {
        McuSession { identified: false, identify_pending: false, pending: HashMap::new() }
    }

    /// Starts an identification; one at a time. It is given a correlation id before it is
    /// known whether one is underway, so a refused one has spent its id too. The caller
    /// then writes the frame.
    pub fn begin_identify<A: FnOnce() -> u32>(&mut self, allocate: A) -> (started: (
        u32,
        Result<(), TransportError>,
    ))
        requires
            call_requires(allocate, ()),
        ensures
            call_ensures(allocate, (), started.0),
            started.1 is Ok <==> !old(self).identify_pending,
            started.1 matches Err(error) ==> error is Backpressure,
            final(self).identify_pending,
            final(self).identified == old(self).identified,
            final(self).pending@ == old(self).pending@,
    {
        let correlation_id: u32 = allocate();
        if self.identify_pending {
            return (correlation_id, Err(TransportError::Backpressure));
        }
        self.identify_pending = true;
        (correlation_id, Ok(()))
    }

    /// The identification's frame could not be written. `true` asks the caller to answer
    /// it with the error; it is not answered twice.
    pub fn identify_write_failed(&mut self) -> (answer: bool)
        ensures
            answer == old(self).identify_pending,
            !final(self).identify_pending,
            final(self).identified == old(self).identified,
            final(self).pending@ == old(self).pending@,
    {
        let answer = self.identify_pending;
        self.identify_pending = false;
        answer
    }

    /// Starts a call: refused before the mcu is identified, and else given a correlation
    /// id and kept until a reply or its deadline. A refused call spends no id: `allocate`
    /// need only be callable once the mcu is identified. The caller then writes the frame.
    pub fn begin_call<A: FnOnce() -> u32>(&mut self, allocate: A, deadline_ns: u64) -> (started:
        Result<u32, TransportError>)
        requires
            old(self).identified ==> call_requires(allocate, ()),
        ensures
            started is Ok <==> old(self).identified,
            match started {
                Ok(correlation_id) => {
                    &&& call_ensures(allocate, (), correlation_id)
                    &&& final(self).pending@ == old(self).pending@.insert(
                        correlation_id,
                        deadline_ns,
                    )
                },
                Err(error) => {
                    &&& error matches TransportError::Parse(reason) && reason@
                        == not_identified_text()
                    &&& final(self).pending@ == old(self).pending@
                },
            },
            final(self).identified == old(self).identified,
            final(self).identify_pending == old(self).identify_pending,
    {
        if !self.identified {
            return Err(TransportError::Parse("kalico transport not yet identified".to_owned()));
        }
        let correlation_id: u32 = allocate();
        self.pending.insert(correlation_id, deadline_ns);
        Ok(correlation_id)
    }

    /// A call's frame could not be written. `true` asks the caller to answer it with the
    /// error; it does not wait for a reply any more.
    pub fn call_write_failed(&mut self, correlation_id: u32) -> (answer: bool)
        ensures
            answer == old(self).pending@.contains_key(correlation_id),
            final(self).pending@ == old(self).pending@.remove(correlation_id),
            final(self).identified == old(self).identified,
            final(self).identify_pending == old(self).identify_pending,
    {
        let removed = self.pending.remove(&correlation_id);
        assert(self.pending@ =~= old(self).pending@.remove(correlation_id));
        removed.is_some()
    }
}

/// The stage of a batch after a run of outcomes, one for each block that was tried.
pub open spec fn stage_after_all(batch: FireAndForgetBatch, outcomes: Seq<bool>) -> BatchStage
    decreases outcomes.len(),
{
    if outcomes.len() == 0 {
        batch.stage
    } else {
        stage_after(
            FireAndForgetBatch { stage: stage_after_all(batch, outcomes.drop_last()), ..batch },
            outcomes.last(),
        )
    }
}

/// Nothing goes out after a failed block, and its batch is over with that block and all
/// later ones unsent.
pub proof fn law_nothing_follows_a_failed_block(batch: FireAndForgetBatch, block: usize)
    requires
        batch.wf(),
        batch.stage == (BatchStage::Sending { block }),
    ensures
        stage_after(batch, false) == (BatchStage::Over { unsent: (batch.blocks - block) as usize }),
        stage_after(
            FireAndForgetBatch { stage: stage_after(batch, false), ..batch },
            true,
        ) == stage_after(batch, false),
{
}

/// A batch whose blocks all go out ends with none unsent, after exactly as many sends
/// as it has blocks.
pub proof fn law_batch_sends_every_block_in_order(
    batch: FireAndForgetBatch,
    outcomes: Seq<bool>,
)
    requires
        batch.blocks > 0,
        batch.stage == (BatchStage::Sending { block: 0 }),
        outcomes.len() <= batch.blocks,
        forall|i: int| 0 <= i < outcomes.len() ==> outcomes[i],
    ensures
        stage_after_all(batch, outcomes) == if outcomes.len() == batch.blocks {
            BatchStage::Over { unsent: 0 }
        } else {
            BatchStage::Sending { block: outcomes.len() as usize }
        },
    decreases outcomes.len(),
{
    if outcomes.len() > 0 {
        assert(outcomes.last());
        law_batch_sends_every_block_in_order(batch, outcomes.drop_last());
    }
}

/// How often the reservation of a burst is given back, from its start through a run of
/// outcomes: an answer gives it back where the batch is over with it.
pub open spec fn releases(batch: FireAndForgetBatch, outcomes: Seq<bool>) -> nat
    decreases outcomes.len(),
{
    if outcomes.len() == 0 {
        if batch.stage is Over {
            1
        } else {
            0
        }
    } else {
        let before = stage_after_all(batch, outcomes.drop_last());
        releases(batch, outcomes.drop_last()) + if before is Sending && stage_after_all(
            batch,
            outcomes,
        ) is Over {
            1nat
        } else {
            0nat
        }
    }
}

/// The reservation of a burst is given back exactly once on every path: a burst that
/// cannot be packed and one whose block fails included. It is held exactly while a block
/// is on its way.
pub proof fn law_reservation_is_released_once(
    packed: Result<usize, String>,
    reserved_blocks: usize,
    outcomes: Seq<bool>,
)
    ensures
        releases(batch_of(packed, reserved_blocks), outcomes) == if stage_after_all(
            batch_of(packed, reserved_blocks),
            outcomes,
        ) is Over {
            1nat
        } else {
            0nat
        },
    decreases outcomes.len(),
{
    if outcomes.len() > 0 {
        law_reservation_is_released_once(packed, reserved_blocks, outcomes.drop_last());
    }
}

/// A call that could not be written leaves the pending calls as they were.
pub proof fn law_failed_call_leaves_no_trace(
    pending: Map<u32, u64>,
    correlation_id: u32,
    deadline_ns: u64,
)
    requires
        !pending.contains_key(correlation_id),
    ensures
        pending.insert(correlation_id, deadline_ns).remove(correlation_id) == pending,
{
    assert(pending.insert(correlation_id, deadline_ns).remove(correlation_id) =~= pending);
}

/// A wait is warned of exactly where it is longer than 20 ms and the last warning lies
/// 500 ms back; the warning tells the wait itself.
pub proof fn law_long_waits_are_warned_of_now_and_then(
    flags: ReactorFlags,
    enqueued_at_ns: u64,
    now_ns: u64,
)
    ensures
        wait_to_warn_of(flags, enqueued_at_ns, now_ns) is Some <==> now_ns > enqueued_at_ns
            + 20_000_000 && now_ns >= flags.last_channel_wait_warn_ns + 500_000_000,
        wait_to_warn_of(flags, enqueued_at_ns, now_ns) matches Some(waited) ==> enqueued_at_ns
            + waited == now_ns,
{
}

/// Only a shutdown closes the link, and only a shutdown or an expected disconnect makes its
/// end an expected one. Only a warning moves the time of the last warning, and it moves
/// there.
pub proof fn law_commands_change_only_their_own_flag(
    flags: ReactorFlags,
    command: ReactorCommand,
    now_ns: u64,
)
    ensures
        flags_after(flags, command, now_ns).closed <==> flags.closed || command is Shutdown,
        flags_after(flags, command, now_ns).closed_via_shutdown <==> flags.closed_via_shutdown
            || command is Shutdown || command is MarkExpectedDisconnect,
        flags_after(flags, command, now_ns).last_channel_wait_warn_ns == if command
            is FireAndForgetBatch && now_ns > command->enqueued_at_ns + 20_000_000 && now_ns
            >= flags.last_channel_wait_warn_ns + 500_000_000 {
            now_ns
        } else {
            flags.last_channel_wait_warn_ns
        },
{
}

/// Each command is carried out as what it is, for the call or interceptor it names.
pub proof fn law_commands_are_carried_out_as_they_are(
    flags: ReactorFlags,
    command: ReactorCommand,
    now_ns: u64,
)
    ensures
        ({
            let action = action_for(flags, command, now_ns);
            &&& action is SubmitCall <==> command is Call
            &&& command is Call ==> action->SubmitCall_call_id == command->Call_call_id
            &&& action is MarkAbandoned <==> command is Abandon
            &&& command is Abandon ==> action->MarkAbandoned_call_id == command->Abandon_call_id
            &&& action is Nothing <==> command is Shutdown || command is MarkExpectedDisconnect
                || command is Noop
            &&& action is KeepHeartbeatCallback <==> command is AttachHeartbeatCallback
            &&& action is KeepLogHook <==> command is SetMcuLogHook
            &&& action is SubscribeFault <==> command is SubscribeFault
            &&& action is SubscribeEvents <==> command is SubscribeRuntimeEvents
            &&& action is SendPayload <==> command is FireAndForget
            &&& action is SendBatch <==> command is FireAndForgetBatch
            &&& command is FireAndForgetBatch ==> (action->warn_waited_ns is Some <==> now_ns
                > command->enqueued_at_ns + 20_000_000 && now_ns
                >= flags.last_channel_wait_warn_ns + 500_000_000)
            &&& action is Identify <==> command is McuIdentify
            &&& action is CallMcu <==> command is McuCall
            &&& action is AskClock <==> command is GetClockAndDeliver
            &&& action is Register <==> command is RegisterInterceptor
            &&& action is Unregister <==> command is UnregisterInterceptor
            &&& command is UnregisterInterceptor ==> action->Unregister_id
                == command->UnregisterInterceptor_id
        }),
{
}

/// A burst starts with its first block, unless it has none or cannot be packed: then it is
/// over at once and its reservation comes back.
pub proof fn law_burst_starts_with_its_first_block(
    packed: Result<usize, String>,
    reserved_blocks: usize,
    started: (FireAndForgetBatch, BatchAnswer),
)
    requires
        call_ensures(FireAndForgetBatch::start, (packed, reserved_blocks), started),
    ensures
        started.0.reserved_blocks == reserved_blocks,
        started.0.stage is Over <==> packed is Err || packed->Ok_0 == 0,
        started.0.stage is Sending ==> started.0.blocks == packed->Ok_0
            && started.0.stage->block == 0 && started.1 is Send && started.1->block == 0,
        started.0.stage is Over ==> started.1 is Done || started.1 is Unpackable,
        started.1 is Done ==> started.1->Done_release == reserved_blocks,
        started.1 is Unpackable ==> packed is Err && started.1->Unpackable_release
            == reserved_blocks && started.1->detail == packed->Err_0,
{
}

/// A request that went out is done with. One that failed is told from its own place, with
/// its own error, to whoever waits for it: the submitter of a call, the pending
/// identification, the pending mcu call, and nobody for a payload or the clock.
pub proof fn law_failed_requests_are_answered_to_who_waits(
    outcome: Result<(), TransportError>,
    correlation_id: u32,
    call: SendAnswer,
    payload: SendAnswer,
    identify: SendAnswer,
    mcu_call: SendAnswer,
    clock: SendAnswer,
)
    requires
        call_ensures(call_submitted, (outcome,), call),
        call_ensures(payload_sent, (outcome,), payload),
        call_ensures(identify_written, (outcome,), identify),
        call_ensures(call_written, (correlation_id, outcome), mcu_call),
        call_ensures(clock_asked, (ClockRequest::Sent(outcome),), clock),
    ensures
        outcome is Ok ==> call is Done && payload is Done && identify is Done && mcu_call is Done
            && clock is Done,
        outcome matches Err(error) ==> {
            &&& call is Failed && call->Failed_error == error && call->Failed_reply
                == ErrorReply::Submitter && call->Failed_context@ == "handle_command/call"@
            &&& payload is Failed && payload->Failed_error == error && payload->Failed_reply
                == ErrorReply::Nobody && payload->Failed_context@
                == "handle_command/fire_and_forget"@
            &&& identify is Failed && identify->Failed_error == error && identify->Failed_reply
                == ErrorReply::PendingIdentify && identify->Failed_context@
                == "handle_command/mcu_identify"@
            &&& mcu_call is Failed && mcu_call->Failed_error == error && mcu_call->Failed_reply
                == (ErrorReply::PendingCall { correlation_id }) && mcu_call->Failed_context@
                == "handle_command/mcu_call"@
            &&& clock is Failed && clock->Failed_error == error && clock->Failed_reply
                == ErrorReply::Nobody && clock->Failed_context@
                == "handle_command/get_clock_and_deliver"@
        },
{
}

/// A command changes only the flag it is about, and asks only for what it is.
pub proof fn law_handled_command_is_carried_out(
    flags: &mut ReactorFlags,
    command: ReactorCommand,
    now_ns: u64,
    action: CommandAction,
)
    requires
        call_ensures(ReactorFlags::handle_command, (flags, command, now_ns), action),
    ensures
        final(flags).closed <==> old(flags).closed || command is Shutdown,
        final(flags).closed_via_shutdown <==> old(flags).closed_via_shutdown || command
            is Shutdown || command is MarkExpectedDisconnect,
        command matches ReactorCommand::FireAndForgetBatch { enqueued_at_ns } ==> {
            let warned = now_ns > enqueued_at_ns + 20_000_000 && now_ns >= old(flags).last_channel_wait_warn_ns + 500_000_000;
            &&& action is SendBatch
            &&& warned ==> action->warn_waited_ns == Some((now_ns - enqueued_at_ns) as u64)
            &&& !warned ==> action->warn_waited_ns is None
            &&& final(flags).last_channel_wait_warn_ns == if warned {
                now_ns
            } else {
                old(flags).last_channel_wait_warn_ns
            }
        },
        !(command is FireAndForgetBatch) ==> final(flags).last_channel_wait_warn_ns == old(flags).last_channel_wait_warn_ns,
        command matches ReactorCommand::Call { call_id } ==> action == (
        CommandAction::SubmitCall { call_id }),
        command matches ReactorCommand::Abandon { call_id } ==> action == (
        CommandAction::MarkAbandoned { call_id }),
        command matches ReactorCommand::UnregisterInterceptor { id } ==> action == (
        CommandAction::Unregister { id }),
{
    law_commands_change_only_their_own_flag(*old(flags), command, now_ns);
    law_commands_are_carried_out_as_they_are(*old(flags), command, now_ns);
}

/// The block after one that went out is the next, and after the last the reservation comes
/// back; a block that fails ends the batch, gives the reservation back and tells its own
/// error.
pub proof fn law_next_block_follows_the_sent_one(
    batch: &mut FireAndForgetBatch,
    outcome: Result<(), TransportError>,
    answer: BatchAnswer,
    block: usize,
)
    requires
        old(batch).stage == (BatchStage::Sending { block }),
        block < old(batch).blocks,
        call_ensures(FireAndForgetBatch::sent, (batch, outcome), answer),
    ensures
        final(batch).blocks == old(batch).blocks,
        final(batch).reserved_blocks == old(batch).reserved_blocks,
        outcome is Ok && block + 1 < old(batch).blocks ==> answer == (BatchAnswer::Send {
            block: (block + 1) as usize,
        }) && final(batch).stage == (BatchStage::Sending { block: (block + 1) as usize }),
        outcome is Ok && block + 1 == old(batch).blocks ==> answer == (BatchAnswer::Done {
            release: old(batch).reserved_blocks,
        }) && final(batch).stage == (BatchStage::Over { unsent: 0 }),
        outcome matches Err(error) ==> {
            &&& answer is Failed
            &&& answer->Failed_release == old(batch).reserved_blocks
            &&& answer->Failed_error == error
            &&& answer->context@ == "handle_command/fire_and_forget_batch"@
            &&& final(batch).stage is Over
            &&& final(batch).stage->unsent == old(batch).blocks - block
        },
{
}

/// One identification is underway at a time, and each is given an id of its own; a call waits
/// under the id it was given until its deadline, and is refused before the mcu is identified.
pub proof fn law_requests_wait_under_their_ids<A: FnOnce() -> u32>(
    identifying: &mut McuSession,
    allocate: A,
    started: (u32, Result<(), TransportError>),
    calling: &mut McuSession,
    deadline_ns: u64,
    call: Result<u32, TransportError>,
    other: u32,
)
    requires
        call_ensures(McuSession::begin_identify::<A>, (identifying, allocate), started),
        call_ensures(McuSession::begin_call::<A>, (calling, allocate, deadline_ns), call),
    ensures
        call_ensures(allocate, (), started.0),
        started.1 is Ok <==> !old(identifying).identify_pending,
        final(identifying).identify_pending,
        final(identifying).pending@ == old(identifying).pending@,
        call is Ok <==> old(calling).identified,
        call matches Ok(id) ==> {
            &&& call_ensures(allocate, (), id)
            &&& final(calling).pending@.contains_key(id)
            &&& final(calling).pending@[id] == deadline_ns
            &&& other != id ==> (final(calling).pending@.contains_key(other) <==> old(calling).pending@.contains_key(other))
        },
        call is Err ==> final(calling).pending@ == old(calling).pending@,
        final(calling).identified == old(calling).identified,
        final(calling).identify_pending == old(calling).identify_pending,
{
}

/// A request that could not be written is answered exactly where it was waiting, and waits no
/// more; the others wait on.
pub proof fn law_unwritten_requests_stop_waiting(
    identifying: &mut McuSession,
    identify_answer: bool,
    calling: &mut McuSession,
    correlation_id: u32,
    call_answer: bool,
    other: u32,
)
    requires
        call_ensures(McuSession::identify_write_failed, (identifying,), identify_answer),
        call_ensures(McuSession::call_write_failed, (calling, correlation_id), call_answer),
    ensures
        identify_answer == old(identifying).identify_pending,
        !final(identifying).identify_pending,
        final(identifying).pending@ == old(identifying).pending@,
        call_answer == old(calling).pending@.contains_key(correlation_id),
        !final(calling).pending@.contains_key(correlation_id),
        other != correlation_id ==> (final(calling).pending@.contains_key(other) <==> old(calling).pending@.contains_key(other)),
        final(calling).identify_pending == old(calling).identify_pending,
{
}

} // verus!
