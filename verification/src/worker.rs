//! The stream worker's front: the committed frontier, and how a submitted message
//! enters the input channel.

pub mod dispatch;
pub mod ingress;

use crate::text::append_decimal;
use crossbeam_channel::Sender;
use vstd::prelude::*;
use vstd::string::*;

verus! {

/// Every slot in the pipe is queued-command latency (fan changes ride fences
/// behind the buffered moves), so this covers host reactor scheduling gaps
/// and nothing more; the submitter parks on the feed wakeup when it fills.
pub const INPUT_CHANNEL_CAP: usize = 16;

/// The depth of the channel between planning and execution.
pub const TRAJECTORY_CHANNEL_CAP: usize = 16;

/// How long a shutdown waits for a full channel.
pub const SHUTDOWN_SEND_TIMEOUT_NS: u64 = 1_000_000_000;

/// How long a shutdown waits for the planning thread.
pub const SHUTDOWN_JOIN_TIMEOUT_NS: u64 = 5_000_000_000;

/// The execution owner's committed host-monotonic frontier, observed by the
/// planning pacer. Times are nanoseconds on the host's monotonic clock.
#[derive(Debug, Clone, Copy, PartialEq, Eq, Structural)]
pub struct CommittedFrontier {
    pub deadline_ns: Option<u64>,
}

impl Default for CommittedFrontier {
    fn default() -> (frontier: Self)
        ensures
            frontier.deadline_ns is None,
    {
        CommittedFrontier { deadline_ns: None }
    }
}

/// The later of the frontier and a new deadline.
pub open spec fn advanced(frontier: Option<u64>, deadline_ns: u64) -> u64 {
    match frontier {
        Some(earlier) if earlier > deadline_ns => earlier,
        _ => deadline_ns,
    }
}

impl CommittedFrontier {
    /// Moves the frontier to `deadline_ns`; it never moves back.
    pub fn advance_to(&mut self, deadline_ns: u64)
        ensures
            final(self).deadline_ns == Some(advanced(old(self).deadline_ns, deadline_ns)),
    {
        let next: u64 = match self.deadline_ns {
            Some(earlier) => if earlier > deadline_ns {
                earlier
            } else {
                deadline_ns
            },
            None => deadline_ns,
        };
        self.deadline_ns = Some(next);
    }

    pub fn clear(&mut self)
        ensures
            final(self).deadline_ns is None,
    {
        self.deadline_ns = None;
    }

    /// How much committed motion lies ahead of `now_ns`.
    pub open spec fn spec_runway_ns(self, now_ns: u64) -> int {
        match self.deadline_ns {
            Some(deadline) if deadline > now_ns => deadline - now_ns,
            _ => 0,
        }
    }

    pub fn runway_ns(&self, now_ns: u64) -> (runway: u64)
        ensures
            runway == self.spec_runway_ns(now_ns),
    {
        match self.deadline_ns {
            Some(deadline) => deadline.saturating_sub(now_ns),
            None => 0,
        }
    }
}

#[derive(Debug)]
pub enum StreamWorkerError {
    ChannelClosed,
    ChannelFull,
    ExecutionHalted(String),
}

impl StreamWorkerError {
    pub open spec fn text(self) -> Seq<char> {
        match self {
            StreamWorkerError::ChannelClosed => "stream worker channel closed"@,
            StreamWorkerError::ChannelFull => "stream worker input channel full ("@
                + crate::text::decimal(INPUT_CHANNEL_CAP as nat) + " moves)"@,
            StreamWorkerError::ExecutionHalted(reason) => "execution halted: "@ + reason@,
        }
    }

    pub fn message(&self) -> (message: String)
        ensures
            message@ == self.text(),
    {
        match self {
            StreamWorkerError::ChannelClosed => "stream worker channel closed".to_owned(),
            StreamWorkerError::ChannelFull => {
                let mut message = "stream worker input channel full (".to_owned();
                append_decimal(&mut message, INPUT_CHANNEL_CAP as u64);
                message.append(" moves)");
                message
            },
            StreamWorkerError::ExecutionHalted(reason) => {
                let mut message = "execution halted: ".to_owned();
                message.append(reason.as_str());
                message
            },
        }
    }
}

/// The sending half of a `crossbeam_channel` channel.
#[verifier::external_type_specification]
#[verifier::external_body]
#[verifier::reject_recursive_types(T)]
pub struct ExSender<T>(Sender<T>);

/// How an attempt to send ended.
#[derive(Debug)]
pub enum SendOutcome<T> {
    Sent,
    Full(T),
    Disconnected(T),
}

/// `crossbeam_channel::Sender::try_send`, its error as a value of this crate. A
/// message that was not sent comes back as it was. Whether it was sent rests on
/// the other threads at the channel, so nothing is claimed of that.
#[verifier::external_body]
fn try_send<T>(sender: &Sender<T>, msg: T) -> (outcome: SendOutcome<T>)
    ensures
        outcome matches SendOutcome::Full(returned) ==> returned == msg,
        outcome matches SendOutcome::Disconnected(returned) ==> returned == msg,
{
    match sender.try_send(msg) {
        Ok(()) => SendOutcome::Sent,
        Err(crossbeam_channel::TrySendError::Full(msg)) => SendOutcome::Full(msg),
        Err(crossbeam_channel::TrySendError::Disconnected(msg)) => SendOutcome::Disconnected(msg),
    }
}

/// What a submitter is told of a send.
pub open spec fn told<T>(outcome: SendOutcome<T>) -> Result<(), StreamWorkerError> {
    match outcome {
        SendOutcome::Sent => Ok(()),
        SendOutcome::Full(_) => Err(StreamWorkerError::ChannelFull),
        SendOutcome::Disconnected(_) => Err(StreamWorkerError::ChannelClosed),
    }
}

/// What a submitter is told of its last attempt.
pub fn settle_send<T>(outcome: SendOutcome<T>) -> (result: Result<(), StreamWorkerError>)
    ensures
        result == told(outcome),
{
    match outcome {
        SendOutcome::Sent => Ok(()),
        SendOutcome::Full(_) => Err(StreamWorkerError::ChannelFull),
        SendOutcome::Disconnected(_) => Err(StreamWorkerError::ChannelClosed),
    }
}

/// What follows the first attempt: an answer, or the message to try again with
/// once the wakeup is armed.
pub fn settle_first_send<T>(outcome: SendOutcome<T>) -> (next: Result<
    T,
    Result<(), StreamWorkerError>,
>)
    ensures
        match outcome {
            SendOutcome::Full(msg) => next == Ok::<T, Result<(), StreamWorkerError>>(msg),
            _ => next == Err::<T, Result<(), StreamWorkerError>>(told(outcome)),
        },
{
    match outcome {
        SendOutcome::Sent => Err(Ok(())),
        SendOutcome::Disconnected(_) => Err(Err(StreamWorkerError::ChannelClosed)),
        SendOutcome::Full(msg) => Ok(msg),
    }
}

/// `msg` was handed to the channel behind `sender`, and the attempt ended in `outcome`.
pub closed spec fn attempted<T>(sender: Sender<T>, msg: T, outcome: SendOutcome<T>) -> bool {
    call_ensures(try_send::<T>, (&sender, msg), outcome)
}

/// One attempt to send, without waiting. The answer is what the channel made of it.
pub fn try_send_msg<T>(sender: &Sender<T>, msg: T) -> (result: Result<(), StreamWorkerError>)
    ensures
        exists|outcome: SendOutcome<T>| #[trigger]
            attempted(*sender, msg, outcome) && result == told(outcome),
        result matches Err(error) ==> error is ChannelFull || error is ChannelClosed,
{
    let outcome = try_send(sender, msg);
    assert(attempted(*sender, msg, outcome));
    settle_send(outcome)
}

/// `msg` was handed to `try_send_msg` on the channel behind `sender`, and its answer is
/// `result`.
pub open spec fn retried<T>(
    sender: Sender<T>,
    msg: T,
    result: Result<(), StreamWorkerError>,
) -> bool {
    call_ensures(try_send_msg::<T>, (&sender, msg), result)
}

/// Non-blocking send that arms the feed wakeup on a full channel: the
/// caller that receives `ChannelFull` parks on the wakeup and the
/// ingress pings it when it next frees a slot. The post-arm retry closes
/// the race where the ingress freed a slot (and saw the flag unarmed)
/// between the first attempt and the arm.
pub fn try_send_arming<T, F: FnOnce()>(sender: &Sender<T>, msg: T, arm: F) -> (result: Result<
    (),
    StreamWorkerError,
>)
    requires
        call_requires(arm, ()),
    ensures
        exists|first: SendOutcome<T>| #[trigger]
            attempted(*sender, msg, first) && if first is Full {
                &&& call_ensures(arm, (), ())
                &&& retried(*sender, msg, result)
            } else {
                result == told(first)
            },
        result matches Err(error) ==> error is ChannelFull || error is ChannelClosed,
{
    let first = try_send(sender, msg);
    assert(attempted(*sender, msg, first));
    match settle_first_send(first) {
        Ok(msg) => {
            arm();
            try_send_msg(sender, msg)
        },
        Err(result) => result,
    }
}

/// What a flush is answered: `reply` is what came back through its reply channel,
/// where the request was sent and the channel stayed open.
pub fn flush_outcome(reply: Option<Result<(), String>>) -> (result: Result<(), StreamWorkerError>)
    ensures
        match reply {
            None => result == Err::<(), StreamWorkerError>(StreamWorkerError::ChannelClosed),
            Some(Ok(())) => result is Ok,
            Some(Err(reason)) => result == Err::<(), StreamWorkerError>(
                StreamWorkerError::ExecutionHalted(reason),
            ),
        },
{
    match reply {
        None => Err(StreamWorkerError::ChannelClosed),
        Some(Ok(())) => Ok(()),
        Some(Err(reason)) => Err(StreamWorkerError::ExecutionHalted(reason)),
    }
}

/// Advancing the frontier to two deadlines gives the same frontier in either
/// order, and one that neither deadline lies beyond.
pub proof fn law_frontier_is_the_latest_deadline(frontier: Option<u64>, a: u64, b: u64)
    ensures
        advanced(Some(advanced(frontier, a)), b) == advanced(Some(advanced(frontier, b)), a),
        advanced(Some(advanced(frontier, a)), b) >= a,
        advanced(Some(advanced(frontier, a)), b) >= b,
        frontier matches Some(earlier) ==> advanced(frontier, a) >= earlier,
{
}

/// The frontier only ever stands at a deadline it was moved to.
pub proof fn law_frontier_is_a_deadline(frontier: Option<u64>, deadline_ns: u64)
    ensures
        advanced(frontier, deadline_ns) == deadline_ns || frontier == Some(
            advanced(frontier, deadline_ns),
        ),
        advanced(frontier, deadline_ns) >= deadline_ns,
{
}

/// The runway ends at the deadline: going on by it from now comes to the deadline, and past
/// the deadline, or without one, there is none.
pub proof fn law_runway_ends_at_the_deadline(
    frontier: CommittedFrontier,
    now_ns: u64,
    runway: u64,
)
    requires
        call_ensures(CommittedFrontier::runway_ns, (&frontier, now_ns), runway),
    ensures
        match frontier.deadline_ns {
            Some(deadline) => if now_ns <= deadline {
                now_ns + runway == deadline
            } else {
                runway == 0
            },
            None => runway == 0,
        },
{
}

/// A submitter hears success exactly where its message was sent, that the channel is full
/// exactly where a slot may come free, and that it is closed where none will.
pub proof fn law_submitter_hears_what_happened<T>(
    outcome: SendOutcome<T>,
    result: Result<(), StreamWorkerError>,
)
    requires
        call_ensures(settle_send::<T>, (outcome,), result),
    ensures
        result is Ok <==> outcome is Sent,
        result matches Err(error) ==> (error is ChannelFull <==> outcome is Full) && (
        error is ChannelClosed <==> outcome is Disconnected),
{
}

/// A message is tried again only where the channel was full, and it is the same message.
pub proof fn law_full_channel_gives_the_message_back<T>(
    outcome: SendOutcome<T>,
    next: Result<T, Result<(), StreamWorkerError>>,
)
    requires
        call_ensures(settle_first_send::<T>, (outcome,), next),
    ensures
        next is Ok <==> outcome is Full,
        outcome matches SendOutcome::Full(msg) ==> next == Ok::<T, Result<(), StreamWorkerError>>(
            msg,
        ),
        outcome is Sent ==> next->Err_0 is Ok,
        outcome is Disconnected ==> next->Err_0 is Err && next->Err_0->Err_0 is ChannelClosed,
{
}

/// What a submitter reads of an error: which of the three it is, the sixteen moves that the
/// input channel holds, and the reason of a halt.
pub proof fn law_error_tells_what_happened(error: StreamWorkerError, message: String)
    requires
        call_ensures(StreamWorkerError::message, (&error,), message),
    ensures
        error is ChannelClosed ==> message@ == "stream worker channel closed"@,
        error is ChannelFull ==> message@ == "stream worker input channel full ("@
            + crate::text::decimal(16) + " moves)"@,
        error matches StreamWorkerError::ExecutionHalted(reason) ==> message@
            == "execution halted: "@ + reason@,
{
}

/// Both channels hold sixteen items. A shutdown waits a second for a full channel and five
/// for the planning thread.
pub proof fn law_shutdown_waits_longer_for_the_thread()
    ensures
        INPUT_CHANNEL_CAP == 16,
        TRAJECTORY_CHANNEL_CAP == 16,
        SHUTDOWN_SEND_TIMEOUT_NS == 1_000_000_000,
        SHUTDOWN_JOIN_TIMEOUT_NS == 5 * SHUTDOWN_SEND_TIMEOUT_NS,
{
}

/// Moving the frontier leaves it at the later of where it was and the new deadline, and
/// clearing it leaves none.
pub proof fn law_frontier_moves_to_the_later_deadline(
    frontier: &mut CommittedFrontier,
    deadline_ns: u64,
    cleared: &mut CommittedFrontier,
)
    requires
        call_ensures(CommittedFrontier::advance_to, (frontier, deadline_ns), ()),
        call_ensures(CommittedFrontier::clear, (cleared,), ()),
    ensures
        final(frontier).deadline_ns is Some,
        final(frontier).deadline_ns->0 >= deadline_ns,
        old(frontier).deadline_ns matches Some(earlier) ==> final(frontier).deadline_ns->0
            >= earlier,
        final(frontier).deadline_ns == Some(deadline_ns) || final(frontier).deadline_ns
            == old(frontier).deadline_ns,
        final(cleared).deadline_ns is None,
{
}

/// A flush succeeds exactly where it was answered with success. A reason it was answered
/// with is told as a halt, and no answer as a closed channel.
pub proof fn law_flush_is_told_its_answer(
    reply: Option<Result<(), String>>,
    result: Result<(), StreamWorkerError>,
)
    requires
        call_ensures(flush_outcome, (reply,), result),
    ensures
        result is Ok <==> reply is Some && reply->0 is Ok,
        result is Err && result->Err_0 is ChannelClosed <==> reply is None,
        reply is Some && reply->0 is Err ==> result is Err && result->Err_0 is ExecutionHalted
            && result->Err_0->ExecutionHalted_0 == reply->0->Err_0,
{
}

/// A submitter that is told of success was heard by the channel, with the message it gave.
pub proof fn law_success_was_sent<T>(
    sender: Sender<T>,
    msg: T,
    result: Result<(), StreamWorkerError>,
)
    requires
        call_ensures(try_send_msg::<T>, (&sender, msg), result),
    ensures
        exists|outcome: SendOutcome<T>|
            {
                &&& #[trigger] attempted(sender, msg, outcome)
                &&& result is Ok <==> outcome is Sent
                &&& outcome is Full ==> result is Err && result->Err_0 is ChannelFull
                &&& outcome is Disconnected ==> result is Err && result->Err_0 is ChannelClosed
            },
{
    let outcome = choose|outcome: SendOutcome<T>| #[trigger]
        attempted(sender, msg, outcome) && result == told(outcome);
    assert(attempted(sender, msg, outcome));
}

/// A message that finds the channel full arms the wakeup before it is tried again, and only
/// then is the wakeup armed for it; the submitter hears at most that the channel is full or
/// closed.
pub proof fn law_full_channel_arms_the_wakeup<T, F: FnOnce()>(
    sender: &Sender<T>,
    msg: T,
    arm: F,
    result: Result<(), StreamWorkerError>,
)
    requires
        call_ensures(try_send_arming::<T, F>, (sender, msg, arm), result),
    ensures
        result matches Err(error) ==> error is ChannelFull || error is ChannelClosed,
        result matches Err(error) ==> error is ChannelFull ==> call_ensures(arm, (), ())
            && call_ensures(try_send_msg::<T>, (sender, msg), result),
{
    let first = choose|first: SendOutcome<T>| #[trigger]
        attempted(*sender, msg, first) && if first is Full {
            &&& call_ensures(arm, (), ())
            &&& retried(*sender, msg, result)
        } else {
            result == told(first)
        };
    assert(attempted(*sender, msg, first));
}

} // verus!
