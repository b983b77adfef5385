//! The last pipeline stage: hands committed segments to the sink and services
//! the control tokens that reach the end of the stream.
//!
//! A barrier is acknowledged here: everything ahead of it has been dispatched or
//! discarded. Segments behind a captured error are dropped until the error is
//! reported at the next barrier. The sink is the caller's; its verdict comes back
//! as a value. Stream times are of a type the caller picks.

use crate::text::append_decimal;
use vstd::prelude::*;
use vstd::string::*;

verus! {

/// Why the sink refused. Ages are in milliseconds.
#[derive(Debug)]
pub enum DispatchError {
    ClockRecordUnusable { mcu_id: u32, mcu_handle: u32 },
    ClockRecordStale { mcu_id: u32, mcu_handle: u32, age_ms: u64, max_age_ms: u64 },
    ExecutionHalted(String),
    NudgeTargetMissing { mcu_id: u32, axis: u8 },
    Enqueue(String),
}

/// Milliseconds as seconds with three decimals.
pub open spec fn seconds_text(ms: u64) -> Seq<char> {
    crate::text::decimal((ms / 1000) as nat) + "."@ + (if ms % 1000 < 10 {
        "00"@
    } else if ms % 1000 < 100 {
        "0"@
    } else {
        ""@
    }) + crate::text::decimal((ms % 1000) as nat)
}

fn append_seconds(out: &mut String, ms: u64)
    ensures
        final(out)@ == old(out)@ + seconds_text(ms),
{
    append_decimal(out, ms / 1000);
    out.append(".");
    if ms % 1000 < 10 {
        out.append("00");
    } else if ms % 1000 < 100 {
        out.append("0");
    } else {
        out.append("");
    }
    append_decimal(out, ms % 1000);
    assert(out@ =~= old(out)@ + seconds_text(ms));
}

pub open spec fn clock_record_text(mcu_id: u32, mcu_handle: u32) -> Seq<char> {
    "mcu "@ + crate::text::decimal(mcu_id as nat) + " (mcu_h=McuHandle("@ + crate::text::decimal(
        mcu_handle as nat,
    ) + ")) "@
}

fn append_clock_record(out: &mut String, mcu_id: u32, mcu_handle: u32)
    ensures
        final(out)@ == old(out)@ + clock_record_text(mcu_id, mcu_handle),
{
    out.append("mcu ");
    append_decimal(out, mcu_id as u64);
    out.append(" (mcu_h=McuHandle(");
    append_decimal(out, mcu_handle as u64);
    out.append(")) ");
    assert(out@ =~= old(out)@ + clock_record_text(mcu_id, mcu_handle));
}

impl DispatchError {
    pub open spec fn text(self) -> Seq<char> {
        match self {
            DispatchError::ClockRecordUnusable { mcu_id, mcu_handle } => clock_record_text(
                mcu_id,
                mcu_handle,
            )
                + "has no converged clocksync record — refusing to anchor a step stream on it. The record is invalidated by every (re)connect and re-armed only by a converged clocksync estimate; anchoring without one sends step clocks from the previous boot epoch."@,
            DispatchError::ClockRecordStale { mcu_id, mcu_handle, age_ms, max_age_ms } =>
                clock_record_text(mcu_id, mcu_handle) + "clocksync record is "@ + seconds_text(
                    age_ms,
                ) + "s old (limit "@ + seconds_text(max_age_ms)
                    + "s) — clocksync has stopped feeding the router, so anchoring would project the step stream off a dead estimate. Note that a healthy record's regression centroid legitimately trails now by up to 30 get_clock periods; this age counts only the missed router updates."@,
            DispatchError::ExecutionHalted(reason) =>
                "execution halted on a fatal endpoint condition: "@ + reason@,
            DispatchError::NudgeTargetMissing { mcu_id, axis } => "nudge target mcu_id="@
                + crate::text::decimal(mcu_id as nat) + " axis="@ + crate::text::decimal(
                axis as nat,
            ) + " not present in mcu_configs"@,
            DispatchError::Enqueue(reason) => "enqueue: "@ + reason@,
        }
    }

    pub fn message(&self) -> (message: String)
        ensures
            message@ == self.text(),
    {
        match self {
            DispatchError::ClockRecordUnusable { mcu_id, mcu_handle } => {
                let mut message = String::new();
                append_clock_record(&mut message, *mcu_id, *mcu_handle);
                message.append(
                    "has no converged clocksync record — refusing to anchor a step stream on it. The record is invalidated by every (re)connect and re-armed only by a converged clocksync estimate; anchoring without one sends step clocks from the previous boot epoch.",
                );
                assert(message@ =~= self.text());
                message
            },
            DispatchError::ClockRecordStale { mcu_id, mcu_handle, age_ms, max_age_ms } => {
                let mut message = String::new();
                append_clock_record(&mut message, *mcu_id, *mcu_handle);
                message.append("clocksync record is ");
                append_seconds(&mut message, *age_ms);
                message.append("s old (limit ");
                append_seconds(&mut message, *max_age_ms);
                message.append(
                    "s) — clocksync has stopped feeding the router, so anchoring would project the step stream off a dead estimate. Note that a healthy record's regression centroid legitimately trails now by up to 30 get_clock periods; this age counts only the missed router updates.",
                );
                assert(message@ =~= self.text());
                message
            },
            DispatchError::ExecutionHalted(reason) => {
                let mut message = "execution halted on a fatal endpoint condition: ".to_owned();
                message.append(reason.as_str());
                message
            },
            DispatchError::NudgeTargetMissing { mcu_id, axis } => {
                let mut message = "nudge target mcu_id=".to_owned();
                append_decimal(&mut message, *mcu_id as u64);
                message.append(" axis=");
                append_decimal(&mut message, *axis as u64);
                message.append(" not present in mcu_configs");
                message
            },
            DispatchError::Enqueue(reason) => {
                let mut message = "enqueue: ".to_owned();
                message.append(reason.as_str());
                message
            },
        }
    }
}

/// What the threads around the dispatcher have raised.
#[derive(Debug, Clone, Copy, PartialEq, Eq, Structural)]
pub struct LinkFlags {
    /// Raised out-of-band by reset paths so segments already past the shaper
    /// are dropped immediately; the in-band reset token lowers it when it
    /// catches up.
    pub discard: bool,
    pub finite_homing_admission: bool,
    pub shutting_down: bool,
}

/// What an item of the trajectory stream is, as far as admission goes.
#[derive(Debug, Clone, Copy, PartialEq, Eq, Structural)]
pub enum ItemKind {
    Segment,
    Parked,
    Nudge,
    OtherControl,
}

impl LinkFlags {
    /// The item may enter the pump whatever room its lanes have.
    pub open spec fn spec_bypasses_capacity(self, item: ItemKind, cohort_active: bool) -> bool {
        ||| self.discard
        ||| self.shutting_down
        ||| cohort_active && self.finite_homing_admission && item == ItemKind::Segment
        ||| item != ItemKind::Segment && item != ItemKind::Nudge
    }

    pub fn bypasses_capacity(&self, item: ItemKind, cohort_active: bool) -> (bypasses: bool)
        ensures
            bypasses == self.spec_bypasses_capacity(item, cohort_active),
    {
        self.discard || self.shutting_down || (cohort_active && self.finite_homing_admission
            && item == ItemKind::Segment) || !(item == ItemKind::Segment || item
            == ItemKind::Nudge)
    }
}

/// What a barrier is acknowledged with.
#[derive(Debug)]
pub struct BarrierAck<T> {
    pub dispatched_through: Option<T>,
    pub result: Result<(), String>,
}

/// What the caller does once the sink's verdict on a segment is taken in.
#[derive(Debug)]
pub enum SegmentEffect<T> {
    /// Publish the stream time and resolve the fences up to it.
    Dispatched(T),
    /// The pump was closed by a shutdown; nothing to do.
    Interrupted,
    /// The error waits for the next barrier.
    Captured,
    /// Execution has halted: clear the frontier, reset the fences and wake the
    /// submitter, unless that was done before.
    Halted { first: bool },
    /// Unrecoverable: stop the process with this message.
    Fatal(String),
}

/// The final stage's state.
#[derive(Debug)]
pub struct Dispatcher<T> {
    pub dispatched_through: Option<T>,
    pub pending_error: Option<String>,
    pub terminal_halt: Option<String>,
}

/// The text an option holds.
pub open spec fn text_of(kept: Option<String>) -> Option<Seq<char>> {
    match kept {
        Some(reason) => Some(reason@),
        None => None,
    }
}

/// The logical state of the stage.
#[verifier::ext_equal]
pub struct DispatcherView<T> {
    pub dispatched_through: Option<T>,
    pub pending_error: Option<Seq<char>>,
    pub terminal_halt: Option<Seq<char>>,
}

impl<T> DispatcherView<T> {
    /// Segments and nudges are handed to the sink.
    pub open spec fn admits(self, flags: LinkFlags) -> bool {
        !flags.discard && !flags.shutting_down && self.pending_error is None && self.terminal_halt
            is None
    }

    /// The state after a halt: the first reason stands.
    pub open spec fn halted(self, reason: Seq<char>) -> DispatcherView<T> {
        if self.terminal_halt is Some {
            self
        } else {
            DispatcherView {
                terminal_halt: Some(reason),
                dispatched_through: None,
                ..self
            }
        }
    }

    /// The state after the sink's verdict on a segment.
    pub open spec fn after_segment(
        self,
        flags: LinkFlags,
        t_end: T,
        verdict: Result<(), DispatchError>,
    ) -> DispatcherView<T> {
        match verdict {
            Ok(()) => DispatcherView { dispatched_through: Some(t_end), ..self },
            Err(error) => if flags.shutting_down {
                self
            } else if flags.finite_homing_admission {
                DispatcherView { pending_error: Some("dispatch failed: "@ + error.text()), ..self }
            } else {
                match error {
                    DispatchError::ExecutionHalted(reason) => self.halted(reason@),
                    _ => self,
                }
            },
        }
    }

    /// The state after the sink's verdict on a nudge.
    pub open spec fn after_nudge(self, verdict: Result<(), DispatchError>) -> DispatcherView<T> {
        match verdict {
            Ok(()) => self,
            Err(error) => DispatcherView {
                pending_error: Some("nudge dispatch: "@ + error.text()),
                ..self
            },
        }
    }

    /// What a barrier reports.
    pub open spec fn barrier_result(self) -> Option<Seq<char>> {
        if self.terminal_halt is Some {
            self.terminal_halt
        } else {
            self.pending_error
        }
    }

    /// The state after a barrier: a captured error is reported once.
    pub open spec fn after_barrier(self) -> DispatcherView<T> {
        if self.terminal_halt is Some {
            self
        } else {
            DispatcherView { pending_error: None, ..self }
        }
    }
}

impl<T: Copy> Dispatcher<T> {
    pub open spec fn view(&self) -> DispatcherView<T> {
        DispatcherView {
            dispatched_through: self.dispatched_through,
            pending_error: text_of(self.pending_error),
            terminal_halt: text_of(self.terminal_halt),
        }
    }

    pub fn new() -> (dispatcher: Self)
        ensures
            dispatcher@ == (DispatcherView::<T> {
                dispatched_through: None,
                pending_error: None,
                terminal_halt: None,
            }),
    {
        Dispatcher { dispatched_through: None, pending_error: None, terminal_halt: None }
    }

    /// Stops dispatching for good. The first reason stands; `true` asks the caller to
    /// clear the frontier, reset the fences and wake the submitter.
    pub fn halt(&mut self, reason: &str) -> (first: bool)
        ensures
            first == (old(self)@.terminal_halt is None),
            final(self)@ == old(self)@.halted(reason@),
    {
        if self.terminal_halt.is_none() {
            self.terminal_halt = Some(reason.to_owned());
            self.dispatched_through = None;
            true
        } else {
            false
        }
    }

    /// Whether a segment or a nudge goes to the sink at all.
    pub fn admits(&self, flags: LinkFlags) -> (admits: bool)
        ensures
            admits == self@.admits(flags),
    {
        !(flags.discard || flags.shutting_down || self.pending_error.is_some()
            || self.terminal_halt.is_some())
    }

    /// Takes in the sink's verdict on an admitted segment. `flags` are those raised
    /// when the verdict came.
    pub fn handle_segment(
        &mut self,
        flags: LinkFlags,
        t_end: T,
        verdict: Result<(), DispatchError>,
    ) -> (effect: SegmentEffect<T>)
        ensures
            final(self)@ == old(self)@.after_segment(flags, t_end, verdict),
            match verdict {
                Ok(()) => effect == SegmentEffect::Dispatched(t_end),
                Err(error) => if flags.shutting_down {
                    effect == SegmentEffect::<T>::Interrupted
                } else if flags.finite_homing_admission {
                    effect == SegmentEffect::<T>::Captured
                } else if error is ExecutionHalted {
                    effect == (SegmentEffect::<T>::Halted {
                        first: old(self)@.terminal_halt is None,
                    })
                } else {
                    effect matches SegmentEffect::Fatal(message) && message@ == "dispatch failed: "@
                        + error.text()
                },
            },
    {
        match verdict {
            Ok(()) => {
                self.dispatched_through = Some(t_end);
                SegmentEffect::Dispatched(t_end)
            },
            Err(error) => {
                if flags.shutting_down {
                    return SegmentEffect::Interrupted;
                }
                if flags.finite_homing_admission {
                    let mut message = "dispatch failed: ".to_owned();
                    let reason = error.message();
                    message.append(reason.as_str());
                    self.pending_error = Some(message);
                    return SegmentEffect::Captured;
                }
                match error {
                    DispatchError::ExecutionHalted(reason) => {
                        let first = self.halt(reason.as_str());
                        SegmentEffect::Halted { first }
                    },
                    other => {
                        let mut message = "dispatch failed: ".to_owned();
                        let reason = other.message();
                        message.append(reason.as_str());
                        SegmentEffect::Fatal(message)
                    },
                }
            },
        }
    }

    /// Acknowledges a barrier: how far the stream was dispatched, and the error that
    /// was captured since the last one or the halt that stands.
    pub fn handle_barrier(&mut self) -> (ack: BarrierAck<T>)
        ensures
            ack.dispatched_through == old(self)@.dispatched_through,
            match ack.result {
                Ok(()) => old(self)@.barrier_result() is None,
                Err(reason) => old(self)@.barrier_result() == Some(reason@),
            },
            final(self)@ == old(self)@.after_barrier(),
    {
        let result = match &self.terminal_halt {
            Some(reason) => Err(reason.clone()),
            None => match self.pending_error.take() {
                Some(reason) => Err(reason),
                None => Ok(()),
            },
        };
        BarrierAck { dispatched_through: self.dispatched_through, result }
    }

    /// The in-band reset: nothing counts as dispatched any more. The caller lowers the
    /// discard gate, clears the frontier, resets the fences and publishes time zero.
    pub fn handle_reset(&mut self)
        ensures
            final(self)@ == (DispatcherView { dispatched_through: None, ..old(self)@ }),
    {
        self.dispatched_through = None;
    }

    /// A dwell moves the dispatched time on by `dwell`, where something was dispatched;
    /// the new time is what the caller publishes.
    pub fn handle_dwell<F: FnOnce(T) -> T>(&mut self, dwell: F) -> (published: Option<T>)
        requires
            old(self).dispatched_through matches Some(t) ==> call_requires(dwell, (t,)),
        ensures
            published == final(self)@.dispatched_through,
            match old(self)@.dispatched_through {
                Some(t) => published is Some && call_ensures(dwell, (t,), published->0),
                None => published is None,
            },
            final(self)@.pending_error == old(self)@.pending_error,
            final(self)@.terminal_halt == old(self)@.terminal_halt,
    {
        if let Some(t) = self.dispatched_through {
            let later = dwell(t);
            self.dispatched_through = Some(later);
        }
        self.dispatched_through
    }

    /// Takes in the sink's verdict on an admitted nudge. A nudge error is never fatal:
    /// a barrier always follows, so the error reaches the caller through its ack.
    /// `Some` is the stream time to publish.
    pub fn handle_nudge(&mut self, t_end: T, verdict: Result<(), DispatchError>) -> (published:
        Option<T>)
        ensures
            published == if verdict is Ok {
                Some(t_end)
            } else {
                None
            },
            final(self)@ == old(self)@.after_nudge(verdict),
    {
        match verdict {
            Ok(()) => Some(t_end),
            Err(error) => {
                let mut message = "nudge dispatch: ".to_owned();
                let reason = error.message();
                message.append(reason.as_str());
                self.pending_error = Some(message);
                None
            },
        }
    }
}

/// Once halted, the stage stays halted with its first reason, admits nothing and
/// reports that reason at every barrier.
pub proof fn law_halt_is_final<T>(
    state: DispatcherView<T>,
    flags: LinkFlags,
    reason: Seq<char>,
    t_end: T,
    verdict: Result<(), DispatchError>,
)
    requires
        state.terminal_halt is Some,
    ensures
        !state.admits(flags),
        state.halted(reason) == state,
        state.after_barrier() == state,
        state.barrier_result() == state.terminal_halt,
        state.after_segment(flags, t_end, verdict).terminal_halt == state.terminal_halt,
{
}

/// A captured error holds every later segment back, and the next barrier reports
/// it exactly once.
pub proof fn law_captured_error_is_reported_once<T>(state: DispatcherView<T>, flags: LinkFlags)
    requires
        state.pending_error is Some,
        state.terminal_halt is None,
    ensures
        !state.admits(flags),
        state.barrier_result() == state.pending_error,
        state.after_barrier().barrier_result() is None,
        state.after_barrier().dispatched_through == state.dispatched_through,
{
}

/// The barrier that follows an admitted nudge reports the nudge's own error, and
/// succeeds where the nudge did.
pub proof fn law_nudge_verdict_reaches_the_barrier<T>(
    state: DispatcherView<T>,
    flags: LinkFlags,
    verdict: Result<(), DispatchError>,
)
    requires
        state.admits(flags),
    ensures
        state.after_nudge(verdict).barrier_result() == match verdict {
            Ok(()) => None,
            Err(error) => Some("nudge dispatch: "@ + error.text()),
        },
        state.after_nudge(verdict).after_barrier() == state,
{
}

/// What a barrier acknowledges as dispatched is the end of the last segment the
/// sink took since the last reset or halt.
pub proof fn law_dispatched_time_follows_the_last_segment<T>(
    state: DispatcherView<T>,
    flags: LinkFlags,
    t_end: T,
)
    ensures
        state.after_segment(flags, t_end, Ok(())).dispatched_through == Some(t_end),
        state.after_barrier().dispatched_through == state.dispatched_through,
{
}

/// Only segments and nudges wait for room; while nothing is raised, every other
/// item passes and these two do not.
pub proof fn law_only_motion_waits_for_room(item: ItemKind, cohort_active: bool)
    ensures
        (LinkFlags {
            discard: false,
            finite_homing_admission: false,
            shutting_down: false,
        }).spec_bypasses_capacity(item, cohort_active) <==> item != ItemKind::Segment && item
            != ItemKind::Nudge,
{
}

/// An item enters the pump whatever its room while everything is being discarded or the
/// worker shuts down; else only what is no motion does, and a segment of an active homing
/// cohort while its admission is open. A nudge never does.
pub proof fn law_room_is_waited_for_by_motion_alone(
    flags: LinkFlags,
    item: ItemKind,
    cohort_active: bool,
    bypasses: bool,
)
    requires
        call_ensures(LinkFlags::bypasses_capacity, (&flags, item, cohort_active), bypasses),
    ensures
        flags.discard || flags.shutting_down ==> bypasses,
        item is Parked || item is OtherControl ==> bypasses,
        !flags.discard && !flags.shutting_down && item is Nudge ==> !bypasses,
        !flags.discard && !flags.shutting_down && item is Segment ==> (bypasses <==> cohort_active
            && flags.finite_homing_admission),
{
}

/// Motion is handed to the sink unless it is being discarded, the worker shuts down, an
/// error waits for its barrier or execution has halted; each of these alone holds it back.
pub proof fn law_only_a_clear_stage_dispatches<T: Copy>(
    dispatcher: Dispatcher<T>,
    flags: LinkFlags,
    admits: bool,
)
    requires
        call_ensures(Dispatcher::<T>::admits, (&dispatcher, flags), admits),
    ensures
        flags.discard ==> !admits,
        flags.shutting_down ==> !admits,
        dispatcher.pending_error is Some ==> !admits,
        dispatcher.terminal_halt is Some ==> !admits,
        !flags.discard && !flags.shutting_down && dispatcher.pending_error is None
            && dispatcher.terminal_halt is None ==> admits,
{
}

/// A segment that the sink took moves the dispatched time to its end and changes nothing
/// else. One that it refused never moves the time forward: in a shutdown it is forgotten,
/// under a homing admission its error waits for the next barrier, and else a halt of
/// execution stands from then on with its own reason while any other error leaves the stage
/// as it was.
pub proof fn law_refused_segment_is_not_dispatched<T>(
    state: DispatcherView<T>,
    flags: LinkFlags,
    t_end: T,
    error: DispatchError,
)
    ensures
        ({
            let taken = state.after_segment(flags, t_end, Ok(()));
            &&& taken.dispatched_through == Some(t_end)
            &&& taken.pending_error == state.pending_error
            &&& taken.terminal_halt == state.terminal_halt
        }),
        ({
            let refused = state.after_segment(flags, t_end, Err(error));
            &&& refused.dispatched_through == state.dispatched_through
                || refused.dispatched_through is None
            &&& flags.shutting_down ==> refused == state
            &&& !flags.shutting_down && flags.finite_homing_admission ==> {
                &&& refused.pending_error == Some("dispatch failed: "@ + error.text())
                &&& refused.dispatched_through == state.dispatched_through
                &&& refused.terminal_halt == state.terminal_halt
            }
            &&& !flags.shutting_down && !flags.finite_homing_admission ==> {
                &&& refused.pending_error == state.pending_error
                &&& !(error is ExecutionHalted) ==> refused == state
                &&& state.terminal_halt is Some ==> refused == state
                &&& error is ExecutionHalted && state.terminal_halt is None ==> {
                    &&& refused.terminal_halt == Some(error->ExecutionHalted_0@)
                    &&& refused.dispatched_through is None
                }
            }
        }),
{
}

/// Halting forgets how far the stream was dispatched, and keeps an error that waits for its
/// barrier.
pub proof fn law_halt_forgets_the_dispatched_time<T>(state: DispatcherView<T>, reason: Seq<char>)
    requires
        state.terminal_halt is None,
    ensures
        state.halted(reason).terminal_halt == Some(reason),
        state.halted(reason).dispatched_through is None,
        state.halted(reason).pending_error == state.pending_error,
        state.halted(reason).barrier_result() == Some(reason),
{
}

/// A nudge moves no dispatched time, whatever the sink makes of it, and only a refused one
/// leaves an error behind.
pub proof fn law_nudge_moves_no_time<T>(
    state: DispatcherView<T>,
    verdict: Result<(), DispatchError>,
)
    ensures
        state.after_nudge(verdict).dispatched_through == state.dispatched_through,
        state.after_nudge(verdict).terminal_halt == state.terminal_halt,
        verdict is Ok ==> state.after_nudge(verdict).pending_error == state.pending_error,
        verdict is Err ==> state.after_nudge(verdict).pending_error is Some,
{
}

/// A time is written in whole seconds and three decimals.
pub proof fn law_seconds_have_three_decimals(seconds: u64, hundreds: u64, tens: u64, ones: u64)
    requires
        hundreds < 10,
        tens < 10,
        ones < 10,
        seconds * 1000 + 999 <= u64::MAX,
    ensures
        seconds_text((seconds * 1000 + hundreds * 100 + tens * 10 + ones) as u64)
            == crate::text::decimal(seconds as nat) + "."@ + seq![
            crate::text::digit_char(hundreds as int),
            crate::text::digit_char(tens as int),
            crate::text::digit_char(ones as int),
        ],
{
    reveal_strlit("00");
    reveal_strlit("0");
    reveal_strlit("");
    let rest = (hundreds * 100 + tens * 10 + ones) as u64;
    let ms = (seconds * 1000 + hundreds * 100 + tens * 10 + ones) as u64;
    assert(ms / 1000 == seconds);
    assert(ms % 1000 == rest);
    let (h, t, o) = (hundreds as nat, tens as nat, ones as nat);
    crate::text::law_decimal_grows_by_a_digit(h * 10 + t, o);
    crate::text::law_decimal_grows_by_a_digit(h, t);
    crate::text::law_decimal_grows_by_a_digit(0, h);
    crate::text::law_decimal_grows_by_a_digit(0, t);
    let digits = seq![
        crate::text::digit_char(hundreds as int),
        crate::text::digit_char(tens as int),
        crate::text::digit_char(ones as int),
    ];
    assert(rest as nat == (h * 10 + t) * 10 + o);
    if rest < 10 {
        assert(crate::text::decimal(rest as nat) =~= seq![digits[2]]);
        assert("00"@ + seq![digits[2]] =~= digits);
        assert(seconds_text(ms) =~= crate::text::decimal(seconds as nat) + "."@ + digits);
    } else if rest < 100 {
        assert(crate::text::decimal(rest as nat) =~= seq![digits[1], digits[2]]);
        assert(seconds_text(ms) =~= crate::text::decimal(seconds as nat) + "."@ + digits);
    } else {
        assert(crate::text::decimal(rest as nat) =~= digits);
        assert(seconds_text(ms) =~= crate::text::decimal(seconds as nat) + "."@ + digits);
    }
}

/// A refusal names the mcu and the handle of the clock record, its age and the limit, the
/// target of a nudge, or the reason it was given, each in its place.
pub proof fn law_refusal_names_its_cause(error: DispatchError, message: String)
    requires
        call_ensures(DispatchError::message, (&error,), message),
    ensures
        error matches DispatchError::ClockRecordStale { mcu_id, mcu_handle, age_ms, max_age_ms }
            ==> exists|rest: Seq<char>|
            message@ == #[trigger] (("mcu "@ + crate::text::decimal(mcu_id as nat)
                + " (mcu_h=McuHandle("@ + crate::text::decimal(mcu_handle as nat) + ")) "@)
                + "clocksync record is "@ + seconds_text(age_ms) + "s old (limit "@ + seconds_text(
                max_age_ms,
            ) + rest),
        error matches DispatchError::ClockRecordUnusable { mcu_id, mcu_handle } ==> exists|
            rest: Seq<char>,
        |
            message@ == #[trigger] (("mcu "@ + crate::text::decimal(mcu_id as nat)
                + " (mcu_h=McuHandle("@ + crate::text::decimal(mcu_handle as nat) + ")) "@) + rest),
        error matches DispatchError::ExecutionHalted(reason) ==> message@
            == "execution halted on a fatal endpoint condition: "@ + reason@,
        error matches DispatchError::NudgeTargetMissing { mcu_id, axis } ==> message@
            == "nudge target mcu_id="@ + crate::text::decimal(mcu_id as nat) + " axis="@
            + crate::text::decimal(axis as nat) + " not present in mcu_configs"@,
        error matches DispatchError::Enqueue(reason) ==> message@ == "enqueue: "@ + reason@,
{
}

/// The value of the stage is its fields.
pub proof fn law_stage_value_is_its_fields<T: Copy>(dispatcher: Dispatcher<T>)
    ensures
        dispatcher@.dispatched_through == dispatcher.dispatched_through,
        dispatcher.pending_error is None <==> dispatcher@.pending_error is None,
        dispatcher.pending_error matches Some(reason) ==> dispatcher@.pending_error == Some(
            reason@,
        ),
        dispatcher.terminal_halt is None <==> dispatcher@.terminal_halt is None,
        dispatcher.terminal_halt matches Some(reason) ==> dispatcher@.terminal_halt == Some(
            reason@,
        ),
{
}

/// A segment that the sink took is told as dispatched up to its end, and that is where the
/// stage stands from then on. One that it refused is told as interrupted in a shutdown, as
/// captured under a homing admission, as a halt where execution halted, and else as fatal
/// with its reason.
pub proof fn law_segment_is_told_as_it_went<T: Copy>(
    dispatcher: &mut Dispatcher<T>,
    flags: LinkFlags,
    t_end: T,
    verdict: Result<(), DispatchError>,
    effect: SegmentEffect<T>,
)
    requires
        call_ensures(
            Dispatcher::<T>::handle_segment,
            (dispatcher, flags, t_end, verdict),
            effect,
        ),
    ensures
        verdict is Ok <==> effect is Dispatched,
        verdict is Ok ==> effect->Dispatched_0 == t_end && final(dispatcher)@.dispatched_through
            == Some(t_end),
        verdict is Err ==> final(dispatcher)@.dispatched_through
            == old(dispatcher)@.dispatched_through || final(dispatcher)@.dispatched_through is None,
        effect is Interrupted <==> verdict is Err && flags.shutting_down,
        effect is Captured <==> verdict is Err && !flags.shutting_down
            && flags.finite_homing_admission,
        effect is Captured ==> final(dispatcher)@.pending_error is Some,
        effect is Halted <==> verdict is Err && !flags.shutting_down
            && !flags.finite_homing_admission && verdict->Err_0 is ExecutionHalted,
        effect is Halted ==> final(dispatcher)@.terminal_halt is Some && effect->first == (
        old(dispatcher)@.terminal_halt is None),
        effect matches SegmentEffect::Fatal(message) ==> message@ == "dispatch failed: "@
            + verdict->Err_0.text() && final(dispatcher)@ == old(dispatcher)@,
{
}

/// A barrier tells how far the stream was dispatched, and the standing halt before an error
/// that waits. It succeeds exactly where there is neither, and leaves only the halt.
pub proof fn law_barrier_tells_halt_before_error<T: Copy>(
    dispatcher: &mut Dispatcher<T>,
    ack: BarrierAck<T>,
)
    requires
        call_ensures(Dispatcher::<T>::handle_barrier, (dispatcher,), ack),
    ensures
        ack.dispatched_through == old(dispatcher).dispatched_through,
        ack.result is Ok <==> old(dispatcher).terminal_halt is None
            && old(dispatcher).pending_error is None,
        old(dispatcher).terminal_halt matches Some(reason) ==> ack.result->Err_0@ == reason@,
        old(dispatcher).terminal_halt is None ==> (old(dispatcher).pending_error matches Some(
            reason,
        ) ==> ack.result->Err_0@ == reason@),
        final(dispatcher)@.dispatched_through == old(dispatcher)@.dispatched_through,
        final(dispatcher)@.terminal_halt == old(dispatcher)@.terminal_halt,
        old(dispatcher)@.terminal_halt is None ==> final(dispatcher)@.pending_error is None,
{
}

/// A halt stands with its first reason and forgets the dispatched time, a reset forgets the
/// time alone, and a nudge publishes its end exactly where the sink took it.
pub proof fn law_halt_reset_and_nudge_leave_the_rest<T: Copy>(
    halted: &mut Dispatcher<T>,
    reason: &str,
    first: bool,
    reset: &mut Dispatcher<T>,
    nudged: &mut Dispatcher<T>,
    t_end: T,
    verdict: Result<(), DispatchError>,
    published: Option<T>,
)
    requires
        call_ensures(Dispatcher::<T>::halt, (halted, reason), first),
        call_ensures(Dispatcher::<T>::handle_reset, (reset,), ()),
        call_ensures(Dispatcher::<T>::handle_nudge, (nudged, t_end, verdict), published),
    ensures
        first <==> old(halted)@.terminal_halt is None,
        first ==> final(halted)@.terminal_halt == Some(reason@)
            && final(halted)@.dispatched_through is None,
        !first ==> final(halted)@ == old(halted)@,
        final(reset)@.dispatched_through is None,
        final(reset)@.pending_error == old(reset)@.pending_error,
        final(reset)@.terminal_halt == old(reset)@.terminal_halt,
        verdict is Ok <==> published is Some,
        published is Some ==> published == Some(t_end) && final(nudged)@ == old(nudged)@,
        verdict matches Err(error) ==> final(nudged)@.pending_error == Some(
            "nudge dispatch: "@ + error.text(),
        ),
        final(nudged)@.dispatched_through == old(nudged)@.dispatched_through,
{
}

/// A dwell moves the dispatched time on, where there is one, and publishes where it came to;
/// without one it publishes nothing. Errors and halts stay.
pub proof fn law_dwell_moves_the_dispatched_time<T: Copy, F: FnOnce(T) -> T>(
    dispatcher: &mut Dispatcher<T>,
    dwell: F,
    published: Option<T>,
)
    requires
        call_ensures(Dispatcher::<T>::handle_dwell::<F>, (dispatcher, dwell), published),
    ensures
        published is Some <==> old(dispatcher)@.dispatched_through is Some,
        published matches Some(later) ==> call_ensures(
            dwell,
            (old(dispatcher)@.dispatched_through->0,),
            later,
        ) && final(dispatcher)@.dispatched_through == Some(later),
        published is None ==> final(dispatcher)@.dispatched_through is None,
        final(dispatcher)@.pending_error == old(dispatcher)@.pending_error,
        final(dispatcher)@.terminal_halt == old(dispatcher)@.terminal_halt,
{
}

} // verus!
