//! Events an mcu reports, and how they reach the host's subscribers.
//!
//! The bulk lane is bounded exactly like the priority lane: the reactor thread also
//! drives the wire, so a stalled subscriber must never be allowed to block it or to
//! grow the queue without bound. Excess bulk samples are dropped and counted.

use crate::worker::SendOutcome;
use std::sync::mpsc::SyncSender;
use vstd::prelude::*;
use vstd::string::*;

verus! {

/// The engine's status while it is faulted.
pub const ENGINE_STATUS_FAULT: u8 = 3;

/// The slots of the mcu's segment queue that can be filled.
pub const QUEUE_SLOTS: u8 = 7;

#[derive(Debug, Clone, Copy, PartialEq, Eq, Structural)]
pub struct CreditFreedEvent {
    pub retired_through_segment_id: u32,
    pub free_slots: u8,
}

#[derive(Debug, Clone, Copy, PartialEq, Eq, Structural)]
pub struct FaultEvent {
    pub fault_code: u16,
    pub fault_detail: u32,
    pub segment_id: u32,
    pub synthesized: bool,
}

#[derive(Debug, Clone, Copy, PartialEq, Eq, Structural)]
pub struct StatusEvent {
    pub engine_status: u8,
    pub queue_depth: u8,
    pub current_segment_id: u32,
    pub last_fault: u16,
    pub fault_detail: u32,
    pub retired_through_segment_id: u32,
}

#[derive(Debug, Clone, Copy, PartialEq, Eq, Structural)]
pub struct EndstopTripEvent {
    pub endstop_id: u8,
    pub trip_clock: u64,
}

#[derive(Debug, Clone, Copy, PartialEq, Eq, Structural)]
pub struct McuLogEvent {
    pub message_id: u32,
    pub arg0: u32,
    pub arg1: u32,
}

#[derive(Debug)]
pub enum RuntimeEvent {
    CreditFreed(CreditFreedEvent),
    Fault(FaultEvent),
    Status(StatusEvent),
    EndstopTrip(EndstopTripEvent),
    McuLog(McuLogEvent),
    Heartbeat { retired_counts: Vec<u32>, playback_clocks: Vec<u64> },
    UnknownOutput { payload: Vec<u8> },
    PassthroughResponse { name: String, payload: Vec<u8> },
}

pub open spec fn event_name(event: RuntimeEvent) -> Seq<char> {
    match event {
        RuntimeEvent::CreditFreed(_) => "credit_freed"@,
        RuntimeEvent::Fault(_) => "fault"@,
        RuntimeEvent::Status(_) => "status"@,
        RuntimeEvent::EndstopTrip(_) => "endstop_trip"@,
        RuntimeEvent::McuLog(_) => "mcu_log"@,
        RuntimeEvent::Heartbeat { .. } => "heartbeat"@,
        RuntimeEvent::UnknownOutput { .. } => "unknown_output"@,
        RuntimeEvent::PassthroughResponse { name, .. } => name@,
    }
}

/// What an event is called in reports: a passed-through response by its own name.
pub fn runtime_event_name(event: &RuntimeEvent) -> (name: &str)
    ensures
        name@ == event_name(*event),
{
    match event {
        RuntimeEvent::CreditFreed(_) => "credit_freed",
        RuntimeEvent::Fault(_) => "fault",
        RuntimeEvent::Status(_) => "status",
        RuntimeEvent::EndstopTrip(_) => "endstop_trip",
        RuntimeEvent::McuLog(_) => "mcu_log",
        RuntimeEvent::Heartbeat { .. } => "heartbeat",
        RuntimeEvent::UnknownOutput { .. } => "unknown_output",
        RuntimeEvent::PassthroughResponse { name, .. } => name.as_str(),
    }
}

/// A fault code is a signed number on the wire.
pub open spec fn signed_code(fault_code: u16) -> int {
    if fault_code < 0x8000 {
        fault_code as int
    } else {
        fault_code - 0x1_0000
    }
}

pub fn signed_fault_code(fault_code: u16) -> (code: i32)
    ensures
        code == signed_code(fault_code),
{
    if fault_code < 0x8000 {
        fault_code as i32
    } else {
        fault_code as i32 - 0x1_0000
    }
}

/// The sending half of a bounded `std::sync::mpsc` channel.
#[verifier::external_type_specification]
#[verifier::external_body]
#[verifier::reject_recursive_types(T)]
pub struct ExSyncSender<T>(SyncSender<T>);

/// `std::sync::mpsc::SyncSender::try_send`, its error as a value of this crate. A
/// message that was not sent comes back as it was. Whether it was sent rests on the
/// receiving thread, so nothing is claimed of that.
#[verifier::external_body]
fn try_send_event<T>(sender: &SyncSender<T>, event: T) -> (outcome: SendOutcome<T>)
    ensures
        outcome matches SendOutcome::Full(returned) ==> returned == event,
        outcome matches SendOutcome::Disconnected(returned) ==> returned == event,
{
    match sender.try_send(event) {
        Ok(()) => SendOutcome::Sent,
        Err(std::sync::mpsc::TrySendError::Full(event)) => SendOutcome::Full(event),
        Err(std::sync::mpsc::TrySendError::Disconnected(event)) => {
            SendOutcome::Disconnected(event)
        }
    }
}

/// `event` was handed to the channel behind `sender`, and the attempt ended in `outcome`.
pub closed spec fn offered(
    sender: SyncSender<RuntimeEvent>,
    event: RuntimeEvent,
    outcome: SendOutcome<RuntimeEvent>,
) -> bool {
    call_ensures(try_send_event::<RuntimeEvent>, (&sender, event), outcome)
}

/// Something to log about a lane.
#[derive(Debug)]
pub enum LaneReport {
    /// Nothing has changed.
    Quiet,
    /// The subscriber has stalled: this event is the first one dropped.
    Overflow { dropped: RuntimeEvent },
    /// The subscriber is draining again.
    Recovered,
}

#[derive(Debug, Clone, Copy, PartialEq, Eq)]
pub enum SubscribeError {
    AlreadySubscribed { channel: &'static str },
}

/// One lane's state besides its sender. Only the bulk lane counts what it drops and
/// reports that its subscriber has recovered.
#[derive(Debug, Clone, Copy, PartialEq, Eq, Structural)]
pub struct LaneState {
    pub bulk: bool,
    pub connected: bool,
    pub overflow: bool,
    pub dropped: u64,
}

/// The lane after one attempt to send.
pub open spec fn lane_after(lane: LaneState, outcome: SendOutcome<RuntimeEvent>) -> LaneState {
    match outcome {
        SendOutcome::Sent => LaneState { overflow: false, ..lane },
        SendOutcome::Full(_) => LaneState {
            overflow: true,
            dropped: if !lane.bulk || lane.dropped == u64::MAX {
                lane.dropped
            } else {
                (lane.dropped + 1) as u64
            },
            ..lane
        },
        SendOutcome::Disconnected(_) => LaneState { connected: false, overflow: false, ..lane },
    }
}

/// What one attempt to send gives to log: the first event of a stall, and the first
/// one sent after it.
pub open spec fn report_of(lane: LaneState, outcome: SendOutcome<RuntimeEvent>) -> LaneReport {
    match outcome {
        SendOutcome::Sent if lane.bulk && lane.overflow => LaneReport::Recovered,
        SendOutcome::Full(event) if !lane.overflow => LaneReport::Overflow { dropped: event },
        _ => LaneReport::Quiet,
    }
}

/// Takes in how an attempt to send went.
pub fn settle_lane(lane: LaneState, outcome: SendOutcome<RuntimeEvent>) -> (settled: (
    LaneState,
    LaneReport,
))
    ensures
        settled.0 == lane_after(lane, outcome),
        settled.1 == report_of(lane, outcome),
{
    match outcome {
        SendOutcome::Sent => {
            let report = if lane.bulk && lane.overflow {
                LaneReport::Recovered
            } else {
                LaneReport::Quiet
            };
            (LaneState { overflow: false, ..lane }, report)
        },
        SendOutcome::Full(event) => {
            let report = if lane.overflow {
                LaneReport::Quiet
            } else {
                LaneReport::Overflow { dropped: event }
            };
            let dropped: u64 = if lane.bulk {
                lane.dropped.saturating_add(1)
            } else {
                lane.dropped
            };
            (LaneState { overflow: true, dropped, ..lane }, report)
        },
        SendOutcome::Disconnected(_) => (
            LaneState { connected: false, overflow: false, ..lane },
            LaneReport::Quiet,
        ),
    }
}

/// Two bounded lanes to one subscriber.
#[derive(Debug)]
pub struct RuntimeEventDispatcher {
    priority: Option<SyncSender<RuntimeEvent>>,
    bulk: Option<SyncSender<RuntimeEvent>>,
    priority_overflow: bool,
    bulk_overflow: bool,
    bulk_dropped: u64,
}

impl Default for RuntimeEventDispatcher {
    fn default() -> (dispatcher: Self)
        ensures
            dispatcher.priority_lane() == (LaneState {
                bulk: false,
                connected: false,
                overflow: false,
                dropped: 0,
            }),
            dispatcher.bulk_lane() == (LaneState {
                bulk: true,
                connected: false,
                overflow: false,
                dropped: 0,
            }),
            dispatcher.sender(false) is None,
            dispatcher.sender(true) is None,
    {
        RuntimeEventDispatcher {
            priority: None,
            bulk: None,
            priority_overflow: false,
            bulk_overflow: false,
            bulk_dropped: 0,
        }
    }
}

impl RuntimeEventDispatcher {
    pub closed spec fn priority_lane(&self) -> LaneState {
        LaneState {
            bulk: false,
            connected: self.priority is Some,
            overflow: self.priority_overflow,
            dropped: 0,
        }
    }

    pub closed spec fn bulk_lane(&self) -> LaneState {
        LaneState {
            bulk: true,
            connected: self.bulk is Some,
            overflow: self.bulk_overflow,
            dropped: self.bulk_dropped,
        }
    }

    /// Where the events of a lane go.
    pub closed spec fn sender(&self, bulk: bool) -> Option<SyncSender<RuntimeEvent>> {
        if bulk {
            self.bulk
        } else {
            self.priority
        }
    }

    /// The lane a kind of event goes out through.
    pub open spec fn lane(&self, bulk: bool) -> LaneState {
        if bulk {
            self.bulk_lane()
        } else {
            self.priority_lane()
        }
    }

    /// Offers an event to its own lane's subscriber without ever waiting. Without a subscriber the event
    /// is dropped and nothing changes.
    pub fn dispatch(&mut self, event: RuntimeEvent, bulk: bool) -> (report: LaneReport)
        ensures
            final(self).lane(!bulk) == old(self).lane(!bulk),
            final(self).sender(!bulk) == old(self).sender(!bulk),
            final(self).sender(bulk) == if final(self).lane(bulk).connected {
                old(self).sender(bulk)
            } else {
                None
            },
            if !old(self).lane(bulk).connected {
                report is Quiet && final(self).lane(bulk) == old(self).lane(bulk)
            } else {
                exists|outcome: SendOutcome<RuntimeEvent>|
                    {
                        &&& outcome is Full ==> outcome->Full_0 == event
                        &&& outcome is Disconnected ==> outcome->Disconnected_0 == event
                        &&& #[trigger] offered(old(self).sender(bulk)->0, event, outcome)
                        &&& final(self).lane(bulk) == lane_after(old(self).lane(bulk), outcome)
                        &&& report == report_of(old(self).lane(bulk), outcome)
                    }
            },
    {
        if bulk {
            self.send_bulk(event)
        } else {
            self.send_priority(event)
        }
    }

    fn send_bulk(&mut self, event: RuntimeEvent) -> (report: LaneReport)
        ensures
            final(self).priority_lane() == old(self).priority_lane(),
            final(self).sender(false) == old(self).sender(false),
            final(self).sender(true) == if final(self).bulk_lane().connected {
                old(self).sender(true)
            } else {
                None
            },
            if !old(self).bulk_lane().connected {
                report is Quiet && final(self).bulk_lane() == old(self).bulk_lane()
            } else {
                exists|outcome: SendOutcome<RuntimeEvent>|
                    {
                        &&& outcome is Full ==> outcome->Full_0 == event
                        &&& outcome is Disconnected ==> outcome->Disconnected_0 == event
                        &&& #[trigger] offered(old(self).sender(true)->0, event, outcome)
                        &&& final(self).bulk_lane() == lane_after(old(self).bulk_lane(), outcome)
                        &&& report == report_of(old(self).bulk_lane(), outcome)
                    }
            },
    {
        let outcome = match &self.bulk {
            None => {
                return LaneReport::Quiet;
            },
            Some(sender) => try_send_event(sender, event),
        };
        let lane = LaneState {
            bulk: true,
            connected: true,
            overflow: self.bulk_overflow,
            dropped: self.bulk_dropped,
        };
        let ghost sent = outcome;
        assert(offered(old(self).sender(true)->0, event, sent));
        let (settled, report) = settle_lane(lane, outcome);
        if !settled.connected {
            self.bulk = None;
        }
        self.bulk_overflow = settled.overflow;
        self.bulk_dropped = settled.dropped;
        assert(self.bulk_lane() == lane_after(old(self).bulk_lane(), sent));
        report
    }

    fn send_priority(&mut self, event: RuntimeEvent) -> (report: LaneReport)
        ensures
            final(self).bulk_lane() == old(self).bulk_lane(),
            final(self).sender(true) == old(self).sender(true),
            final(self).sender(false) == if final(self).priority_lane().connected {
                old(self).sender(false)
            } else {
                None
            },
            if !old(self).priority_lane().connected {
                report is Quiet && final(self).priority_lane() == old(self).priority_lane()
            } else {
                exists|outcome: SendOutcome<RuntimeEvent>|
                    {
                        &&& outcome is Full ==> outcome->Full_0 == event
                        &&& outcome is Disconnected ==> outcome->Disconnected_0 == event
                        &&& #[trigger] offered(old(self).sender(false)->0, event, outcome)
                        &&& final(self).priority_lane() == lane_after(old(self).priority_lane(), outcome)
                        &&& report == report_of(old(self).priority_lane(), outcome)
                    }
            },
    {
        let outcome = match &self.priority {
            None => {
                return LaneReport::Quiet;
            },
            Some(sender) => try_send_event(sender, event),
        };
        let lane = LaneState {
            bulk: false,
            connected: true,
            overflow: self.priority_overflow,
            dropped: 0,
        };
        let ghost sent = outcome;
        assert(offered(old(self).sender(false)->0, event, sent));
        let (settled, report) = settle_lane(lane, outcome);
        if !settled.connected {
            self.priority = None;
        }
        self.priority_overflow = settled.overflow;
        assert(self.priority_lane() == lane_after(old(self).priority_lane(), sent));
        report
    }

    /// Connects the one subscriber there can be. A lane that has lost its receiver counts
    /// as free only once both have.
    pub fn subscribe(
        &mut self,
        priority: SyncSender<RuntimeEvent>,
        bulk: SyncSender<RuntimeEvent>,
    ) -> (outcome: Result<(), SubscribeError>)
        ensures
            outcome is Err <==> old(self).priority_lane().connected || old(self).bulk_lane().connected,
            outcome is Err ==> *final(self) == *old(self),
            outcome matches Err(SubscribeError::AlreadySubscribed { channel }) ==> channel@
                == "runtime_event"@,
            outcome is Ok ==> {
                &&& final(self).sender(false) == Some(priority)
                &&& final(self).sender(true) == Some(bulk)
                &&& final(self).priority_lane() == (LaneState {
                    connected: true,
                    overflow: false,
                    ..old(self).priority_lane()
                })
                &&& final(self).bulk_lane() == (LaneState {
                    connected: true,
                    overflow: false,
                    ..old(self).bulk_lane()
                })
            },
    {
        if self.priority.is_some() || self.bulk.is_some() {
            return Err(SubscribeError::AlreadySubscribed { channel: "runtime_event" });
        }
        self.priority = Some(priority);
        self.bulk = Some(bulk);
        self.priority_overflow = false;
        self.bulk_overflow = false;
        Ok(())
    }
}

// ---------------------------------------------------------------------------
// What each event does
// ---------------------------------------------------------------------------

/// One thing to do about an event, in order.
#[derive(Debug)]
pub enum EventEffect {
    /// Publish the frame as the latest status.
    PublishStatus(StatusEvent),
    /// Latch the fault.
    LatchFault(FaultEvent),
    /// Send the event to the subscriber.
    Forward(RuntimeEvent),
    /// Hand the odometers to the heartbeat callback, if one is attached.
    Heartbeat { retired_counts: Vec<u32>, playback_clocks: Vec<u64> },
    /// Hand the message to the log hook, if one is set.
    Log(McuLogEvent),
}

/// `watermark` is ahead of `reference` by less than half the range.
pub open spec fn watermark_advanced(watermark: u32, reference: u32) -> bool {
    crate::pump::barrier_ledger::seq_after(watermark, reference)
}

/// The fault a status frame reveals, where none is latched yet.
pub open spec fn synthesized_fault(frame: StatusEvent, latched: bool) -> Option<FaultEvent> {
    if frame.engine_status == ENGINE_STATUS_FAULT && !latched {
        Some(
            FaultEvent {
                fault_code: frame.last_fault,
                fault_detail: frame.fault_detail,
                segment_id: frame.current_segment_id,
                synthesized: true,
            },
        )
    } else {
        None
    }
}

/// The credit a status frame frees, where its watermark has advanced.
pub open spec fn synthesized_credit(frame: StatusEvent, watermark: u32) -> Option<
    CreditFreedEvent,
> {
    if watermark_advanced(frame.retired_through_segment_id, watermark) {
        Some(
            CreditFreedEvent {
                retired_through_segment_id: frame.retired_through_segment_id,
                free_slots: if frame.queue_depth >= QUEUE_SLOTS {
                    0
                } else {
                    (QUEUE_SLOTS - frame.queue_depth) as u8
                },
            },
        )
    } else {
        None
    }
}

/// The effects of one event, given the watermark so far and whether a fault is latched.
pub open spec fn effects_of(event: RuntimeEvent, watermark: u32, latched: bool) -> Seq<
    EventEffect,
> {
    match event {
        RuntimeEvent::Fault(fault) => seq![
            EventEffect::LatchFault(fault),
            EventEffect::Forward(event),
        ],
        RuntimeEvent::Status(frame) => seq![EventEffect::PublishStatus(frame)] + (
        match synthesized_fault(frame, latched) {
            Some(fault) => seq![EventEffect::LatchFault(fault)],
            None => Seq::empty(),
        }) + seq![EventEffect::Forward(event)] + (match synthesized_credit(frame, watermark) {
            Some(credit) => seq![EventEffect::Forward(RuntimeEvent::CreditFreed(credit))],
            None => Seq::empty(),
        }),
        RuntimeEvent::Heartbeat { retired_counts, playback_clocks } => seq![
            EventEffect::Heartbeat { retired_counts, playback_clocks },
        ],
        RuntimeEvent::McuLog(message) => seq![
            EventEffect::Log(message),
            EventEffect::Forward(event),
        ],
        _ => seq![EventEffect::Forward(event)],
    }
}

/// The watermark after one event.
pub open spec fn watermark_after(event: RuntimeEvent, watermark: u32) -> u32 {
    match event {
        RuntimeEvent::Status(frame) => if synthesized_credit(frame, watermark) is Some {
            frame.retired_through_segment_id
        } else {
            watermark
        },
        _ => watermark,
    }
}

/// Turns events into what is done about them.
#[derive(Debug, Clone, Copy, PartialEq, Eq, Structural)]
pub struct EventDispatcher {
    /// The furthest segment a status frame has reported retired.
    pub status_retired_watermark: u32,
}

impl EventDispatcher {
    pub fn new() -> (dispatcher: Self)
        ensures
            dispatcher.status_retired_watermark == 0,
    {
        EventDispatcher { status_retired_watermark: 0 }
    }

    /// What one event does, in order. `latched` is whether a fault is latched.
    pub fn dispatch(&mut self, event: RuntimeEvent, latched: bool) -> (effects: Vec<EventEffect>)
        ensures
            effects@ == effects_of(event, old(self).status_retired_watermark, latched),
            final(self).status_retired_watermark == watermark_after(
                event,
                old(self).status_retired_watermark,
            ),
    {
        let ghost reported = event;
        let mut effects: Vec<EventEffect> = Vec::new();
        match event {
            RuntimeEvent::Fault(fault) => {
                effects.push(EventEffect::LatchFault(fault));
                effects.push(EventEffect::Forward(RuntimeEvent::Fault(fault)));
            },
            RuntimeEvent::Status(frame) => {
                let (fault, credit) = self.handle_status_frame(frame, latched);
                effects.push(EventEffect::PublishStatus(frame));
                if let Some(fault) = fault {
                    effects.push(EventEffect::LatchFault(fault));
                }
                effects.push(EventEffect::Forward(RuntimeEvent::Status(frame)));
                if let Some(credit) = credit {
                    effects.push(EventEffect::Forward(RuntimeEvent::CreditFreed(credit)));
                }
            },
            RuntimeEvent::Heartbeat { retired_counts, playback_clocks } => {
                effects.push(EventEffect::Heartbeat { retired_counts, playback_clocks });
            },
            RuntimeEvent::McuLog(message) => {
                effects.push(EventEffect::Log(message));
                effects.push(EventEffect::Forward(RuntimeEvent::McuLog(message)));
            },
            other => {
                effects.push(EventEffect::Forward(other));
            },
        }
        assert(effects@ =~= effects_of(reported, old(self).status_retired_watermark, latched));
        effects
    }

    /// What a status frame implies besides itself: a fault nobody has reported, and the
    /// credit of the segments it shows retired.
    pub fn handle_status_frame(&mut self, frame: StatusEvent, latched: bool) -> (implied: (
        Option<FaultEvent>,
        Option<CreditFreedEvent>,
    ))
        ensures
            implied.0 == synthesized_fault(frame, latched),
            implied.1 == synthesized_credit(frame, old(self).status_retired_watermark),
            final(self).status_retired_watermark == watermark_after(
                RuntimeEvent::Status(frame),
                old(self).status_retired_watermark,
            ),
    {
        let fault = if frame.engine_status == ENGINE_STATUS_FAULT && !latched {
            Some(
                FaultEvent {
                    fault_code: frame.last_fault,
                    fault_detail: frame.fault_detail,
                    segment_id: frame.current_segment_id,
                    synthesized: true,
                },
            )
        } else {
            None
        };
        let watermark: u32 = frame.retired_through_segment_id;
        let credit = if crate::pump::barrier_ledger::barrier_seq_after(
            watermark,
            self.status_retired_watermark,
        ) {
            self.status_retired_watermark = watermark;
            Some(
                CreditFreedEvent {
                    retired_through_segment_id: watermark,
                    free_slots: QUEUE_SLOTS.saturating_sub(frame.queue_depth),
                },
            )
        } else {
            None
        };
        (fault, credit)
    }
}

/// A stall is reported once, and on the bulk lane its end once, however long it lasts.
pub proof fn law_stall_is_reported_once(
    lane: LaneState,
    event: RuntimeEvent,
    again: RuntimeEvent,
)
    requires
        !lane.overflow,
    ensures
        report_of(lane, SendOutcome::Full(event)) is Overflow,
        report_of(lane_after(lane, SendOutcome::Full(event)), SendOutcome::Full(again)) is Quiet,
        lane.bulk ==> report_of(lane_after(lane, SendOutcome::Full(event)), SendOutcome::Sent)
            is Recovered,
        report_of(
            lane_after(lane_after(lane, SendOutcome::Full(event)), SendOutcome::Sent),
            SendOutcome::Sent,
        ) is Quiet,
{
}

/// A frame that repeats a watermark frees no credit again, and the watermark never
/// moves back.
pub proof fn law_credit_is_freed_once(frame: StatusEvent, watermark: u32)
    ensures
        synthesized_credit(frame, watermark_after(RuntimeEvent::Status(frame), watermark)) is None
            || watermark_after(RuntimeEvent::Status(frame), watermark) == watermark,
        synthesized_credit(frame, watermark) is Some ==> synthesized_credit(
            frame,
            watermark_after(RuntimeEvent::Status(frame), watermark),
        ) is None,
        !watermark_advanced(watermark, watermark_after(RuntimeEvent::Status(frame), watermark)),
{
}

/// A fault is synthesized only where none is latched, so a reported one is never
/// replaced.
pub proof fn law_latched_fault_is_kept(frame: StatusEvent)
    ensures
        synthesized_fault(frame, true) is None,
{
}

/// Each kind of event has its own name; a passed-through response keeps the one it has.
pub proof fn law_events_are_named_by_their_kind(event: RuntimeEvent, name: &str)
    requires
        call_ensures(runtime_event_name, (&event,), name),
    ensures
        event is CreditFreed ==> name@ == "credit_freed"@,
        event is Fault ==> name@ == "fault"@,
        event is Status ==> name@ == "status"@,
        event is EndstopTrip ==> name@ == "endstop_trip"@,
        event is McuLog ==> name@ == "mcu_log"@,
        event is Heartbeat ==> name@ == "heartbeat"@,
        event is UnknownOutput ==> name@ == "unknown_output"@,
        event is PassthroughResponse ==> name@ == event->name@,
{
}

/// A fault code is read as the signed number with the same sixteen bits.
pub proof fn law_fault_code_is_twos_complement(fault_code: u16, code: i32)
    requires
        call_ensures(signed_fault_code, (fault_code,), code),
    ensures
        -0x8000 <= code < 0x8000,
        code as int % 0x1_0000 == fault_code,
{
}

/// A sent event ends a stall, a full lane begins or continues one, and a lost receiver
/// disconnects the lane. Only a full bulk lane counts what it drops, and it counts each.
pub proof fn law_lane_follows_the_attempt(
    lane: LaneState,
    outcome: SendOutcome<RuntimeEvent>,
    settled: (LaneState, LaneReport),
)
    requires
        call_ensures(settle_lane, (lane, outcome), settled),
    ensures
        settled.0.bulk == lane.bulk,
        settled.0.overflow <==> outcome is Full,
        settled.0.connected <==> lane.connected && outcome !is Disconnected,
        settled.0.dropped == if outcome is Full && lane.bulk && lane.dropped < u64::MAX {
            lane.dropped + 1
        } else {
            lane.dropped as int
        },
        settled.1 is Overflow <==> outcome is Full && !lane.overflow,
        settled.1 is Overflow ==> settled.1->dropped == outcome->Full_0,
        settled.1 is Recovered <==> outcome is Sent && lane.overflow && lane.bulk,
{
}

/// A lane is of the kind asked for, and connected exactly while it has a sender.
pub proof fn law_lane_is_of_its_kind(dispatcher: RuntimeEventDispatcher, bulk: bool)
    ensures
        dispatcher.lane(bulk).bulk == bulk,
        dispatcher.lane(bulk).connected <==> dispatcher.sender(bulk) is Some,
{
}

/// A status frame reveals a fault exactly where the engine's status is 3 and none is
/// latched, and the fault is the frame's own.
pub proof fn law_faulted_status_reveals_its_fault(frame: StatusEvent, latched: bool)
    ensures
        synthesized_fault(frame, latched) is Some <==> frame.engine_status == 3 && !latched,
        synthesized_fault(frame, latched) matches Some(fault) ==> {
            &&& fault.fault_code == frame.last_fault
            &&& fault.fault_detail == frame.fault_detail
            &&& fault.segment_id == frame.current_segment_id
            &&& fault.synthesized
        },
{
}

/// A status frame frees credit exactly where it shows more segments retired than any
/// before it, counting round; the watermark then moves there, and else stays. Of the
/// seven slots those that are not queued are free.
pub proof fn law_credit_follows_the_watermark(frame: StatusEvent, watermark: u32)
    ensures
        synthesized_credit(frame, watermark) is Some <==> 0 < (frame.retired_through_segment_id
            - watermark) % 0x1_0000_0000 < 0x8000_0000,
        synthesized_credit(frame, watermark) matches Some(credit) ==> {
            &&& credit.retired_through_segment_id == frame.retired_through_segment_id
            &&& frame.queue_depth <= 7 ==> credit.free_slots + frame.queue_depth == 7
            &&& frame.queue_depth > 7 ==> credit.free_slots == 0
        },
        watermark_after(RuntimeEvent::Status(frame), watermark) == if 0 < (
        frame.retired_through_segment_id - watermark) % 0x1_0000_0000 < 0x8000_0000 {
            frame.retired_through_segment_id
        } else {
            watermark
        },
{
}

/// Only a status frame moves the watermark.
pub proof fn law_other_events_leave_the_watermark(event: RuntimeEvent, watermark: u32)
    requires
        event !is Status,
    ensures
        watermark_after(event, watermark) == watermark,
{
}

/// Every event but a heartbeat is forwarded, and forwarded as it came. A fault is latched
/// before the subscriber hears of it, a log message reaches its hook first, and a heartbeat
/// goes to its callback alone.
pub proof fn law_events_are_forwarded(event: RuntimeEvent, watermark: u32, latched: bool)
    requires
        event !is Status,
    ensures
        event is Heartbeat ==> effects_of(event, watermark, latched).len() == 1 && effects_of(
            event,
            watermark,
            latched,
        )[0] == (EventEffect::Heartbeat {
            retired_counts: event->retired_counts,
            playback_clocks: event->playback_clocks,
        }),
        event !is Heartbeat ==> effects_of(event, watermark, latched).last()
            == EventEffect::Forward(event),
        event is Fault ==> effects_of(event, watermark, latched).len() == 2 && effects_of(
            event,
            watermark,
            latched,
        )[0] == EventEffect::LatchFault(event->Fault_0),
        event is McuLog ==> effects_of(event, watermark, latched).len() == 2 && effects_of(
            event,
            watermark,
            latched,
        )[0] == EventEffect::Log(event->McuLog_0),
        event !is Heartbeat && event !is Fault && event !is McuLog ==> effects_of(
            event,
            watermark,
            latched,
        ).len() == 1,
{
}

/// A status frame is published first and forwarded; a fault it reveals is latched before
/// it is forwarded, and the credit it frees is forwarded after it.
pub proof fn law_status_is_published_then_forwarded(
    frame: StatusEvent,
    watermark: u32,
    latched: bool,
)
    ensures
        ({
            let effects = effects_of(RuntimeEvent::Status(frame), watermark, latched);
            let faulted = frame.engine_status == 3 && !latched;
            let freed = 0 < (frame.retired_through_segment_id - watermark) % 0x1_0000_0000
                < 0x8000_0000;
            let at: int = if faulted {
                2
            } else {
                1
            };
            &&& effects[0] == EventEffect::PublishStatus(frame)
            &&& faulted ==> effects[1] is LatchFault && effects[1]->LatchFault_0.fault_code
                == frame.last_fault
            &&& effects[at] == EventEffect::Forward(RuntimeEvent::Status(frame))
            &&& freed ==> effects[at + 1] is Forward && effects[at + 1]->Forward_0 is CreditFreed
                && effects[at + 1]->Forward_0->CreditFreed_0.retired_through_segment_id
                == frame.retired_through_segment_id
            &&& effects.len() == at + 1 + if freed {
                1int
            } else {
                0
            }
        }),
{
}

/// A dispatched event touches its own lane alone, and without a subscriber nothing. A stall
/// begins with the event that is told, and counts on the bulk lane.
pub proof fn law_dispatched_event_touches_its_lane(
    dispatcher: &mut RuntimeEventDispatcher,
    event: RuntimeEvent,
    bulk: bool,
    report: LaneReport,
)
    requires
        call_ensures(RuntimeEventDispatcher::dispatch, (dispatcher, event, bulk), report),
    ensures
        final(dispatcher).lane(!bulk) == old(dispatcher).lane(!bulk),
        final(dispatcher).sender(!bulk) == old(dispatcher).sender(!bulk),
        old(dispatcher).sender(bulk) is None ==> report is Quiet && final(dispatcher).lane(bulk)
            == old(dispatcher).lane(bulk) && final(dispatcher).sender(bulk) is None,
        report is Overflow ==> report->dropped == event && !old(dispatcher).lane(bulk).overflow
            && final(dispatcher).lane(bulk).overflow,
        report is Recovered ==> bulk && old(dispatcher).lane(bulk).overflow && !final(dispatcher).lane(bulk).overflow,
        final(dispatcher).lane(bulk).dropped == old(dispatcher).lane(bulk).dropped || bulk
            && final(dispatcher).lane(bulk).overflow && final(dispatcher).lane(bulk).dropped
            == old(dispatcher).lane(bulk).dropped + 1,
        final(dispatcher).sender(bulk) is Some ==> final(dispatcher).sender(bulk) == old(dispatcher).sender(bulk),
{
    law_lane_is_of_its_kind(*old(dispatcher), bulk);
    law_lane_is_of_its_kind(*final(dispatcher), bulk);
}

/// There is one subscriber: a second one is refused and changes nothing; the first has both
/// lanes, each through the sender given for it, and neither stalled.
pub proof fn law_one_subscriber_has_both_lanes(
    dispatcher: &mut RuntimeEventDispatcher,
    priority: SyncSender<RuntimeEvent>,
    bulk: SyncSender<RuntimeEvent>,
    outcome: Result<(), SubscribeError>,
)
    requires
        call_ensures(RuntimeEventDispatcher::subscribe, (dispatcher, priority, bulk), outcome),
    ensures
        outcome is Ok <==> old(dispatcher).sender(false) is None && old(dispatcher).sender(true)
            is None,
        outcome is Ok ==> {
            &&& final(dispatcher).sender(false) == Some(priority)
            &&& final(dispatcher).sender(true) == Some(bulk)
            &&& !final(dispatcher).lane(false).overflow
            &&& !final(dispatcher).lane(true).overflow
            &&& final(dispatcher).lane(true).dropped == old(dispatcher).lane(true).dropped
        },
        outcome is Err ==> *final(dispatcher) == *old(dispatcher),
{
    law_lane_is_of_its_kind(*old(dispatcher), false);
    law_lane_is_of_its_kind(*old(dispatcher), true);
}

/// An event does what its kind does, in order, and a status frame moves the watermark where
/// it shows more retired.
pub proof fn law_event_does_what_its_kind_does(
    dispatcher: &mut EventDispatcher,
    event: RuntimeEvent,
    latched: bool,
    effects: Vec<EventEffect>,
)
    requires
        call_ensures(EventDispatcher::dispatch, (dispatcher, event, latched), effects),
    ensures
        event !is Heartbeat ==> effects@.contains(EventEffect::Forward(event)),
        event is Heartbeat ==> effects@.len() == 1 && effects@[0] is Heartbeat,
        event matches RuntimeEvent::Fault(fault) ==> effects@[0] == EventEffect::LatchFault(fault),
        event matches RuntimeEvent::McuLog(message) ==> effects@[0] == EventEffect::Log(message),
        event matches RuntimeEvent::Status(frame) ==> {
            let freed = 0 < (frame.retired_through_segment_id - old(dispatcher).status_retired_watermark) % 0x1_0000_0000 < 0x8000_0000;
            &&& effects@[0] == EventEffect::PublishStatus(frame)
            &&& (frame.engine_status == 3 && !latched) <==> effects@[1] is LatchFault
            &&& freed ==> final(dispatcher).status_retired_watermark
                == frame.retired_through_segment_id
            &&& !freed ==> final(dispatcher).status_retired_watermark == old(dispatcher).status_retired_watermark
            &&& freed <==> effects@.last() is Forward && effects@.last()->Forward_0 is CreditFreed
        },
        event !is Status ==> final(dispatcher).status_retired_watermark == old(dispatcher).status_retired_watermark,
{
    let watermark = old(dispatcher).status_retired_watermark;
    if let RuntimeEvent::Status(frame) = event {
        law_status_is_published_then_forwarded(frame, watermark, latched);
        law_credit_follows_the_watermark(frame, watermark);
        let at: int = if frame.engine_status == 3 && !latched {
            2
        } else {
            1
        };
        assert(effects@[at] == EventEffect::Forward(event));
    } else {
        law_events_are_forwarded(event, watermark, latched);
        if event !is Heartbeat {
            assert(effects@[effects@.len() - 1] == EventEffect::Forward(event));
        }
    }
}

/// What a status frame implies is its own fault and its own credit.
pub proof fn law_status_frame_implies_its_own(
    dispatcher: &mut EventDispatcher,
    frame: StatusEvent,
    latched: bool,
    implied: (Option<FaultEvent>, Option<CreditFreedEvent>),
)
    requires
        call_ensures(EventDispatcher::handle_status_frame, (dispatcher, frame, latched), implied),
    ensures
        implied.0 is Some <==> frame.engine_status == 3 && !latched,
        implied.0 matches Some(fault) ==> fault.fault_code == frame.last_fault
            && fault.fault_detail == frame.fault_detail && fault.segment_id
            == frame.current_segment_id && fault.synthesized,
        implied.1 is Some <==> 0 < (frame.retired_through_segment_id - old(dispatcher).status_retired_watermark) % 0x1_0000_0000 < 0x8000_0000,
        implied.1 matches Some(credit) ==> credit.retired_through_segment_id
            == frame.retired_through_segment_id && final(dispatcher).status_retired_watermark
            == frame.retired_through_segment_id,
        implied.1 is None ==> final(dispatcher).status_retired_watermark == old(dispatcher).status_retired_watermark,
{
    law_credit_follows_the_watermark(frame, old(dispatcher).status_retired_watermark);
}

} // verus!
