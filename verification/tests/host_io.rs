use std::sync::mpsc::sync_channel;

use kalico_motion::host_io::command::{
    call_submitted, call_written, clock_asked, identify_written, payload_sent, BatchAnswer,
    BatchStage, ClockRequest, CommandAction, ErrorReply, FireAndForgetBatch, McuSession,
    ReactorCommand, ReactorFlags, SendAnswer, TransportError,
};
use kalico_motion::host_io::events::{
    runtime_event_name, signed_fault_code, EndstopTripEvent, EventDispatcher, EventEffect,
    LaneReport, RuntimeEvent, RuntimeEventDispatcher, StatusEvent, SubscribeError,
    ENGINE_STATUS_FAULT,
};
use kalico_motion::host_io::rtt::{Factor, RttEstimator, MAX_RTO_NS, MIN_RTO_MS, MIN_RTO_NS};

const MS: u64 = 1_000_000;

fn scale(ns: u64, factor: Factor) -> u64 {
    match factor {
        Factor::Alpha => ns / 8,
        Factor::OneMinusAlpha => ns / 8 * 7,
        Factor::Beta => ns / 4,
        Factor::OneMinusBeta => ns / 4 * 3,
        Factor::Deviations => ns * 4,
    }
}

#[test]
fn a_first_sample_sets_the_estimate() {
    let mut rtt = RttEstimator::default();
    rtt.update(200 * MS, scale);
    let smoothed = rtt.smoothed.unwrap();
    assert_eq!(smoothed.srtt_ns, 200 * MS);
    assert_eq!(smoothed.rttvar_ns, 100 * MS);
    assert_eq!(rtt.current_rto(), 600 * MS);
    rtt.update(200 * MS, scale);
    assert_eq!(rtt.smoothed.unwrap().srtt_ns, 200 * MS);
    assert_eq!(rtt.current_rto(), 500 * MS);
}

#[test]
fn the_timeout_stays_between_its_bounds() {
    let mut rtt = RttEstimator::default();
    rtt.update(1, scale);
    assert_eq!(rtt.current_rto(), MIN_RTO_NS);
    for _ in 0..20 {
        let before = rtt.current_rto();
        rtt.backoff();
        assert!(rtt.current_rto() >= before);
    }
    assert_eq!(rtt.current_rto(), MAX_RTO_NS);
}

#[test]
fn the_timeout_starts_at_its_floor_and_doubles_to_its_bound() {
    let mut rtt = RttEstimator::default();
    assert_eq!(MIN_RTO_MS, 500);
    let mut seen = vec![rtt.current_rto() / MS];
    for _ in 0..5 {
        rtt.backoff();
        seen.push(rtt.current_rto() / MS);
    }
    assert_eq!(seen, vec![500, 1_000, 2_000, 4_000, 5_000, 5_000]);
    rtt.update(40 * MS, scale);
    assert_eq!(rtt.current_rto(), 500 * MS);
}

fn trip(clock: u64) -> RuntimeEvent {
    RuntimeEvent::EndstopTrip(EndstopTripEvent {
        endstop_id: 1,
        trip_clock: clock,
    })
}

#[test]
fn a_stalled_lane_is_reported_once_and_its_recovery_too() {
    let (priority, events) = sync_channel(1);
    let (bulk, _bulk_events) = sync_channel(1);
    let mut dispatcher = RuntimeEventDispatcher::default();
    assert!(dispatcher.subscribe(priority.clone(), bulk.clone()).is_ok());
    assert_eq!(
        dispatcher.subscribe(priority, bulk),
        Err(SubscribeError::AlreadySubscribed { channel: "runtime_event" })
    );

    assert!(matches!(
        dispatcher.dispatch(trip(1), false),
        LaneReport::Quiet
    ));
    assert!(matches!(
        dispatcher.dispatch(trip(2), false),
        LaneReport::Overflow {
            dropped: RuntimeEvent::EndstopTrip(EndstopTripEvent { trip_clock: 2, .. })
        }
    ));
    assert!(matches!(
        dispatcher.dispatch(trip(3), false),
        LaneReport::Quiet
    ));
    match events.recv().unwrap() {
        RuntimeEvent::EndstopTrip(event) => assert_eq!(event.trip_clock, 1),
        other => panic!("{other:?}"),
    }
    assert!(matches!(
        dispatcher.dispatch(trip(4), false),
        LaneReport::Quiet
    ));
    match events.recv().unwrap() {
        RuntimeEvent::EndstopTrip(event) => assert_eq!(event.trip_clock, 4),
        other => panic!("{other:?}"),
    }
}

#[test]
fn a_bulk_lane_reports_its_recovery() {
    let (priority, _events) = sync_channel(1);
    let (bulk, bulk_events) = sync_channel(1);
    let mut dispatcher = RuntimeEventDispatcher::default();
    assert!(dispatcher.subscribe(priority, bulk).is_ok());
    dispatcher.dispatch(trip(1), true);
    assert!(matches!(
        dispatcher.dispatch(trip(2), true),
        LaneReport::Overflow { .. }
    ));
    bulk_events.recv().unwrap();
    assert!(matches!(
        dispatcher.dispatch(trip(3), true),
        LaneReport::Recovered
    ));
    drop(bulk_events);
    assert!(matches!(
        dispatcher.dispatch(trip(4), true),
        LaneReport::Quiet
    ));
}

#[test]
fn events_have_names_and_fault_codes_a_sign() {
    assert_eq!(runtime_event_name(&trip(1)), "endstop_trip");
    assert_eq!(signed_fault_code(3), 3);
    assert_eq!(signed_fault_code(0xFFFF), -1);
}

fn status(retired: u32) -> StatusEvent {
    StatusEvent {
        engine_status: 1,
        queue_depth: 2,
        current_segment_id: 9,
        last_fault: 0,
        fault_detail: 0,
        retired_through_segment_id: retired,
    }
}

#[test]
fn a_status_frame_frees_credit_once() {
    let mut events = EventDispatcher::new();
    let (fault, credit) = events.handle_status_frame(status(4), false);
    assert!(fault.is_none());
    let credit = credit.unwrap();
    assert_eq!(credit.retired_through_segment_id, 4);
    assert_eq!(credit.free_slots, 5);
    let (_, again) = events.handle_status_frame(status(4), false);
    assert!(again.is_none());
    assert_eq!(events.status_retired_watermark, 4);
}

#[test]
fn a_faulted_status_is_latched_once() {
    let mut events = EventDispatcher::new();
    let mut frame = status(0);
    frame.engine_status = ENGINE_STATUS_FAULT;
    frame.last_fault = 12;
    let (fault, _) = events.handle_status_frame(frame, false);
    let fault = fault.unwrap();
    assert_eq!(fault.fault_code, 12);
    assert!(fault.synthesized);
    let (fault, _) = events.handle_status_frame(frame, true);
    assert!(fault.is_none());
    let effects = events.dispatch(RuntimeEvent::Status(frame), false);
    assert!(matches!(effects[0], EventEffect::PublishStatus(_)));
}

#[test]
fn shutting_down_closes_the_reactor() {
    let mut flags = ReactorFlags {
        closed: false,
        closed_via_shutdown: false,
        last_channel_wait_warn_ns: 0,
    };
    assert_eq!(
        flags.handle_command(ReactorCommand::MarkExpectedDisconnect, 0),
        CommandAction::Nothing
    );
    assert!(flags.closed_via_shutdown && !flags.closed);
    flags.handle_command(ReactorCommand::Shutdown, 0);
    assert!(flags.closed);
    assert_eq!(
        flags.handle_command(ReactorCommand::Call { call_id: 4 }, 0),
        CommandAction::SubmitCall { call_id: 4 }
    );
}

#[test]
fn a_late_batch_is_warned_of_at_most_twice_a_second() {
    let mut flags = ReactorFlags {
        closed: false,
        closed_via_shutdown: false,
        last_channel_wait_warn_ns: 0,
    };
    let late = |at: u64| ReactorCommand::FireAndForgetBatch { enqueued_at_ns: at };
    assert_eq!(
        flags.handle_command(late(1_000 * MS), 1_030 * MS),
        CommandAction::SendBatch {
            warn_waited_ns: Some(30 * MS)
        }
    );
    assert_eq!(
        flags.handle_command(late(1_100 * MS), 1_130 * MS),
        CommandAction::SendBatch { warn_waited_ns: None }
    );
    assert_eq!(
        flags.handle_command(late(1_590 * MS), 1_600 * MS),
        CommandAction::SendBatch { warn_waited_ns: None }
    );
}

#[test]
fn nothing_follows_a_failed_block() {
    let (mut batch, answer) = FireAndForgetBatch::start(Ok(3), 3);
    assert!(matches!(answer, BatchAnswer::Send { block: 0 }));
    assert!(matches!(batch.sent(Ok(())), BatchAnswer::Send { block: 1 }));
    match batch.sent(Err(TransportError::Io("gone".to_string()))) {
        BatchAnswer::Failed { release, context, error } => {
            assert_eq!(release, 3);
            assert_eq!(context, "handle_command/fire_and_forget_batch");
            assert!(matches!(error, TransportError::Io(reason) if reason == "gone"));
        }
        other => panic!("{other:?}"),
    }
    assert_eq!(batch.stage, BatchStage::Over { unsent: 2 });
    let (empty, answer) = FireAndForgetBatch::start(Ok(0), 4);
    assert!(matches!(answer, BatchAnswer::Done { release: 4 }));
    assert_eq!(empty.stage, BatchStage::Over { unsent: 0 });
}

#[test]
fn a_burst_that_cannot_be_packed_gives_its_reservation_back() {
    let (batch, answer) = FireAndForgetBatch::start(Err("too long".to_string()), 5);
    match answer {
        BatchAnswer::Unpackable { release, detail } => {
            assert_eq!(release, 5);
            assert_eq!(detail, "too long");
        }
        other => panic!("{other:?}"),
    }
    assert_eq!(batch.stage, BatchStage::Over { unsent: 0 });
}

#[test]
fn a_whole_batch_gives_its_reservation_back_at_the_end() {
    let (mut batch, _) = FireAndForgetBatch::start(Ok(2), 6);
    assert!(matches!(batch.sent(Ok(())), BatchAnswer::Send { block: 1 }));
    assert!(matches!(batch.sent(Ok(())), BatchAnswer::Done { release: 6 }));
}

#[test]
fn a_call_needs_an_identified_mcu() {
    let mut session = McuSession::new();
    match session.begin_call(|| panic!("no id is spent"), 10) {
        Err(TransportError::Parse(reason)) => {
            assert_eq!(reason, "kalico transport not yet identified");
        }
        other => panic!("{other:?}"),
    }
    session.identified = true;
    assert!(matches!(session.begin_call(|| 1, 10), Ok(1)));
    assert_eq!(session.pending.get(&1), Some(&10));
    assert!(session.call_write_failed(1));
    assert!(!session.call_write_failed(1));
    assert!(session.pending.is_empty());
}

#[test]
fn a_refused_identification_spends_its_correlation_id() {
    let mut session = McuSession::new();
    let mut next = 6;
    let mut allocate = || {
        next += 1;
        next
    };
    let (id, started) = session.begin_identify(&mut allocate);
    assert_eq!(id, 7);
    assert!(started.is_ok());
    let (id, started) = session.begin_identify(&mut allocate);
    assert_eq!(id, 8);
    assert!(matches!(started, Err(TransportError::Backpressure)));
    assert!(session.identify_write_failed());
    assert!(!session.identify_write_failed());
    let (id, started) = session.begin_identify(&mut allocate);
    assert_eq!(id, 9);
    assert!(started.is_ok());
}

fn gone() -> Result<(), TransportError> {
    Err(TransportError::Io("gone".to_string()))
}

fn failed(answer: SendAnswer) -> (&'static str, ErrorReply) {
    match answer {
        SendAnswer::Failed {
            context,
            error: TransportError::Io(reason),
            reply,
        } => {
            assert_eq!(reason, "gone");
            (context, reply)
        }
        other => panic!("{other:?}"),
    }
}

#[test]
fn a_failed_request_is_told_from_its_place() {
    assert_eq!(
        failed(call_submitted(gone())),
        ("handle_command/call", ErrorReply::Submitter)
    );
    assert_eq!(
        failed(payload_sent(gone())),
        ("handle_command/fire_and_forget", ErrorReply::Nobody)
    );
    assert_eq!(
        failed(identify_written(gone())),
        ("handle_command/mcu_identify", ErrorReply::PendingIdentify)
    );
    assert_eq!(
        failed(call_written(4, gone())),
        (
            "handle_command/mcu_call",
            ErrorReply::PendingCall { correlation_id: 4 }
        )
    );
    assert_eq!(
        failed(clock_asked(ClockRequest::Sent(gone()))),
        ("handle_command/get_clock_and_deliver", ErrorReply::Nobody)
    );
}

#[test]
fn a_request_that_went_out_asks_for_nothing() {
    assert!(matches!(call_submitted(Ok(())), SendAnswer::Done));
    assert!(matches!(payload_sent(Ok(())), SendAnswer::Done));
    assert!(matches!(identify_written(Ok(())), SendAnswer::Done));
    assert!(matches!(call_written(4, Ok(())), SendAnswer::Done));
    assert!(matches!(
        clock_asked(ClockRequest::Sent(Ok(()))),
        SendAnswer::Done
    ));
}

#[test]
fn a_clock_request_that_cannot_be_encoded_is_only_reported() {
    match clock_asked(ClockRequest::NotEncoded("no such command".to_string())) {
        SendAnswer::Report { detail } => assert_eq!(detail, "no such command"),
        other => panic!("{other:?}"),
    }
}
