use std::cell::Cell;

use kalico_motion::worker::dispatch::{
    BarrierAck, DispatchError, Dispatcher, ItemKind, LinkFlags, SegmentEffect,
};
use kalico_motion::worker::ingress::{
    adopt_stream_time, barrier_after_send, barrier_before_send, check_nudge_axis, handle_control,
    home_drip_axis, loop_action, nudge_items, nudge_verdict, send_fault, stream_time_after_dwell,
    ControlMsg, ControlStep, LoopAction, LoopEvent, NudgeItem, Pacer, PacerStep, Received,
    DRAIN_RESERVE_SAFETY,
};
use kalico_motion::worker::{
    flush_outcome, settle_first_send, settle_send, try_send_arming, try_send_msg,
    CommittedFrontier, SendOutcome, StreamWorkerError,
};

const MS: u64 = 1_000_000;

#[test]
fn a_slow_drain_reserves_runway_for_repeating_it_even_after_a_faster_drain() {
    let now = 10_000 * MS;
    let mut pacer = Pacer::new();
    pacer.note_move(now);
    let mut frontier = CommittedFrontier::default();
    let slow = 300 * MS;

    assert!(pacer.note_drain(slow));
    let widened = pacer.reserve_ns();
    assert!(widened >= slow * DRAIN_RESERVE_SAFETY);
    assert!(!pacer.note_drain(0));
    assert!(pacer.reserve_ns() >= widened);

    frontier.advance_to(now + 250 * MS);
    pacer.undrained_since_ns = Some(now - 1_000 * MS);
    assert_eq!(pacer.drain_or_runway(&frontier, now), PacerStep::Drain);
}

#[test]
fn the_pacer_waits_for_what_lies_beyond_the_reserve() {
    let mut pacer = Pacer::new();
    pacer.note_move(0);
    let mut frontier = CommittedFrontier::default();
    frontier.advance_to(2_000 * MS);
    assert_eq!(
        pacer.drain_or_runway(&frontier, 0),
        PacerStep::Wait(1_500 * MS)
    );
    pacer.note_drain_sent();
    assert_eq!(pacer.undrained_since_ns, None);
}

#[test]
fn the_frontier_only_moves_forward_until_cleared() {
    let mut frontier = CommittedFrontier::default();
    assert_eq!(frontier.runway_ns(5), 0);
    frontier.advance_to(100);
    frontier.advance_to(40);
    assert_eq!(frontier.deadline_ns, Some(100));
    assert_eq!(frontier.runway_ns(30), 70);
    assert_eq!(frontier.runway_ns(130), 0);
    frontier.clear();
    assert_eq!(frontier.runway_ns(30), 0);
}

#[test]
fn a_full_channel_is_told_and_arms_the_wakeup_once() {
    let (tx, rx) = crossbeam_channel::bounded(1);
    assert!(try_send_msg(&tx, 7u32).is_ok());
    assert!(matches!(
        try_send_msg(&tx, 8),
        Err(StreamWorkerError::ChannelFull)
    ));
    let armed = Cell::new(0);
    let told = try_send_arming(&tx, 9, || armed.set(armed.get() + 1));
    assert!(matches!(told, Err(StreamWorkerError::ChannelFull)));
    assert_eq!(armed.get(), 1);

    let told = try_send_arming(&tx, 10, || {
        armed.set(armed.get() + 1);
        assert_eq!(rx.recv().unwrap(), 7);
    });
    assert!(told.is_ok(), "the slot freed while arming is taken");
    assert_eq!(armed.get(), 2);
    assert_eq!(rx.recv().unwrap(), 10);

    drop(rx);
    let told = try_send_arming(&tx, 11, || armed.set(armed.get() + 1));
    assert!(matches!(told, Err(StreamWorkerError::ChannelClosed)));
    assert_eq!(armed.get(), 2, "a closed channel needs no wakeup");
}

#[test]
fn send_outcomes_are_settled() {
    assert!(settle_send(SendOutcome::<u8>::Sent).is_ok());
    assert!(matches!(
        settle_send(SendOutcome::Disconnected(1u8)),
        Err(StreamWorkerError::ChannelClosed)
    ));
    assert!(matches!(settle_first_send(SendOutcome::Full(5u8)), Ok(5)));
    assert!(matches!(
        settle_first_send(SendOutcome::Disconnected(5u8)),
        Err(Err(StreamWorkerError::ChannelClosed))
    ));
    assert!(matches!(
        settle_first_send(SendOutcome::<u8>::Sent),
        Err(Ok(()))
    ));
}

#[test]
fn worker_errors_are_spelled_out() {
    assert_eq!(
        StreamWorkerError::ChannelClosed.message(),
        "stream worker channel closed"
    );
    assert_eq!(
        StreamWorkerError::ChannelFull.message(),
        "stream worker input channel full (16 moves)"
    );
    let halted = flush_outcome(Some(Err("limit".to_string())));
    match halted {
        Err(error) => assert_eq!(error.message(), "execution halted: limit"),
        Ok(()) => panic!("a halted flush succeeded"),
    }
    assert!(flush_outcome(Some(Ok(()))).is_ok());
    assert!(matches!(
        flush_outcome(None),
        Err(StreamWorkerError::ChannelClosed)
    ));
}

fn open() -> LinkFlags {
    LinkFlags {
        discard: false,
        finite_homing_admission: false,
        shutting_down: false,
    }
}

#[test]
fn a_halted_dispatcher_stays_halted_and_reports_its_first_reason() {
    let mut dispatcher = Dispatcher::<u64>::new();
    assert!(dispatcher.halt("first"));
    assert!(!dispatcher.halt("second"));
    assert!(!dispatcher.admits(open()));
    let ack = dispatcher.handle_barrier();
    assert_eq!(ack.result, Err("first".to_string()));
    assert_eq!(ack.dispatched_through, None);
}

#[test]
fn a_dispatched_segment_moves_the_stream_time() {
    let mut dispatcher = Dispatcher::<u64>::new();
    assert!(matches!(
        dispatcher.handle_segment(open(), 5, Ok(())),
        SegmentEffect::Dispatched(5)
    ));
    assert_eq!(dispatcher.handle_dwell(|t| t + 3), Some(8));
    let ack = dispatcher.handle_barrier();
    assert_eq!(ack.dispatched_through, Some(8));
    assert_eq!(ack.result, Ok(()));
    dispatcher.handle_reset();
    assert_eq!(dispatcher.handle_barrier().dispatched_through, None);
    assert_eq!(dispatcher.handle_nudge(9, Ok(())), Some(9));
}

#[test]
fn a_refused_segment_is_captured_halted_or_fatal() {
    let refused = || Err(DispatchError::Enqueue("full".to_string()));
    let homing = LinkFlags {
        finite_homing_admission: true,
        ..open()
    };
    let mut dispatcher = Dispatcher::<u64>::new();
    assert!(matches!(
        dispatcher.handle_segment(homing, 5, refused()),
        SegmentEffect::Captured
    ));
    assert!(!dispatcher.admits(open()));
    assert!(dispatcher.handle_barrier().result.is_err());
    assert!(dispatcher.handle_barrier().result.is_ok(), "reported once");
    assert!(dispatcher.admits(open()));
    assert!(matches!(
        dispatcher.handle_segment(open(), 5, refused()),
        SegmentEffect::Fatal(_)
    ));
    let halted = Err(DispatchError::ExecutionHalted("limit".to_string()));
    assert!(matches!(
        dispatcher.handle_segment(open(), 5, halted),
        SegmentEffect::Halted { first: true }
    ));
    assert_eq!(
        dispatcher.handle_barrier().result,
        Err("limit".to_string())
    );
}

#[test]
fn a_failed_nudge_is_reported_by_the_next_barrier() {
    let mut dispatcher: Dispatcher<u64> = Dispatcher::new();
    let missing = DispatchError::NudgeTargetMissing { mcu_id: 3, axis: 2 };
    let reason = format!("nudge dispatch: {}", missing.message());
    assert_eq!(dispatcher.handle_nudge(9, Err(missing)), None);
    assert!(!dispatcher.admits(open()));
    assert_eq!(dispatcher.handle_barrier().result, Err(reason));
    assert_eq!(dispatcher.handle_barrier().result, Ok(()));
    assert!(dispatcher.admits(open()));
}

#[test]
fn a_nudge_and_a_buzz_go_down_a_drained_pipeline() {
    assert_eq!(
        handle_control(ControlMsg::Nudge, true, 7).steps,
        vec![
            ControlStep::DrainAndFence,
            ControlStep::StopOnAckError,
            ControlStep::PlanNudge,
            ControlStep::SendNudge,
            ControlStep::Barrier,
            ControlStep::ReplyVerdict,
        ]
    );
    assert_eq!(
        handle_control(ControlMsg::Buzz, false, 7).steps,
        vec![
            ControlStep::DrainAndFence,
            ControlStep::StopOnAckError,
            ControlStep::SendBuzz,
            ControlStep::ReplyVerdict,
        ]
    );
}

#[test]
fn only_motion_waits_for_room() {
    assert!(!open().bypasses_capacity(ItemKind::Segment, false));
    assert!(open().bypasses_capacity(ItemKind::OtherControl, false));
    let discarding = LinkFlags {
        discard: true,
        ..open()
    };
    assert!(discarding.bypasses_capacity(ItemKind::Segment, false));
}

#[test]
fn dispatch_errors_are_spelled_out() {
    let message = DispatchError::Enqueue("queue gone".to_string()).message();
    assert!(message.contains("queue gone"), "{message}");
    let message = DispatchError::NudgeTargetMissing { mcu_id: 3, axis: 2 }.message();
    assert!(message.contains('3') && message.contains('2'), "{message}");
    let message = DispatchError::ClockRecordStale {
        mcu_id: 1,
        mcu_handle: 4,
        age_ms: 900,
        max_age_ms: 500,
    }
    .message();
    assert!(message.contains("900") && message.contains("500"), "{message}");
    let message = DispatchError::ClockRecordUnusable {
        mcu_id: 1,
        mcu_handle: 4,
    }
    .message();
    assert!(!message.is_empty());
    let message = DispatchError::ExecutionHalted("why".to_string()).message();
    assert!(message.contains("why"), "{message}");
}

#[test]
fn the_ingress_loop_drains_before_it_leaves() {
    assert_eq!(
        loop_action(true, LoopEvent::Turn { shutting_down: true }),
        LoopAction::Exit
    );
    assert_eq!(
        loop_action(false, LoopEvent::Turn { shutting_down: false }),
        LoopAction::WaitForever
    );
    assert_eq!(
        loop_action(true, LoopEvent::Turn { shutting_down: false }),
        LoopAction::Poll
    );
    assert_eq!(
        loop_action(true, LoopEvent::Paced(PacerStep::Wait(4))),
        LoopAction::WaitFor(4)
    );
    assert_eq!(
        loop_action(true, LoopEvent::Paced(PacerStep::Drain)),
        LoopAction::Drain
    );
    assert_eq!(
        loop_action(true, LoopEvent::Polled(Received::Message)),
        LoopAction::Handle
    );
}

#[test]
fn a_pipeline_change_starts_from_a_drained_stream() {
    for msg in [ControlMsg::SetAxisChains, ControlMsg::SetMesh] {
        let plan = handle_control(msg, true, 12);
        assert!(matches!(
            plan.steps[0],
            ControlStep::DrainAndFence | ControlStep::Barrier
        ));
        assert!(!plan.exit);
    }
    assert!(handle_control(ControlMsg::Shutdown, false, 0).exit);
}

#[test]
fn axes_out_of_range_are_refused() {
    assert_eq!(home_drip_axis(2), Ok(2));
    assert!(home_drip_axis(3).is_err());
    assert!(check_nudge_axis(7, 8).is_ok());
    assert_eq!(
        check_nudge_axis(8, 8),
        Err("nudge: axis_idx 8 out of range (max 7)".to_string())
    );
    assert!(nudge_verdict(Ok(())).is_ok());
    assert_eq!(
        nudge_verdict(Err("halted".to_string())),
        Err("nudge: halted".to_string())
    );
}

#[test]
fn the_acknowledged_stream_time_is_adopted() {
    assert_eq!(adopt_stream_time(4, Some(9)), 9);
    assert_eq!(adopt_stream_time(4, None), 4);
}

#[test]
fn a_shutdown_cancels_a_barrier() {
    let cancelled = barrier_before_send::<u64>(true).unwrap();
    assert_eq!(cancelled.dispatched_through, None);
    assert_eq!(
        cancelled.result,
        Err("planning cancelled for shutdown".to_string())
    );
    assert!(barrier_before_send::<u64>(false).is_none());
    let ack = BarrierAck {
        dispatched_through: Some(4u64),
        result: Ok(()),
    };
    assert_eq!(
        barrier_after_send(Some(ack), true).unwrap().dispatched_through,
        Some(4)
    );
    assert!(barrier_after_send::<u64>(None, true).unwrap().result.is_err());
    assert_eq!(
        barrier_after_send::<u64>(None, false).unwrap_err(),
        "execution owner dropped an intake barrier"
    );
}

#[test]
fn a_lost_execution_owner_is_fatal_unless_it_was_asked_to_go() {
    assert_eq!(send_fault(true, false), None);
    assert_eq!(send_fault(false, true), None);
    assert_eq!(
        send_fault(false, false),
        Some("execution owner closed during planning")
    );
}

#[test]
fn a_dwell_moves_the_stream_time_where_nothing_was_acknowledged() {
    assert_eq!(stream_time_after_dwell(Some(3u64), 9), 3);
    assert_eq!(stream_time_after_dwell(None, 9u64), 9);
    assert_eq!(nudge_items(true), vec![NudgeItem::Nudge, NudgeItem::Dwell]);
    assert_eq!(nudge_items(false), vec![NudgeItem::Nudge]);
}
