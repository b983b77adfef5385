
use kalico_motion::pump::barrier_ledger::{
    barrier_seq_seed_from_nanos, AckFault, BarrierLedger,
};
use kalico_motion::pump::buzz::{
    buzz_axis_bits, buzz_lanes, BuzzLane, BuzzRoute, EndpointBuzzSpec, EndpointMap, LaneEndpoint,
};
use kalico_motion::pump::drip::{DripCohort, DripParticipant};
use kalico_motion::pump::endpoint_control::{
    check_grid, endpoint_call, handle_endpoint_command, missing_binding, require_endpoint_ok,
    require_filler_ok, routes_delivered, transport_name, transport_side, CallAnswer, EndpointAction, EndpointCommand, EndpointFacts,
    FeedforwardAction, FeedforwardChange, FeedforwardEvent, FeedforwardKind, Handover,
    HandoverAction, HandoverEvent, PlanEnd, SampleGrid, SeedConfig, Side, TRANSPORT_PHASE,
    TRANSPORT_PULSE,
};
use kalico_motion::pump::lanes::{AxisKey, AxisQueue, DrainLedger, HeartbeatMsg, Lane, Pump, RetiredBy};
use kalico_motion::pump::transit_trace::{
    transport_error_result, TransitTrace, TransitTraceRecord, TRACE_CAPACITY,
};

const KEY: AxisKey = AxisKey { mcu_id: 4, axis: 1 };

fn pump_of(keys: &[AxisKey], pushed: u32) -> Pump<u64> {
    let mut lanes = Vec::new();
    for key in keys {
        let mut queue = AxisQueue::new(16);
        queue.credit.accept(pushed);
        lanes.push(Lane {
            key: *key,
            queue,
            halted: false,
        });
    }
    Pump {
        lanes,
        ledger: DrainLedger::new(),
    }
}

#[test]
fn a_report_without_consumption_counts_retirement_as_consumption() {
    let mut pump = pump_of(&[KEY], 6);
    pump.heartbeat(&HeartbeatMsg {
        mcu_id: KEY.mcu_id,
        axes: vec![KEY.axis],
        consumed_counts: None,
        retired_counts: vec![2],
        retired_by: RetiredBy::Pulse,
    });
    let credit = pump.queue(KEY).unwrap().credit.snapshot();
    assert_eq!((credit.consumed, credit.retired), (2, 2));
    assert!(pump.queue(AxisKey { mcu_id: 4, axis: 2 }).is_none());
}

#[test]
fn other_lanes_keep_their_credit() {
    let other = AxisKey { mcu_id: 4, axis: 2 };
    let mut pump = pump_of(&[KEY, other], 3);
    pump.halt(&[KEY], &[]);
    assert!(pump.lanes[0].halted && !pump.lanes[1].halted);
    assert_eq!(pump.lanes[0].queue.credit.outstanding(), 0);
    assert_eq!(pump.lanes[1].queue.credit.outstanding(), 3);
    pump.resume(&[KEY]);
    assert!(!pump.lanes[0].halted);
    pump.publish_ledger();
    assert_eq!(pump.ledger.lagging_axes().len(), 1);
}

#[test]
fn the_drip_floor_is_its_slowest_participant() {
    let other = AxisKey { mcu_id: 4, axis: 2 };
    let mut pump = pump_of(&[KEY, other], 5);
    for (axis, retired) in [(1, 4), (2, 2)] {
        pump.heartbeat(&HeartbeatMsg {
            mcu_id: 4,
            axes: vec![axis],
            consumed_counts: None,
            retired_counts: vec![retired],
            retired_by: RetiredBy::Pulse,
        });
    }
    let participant = |key: AxisKey| DripParticipant {
        key,
        baseline: 1,
        last_retired: 0,
    };
    let cohort = DripCohort {
        id: 1,
        participants: vec![participant(KEY), participant(other)],
        timeout_ns: 1_000_000_000,
        step_deadline_ns: 0,
        execution_floor: 0,
    };
    assert_eq!(cohort.executed(KEY, &pump), 3);
    assert_eq!(cohort.executed(other, &pump), 1);
    assert_eq!(cohort.active_execution_floor(&pump), 1);
}

#[test]
fn a_seed_is_made_odd() {
    assert_eq!(barrier_seq_seed_from_nanos(6), 7);
    assert_eq!(barrier_seq_seed_from_nanos(7), 7);
    assert_eq!(barrier_seq_seed_from_nanos(0x5_0000_0002), 3);
}

#[test]
fn fresh_ledgers_start_at_an_odd_number() {
    let mut ledger = BarrierLedger::new();
    assert_eq!(ledger.issue(1).seq % 2, 1);
    let mut ledger = BarrierLedger::with_capacity(4);
    assert_eq!(ledger.issue(1).seq % 2, 1);
    assert!(!ledger.has_sent());
}

#[test]
fn a_rejected_ack_changes_nothing() {
    let mut ledger = BarrierLedger::with_seed(10);
    let id = ledger.issue(3);
    let line = ledger.ledger_line();
    assert!(ledger.record_ack(3, 40).is_err());
    assert_eq!(
        ledger.record_ordered_ack(9, 10),
        Err(AckFault::Unknown)
    );
    assert_eq!(ledger.ledger_line(), line);
    assert!(!ledger.is_acked(id));
}

fn record(result: i32) -> TransitTraceRecord {
    TransitTraceRecord {
        sequence: 0,
        mcu_id: 1,
        axis: 2,
        piece_count: 3,
        room: 4,
        guard_recorded_ns: 5,
        guard_mcu_clock: 6,
        send_started_ns: 7,
        send_elapsed_ns: 8,
        host_front_start_time: 9,
        result,
    }
}

#[test]
fn a_trace_keeps_its_latest_records() {
    let mut trace = TransitTrace::new();
    for result in 0..(TRACE_CAPACITY as i32 + 10) {
        trace.record(record(result));
    }
    let last = trace.snapshot_last(3);
    let results: Vec<i32> = last.iter().map(|r| r.result).collect();
    let top = TRACE_CAPACITY as i32 + 9;
    assert_eq!(results, vec![top - 2, top - 1, top]);
    assert_eq!(last[2].sequence, TRACE_CAPACITY as u64 + 9);
    assert_eq!(trace.snapshot_last(1_000_000).len(), TRACE_CAPACITY);
}

#[test]
fn a_fault_result_is_snapshotted_once() {
    let mut trace = TransitTrace::new();
    trace.record(record(-5));
    let snapshot = trace.emit_fault_snapshot("dispatch", -5);
    assert_eq!((snapshot.trigger, snapshot.fault_result), ("dispatch", -5));
    assert_eq!(snapshot.records.len(), 1);
    assert!(trace.emit_result_fault_snapshot("dispatch", -5).is_some());
    assert!(trace.emit_result_fault_snapshot("dispatch", -5).is_none());
    assert!(trace.emit_result_fault_snapshot("dispatch", -6).is_some());
    assert_eq!(transport_error_result(), i32::MIN);
}

#[test]
fn buzzed_axes_are_listed_in_order() {
    assert_eq!(buzz_axis_bits(0b1011, |axis| axis != 1), 0b1001);
    let lanes = buzz_lanes(0b1001, 0b1000);
    assert_eq!(
        lanes,
        vec![BuzzLane { axis: 0, sign: 1 }, BuzzLane { axis: 3, sign: -1 }]
    );
    assert!(buzz_lanes(0, 0xFF).is_empty());
}

fn endpoints() -> EndpointMap {
    let mut map = EndpointMap::new();
    map.ethercat.push(9);
    map.set_pulse(LaneEndpoint {
        mcu_id: 4,
        drives: 0b0111,
        in_phase_mode: 0b0010,
    });
    map.set_phase(LaneEndpoint {
        mcu_id: 4,
        drives: 0b0111,
        in_phase_mode: 0b0010,
    });
    map
}

#[test]
fn a_buzz_is_split_by_the_mode_of_each_axis() {
    let map = endpoints();
    assert!(map.has_ethercat(9) && map.has_pulse(4) && map.has_phase(4));
    assert!(!map.has_ethercat(4));
    let routes = map
        .resolve_buzz_routes(&[EndpointBuzzSpec::Stepper {
            axis_mask: 0b0011,
            sign_mask: 0b0010,
        }])
        .unwrap();
    let mut pulse = 0;
    let mut phase = Vec::new();
    for route in &routes {
        match route {
            BuzzRoute::Pulse { axis_mask, .. } => pulse |= *axis_mask,
            BuzzRoute::Phase { lanes, .. } => phase.extend(lanes.iter().copied()),
            BuzzRoute::Ethercat { .. } => panic!("no EtherCAT axis was asked for"),
        }
    }
    assert_eq!(pulse, 0b0001);
    assert_eq!(phase, vec![BuzzLane { axis: 1, sign: -1 }]);
}

#[test]
fn a_buzz_of_an_axis_nobody_drives_is_refused() {
    let map = endpoints();
    assert!(map
        .resolve_buzz_routes(&[EndpointBuzzSpec::Stepper {
            axis_mask: 0b1000_0000,
            sign_mask: 0,
        }])
        .is_err());
    assert!(map
        .resolve_buzz_routes(&[EndpointBuzzSpec::Ethercat {
            mcu_handle: 77,
            slot_mask: 1,
            sign_mask: 0,
        }])
        .is_err());
}

#[test]
fn transports_have_names_and_sides() {
    let map = endpoints();
    assert_eq!(transport_name(TRANSPORT_PULSE), "pulse");
    assert_eq!(transport_name(TRANSPORT_PHASE), "phase");
    assert_eq!(transport_name(9), "unknown");
    assert!(matches!(
        transport_side(&map, KEY, TRANSPORT_PHASE),
        Ok(Side::Phase)
    ));
    let nowhere = AxisKey { mcu_id: 5, axis: 0 };
    assert!(transport_side(&map, nowhere, TRANSPORT_PULSE).is_err());
    assert_eq!(
        transport_side(&map, KEY, 9),
        Err("switch_axis_transport: unknown transport 9".to_string())
    );
    assert_eq!(
        missing_binding(KEY, TRANSPORT_PULSE),
        "switch_axis_transport: mcu 4 axis 1 has no pulse binding"
    );
}

#[test]
fn a_handover_places_the_incoming_side_where_the_outgoing_one_stopped() {
    let map = endpoints();
    let mut handover =
        Handover::start(&map, KEY, TRANSPORT_PULSE, TRANSPORT_PHASE, true, TRANSPORT_PULSE)
            .unwrap();
    assert_eq!(
        handover.action(),
        HandoverAction::AskQuiescent { side: Side::Pulse }
    );
    handover.advance(HandoverEvent::Quiescent(true)).unwrap();
    assert_eq!(
        handover.action(),
        HandoverAction::ReadExecuted {
            side: Side::Pulse,
            axis: 1
        }
    );
    handover.advance(HandoverEvent::Executed(-77)).unwrap();
    handover.advance(HandoverEvent::Done).unwrap();
    assert_eq!(
        handover.action(),
        HandoverAction::PlaceAt {
            side: Side::Phase,
            axis: 1,
            executed: -77
        }
    );
    handover.advance(HandoverEvent::Done).unwrap();
    assert_eq!(
        handover.action(),
        HandoverAction::Deliver {
            position: Some(-77)
        }
    );
    assert_eq!(
        handover.advance(HandoverEvent::Failed("gone".to_string())),
        Err("handover result delivery failed: gone".to_string())
    );
    handover.advance(HandoverEvent::Done).unwrap();
    assert_eq!(handover.action(), HandoverAction::Reply);
}

#[test]
fn a_busy_axis_is_not_handed_over() {
    let map = endpoints();
    let mut handover =
        Handover::start(&map, KEY, TRANSPORT_PULSE, TRANSPORT_PHASE, true, TRANSPORT_PULSE)
            .unwrap();
    handover.advance(HandoverEvent::Quiescent(false)).unwrap();
    assert_eq!(handover.action(), HandoverAction::Deliver { position: None });
    assert!(
        Handover::start(&map, KEY, TRANSPORT_PULSE, TRANSPORT_PHASE, false, TRANSPORT_PULSE)
            .is_err()
    );
    assert!(
        Handover::start(&map, KEY, TRANSPORT_PULSE, TRANSPORT_PHASE, true, TRANSPORT_PHASE)
            .is_err()
    );
}

fn grid() -> SampleGrid {
    SampleGrid {
        executor: 2,
        ring_depth_cycles: 64,
        grid_index: 10,
        grid_clock: 2_000,
    }
}

#[test]
fn a_feedforward_change_reaches_the_endpoint_before_the_filler() {
    let map = endpoints();
    let kind = FeedforwardKind::DynamicsModel { n_slots: 2 };
    let mut change = FeedforwardChange::start(&map, 9, kind, true, 2).unwrap();
    assert_eq!(change.action(), FeedforwardAction::QueryGrid);
    change.advance(FeedforwardEvent::Grid(grid())).unwrap();
    assert_eq!(
        change.action(),
        FeedforwardAction::ObserveGrid {
            grid_index: 10,
            grid_clock: 2_000
        }
    );
    change.advance(FeedforwardEvent::Done).unwrap();
    assert_eq!(change.action(), FeedforwardAction::AskQuiescent);
    change.advance(FeedforwardEvent::Quiescent(true)).unwrap();
    assert_eq!(change.action(), FeedforwardAction::AskLaneCount);
    change.advance(FeedforwardEvent::LaneCount(2)).unwrap();
    assert_eq!(change.action(), FeedforwardAction::CallEndpoint);
    change.advance(FeedforwardEvent::Result(0)).unwrap();
    assert_eq!(change.action(), FeedforwardAction::ApplyToFiller);
    change.advance(FeedforwardEvent::Result(0)).unwrap();
    assert_eq!(change.action(), FeedforwardAction::Reply);
    assert!(FeedforwardChange::start(&map, 4, kind, true, 2).is_err());
    assert!(FeedforwardChange::start(&map, 9, kind, false, 2).is_err());
}

#[test]
fn endpoint_answers_are_checked() {
    assert!(require_endpoint_ok(0, "set_ff_lead").is_ok());
    assert_eq!(
        require_endpoint_ok(-3, "set_ff_lead"),
        Err("set_ff_lead: endpoint result -3".to_string())
    );
    assert_eq!(
        require_filler_ok(-3, "set_ff_lead"),
        Err("set_ff_lead: host filler refused it (result -3)".to_string())
    );
    assert!(check_grid(grid(), 2, "x").is_ok());
    assert!(check_grid(grid(), 3, "x").is_err());
    let mut empty = grid();
    empty.ring_depth_cycles = 0;
    assert_eq!(
        check_grid(empty, 2, "x"),
        Err("x: endpoint reports a setpoint ring of zero cycles".to_string())
    );
}

#[test]
fn endpoint_commands_are_planned() {
    let map = endpoints();
    let facts = EndpointFacts {
        supported: true,
        current: TRANSPORT_PULSE,
        connected: true,
        ring_executor: 2,
    };
    let plan = handle_endpoint_command(
        &map,
        &EndpointCommand::FreezeMotor {
            mcu_id: 4,
            motor: 1,
            count: 50,
        },
        facts,
    );
    assert_eq!(
        plan.actions[0],
        EndpointAction::FreezeMotor {
            mcu_id: 4,
            motor: 1,
            count: 50
        }
    );
    assert!(matches!(plan.end, PlanEnd::Reply(_)));

    let plan = handle_endpoint_command(
        &map,
        &EndpointCommand::FreezeMotor {
            mcu_id: 6,
            motor: 1,
            count: 50,
        },
        facts,
    );
    assert!(plan.actions.is_empty());
    assert!(matches!(plan.end, PlanEnd::Refused(_)));

    let plan = handle_endpoint_command(
        &map,
        &EndpointCommand::SeedPosition {
            configs: vec![SeedConfig {
                mcu_id: 4,
                ethercat: false,
                pulse_lanes: true,
                phase_lanes: true,
            }],
        },
        facts,
    );
    assert!(plan.actions.len() >= 2);
    assert!(matches!(plan.end, PlanEnd::Reply(_)));

    let plan = handle_endpoint_command(
        &map,
        &EndpointCommand::SetFfLead {
            mcu_id: 9,
            slot: 0,
            lead_ns: 5,
        },
        facts,
    );
    assert!(matches!(plan.end, PlanEnd::Feedforward(_)));
}

#[test]
fn an_endpoint_call_is_held_to_the_expected_kind() {
    let expected = "SetFfLeadResponse".to_string();
    let failed: CallAnswer<i32> = CallAnswer::Failed("Timeout".to_string());
    assert_eq!(
        endpoint_call("SetFfLead", &expected, failed),
        Err("SetFfLead: endpoint call failed: Timeout".to_string())
    );
    let other = CallAnswer::Received {
        kind: "StopResponse".to_string(),
        decoded: Ok(0),
    };
    assert_eq!(
        endpoint_call("SetFfLead", &expected, other),
        Err("SetFfLead: expected SetFfLeadResponse, got StopResponse".to_string())
    );
    let garbled: CallAnswer<i32> = CallAnswer::Received {
        kind: expected.clone(),
        decoded: Err("short".to_string()),
    };
    assert_eq!(
        endpoint_call("SetFfLead", &expected, garbled),
        Err("SetFfLeadResponse: decode failed: short".to_string())
    );
    let good = CallAnswer::Received {
        kind: expected.clone(),
        decoded: Ok(7),
    };
    assert_eq!(endpoint_call("SetFfLead", &expected, good), Ok(7));
}

#[test]
fn undelivered_routes_are_told() {
    assert!(routes_delivered(Ok(())).is_ok());
    assert_eq!(
        routes_delivered(Err("full".to_string())),
        Err("buzz routes delivery failed: full".to_string())
    );
}
