use std::collections::HashMap;

use kalico_motion::homing::partial::{
    complete_failed_partial, cut_frozen, cut_lane, cut_position, no_suppress_transport,
    step_count, suppress_clear_request, suppress_reply, suppress_request, CutStep, PositionReply,
    StepcompressLane,
};
use kalico_motion::homing::query::{
    cartesian_state_to_gcode, configured_keys, find_driver, gather_motor_states,
    history_state_at_query, kinematics_tag, required_motor_axes, unnamed_axis, HistoryAnswer,
    HistoryQuery, KinematicsKind, McuAxes, Unwarp,
};
use kalico_motion::homing::recovery::{all_cleared, Recovery};
use kalico_motion::homing::remote_trigger::{RemoteTriggers, TriggerWatch};
use kalico_motion::homing::start::{
    check_home_request, resolve_homing_target, take_early_trips, trip_members, CohortCounter,
    DispatchAnswer, DripAnswer, HomeStage, HomeStart,
};
use kalico_motion::homing::state::{
    HomingRun, HomingState, LaneCleanup, RemoteFreeze, TripMember,
};
use kalico_motion::homing::transport_switch::{
    begin_switch, handover_answered, SwitchStart, SwitchStep, SWITCH_DEADLINE_NS,
};
use kalico_motion::homing::trip::{dispatch_endstop_trip, TripStart};
use kalico_motion::homing::trip_handler::{
    check_pump_resume, check_resume, mcus_of, PumpResume, ResumeReply, TripAction, TripEvent,
    TripHandler,
};
use kalico_motion::pump::lanes::AxisKey;

const KEY: AxisKey = AxisKey { mcu_id: 3, axis: 0 };

fn freeze(motor_mcu: u32) -> RemoteFreeze {
    RemoteFreeze {
        motor_mcu,
        motor_idx: 1,
        stepper_idx: 2,
        stepper_oid: 7,
    }
}

fn member(id: u8, remote_freeze: Option<RemoteFreeze>) -> TripMember {
    TripMember {
        endstop_mcu: 3,
        endstop_id: id,
        remote_freeze,
    }
}

fn run_of(members: Vec<TripMember>) -> HomingRun<i64> {
    HomingRun {
        cohort: 1,
        remaining_trips: members,
        axis_key: KEY,
        all_axis_keys: vec![
            AxisKey { mcu_id: 9, axis: 1 },
            KEY,
            AxisKey { mcu_id: 3, axis: 2 },
        ],
        window_start_host: 0,
        start_pos: 0,
    }
}

fn active(members: Vec<TripMember>) -> HomingState<i64> {
    let mut state = HomingState::default();
    state.begin(1, 3).unwrap();
    state.arm(1).unwrap();
    state.register(run_of(members)).unwrap();
    state
}

#[test]
fn partial_and_final_trips_start_different_work() {
    let mut state = active(vec![
        member(0, Some(freeze(8))),
        member(1, Some(freeze(3))),
        member(2, None),
        member(4, None),
    ]);
    assert!(matches!(
        dispatch_endstop_trip(&mut state.lifecycle, 3, 0, 10),
        TripStart::FreezeRemotely { cohort: 1, .. }
    ));
    assert!(matches!(
        dispatch_endstop_trip(&mut state.lifecycle, 3, 1, 11),
        TripStart::CutStream { cohort: 1, .. }
    ));
    assert!(matches!(
        dispatch_endstop_trip(&mut state.lifecycle, 3, 2, 12),
        TripStart::Nothing
    ));
    assert!(matches!(
        dispatch_endstop_trip(&mut state.lifecycle, 3, 9, 13),
        TripStart::Nothing
    ));
    match dispatch_endstop_trip(&mut state.lifecycle, 3, 4, 14) {
        TripStart::End { run, last_freeze } => {
            assert_eq!(run.cohort, 1);
            assert_eq!(last_freeze, None);
        }
        other => panic!("{other:?}"),
    }
}

#[test]
fn a_final_trip_is_handled_to_a_position() {
    let mut handler = TripHandler::start(run_of(vec![member(0, None)]), 3, 44, None, true);
    assert_eq!(handler.mcus, vec![3, 9]);
    assert_eq!(handler.action(), TripAction::AwaitPartialWork);
    handler.advance(TripEvent::Waited(Ok(())));
    assert_eq!(handler.action(), TripAction::HaltPump);
    handler.advance(TripEvent::Halted(true));
    assert_eq!(handler.action(), TripAction::StopMcus);
    handler.advance(TripEvent::Stopped(Ok(90)));
    assert_eq!(
        handler.action(),
        TripAction::Reconstruct {
            trip_mcu: 3,
            trip_clock: 44,
            source_mcu: 3,
            clock: 90
        }
    );
    handler.advance(TripEvent::Positions(Ok((5, 6))));
    assert_eq!(handler.action(), TripAction::CheckFailure);
    handler.advance(TripEvent::Failure(None));
    assert_eq!(handler.action(), TripAction::ResumeMcu { mcu_id: 3 });
    handler.advance(TripEvent::Resumed(ResumeReply::Result(0)));
    assert_eq!(handler.action(), TripAction::ResumeMcu { mcu_id: 9 });
    handler.advance(TripEvent::Resumed(ResumeReply::Result(0)));
    assert_eq!(handler.action(), TripAction::ResumePump);
    handler.advance(TripEvent::PumpResumed(PumpResume::Resumed));
    assert_eq!(handler.action(), TripAction::Complete);
    assert_eq!(handler.into_result(), Some((1, Ok((5, 6, 44)))));
}

#[test]
fn a_failed_wait_still_stops_the_motion() {
    let mut handler = TripHandler::start(run_of(vec![member(0, None)]), 3, 44, None, true);
    handler.advance(TripEvent::Waited(Err("late".to_string())));
    assert_eq!(handler.action(), TripAction::HaltPump);
    handler.advance(TripEvent::Halted(false));
    assert_eq!(handler.action(), TripAction::StopMcus);
    handler.advance(TripEvent::Stopped(Ok(90)));
    assert_eq!(handler.action(), TripAction::Complete);
    let (_, result) = handler.into_result().unwrap();
    let error = result.unwrap_err();
    assert!(error.contains("late"), "{error}");
    assert!(error.contains("pump did not halt"), "{error}");
}

#[test]
fn resume_replies_are_checked() {
    assert!(check_resume(3, ResumeReply::Result(0)).is_ok());
    assert_eq!(
        check_resume(3, ResumeReply::Result(-7)),
        Err("ResumeStream rejected by mcu 3: result=-7".to_string())
    );
    assert_eq!(
        check_resume(3, ResumeReply::NoTransport),
        Err("ResumeStream: no transport for mcu 3".to_string())
    );
    assert!(check_resume(3, ResumeReply::CallFailed("x".to_string())).is_err());
    assert!(check_resume(3, ResumeReply::DecodeFailed("x".to_string())).is_err());
    assert!(check_pump_resume(PumpResume::Resumed).is_ok());
    for refused in [
        PumpResume::ClosedBeforeResume,
        PumpResume::ClosedBeforeBarrier,
        PumpResume::NotAcknowledged,
    ] {
        assert!(check_pump_resume(refused).is_err());
    }
    assert!(mcus_of(&Vec::new()).is_empty());
}

const LANE: StepcompressLane = StepcompressLane {
    mcu_id: 3,
    axis: 1,
    motor: 2,
    oid: 9,
};

#[test]
fn a_frozen_stream_is_cut_step_by_step() {
    assert!(matches!(
        cut_lane(Ok(LANE)),
        Ok(CutStep::ReadPosition { .. })
    ));
    assert!(cut_lane(Err("no lane".to_string())).is_err());
    assert!(matches!(
        cut_position(LANE, Ok(-40), true),
        Ok(CutStep::Freeze { executed: -40, .. })
    ));
    assert!(cut_position(LANE, Ok(-40), false).is_err());
    assert!(matches!(cut_frozen(LANE, Ok(())), Ok(CutStep::Cut)));
    assert!(cut_frozen(LANE, Err("stuck".to_string())).is_err());
}

#[test]
fn step_counts_come_from_the_reply() {
    assert_eq!(step_count(LANE, PositionReply::Reply(Some(-3))), Ok(-3));
    assert!(step_count(LANE, PositionReply::Reply(None)).is_err());
    assert!(step_count(LANE, PositionReply::NoHostIo).is_err());
    assert!(step_count(LANE, PositionReply::CallFailed("x".to_string())).is_err());
}

#[test]
fn suppression_names_its_stepper() {
    let request = suppress_request(freeze(8)).unwrap();
    assert_eq!((request.motor, request.stepper), (1, 2));
    assert_eq!(request.stepper_oid, 7);
    let far = RemoteFreeze {
        stepper_oid: 300,
        ..freeze(8)
    };
    assert!(suppress_request(far).is_err());
    assert_ne!(suppress_clear_request().engage, request.engage);
    assert_eq!(suppress_reply(freeze(8), 55), Ok(55));
    assert!(suppress_reply(freeze(8), 0).is_err());
    assert!(no_suppress_transport(freeze(8)).contains('8'));
}

#[test]
fn a_failed_partial_ends_the_run() {
    let mut state = active(vec![member(0, Some(freeze(8))), member(1, None)]);
    dispatch_endstop_trip(&mut state.lifecycle, 3, 0, 10);
    let run = state.retire_partial(1, Some("suppress failed".to_string()));
    let cleanup = LaneCleanup::of(&run.unwrap());
    assert_eq!(cleanup.flush, run_of(Vec::new()).all_axis_keys);
    assert_eq!(cleanup.disarm, 1);
    complete_failed_partial(&mut state, 1);
    assert_eq!(
        state.poll().unwrap(),
        Some(Err("suppress failed".to_string()))
    );
}

#[test]
fn motors_are_gathered_as_the_kinematics_need_them() {
    assert_eq!(
        required_motor_axes(KinematicsKind::Cartesian, Some(1)),
        Ok([false, true, false, false])
    );
    assert_eq!(
        required_motor_axes(KinematicsKind::CoreXy, Some(0)),
        Ok([true, true, false, false])
    );
    assert_eq!(required_motor_axes(KinematicsKind::CoreXy, Some(9)), Err(9));
    assert!(matches!(
        history_state_at_query(KEY, 3),
        HistoryQuery::AtClock
    ));
    assert!(matches!(
        history_state_at_query(KEY, 4),
        HistoryQuery::AtHost
    ));
    assert!(unnamed_axis(9).contains('9'));
}

#[test]
fn missing_history_is_refused_only_where_needed() {
    let keys = [KEY, AxisKey { mcu_id: 3, axis: 1 }];
    let answers = [HistoryAnswer::State(5i64), HistoryAnswer::NoHistory];
    assert_eq!(
        gather_motor_states(&keys, &answers, [true, false, false, false]).unwrap(),
        [Some(5), None, None, None]
    );
    let answers = [
        HistoryAnswer::State(5i64),
        HistoryAnswer::Failed("gone".to_string()),
    ];
    assert!(gather_motor_states(&keys, &answers, [true, true, false, false]).is_err());
}

fn configs() -> Vec<McuAxes> {
    vec![
        McuAxes {
            mcu_id: 3,
            axes: vec![0, 2],
            kinematics: 1,
        },
        McuAxes {
            mcu_id: 5,
            axes: vec![1],
            kinematics: 0,
        },
    ]
}

#[test]
fn drivers_are_found_by_axis() {
    let configs = configs();
    assert_eq!(find_driver(&configs, 1), Some(1));
    assert_eq!(find_driver(&configs, 3), None);
    assert_eq!(
        configured_keys(&configs),
        vec![
            AxisKey { mcu_id: 3, axis: 0 },
            AxisKey { mcu_id: 3, axis: 2 },
            AxisKey { mcu_id: 5, axis: 1 }
        ]
    );
    assert_eq!(
        resolve_homing_target(2, &configs),
        Ok(AxisKey { mcu_id: 3, axis: 2 })
    );
    assert!(resolve_homing_target(3, &configs).is_err());
    let _ = kinematics_tag(&configs, 0);
    assert!(matches!(
        cartesian_state_to_gcode(false, true, true, true),
        Unwarp::Keep
    ));
    assert!(matches!(
        cartesian_state_to_gcode(true, true, true, true),
        Unwarp::Height
    ));
    assert!(matches!(
        cartesian_state_to_gcode(true, false, true, true),
        Unwarp::Refuse
    ));
}

#[test]
fn recovery_takes_every_step() {
    let mut recovery = Recovery::<i64>::start();
    for _ in 0..3 {
        recovery = recovery.step(true);
    }
    recovery = recovery.reconciled(Some(12));
    for _ in 0..2 {
        recovery = recovery.step(true);
    }
    assert_eq!(recovery.position(), Some(12));
    assert_eq!(Recovery::<i64>::start().step(false).position(), None);
    assert!(all_cleared(&[true, true]));
    assert!(!all_cleared(&[true, false]));
}

#[test]
fn disarming_undoes_arming() {
    let mut triggers = RemoteTriggers::new();
    assert!(triggers.check_arm(4, 1, false).is_err());
    assert!(triggers.check_arm(4, 1, true).is_ok());
    assert!(triggers.registered(4, 1, Ok(99)).is_ok());
    assert!(triggers.check_arm(4, 1, true).is_err());
    let trigger = triggers.disarm(1).unwrap();
    assert_eq!((trigger.mcu_handle, trigger.interceptor), (4, 99));
    assert!(triggers.disarm(1).is_err());
    assert!(triggers
        .registered(4, 2, Err("full".to_string()))
        .is_err());
}

#[test]
fn a_trigger_fires_once() {
    let mut watch = TriggerWatch::new();
    assert!(!watch.report(false));
    assert!(watch.report(true));
    assert!(!watch.report(true));
}

#[test]
fn a_home_request_is_checked_before_anything_moves() {
    let endstops = [(0u8, 3u32, Some((8u32, 1u8, 2u8, 7u32)))];
    let members = trip_members(&endstops);
    assert_eq!(members, vec![member(0, Some(freeze(8)))]);
    assert!(check_home_request(&endstops, true, 0, &configs()).is_ok());
    assert!(check_home_request(&[], true, 0, &configs()).is_err());
    assert!(check_home_request(&endstops, false, 0, &configs()).is_err());
    assert!(check_home_request(&endstops, true, 7, &configs()).is_err());
    let mut counter = CohortCounter::new();
    assert_eq!(counter.next_homing_cohort(), 1);
    assert_eq!(counter.next_homing_cohort(), 2);
}

#[test]
fn a_home_start_registers_its_run() {
    let mut state = HomingState::<i64>::default();
    let mut start =
        HomeStart::begin(&mut state, 1, vec![member(0, None)], KEY, vec![KEY], 0).unwrap();
    start.clear_latch(&mut HashMap::new());
    start.quiesced(&mut state, Ok(())).unwrap();
    start.seeded(&mut state, 17, 5, Ok(())).unwrap();
    state.lifecycle.trip_run((3, 0, 77));
    start.drip_armed(&mut state, DripAnswer::Armed).unwrap();
    start.move_started(&mut state, Ok(())).unwrap();
    start.dispatched(&mut state, DispatchAnswer::Dispatched).unwrap();
    assert_eq!(state.poll().unwrap(), None);
    assert_eq!(take_early_trips(&mut state), vec![(3, 0, 77)]);
    assert!(state.begin(2, 3).is_err());
}

#[test]
fn a_home_start_forgets_the_fault_of_its_own_mcu() {
    let mut state = HomingState::<i64>::default();
    let mut start =
        HomeStart::begin(&mut state, 1, vec![member(0, None)], KEY, vec![KEY], 0).unwrap();
    assert_eq!(start.stage, HomeStage::ClearingLatch);
    let mut faults = HashMap::from([(KEY.mcu_id, 0x8611), (KEY.mcu_id + 1, 0x7500)]);
    start.clear_latch(&mut faults);
    assert_eq!(faults, HashMap::from([(KEY.mcu_id + 1, 0x7500)]));
    assert_eq!(start.stage, HomeStage::Quiescing);
}

#[test]
fn a_home_start_drips_every_lane_for_five_seconds_a_step() {
    let other = AxisKey {
        mcu_id: KEY.mcu_id + 1,
        axis: 1,
    };
    let mut state = HomingState::<i64>::default();
    let mut start =
        HomeStart::begin(&mut state, 9, vec![member(0, None)], KEY, vec![KEY, other], 0).unwrap();
    start.clear_latch(&mut HashMap::new());
    start.quiesced(&mut state, Ok(())).unwrap();
    start.seeded(&mut state, 17, 5, Ok(())).unwrap();
    let arm = start.drip_arm();
    assert_eq!(arm.cohort, 9);
    assert_eq!(arm.participants, vec![KEY, other]);
    assert_eq!(arm.timeout_ns, 5_000_000_000);
}

#[test]
fn a_failed_home_start_gives_the_lifecycle_back() {
    let mut state = HomingState::<i64>::default();
    let mut start =
        HomeStart::begin(&mut state, 1, vec![member(0, None)], KEY, vec![KEY], 0).unwrap();
    assert!(HomeStart::begin(&mut state, 2, vec![member(0, None)], KEY, vec![KEY], 0).is_err());
    start.clear_latch(&mut HashMap::new());
    let failure = start
        .quiesced(&mut state, Err("busy".to_string()))
        .unwrap_err();
    assert_eq!(failure.reason, "busy");
    assert_eq!(failure.cleanup.flush, vec![KEY]);
    assert_eq!(failure.cleanup.disarm, 1);
    assert!(state.begin(2, 3).is_ok());
}

#[test]
fn a_transport_switch_retries_until_its_deadline() {
    assert!(matches!(
        begin_switch(KEY, 0, true, 0),
        Ok(SwitchStart::AlreadyThere)
    ));
    assert!(matches!(
        begin_switch(KEY, 1, true, 0),
        Ok(SwitchStart::Drain { from: 0 })
    ));
    assert!(begin_switch(KEY, 1, false, 0).is_err());
    assert!(matches!(
        handover_answered(KEY, 0, Some(4), 0),
        SwitchStep::Switched { executed: 4 }
    ));
    assert!(matches!(
        handover_answered(KEY, 0, None, 1),
        SwitchStep::Retry
    ));
    assert!(matches!(
        handover_answered(KEY, 0, None, SWITCH_DEADLINE_NS + 1),
        SwitchStep::TimedOut(_)
    ));
}
