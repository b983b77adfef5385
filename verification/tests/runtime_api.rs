use kalico_motion::runtime_api::{payload, FaultCode, RuntimeGate, StepSlots, PHASE_SLOT_FREE};

#[test]
fn the_runtime_is_created_once() {
    let mut gate = RuntimeGate::new();
    assert_eq!(gate.guard(true), FaultCode::NotInit);
    assert!(gate.handle_create());
    assert!(!gate.handle_create());
    assert_eq!(gate.guard(true), FaultCode::NoFault);
    assert_eq!(gate.guard(false), FaultCode::NullPtr);
}

#[test]
fn queries_of_a_missing_runtime_read_zero() {
    let mut gate = RuntimeGate::new();
    assert_eq!(gate.get_stepper_count(true, &[7], 0), 0);
    assert_eq!(gate.now_ticks(true, 55), 0);
    gate.handle_create();
    assert_eq!(gate.get_stepper_count(true, &[7, -8], 1), -8);
    assert_eq!(gate.get_stepper_count(true, &[7], 1), 0);
    assert_eq!(gate.now_ticks(true, 55), 55);
}

#[test]
fn a_payload_of_no_bytes_needs_no_data() {
    assert_eq!(payload(None, 0), Some(&[][..]));
    assert_eq!(payload(None, 1), None);
    assert_eq!(payload(Some(&[1, 2, 3]), 2), Some(&[1, 2][..]));
    let mut gate = RuntimeGate::new();
    gate.handle_create();
    assert_eq!(gate.check_payload(true, None, 4), Err(FaultCode::NullPtr));
    assert_eq!(gate.check_payload(true, Some(&[9]), 1), Ok(&[9][..]));
    assert_eq!(gate.check_payload(false, Some(&[9]), 1), Err(FaultCode::NullPtr));
}

#[test]
fn unknown_lanes_are_invalid_arguments() {
    let mut gate = RuntimeGate::new();
    gate.handle_create();
    assert_eq!(
        gate.sample_query(true, true, Some((8, -2))),
        (FaultCode::NoFault, Some((8, -2)))
    );
    assert_eq!(
        gate.sample_query(true, true, None),
        (FaultCode::InvalidArg, None)
    );
    assert_eq!(
        gate.sample_query(true, false, Some((8, -2))),
        (FaultCode::NullPtr, None)
    );
    assert_eq!(gate.take_barrier_ack(true, true, Some((1, 2))), Some((1, 2)));
    assert_eq!(gate.take_barrier_ack(true, false, Some((1, 2))), None);
}

#[test]
fn a_reset_frees_every_slot() {
    let mut slots = StepSlots {
        phase_slot_idx: vec![1, 2],
        phase_motor_count: 2,
        phase_mode: vec![true, false, true],
    };
    slots.reset();
    assert_eq!(slots.phase_slot_idx, vec![PHASE_SLOT_FREE; 2]);
    assert_eq!(slots.phase_motor_count, 0);
    assert_eq!(slots.phase_mode, vec![false; 3]);
}
