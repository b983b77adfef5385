use kalico_motion::endpoint::cpu_list::{housekeeping_cpus, parse_cpu_list};
use kalico_motion::endpoint::pair::SlotPair;
use kalico_motion::endpoint::sim::{
    sim_endpoint, SimConfig, SimDrive, SIM_DRIVE_ERROR, SIM_JUMP_LOG_COUNTS,
};
use kalico_motion::endpoint::stub::{
    arg_val, injected_torque, probe_read, stub_following_errors, stub_object_dictionary,
    STUB_PROBE_COUNTER_INDEX, TXPDO_TORQUE_ACTUAL_INDEX,
};

#[test]
fn cpu_lists_name_cpus_and_ranges() {
    assert_eq!(parse_cpu_list("1-3,6\n"), vec![1, 2, 3, 6]);
    assert_eq!(parse_cpu_list(" 2 , x, 5-4,7 - 8"), vec![2, 7, 8]);
    assert!(parse_cpu_list("").is_empty());
}

#[test]
fn helpers_stay_off_isolated_cpus() {
    assert_eq!(housekeeping_cpus(&[1, 3], 5), vec![0, 2, 4]);
    assert_eq!(housekeeping_cpus(&[], 2), vec![0, 1]);
}

#[test]
fn a_slot_pair_names_two_slots() {
    let pair = SlotPair { a: 1, b: 4 };
    assert_eq!((pair.a, pair.b), (1, 4));
}

#[test]
fn a_slot_with_a_following_error_is_read_without_one_for_every_slot() {
    let mut drive = SimDrive::new(2).with_following_error(vec![10]);
    drive.set_target_position(0, 100);
    drive.set_target_position(1, 50);
    assert_eq!(drive.position_actual(0), 90);
    assert_eq!(drive.targets, vec![100, 50]);
}

#[test]
fn a_simulated_drive_lags_by_its_following_error() {
    let mut drive = SimDrive::new(2).with_following_error(vec![10, 0]);
    drive.set_target_position(0, 500);
    drive.set_target_position(1, 70);
    assert_eq!(drive.position_actual(0), 490);
    assert_eq!(drive.position_actual(1), 70);
    drive.set_torque_offset(0, -3);
    drive.set_velocity_offset(0, 9);
    let telemetry = drive.telemetry(0);
    assert_eq!(telemetry.target_position, 500);
    assert_eq!(telemetry.position_actual, 490);
    assert_eq!(telemetry.torque_offset, -3);
    assert_eq!(telemetry.velocity_offset, 9);
}

#[test]
fn a_simulated_drive_faults_after_its_writes() {
    let mut drive = SimDrive::new(1).with_fault_after_writes(Some(2));
    drive.set_target_position(0, 1);
    assert_eq!(drive.take_error_code(), 0);
    drive.set_target_position(0, 2);
    assert_eq!(drive.take_error_code(), SIM_DRIVE_ERROR);
}

#[test]
fn a_simulated_drive_reports_the_injected_torque() {
    let mut drive = SimDrive::new(2).with_torques(vec![5, -7]).with_enable_rc(-3);
    assert_eq!(drive.enable_rc, -3);
    assert_eq!(drive.telemetry(1).torque_actual, -7);
    drive.inject_torque(12);
    assert_eq!(drive.telemetry(0).torque_actual, 12);
    assert_eq!(drive.telemetry(1).torque_actual, 12);
}

#[test]
fn a_simulated_endpoint_starts_with_one_entry_per_slot() {
    let cfg = SimConfig {
        slave_axes: vec![0, 1],
        counts_per_mm: vec![327.68f64, 100.0],
        cycle_ns: 250_000,
        telemetry_period: u64::MAX,
    };
    let ctx = sim_endpoint(cfg, SimDrive::new(2));
    assert_eq!(ctx.num_slaves, 2);
    assert_eq!(ctx.drive.targets, vec![0, 0]);
    assert_eq!(ctx.slave_axes, vec![0, 1]);
    assert_eq!(ctx.counts_per_mm, vec![327.68, 100.0]);
    assert_eq!(ctx.cmd_counts_per_mm, vec![327.68, 100.0]);
    assert_eq!(ctx.rotation_distance_mm, vec![40, 40]);
    assert_eq!(ctx.jump_log_counts, vec![SIM_JUMP_LOG_COUNTS; 2]);
    assert_eq!(ctx.invert, vec![false, false]);
    assert_eq!(ctx.drive_dirs, vec![1, 1]);
    assert_eq!(ctx.tap_slots, vec![0, 1]);
    assert_eq!(ctx.last_streamed_target, vec![None, None]);
    assert_eq!(ctx.cycle_ns, 250_000);
    assert_eq!(ctx.cycles.late_max_ns, i64::MIN);
    assert!(!ctx.cycles.timing_armed);
}

#[test]
fn stub_arguments_follow_their_keys() {
    let args = vec!["--socket".to_string(), "/tmp/x".to_string(), "--n".to_string()];
    assert_eq!(
        arg_val(&args, &"--socket".to_string()),
        Some("/tmp/x".to_string())
    );
    assert_eq!(arg_val(&args, &"--n".to_string()), None);
    assert_eq!(arg_val(&args, &"--m".to_string()), None);
}

#[test]
fn the_stub_answers_its_objects() {
    assert!(!stub_object_dictionary().is_empty());
    assert_eq!(stub_following_errors(3), vec![40, -25, 40]);
    let (size, value) = probe_read(STUB_PROBE_COUNTER_INDEX, 0x0102).unwrap();
    assert_eq!(u32::from_le_bytes(value), 0x0102);
    assert!(size <= 4);
    assert!(probe_read(0x6000, 1).is_none());
    assert_eq!(
        injected_torque(TXPDO_TORQUE_ACTUAL_INDEX, &[0xFE, 0xFF]),
        Some(-2)
    );
    assert_eq!(injected_torque(0x6000, &[0, 0]), None);
}
