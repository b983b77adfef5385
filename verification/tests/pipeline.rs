use kalico_motion::pipeline::jerk::{
    require_supported_jerk_override, require_unlimited_config_jerk, Jerk, RuntimeCaps,
};
use kalico_motion::pipeline::lowerer::{
    AxisPlan, BaseItem, Control, Lowerer, PlannedMove, RestSupport, StageInput, SurfaceMode,
};
use kalico_motion::pipeline::planner::{
    committable_seam, stop_flags, PlannedItem, PlannedPrefix, Planner, Selection, StreamInput,
    REPLAN_BATCH_MOVES,
};
use kalico_motion::pipeline::timing::{is_slow_phase, mono_us};
use kalico_motion::pipeline::window::{clean_flags, plan_selected, planned_prefix};
use kalico_motion::geometry::reconstruct::{MemberProfile, VelocityProfile};
use kalico_motion::geometry::velocity::{JerkLimit, SeamMove, SpeedScale, VelocityError};

fn jerk(value: f64) -> Jerk {
    if value == f64::INFINITY {
        Jerk::PositiveInfinity
    } else if value.is_finite() {
        Jerk::Finite
    } else {
        Jerk::OtherNonFinite
    }
}

#[test]
fn stream_config_accepts_unlimited_jerk() {
    assert!(require_unlimited_config_jerk(jerk(f64::INFINITY)).is_ok());
}

#[test]
fn stream_config_rejects_finite_jerk() {
    assert_eq!(
        require_unlimited_config_jerk(jerk(100_000.0)),
        Err(
            "finite [printer] max_jerk is not supported by the continuous trajectory pipeline; set max_jerk: 0"
        )
    );
}

#[test]
fn jerk_override_accepts_none_and_positive_infinity() {
    let mut caps = RuntimeCaps::new();

    caps.set_jerk_override(Some(jerk(f64::INFINITY))).unwrap();
    assert_eq!(caps.jerk_override, Some(jerk(f64::INFINITY)));

    caps.set_jerk_override(None).unwrap();
    assert_eq!(caps.jerk_override, None);
}

#[test]
fn jerk_override_rejects_every_finite_value() {
    let mut caps = RuntimeCaps::new();

    for value in [0.0, 1.0, -1.0] {
        assert_eq!(
            require_supported_jerk_override(Some(jerk(value))),
            Err("finite jerk overrides are not supported by the continuous trajectory pipeline")
        );
        assert!(caps.set_jerk_override(Some(jerk(value))).is_err());
        assert_eq!(caps.jerk_override, None);
    }
}

#[test]
fn jerk_override_rejects_other_non_finite_values() {
    let mut caps = RuntimeCaps::new();

    for value in [f64::NEG_INFINITY, f64::NAN] {
        assert_eq!(
            require_supported_jerk_override(Some(jerk(value))),
            Err("jerk override must be positive infinity or None")
        );
        assert!(caps.set_jerk_override(Some(jerk(value))).is_err());
        assert_eq!(caps.jerk_override, None);
    }
}

/// Reconstructs all of the window, or all but its last two moves.
fn plan(moves: &Vec<u32>, entry: i64, selection: Selection) -> PlannedPrefix<i64> {
    let count = match selection {
        Selection::All => moves.len(),
        Selection::Committable => moves.len().saturating_sub(2),
    };
    PlannedPrefix {
        velocities: (0..count as i64).map(|i| entry + i).collect(),
        boundary: match selection {
            Selection::All => 0,
            Selection::Committable => 100,
        },
    }
}

fn moves_of(items: &[PlannedItem<u32, i64, &'static str>]) -> Vec<u32> {
    items
        .iter()
        .filter_map(|item| match item {
            PlannedItem::Move { geometry, .. } => Some(*geometry),
            _ => None,
        })
        .collect()
}

#[test]
fn a_batch_is_planned_at_once_and_in_order() {
    let mut planner = Planner::new(1_000, 0);
    let mut out = Vec::new();
    for m in 0..REPLAN_BATCH_MOVES as u32 - 1 {
        planner.feed(StreamInput::Move(m), plan, &mut out);
    }
    assert!(out.is_empty(), "no plan before a batch has arrived");
    planner.feed(StreamInput::Move(63), plan, &mut out);
    assert_eq!(moves_of(&out), (0..62).collect::<Vec<u32>>());
    assert_eq!(planner.moves, vec![62, 63]);
    assert_eq!(planner.entry_v, 100);

    planner.feed(StreamInput::Drain, plan, &mut out);
    assert_eq!(moves_of(&out), (0..64).collect::<Vec<u32>>());
    assert!(matches!(out.last(), Some(PlannedItem::Drain)));
    assert!(planner.moves.is_empty());
    planner.feed(StreamInput::Control("dwell"), plan, &mut out);
    assert!(matches!(out.last(), Some(PlannedItem::Control("dwell"))));
}

#[test]
fn a_full_window_without_a_seam_is_drained() {
    let mut planner = Planner::new(2, 0);
    let mut out: Vec<PlannedItem<u32, i64, &'static str>> = Vec::new();
    assert!(!planner.feed(StreamInput::Move(1), plan, &mut out));
    assert!(planner.feed(StreamInput::Move(2), plan, &mut out));
    assert!(out.is_empty());
    assert_eq!(planner.moves, vec![1, 2]);
    planner.finish(&plan, &mut out);
    assert_eq!(moves_of(&out), vec![1, 2]);
    assert!(matches!(out.last(), Some(PlannedItem::Drain)));
    assert!(planner.moves.is_empty());
}

/// Commits one move whenever it is asked for less than all.
fn plan_one(moves: &Vec<u32>, entry: i64, selection: Selection) -> PlannedPrefix<i64> {
    match selection {
        Selection::All => plan(moves, entry, selection),
        Selection::Committable => PlannedPrefix {
            velocities: vec![entry],
            boundary: 7,
        },
    }
}

#[test]
fn a_full_window_keeps_its_rest_until_the_commit_was_taken() {
    let mut planner = Planner::new(1, 0);
    let mut out: Vec<PlannedItem<u32, i64, &'static str>> = Vec::new();
    assert!(!planner.feed(StreamInput::Move(1), plan_one, &mut out));
    planner.max_buffer_moves = 3;
    for m in 2..4 {
        assert!(!planner.feed(StreamInput::Move(m), plan_one, &mut out));
    }
    planner.max_buffer_moves = 2;
    assert!(planner.feed(StreamInput::Move(4), plan_one, &mut out));
    assert_eq!(moves_of(&out), vec![1, 2]);
    assert_eq!(planner.moves, vec![3, 4]);
    assert_eq!(planner.entry_v, 7);
    assert!(!out.iter().any(|item| matches!(item, PlannedItem::Drain)));
}

#[test]
fn an_idle_turn_commits_only_after_enough_moves() {
    let mut planner = Planner::new(1_000, 0);
    let mut out: Vec<PlannedItem<u32, i64, &'static str>> = Vec::new();
    for m in 0..31 {
        planner.feed(StreamInput::Move(m), plan, &mut out);
    }
    planner.idle(&plan, &mut out);
    assert!(out.is_empty());
    planner.feed(StreamInput::Move(31), plan, &mut out);
    planner.idle(&plan, &mut out);
    assert_eq!(out.len(), 30);
    planner.finish(&plan, &mut out);
    assert_eq!(out.len(), 33);
}

#[test]
fn a_reset_discards_the_window() {
    let mut planner = Planner::new(1_000, 0);
    let mut out: Vec<PlannedItem<u32, i64, &'static str>> = Vec::new();
    planner.feed(StreamInput::Move(1), plan, &mut out);
    planner.feed(StreamInput::Reset("reset"), plan, &mut out);
    assert!(planner.moves.is_empty());
    assert_eq!(planner.entry_v, 0);
    assert_eq!(out.len(), 1);
}

#[test]
fn the_furthest_clean_seam_is_committed() {
    let clean = vec![true, true, false, true, false];
    assert_eq!(committable_seam(&clean, 4, 3), 3);
    assert_eq!(committable_seam(&clean, 2, 4), 1);
    assert_eq!(committable_seam(&clean, 0, 4), 0);
    assert_eq!(committable_seam(&vec![true, false, false], 2, 2), 0);
    assert_eq!(
        stop_flags(&vec![5, 5, 9], |a, b| a != b),
        vec![false, false, true]
    );
    assert!(stop_flags(&Vec::<u8>::new(), |a, b| a != b).is_empty());
}

const REST: RestSupport = RestSupport {
    before_motion: 4,
    after_motion: 6,
};

fn planned(has_path: bool, followers: Vec<usize>) -> PlannedMove {
    PlannedMove {
        source_line: 12,
        followers,
        has_path,
        exit_v: 0,
    }
}

#[test]
fn motion_is_held_before_and_after() {
    let mut lowerer = Lowerer::new(REST, 4, 0, 0);
    let mut out = Vec::new();
    lowerer.emit_move(&planned(true, vec![]), 4, || true, &mut out);
    assert!(matches!(
        out[0],
        BaseItem::Hold {
            duration: 4,
            source_line: 12
        }
    ));
    match &out[1] {
        BaseItem::Segment(segment) => {
            assert_eq!(segment.axes, vec![AxisPlan::Analytic; 4]);
            assert!(segment.rest_at_end && segment.spatial_path);
            assert_eq!(segment.surface, SurfaceMode::Flat);
        }
        other => panic!("{other:?}"),
    }
    lowerer.emit_move(&planned(true, vec![]), 4, || true, &mut out);
    assert_eq!(out.len(), 3, "a running motion needs no hold");
    lowerer.drain(&mut out);
    assert!(matches!(
        out[3],
        BaseItem::Hold {
            duration: 6,
            source_line: 0
        }
    ));
    assert!(matches!(out[4], BaseItem::Drain));
    lowerer.drain(&mut out);
    assert_eq!(out.len(), 6, "a settled motion is not held again");
}

#[test]
fn an_extrusion_holds_the_spatial_axes() {
    let mut lowerer = Lowerer::new(REST, 3, 0, 0);
    let mut out = Vec::new();
    lowerer.control(Control::SetMesh { present: true }, &mut out);
    lowerer.emit_move(&planned(false, vec![4]), 5, || false, &mut out);
    match out.last() {
        Some(BaseItem::Segment(segment)) => {
            assert_eq!(
                segment.axes,
                vec![
                    AxisPlan::Hold { lifted: false },
                    AxisPlan::Hold { lifted: false },
                    AxisPlan::Hold { lifted: true },
                    AxisPlan::Analytic,
                    AxisPlan::Analytic
                ]
            );
            assert_eq!(segment.surface, SurfaceMode::ConstantAtRest);
        }
        other => panic!("{other:?}"),
    }
    lowerer.emit_move(&planned(true, vec![]), 5, || false, &mut out);
    match out.last() {
        Some(BaseItem::Segment(segment)) => assert_eq!(segment.surface, SurfaceMode::Variable),
        other => panic!("{other:?}"),
    }
}

#[test]
fn changing_the_chains_settles_under_both() {
    let mut lowerer = Lowerer::new(REST, 3, 0, 0);
    let mut out = Vec::new();
    let next = RestSupport {
        before_motion: 1,
        after_motion: 9,
    };
    lowerer.control(Control::SetAxisChains { rest: next }, &mut out);
    assert_eq!(out.len(), 1, "nothing has moved yet");
    lowerer.emit_move(&planned(true, vec![]), 3, || true, &mut out);
    lowerer.control(Control::SetAxisChains { rest: REST }, &mut out);
    assert!(matches!(out[3], BaseItem::Hold { duration: 9, .. }));
    lowerer.control(Control::Reset { axes: 2 }, &mut out);
    assert_eq!(lowerer.axes, 2);
    assert!(lowerer.rest_hold_pending && !lowerer.has_motion_history);
    lowerer.control(Control::Dwell, &mut out);
    lowerer.control(Control::Dispatch, &mut out);
    assert!(matches!(out.last(), Some(BaseItem::Control)));
}

#[test]
fn timestamps_saturate() {
    assert_eq!(mono_us(17), 17);
    assert_eq!(mono_us(u128::from(u64::MAX) + 5), u64::MAX);
    assert!(is_slow_phase(20_000));
    assert!(!is_slow_phase(19_999));
}

/// A window of moves up to speed 25, each of which changes the speed by at most 10; a move
/// is a line where its flag says so, and no seam stops but the one before a negative move.
fn plan_window(
    moves: &Vec<i64>,
    selection: Selection,
    horizon: usize,
    entry: i64,
) -> Result<VelocityProfile<usize>, VelocityError> {
    let seams: Vec<SeamMove> = (0..moves.len())
        .map(|i| SeamMove {
            line_no: i as u32,
            jerk: JerkLimit::Unlimited,
            flat_ceiling: 25,
            peak_limit: 1_000,
            entry_limit: 1_000,
            exit_limit: 1_000,
            ride_limit: None,
        })
        .collect();
    plan_selected(
        moves,
        &seams,
        selection,
        horizon,
        entry,
        &SpeedScale {
            rest: 0,
            rest_limit: 0,
            floor: 0,
        },
        |_: &i64, b: &i64| *b < 0,
        |m: &i64| *m == 1,
        |ceiling: i64, limit: i64| ceiling.min(limit),
        |entry: i64, limit: i64| entry > limit,
        |_: usize, x: i64| Some(x + 10),
        |_: usize, x: i64| Some(x + 10),
        |v: &Vec<i64>, start: usize, end: usize| {
            (start..end)
                .map(|j| {
                    (
                        j - start,
                        Ok(MemberProfile {
                            speeds: vec![v[j], v[j + 1]],
                            end_speed: v[j + 1],
                            detail: j,
                        }),
                    )
                })
                .collect()
        },
    )
}

#[test]
fn a_seam_is_clean_before_a_line_or_at_a_stop() {
    let moves = vec![1, 0, 1, -1];
    let stops = stop_flags(&moves, |_: &i64, b: &i64| *b < 0);
    assert_eq!(stops, vec![false, false, false, true]);
    assert_eq!(
        clean_flags(&moves, &stops, |m: &i64| *m == 1),
        vec![false, false, true, true]
    );
}

#[test]
fn a_selected_plan_commits_up_to_a_clean_seam() {
    let moves = vec![1, 1, 1, 0, 1, 1];
    let profile = plan_window(&moves, Selection::Committable, 5, 0).unwrap();
    assert_eq!(profile.barrier, 3);
    assert_eq!(profile.moves.len(), 2);
    let prefix = planned_prefix(profile);
    assert_eq!(prefix.velocities.len(), 2);
    assert_eq!(prefix.boundary, 20);
    let near = plan_window(&moves, Selection::Committable, 1, 0).unwrap();
    assert_eq!(near.moves.len(), 1);
    let all = plan_window(&moves, Selection::All, 5, 0).unwrap();
    assert_eq!(all.moves.len(), 6);
    assert_eq!(all.boundary_speeds.last(), Some(&0));
    assert_eq!(
        plan_window(&moves, Selection::All, 5, 26).unwrap_err(),
        VelocityError::OverCommitted { line_no: 0 }
    );
}

#[test]
fn a_refused_hold_gives_its_input_up() {
    let rest = RestSupport {
        before_motion: 3,
        after_motion: 4,
    };
    let mut lowerer = Lowerer::new(rest, 3, 0, 0);
    lowerer.hold_refused(StageInput::Move { source_line: 9 });
    assert!(!lowerer.rest_hold_pending && !lowerer.has_motion_history);
    lowerer.has_motion_history = true;
    let before = lowerer;
    lowerer.hold_refused(StageInput::Drain);
    assert_eq!(lowerer, before);
    lowerer.hold_refused(StageInput::Control(Control::SetAxisChains {
        rest: RestSupport {
            before_motion: 0,
            after_motion: 9,
        },
    }));
    assert_eq!(lowerer.rest, rest);
}
