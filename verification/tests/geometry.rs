use kalico_motion::geometry::ease::{
    ease_run, planned_attempts, Attempt, EaseFit, EasedRun, SpiralFit,
};
use kalico_motion::geometry::error::GeometryError;
use kalico_motion::geometry::reconstruct::{
    first_negative_velocity, order_by_label, plan_velocity_stops_select_prefix, run_end,
    worker_count, MemberProfile, ReconstructError,
};
use kalico_motion::geometry::velocity::{
    count_bounds, plan_seams, JerkLimit, SeamMove, SpeedScale, VelocityError,
};

const SCALE: SpeedScale = SpeedScale {
    rest: 0,
    rest_limit: 0,
    floor: 0,
};

fn line(line_no: u32, ceiling: i64) -> SeamMove {
    SeamMove {
        line_no,
        jerk: JerkLimit::Unlimited,
        flat_ceiling: ceiling,
        peak_limit: 1_000,
        entry_limit: 1_000,
        exit_limit: 1_000,
        ride_limit: None,
    }
}

/// Each move changes the speed by at most 10.
fn reach(_j: usize, x: i64) -> Option<i64> {
    Some(x + 10)
}

fn beyond(entry: i64, limit: i64) -> bool {
    entry > limit
}

fn profiles(v: &[i64], start: usize, end: usize) -> Vec<(usize, Result<MemberProfile<usize>, ReconstructError>)> {
    (start..end)
        .map(|j| {
            (
                j - start,
                Ok(MemberProfile {
                    speeds: vec![0, v[j].max(v[j + 1]), 0],
                    end_speed: 500,
                    detail: j,
                }),
            )
        })
        .rev()
        .collect()
}

fn nobody(
    _v: &Vec<i64>,
    _start: usize,
    _end: usize,
) -> Vec<(usize, Result<MemberProfile<usize>, ReconstructError>)> {
    Vec::new()
}

#[test]
fn seams_accelerate_and_brake_to_rest() {
    let moves: Vec<SeamMove> = (0..6).map(|i| line(i, 25)).collect();
    let (plan, barrier) =
        plan_seams(&moves, &vec![false; 6], 0, 0, i64::min, beyond, reach, reach).unwrap();
    assert_eq!(plan.v, vec![0, 10, 20, 25, 20, 10, 0]);
    assert_eq!(barrier, 3);
    assert_eq!(plan.stops, 0);
    assert!(plan.is_anchor[0] && plan.is_anchor[6] && !plan.is_anchor[3]);
}

#[test]
fn appended_moves_leave_the_barrier_as_it_was() {
    let long: Vec<SeamMove> = (0..9).map(|i| line(i, 25)).collect();
    let short: Vec<SeamMove> = long[..6].to_vec();
    let (before, barrier) =
        plan_seams(&short, &vec![false; 6], 0, 0, i64::min, beyond, reach, reach).unwrap();
    let (after, _) =
        plan_seams(&long, &vec![false; 9], 0, 0, i64::min, beyond, reach, reach).unwrap();
    assert_eq!(before.v[..=barrier], after.v[..=barrier]);
    assert_ne!(before.v[..6], after.v[..6]);
}

#[test]
fn a_stop_is_an_anchor_at_rest() {
    let moves: Vec<SeamMove> = (0..4).map(|i| line(i, 100)).collect();
    let stops = vec![true, false, true, false];
    let (plan, _) = plan_seams(&moves, &stops, 0, 0, i64::min, beyond, reach, reach).unwrap();
    assert_eq!(plan.v, vec![0, 10, 0, 10, 0]);
    assert_eq!(plan.stops, 1);
    assert_eq!(plan.is_anchor, vec![true, false, true, false, true]);
    assert_eq!(run_end(&plan.is_anchor, 4, 0), 2);
    assert_eq!(run_end(&plan.is_anchor, 4, 2), 4);
    assert_eq!(run_end(&plan.is_anchor, 3, 2), 3);
}

#[test]
fn an_entry_that_cannot_brake_is_over_committed() {
    let moves = vec![line(7, 100)];
    let refused = plan_seams(&moves, &vec![false], 15, 0, i64::min, beyond, reach, reach);
    assert_eq!(
        refused.unwrap_err(),
        VelocityError::OverCommitted { line_no: 7 }
    );
    let refused = plan_seams(&moves, &vec![false], 150, 0, i64::min, beyond, reach, reach);
    assert_eq!(
        refused.unwrap_err(),
        VelocityError::OverCommitted { line_no: 7 }
    );
    let diverged = |_: usize, _: i64| None;
    let refused = plan_seams(&moves, &vec![false], 0, 0, i64::min, beyond, diverged, reach);
    assert_eq!(refused.unwrap_err(), VelocityError::Diverged { line_no: 7 });
}

#[test]
fn a_window_is_planned_and_its_prefix_reconstructed() {
    let mut moves: Vec<SeamMove> = (0..6).map(|i| line(i, 25)).collect();
    moves[1].peak_limit = 20;
    moves[1].ride_limit = Some(15);
    let profile = plan_velocity_stops_select_prefix(
        &moves,
        &vec![false; 6],
        0,
        &SCALE,
        i64::min,
        beyond,
        reach,
        reach,
        |barrier| barrier,
        |v, start, end| profiles(v, start, end),
    )
    .unwrap();
    assert_eq!(profile.barrier, 3);
    assert_eq!(profile.v_barrier, 25);
    assert_eq!(profile.boundary_speeds, vec![0, 10, 20, 25]);
    assert_eq!(profile.moves.len(), 3);
    assert_eq!(profile.moves[0].speeds, vec![0, 10, 10]);
    assert!(profile.moves[0].rest_at_start && !profile.moves[0].rest_at_end);
    assert_eq!(profile.moves[1].peak_v, 20);
    assert_eq!(
        profile.moves.iter().map(|m| m.detail).collect::<Vec<_>>(),
        vec![0, 1, 2]
    );
    assert_eq!(profile.report.limit_ride, 1);
    assert_eq!(profile.report.curvature_bound, 1);
    assert_eq!(profile.report.feedrate_bound, 5);
    assert_eq!(count_bounds(&moves), (1, 5));
}

#[test]
fn an_entry_beyond_its_limits_is_refused() {
    let moves: Vec<SeamMove> = (0..3).map(|i| line(30 + i, 25)).collect();
    let plan = |entry: i64| {
        plan_velocity_stops_select_prefix(
            &moves,
            &vec![false; 3],
            entry,
            &SCALE,
            i64::min,
            beyond,
            reach,
            reach,
            |_| 0,
            nobody,
        )
    };
    assert!(plan(25).is_ok());
    assert_eq!(plan(26).unwrap_err(), VelocityError::OverCommitted { line_no: 30 });
    let short: Vec<SeamMove> = vec![line(40, 25)];
    let refused = plan_velocity_stops_select_prefix(
        &short,
        &vec![false],
        20,
        &SCALE,
        i64::min,
        beyond,
        reach,
        reach,
        |_| 0,
        nobody,
    );
    assert_eq!(refused.unwrap_err(), VelocityError::OverCommitted { line_no: 40 });
}

#[test]
fn a_reach_that_diverges_at_the_planned_speed_is_told_at_its_line() {
    let moves: Vec<SeamMove> = (0..3).map(|i| line(50 + i, 25)).collect();
    let forward = |_: usize, x: i64| if x == 20 { None } else { Some(x + 10) };
    let refused = plan_seams(
        &moves,
        &vec![false; 3],
        0,
        0,
        i64::min,
        beyond,
        forward,
        reach,
    );
    assert_eq!(refused.unwrap_err(), VelocityError::Diverged { line_no: 52 });
    let backward = |_: usize, x: i64| if x == 10 { None } else { Some(x + 10) };
    let refused = plan_seams(
        &moves,
        &vec![false; 3],
        0,
        0,
        i64::min,
        beyond,
        reach,
        backward,
    );
    assert_eq!(refused.unwrap_err(), VelocityError::Diverged { line_no: 51 });
}

#[test]
fn an_empty_window_keeps_its_entry() {
    let profile = plan_velocity_stops_select_prefix(
        &Vec::new(),
        &Vec::new(),
        4,
        &SCALE,
        i64::min,
        beyond,
        reach,
        reach,
        |_| 0,
        nobody,
    )
    .unwrap();
    assert!(profile.moves.is_empty());
    assert_eq!(profile.boundary_speeds, vec![4]);
    assert_eq!((profile.barrier, profile.v_barrier), (0, 0));
}

#[test]
fn the_first_failing_member_speaks_for_its_run() {
    let moves: Vec<SeamMove> = (0..3).map(|i| line(10 + i, 25)).collect();
    let plan = |pool: fn(&Vec<i64>, usize, usize) -> Vec<(usize, Result<MemberProfile<usize>, ReconstructError>)>| {
        plan_velocity_stops_select_prefix(
            &moves,
            &vec![false; 3],
            0,
            &SCALE,
            i64::min,
            beyond,
            reach,
            reach,
            |_| 3,
            pool,
        )
        .unwrap_err()
    };
    let error = plan(|_, _, _| {
        vec![
            (2, Err(ReconstructError::Diverged)),
            (
                1,
                Err(ReconstructError::Infeasible {
                    member: 1,
                    entry_v: 10,
                    exit_v: 10,
                }),
            ),
            (
                0,
                Ok(MemberProfile {
                    speeds: vec![-5, -5, -5],
                    end_speed: 0,
                    detail: 0,
                }),
            ),
        ]
    });
    assert_eq!(
        error,
        VelocityError::Infeasible {
            line_no: 10,
            member: 1,
            entry_v: 10,
            exit_v: 10
        }
    );
    let error = plan(|_, _, _| {
        (0..3)
            .map(|i| {
                (
                    i,
                    Ok(MemberProfile {
                        speeds: vec![1, 2 - 3 * i as i64, 1],
                        end_speed: 0,
                        detail: i,
                    }),
                )
            })
            .collect()
    });
    assert_eq!(error, VelocityError::NegativeVelocity { line_no: 11, v: -1 });
}

#[test]
fn finite_jerk_is_refused_at_its_first_line() {
    let mut moves = vec![line(1, 5), line(2, 5), line(3, 5)];
    moves[1].jerk = JerkLimit::Finite(77);
    moves[2].jerk = JerkLimit::Finite(78);
    let refused = plan_velocity_stops_select_prefix(
        &moves,
        &vec![false; 3],
        0,
        &SCALE,
        i64::min,
        beyond,
        reach,
        reach,
        |_| 0,
        nobody,
    );
    assert_eq!(
        refused.unwrap_err(),
        VelocityError::FiniteJerkUnsupported {
            line_no: 2,
            jerk: 77
        }
    );
    let unusable = SeamMove {
        jerk: JerkLimit::Unusable,
        ..line(4, 5)
    };
    let refused = plan_seams(&vec![unusable], &vec![false], 0, 0, i64::min, beyond, reach, reach);
    assert_eq!(refused.unwrap_err(), VelocityError::Diverged { line_no: 4 });
}

#[test]
fn labelled_items_are_put_in_order() {
    assert_eq!(
        order_by_label(vec![(2, 'c'), (0, 'a'), (1, 'b')]),
        vec!['a', 'b', 'c']
    );
    assert_eq!(worker_count(16, 9), 4);
    assert_eq!(worker_count(2, 9), 2);
    assert_eq!(worker_count(16, 3), 3);
    assert_eq!(first_negative_velocity(&vec![1, -2, -3], 0), Some(-2));
    assert_eq!(first_negative_velocity(&vec![1, 0], 0), None);
}

fn attempt(use_head: bool, use_tail: bool, halvings: usize) -> Attempt {
    Attempt {
        use_head,
        use_tail,
        halvings,
    }
}

#[test]
fn both_ends_are_tried_before_one() {
    let full = Some([false; 4]);
    let list = planned_attempts(&full, &full);
    assert_eq!(list.len(), 12);
    assert_eq!(list[0], attempt(true, true, 0));
    assert_eq!(list[4], attempt(true, false, 0));
    assert_eq!(list[11], attempt(false, true, 3));
    let short = Some([false, false, true, true]);
    assert_eq!(
        planned_attempts(&None, &short),
        vec![attempt(false, true, 0), attempt(false, true, 1)]
    );
    assert!(planned_attempts(&None, &None).is_empty());
}

fn bare_run() -> EasedRun<&'static str, char, u8> {
    EasedRun {
        arc: "bare",
        up: Vec::new(),
        down: Vec::new(),
        head_line_trim: 0,
        tail_line_trim: 0,
        up_followers: 0,
        followers: 0,
        down_followers: 0,
    }
}

fn fit(head: bool, tail: bool) -> EaseFit<&'static str, char> {
    let end = |used: bool, spiral: char, trim: i64| {
        if used {
            Some(SpiralFit { spiral, trim })
        } else {
            None
        }
    };
    EaseFit {
        head: end(head, 'h', 5),
        tail: end(tail, 't', 6),
        arc: "eased",
    }
}

#[test]
fn the_first_solved_attempt_is_adopted() {
    let full = Some([false; 4]);
    let mut run = bare_run();
    ease_run(
        &mut run,
        &full,
        &full,
        9,
        |a| {
            Ok(if a.use_head && a.use_tail && a.halvings == 2 {
                Some(fit(true, true))
            } else {
                None
            })
        },
        |spiral| Some(spiral.to_ascii_uppercase()),
        |head, tail| (u8::from(head), 2, u8::from(tail)),
    )
    .unwrap();
    assert_eq!(run.arc, "eased");
    assert_eq!((run.up, run.down), (vec!['h'], vec!['T']));
    assert_eq!((run.head_line_trim, run.tail_line_trim), (5, 6));
    assert_eq!(
        (run.up_followers, run.followers, run.down_followers),
        (1, 2, 1)
    );
}

#[test]
fn an_unsolved_run_is_left_alone() {
    let full = Some([false; 4]);
    let mut run = bare_run();
    ease_run(
        &mut run,
        &full,
        &None,
        9,
        |_| Ok(None),
        |spiral| Some(*spiral),
        |_, _| (1, 1, 1),
    )
    .unwrap();
    assert_eq!(run.arc, "bare");
    assert_eq!(run.followers, 0);
}

#[test]
fn easing_failures_name_the_line() {
    let full = Some([false; 4]);
    let mut run = bare_run();
    let error = ease_run(
        &mut run,
        &None,
        &full,
        9,
        |_| Ok(Some(fit(false, true))),
        |_| None,
        |_, _| (1, 1, 1),
    )
    .unwrap_err();
    assert_eq!(error.line_no, 9);
    assert_eq!(
        error.source,
        GeometryError::DegenerateClothoid {
            reason: "tail spiral reverse failed"
        }
    );
    let error = ease_run(
        &mut run,
        &full,
        &full,
        9,
        |_| Err(GeometryError::ZeroMotion),
        |_| None,
        |_, _| (1, 1, 1),
    )
    .unwrap_err();
    assert_eq!(error.source, GeometryError::ZeroMotion);
}
