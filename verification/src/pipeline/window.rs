//! One plan of the planner's window: where it stops, which of its seams are clean, and
//! the velocity plan of the prefix that is selected.

use crate::geometry::reconstruct::{
    plan_velocity_stops_select_prefix, MemberProfile, MoveVelocity, ReconstructError,
    VelocityProfile,
};
use crate::geometry::velocity::{SeamMove, SpeedScale, VelocityError};
use crate::pipeline::planner::{committable_seam, stop_flags, PlannedPrefix, Selection};
use vstd::prelude::*;

verus! {

/// `stop_before` flags the seams of a window that stop. The entry never does.
pub open spec fn flags_stops<M, Q: Fn(&M, &M) -> bool>(
    moves: Seq<M>,
    requires_stop: Q,
    stop_before: Seq<bool>,
) -> bool {
    &&& stop_before.len() == moves.len()
    &&& moves.len() > 0 ==> !stop_before[0]
    &&& forall|i: int|
        0 < i < moves.len() ==> crate::pipeline::planner::stops_at(
            moves,
            requires_stop,
            i,
            #[trigger] stop_before[i],
        )
}

/// Seam `i` is clean where the move entered is a line, or where the plan stops.
pub open spec fn seam_clean<M, L: Fn(&M) -> bool>(
    moves: Seq<M>,
    stop_before: Seq<bool>,
    is_line: L,
    i: int,
    clean: bool,
) -> bool {
    exists|line: bool| #[trigger]
        call_ensures(is_line, (&moves[i],), line) && clean == (line || stop_before[i])
}

/// `clean` flags the clean seams of a window. The entry is no seam to commit at.
pub open spec fn flags_clean<M, L: Fn(&M) -> bool>(
    moves: Seq<M>,
    stop_before: Seq<bool>,
    is_line: L,
    clean: Seq<bool>,
) -> bool {
    &&& clean.len() == moves.len()
    &&& moves.len() > 0 ==> !clean[0]
    &&& forall|i: int|
        0 < i < moves.len() ==> seam_clean(moves, stop_before, is_line, i, #[trigger] clean[i])
}

/// Which seams of the window are clean.
pub fn clean_flags<M, L: Fn(&M) -> bool>(
    moves: &Vec<M>,
    stop_before: &Vec<bool>,
    is_line: L,
) -> (clean: Vec<bool>)
    requires
        stop_before@.len() == moves@.len(),
        forall|m: &M| call_requires(is_line, (m,)),
    ensures
        flags_clean(moves@, stop_before@, is_line, clean@),
{
    let mut clean: Vec<bool> = Vec::new();
    let mut i: usize = 0;
    while i < moves.len()
        invariant
            i <= moves@.len() == stop_before@.len(),
            clean@.len() == i,
            forall|m: &M| call_requires(is_line, (m,)),
            i > 0 ==> !clean@[0],
            forall|k: int|
                0 < k < i ==> seam_clean(moves@, stop_before@, is_line, k, #[trigger] clean@[k]),
        decreases moves@.len() - i,
    {
        if i > 0 {
            let line: bool = is_line(&moves[i]);
            assert(call_ensures(is_line, (&moves@[i as int],), line));
            clean.push(line || stop_before[i]);
        } else {
            clean.push(false);
        }
        i += 1;
    }
    clean
}

/// The count of moves that a selection picks of a window of `n`, given the barrier: all of
/// them, or up to the furthest clean seam inside the barrier and the horizon.
pub open spec fn selects(selection: Selection, clean: Seq<bool>, horizon: usize, n: nat) -> spec_fn(
    usize,
    usize,
) -> bool {
    |barrier: usize, count: usize|
        match selection {
            Selection::All => count == n,
            Selection::Committable => crate::pipeline::planner::is_furthest_clean(
                clean,
                if barrier <= horizon {
                    barrier as int
                } else {
                    horizon as int
                },
                count as int,
            ),
        }
}

/// Plans a window and reconstructs the part that `selection` picks. `seams` is what the
/// plan reads of each move; `requires_stop` says whether two moves cannot run through
/// their seam, `is_line` whether a move is a straight line, and `horizon` is the furthest
/// seam whose moves lie clear of braking to the window's end. The other functions are
/// those of [`plan_velocity_stops_select_prefix`].
pub fn plan_selected<M, D, Q, L, N, X, F, B, P>(
    moves: &Vec<M>,
    seams: &Vec<SeamMove>,
    selection: Selection,
    horizon: usize,
    entry_v: i64,
    scale: &SpeedScale,
    requires_stop: Q,
    is_line: L,
    notch_free: N,
    exceeds: X,
    reach: F,
    reach_back: B,
    pool: P,
) -> (result: Result<VelocityProfile<D>, VelocityError>) where
    Q: Fn(&M, &M) -> bool,
    L: Fn(&M) -> bool,
    N: Fn(i64, i64) -> i64,
    X: Fn(i64, i64) -> bool,
    F: Fn(usize, i64) -> Option<i64>,
    B: Fn(usize, i64) -> Option<i64>,
    P: Fn(&Vec<i64>, usize, usize) -> Vec<(usize, Result<MemberProfile<D>, ReconstructError>)>,

    requires
        seams@.len() == moves@.len() <= u32::MAX,
        moves@.len() > 0 ==> horizon < moves@.len(),
        forall|a: &M, b: &M| call_requires(requires_stop, (a, b)),
        forall|m: &M| call_requires(is_line, (m,)),
        forall|a: i64, b: i64| call_requires(notch_free, (a, b)),
        forall|a: i64, b: i64| call_requires(exceeds, (a, b)),
        forall|j: usize, x: i64| j < moves@.len() ==> call_requires(reach, (j, x)),
        forall|j: usize, x: i64| j < moves@.len() ==> call_requires(reach_back, (j, x)),
        crate::geometry::reconstruct::pool_answers(pool, moves@.len() as int),
    ensures
        exists|stop_before: Seq<bool>, clean: Seq<bool>|
            {
                &&& flags_stops(moves@, requires_stop, stop_before)
                &&& #[trigger] flags_clean(moves@, stop_before, is_line, clean)
                &&& match result {
                    Ok(profile) => crate::geometry::reconstruct::profile_planned(
                        seams@,
                        stop_before,
                        entry_v,
                        *scale,
                        notch_free,
                        exceeds,
                        reach,
                        reach_back,
                        selects(selection, clean, horizon, moves@.len()),
                        pool,
                        profile,
                    ),
                    Err(error) => crate::geometry::reconstruct::profile_refused(
                        seams@,
                        stop_before,
                        entry_v,
                        *scale,
                        notch_free,
                        exceeds,
                        reach,
                        reach_back,
                        selects(selection, clean, horizon, moves@.len()),
                        pool,
                        error,
                    ),
                }
            },
{
    let n: usize = moves.len();
    let stop_before: Vec<bool> = stop_flags(moves, requires_stop);
    let clean: Vec<bool> = clean_flags(moves, &stop_before, is_line);
    let ghost wanted = selects(selection, clean@, horizon, n as nat);
    let select = |barrier: usize| -> (count: usize)
        ensures
            count <= n,
            n > 0 ==> crate::geometry::reconstruct::picked(wanted, barrier, count),
        {
            match selection {
                Selection::All => n,
                Selection::Committable => if n == 0 {
                    0
                } else {
                    committable_seam(&clean, barrier, horizon)
                },
            }
        };
    let result = plan_velocity_stops_select_prefix(
        seams,
        &stop_before,
        entry_v,
        scale,
        notch_free,
        exceeds,
        reach,
        reach_back,
        select,
        pool,
    );
    assert(n > 0 ==> forall|barrier: usize, count: usize|
        crate::geometry::reconstruct::picked(
            crate::geometry::reconstruct::picks(select),
            barrier,
            count,
        ) ==> #[trigger] crate::geometry::reconstruct::picked(wanted, barrier, count));
    assert(flags_clean(moves@, stop_before@, is_line, clean@));
    result
}

/// What a plan commits downstream: the moves it reconstructed, and the speed at which the
/// move after them is entered.
pub fn planned_prefix<D>(profile: VelocityProfile<D>) -> (prefix: PlannedPrefix<MoveVelocity<D>>)
    requires
        profile.boundary_speeds@.len() == profile.moves@.len() + 1,
    ensures
        prefix.velocities@ == profile.moves@,
        prefix.boundary == profile.boundary_speeds@[profile.moves@.len() as int],
{
    let count: usize = profile.moves.len();
    PlannedPrefix { velocities: profile.moves, boundary: profile.boundary_speeds[count] }
}

/// A seam where the plan stops is clean, and so is one that a straight line is entered at;
/// no other seam is, and the entry is none.
pub proof fn law_clean_seam_stops_or_enters_a_line<M, L: Fn(&M) -> bool>(
    moves: Vec<M>,
    stop_before: Vec<bool>,
    is_line: L,
    clean: Vec<bool>,
    i: int,
)
    requires
        call_ensures(clean_flags::<M, L>, (&moves, &stop_before, is_line), clean),
        0 <= i < moves@.len(),
    ensures
        clean@.len() == moves@.len(),
        !clean@[0],
        i > 0 && stop_before@[i] ==> clean@[i],
        i > 0 && !stop_before@[i] ==> call_ensures(is_line, (&moves@[i],), clean@[i]),
{
    if i > 0 {
        assert(seam_clean(moves@, stop_before@, is_line, i, clean@[i]));
    }
}

/// Where all is selected, every move of the window is; else no more than the barrier and the
/// horizon allow, up to a clean seam.
pub proof fn law_selection_stays_inside_the_barrier(
    selection: Selection,
    clean: Seq<bool>,
    horizon: usize,
    n: nat,
    barrier: usize,
    count: usize,
)
    requires
        selects(selection, clean, horizon, n)(barrier, count),
    ensures
        selection is All ==> count == n,
        selection is Committable ==> count <= barrier && count <= horizon && (count == 0
            || clean[count as int]),
        selection is Committable ==> forall|i: int|
            count < i <= barrier && i <= horizon ==> !#[trigger] clean[i],
{
}

/// A seam that a plan's flags say stops was answered for by the two moves that meet there.
pub proof fn law_flagged_stop_was_answered_for<M, Q: Fn(&M, &M) -> bool>(
    moves: Seq<M>,
    requires_stop: Q,
    stop_before: Seq<bool>,
    i: int,
)
    requires
        flags_stops(moves, requires_stop, stop_before),
        0 < i < moves.len(),
    ensures
        stop_before.len() == moves.len(),
        !stop_before[0],
        call_ensures(requires_stop, (&moves[i - 1], &moves[i]), stop_before[i]),
{
    assert(crate::pipeline::planner::stops_at(moves, requires_stop, i, stop_before[i]));
}

/// A prefix holds the reconstructed moves in order, and is left at the last boundary speed.
pub proof fn law_prefix_is_left_at_the_last_boundary<D>(
    profile: VelocityProfile<D>,
    prefix: PlannedPrefix<MoveVelocity<D>>,
)
    requires
        profile.boundary_speeds@.len() == profile.moves@.len() + 1,
        call_ensures(planned_prefix::<D>, (profile,), prefix),
    ensures
        prefix.velocities@.len() == profile.moves@.len(),
        forall|i: int|
            0 <= i < profile.moves@.len() ==> #[trigger] prefix.velocities@[i]
                == profile.moves@[i],
        prefix.boundary == profile.boundary_speeds@.last(),
{
}

/// A selected plan commits what was asked for: all of the window, or at most what the barrier
/// and the horizon allow. Each of its moves but the last of the window is left no faster than
/// it and the next one allow, unless the two cannot run through their seam.
pub proof fn law_selected_plan_keeps_to_the_window<M, D, Q, L, N, X, F, B, P>(
    moves: &Vec<M>,
    seams: &Vec<SeamMove>,
    selection: Selection,
    horizon: usize,
    entry_v: i64,
    scale: &SpeedScale,
    requires_stop: Q,
    is_line: L,
    notch_free: N,
    exceeds: X,
    reach: F,
    reach_back: B,
    pool: P,
    profile: VelocityProfile<D>,
    j: int,
) where
    Q: Fn(&M, &M) -> bool,
    L: Fn(&M) -> bool,
    N: Fn(i64, i64) -> i64,
    X: Fn(i64, i64) -> bool,
    F: Fn(usize, i64) -> Option<i64>,
    B: Fn(usize, i64) -> Option<i64>,
    P: Fn(&Vec<i64>, usize, usize) -> Vec<(usize, Result<MemberProfile<D>, ReconstructError>)>,

    requires
        0 < moves@.len() == seams@.len(),
        call_ensures(
            plan_selected::<M, D, Q, L, N, X, F, B, P>,
            (
                moves,
                seams,
                selection,
                horizon,
                entry_v,
                scale,
                requires_stop,
                is_line,
                notch_free,
                exceeds,
                reach,
                reach_back,
                pool,
            ),
            Ok::<VelocityProfile<D>, VelocityError>(profile),
        ),
    ensures
        selection is All ==> profile.moves@.len() == moves@.len(),
        selection is Committable ==> profile.moves@.len() <= profile.barrier
            && profile.moves@.len() <= horizon,
        profile.boundary_speeds@.len() == profile.moves@.len() + 1,
        profile.boundary_speeds@[0] == entry_v,
        0 <= j < profile.moves@.len() ==> profile.boundary_speeds@[j + 1]
            == profile.moves@[j].boundary,
        0 <= j < profile.moves@.len() && j + 1 < moves@.len() && !call_ensures(
            requires_stop,
            (&moves@[j], &moves@[j + 1]),
            true,
        ) ==> profile.moves@[j].exit_v <= seams@[j].flat_ceiling && profile.moves@[j].exit_v
            <= seams@[j + 1].flat_ceiling && (crate::geometry::velocity::only_lowers(notch_free)
            ==> profile.moves@[j].exit_v <= seams@[j].exit_limit && profile.moves@[j].exit_v
            <= seams@[j + 1].entry_limit),
{
    let (stop_before, clean) = choose|stop_before: Seq<bool>, clean: Seq<bool>|
        {
            &&& flags_stops(moves@, requires_stop, stop_before)
            &&& #[trigger] flags_clean(moves@, stop_before, is_line, clean)
            &&& crate::geometry::reconstruct::profile_planned(
                seams@,
                stop_before,
                entry_v,
                *scale,
                notch_free,
                exceeds,
                reach,
                reach_back,
                selects(selection, clean, horizon, moves@.len()),
                pool,
                profile,
            )
        };
    let wanted = selects(selection, clean, horizon, moves@.len());
    let n = profile.moves@.len();
    assert(profile.moves.len() == n);
    assert(crate::geometry::reconstruct::picked(wanted, profile.barrier, n as usize));
    if 0 <= j < n {
        assert(profile.boundary_speeds@[j + 1] == profile.moves@[j].boundary);
        let plan = choose|plan: crate::geometry::velocity::SeamPlan|
            {
                &&& #[trigger] crate::geometry::reconstruct::window_planned(
                    seams@,
                    stop_before,
                    entry_v,
                    scale.rest,
                    notch_free,
                    exceeds,
                    reach,
                    reach_back,
                    plan,
                    profile.barrier as int,
                )
                &&& profile.v_barrier == plan.v@[profile.barrier as int]
                &&& crate::geometry::reconstruct::moves_settled(
                    seams@,
                    plan,
                    *scale,
                    n as int,
                    pool,
                    profile.moves@,
                    n as int,
                )
            };
        assert(crate::geometry::reconstruct::move_settled(
            seams@,
            plan,
            *scale,
            n as int,
            pool,
            profile.moves@,
            j,
        ));
        if j + 1 < moves@.len() {
            law_flagged_stop_was_answered_for(moves@, requires_stop, stop_before, j + 1);
            if !stop_before[j + 1] {
                crate::geometry::velocity::law_corner_keeps_to_both_moves(
                    seams@,
                    stop_before,
                    entry_v,
                    scale.rest,
                    notch_free,
                    reach,
                    reach_back,
                    plan.v@,
                    profile.barrier as int,
                    j + 1,
                );
            }
        }
    }
}

} // verus!
