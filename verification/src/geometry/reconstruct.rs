//! Turning a seam plan back into one velocity profile per move.
//!
//! The moves between two anchors form a run. The members of a run are profiled by
//! workers, each taking the next member that is left, so the profiles come back in any
//! order, labelled with their member's index. They are put in order, checked, and
//! settled into what each move carries on.

use crate::geometry::velocity::{
    check_jerk, count_bounds, plan_seams, SeamMove, SeamPlan, SpeedScale, VelocityError,
};
use vstd::prelude::*;

verus! {

/// The most workers that profile one run.
pub const RECONSTRUCT_WORKERS_MAX: usize = 4;

/// The moves `start..end`, between two anchors or the end of the prefix.
#[derive(Debug, Clone, Copy, PartialEq, Eq, Structural)]
pub struct Run {
    pub start: usize,
    pub end: usize,
}

/// `run` starts at its first move and ends at the next anchor, or at `n`.
pub open spec fn is_run(is_anchor: Seq<bool>, n: int, run: Run) -> bool {
    &&& run.start < run.end <= n
    &&& forall|k: int| run.start < k < run.end ==> !#[trigger] is_anchor[k]
    &&& run.end == n || is_anchor[run.end as int]
}

/// The end of the run that starts at `start`.
pub fn run_end(is_anchor: &Vec<bool>, n: usize, start: usize) -> (end: usize)
    requires
        start < n <= is_anchor@.len(),
    ensures
        is_run(is_anchor@, n as int, (Run { start, end })),
{
    let mut end: usize = start + 1;
    while end < n && !is_anchor[end]
        invariant
            start < end <= n <= is_anchor@.len(),
            forall|k: int| start < k < end ==> !#[trigger] is_anchor@[k],
        decreases n - end,
    {
        end += 1;
    }
    end
}

/// A run has one end.
pub proof fn law_run_is_unique(is_anchor: Seq<bool>, n: int, a: Run, b: Run)
    requires
        is_run(is_anchor, n, a),
        is_run(is_anchor, n, b),
        a.start == b.start,
    ensures
        a == b,
{
}

/// How many workers profile a run of `members` on `cores` cores.
pub fn worker_count(cores: usize, members: usize) -> (workers: usize)
    ensures
        workers <= cores && workers <= RECONSTRUCT_WORKERS_MAX && workers <= members,
        workers == cores || workers == RECONSTRUCT_WORKERS_MAX || workers == members,
{
    let mut workers: usize = cores;
    if RECONSTRUCT_WORKERS_MAX < workers {
        workers = RECONSTRUCT_WORKERS_MAX;
    }
    if members < workers {
        workers = members;
    }
    workers
}

/// The listing labels its items `0..len`, each label once.
pub open spec fn labelled<T>(listing: Seq<(usize, T)>) -> bool {
    &&& forall|i: int| 0 <= i < listing.len() ==> (#[trigger] listing[i]).0 < listing.len()
    &&& forall|i: int, j: int|
        0 <= i < j < listing.len() ==> (#[trigger] listing[i]).0 != (#[trigger] listing[j]).0
    &&& forall|label: int|
        0 <= label < listing.len() ==> #[trigger] labels(listing, label)
}

/// Some item of the listing has the label.
pub open spec fn labels<T>(listing: Seq<(usize, T)>, label: int) -> bool {
    exists|i: int| 0 <= i < listing.len() && (#[trigger] listing[i]).0 == label
}

/// `ordered` holds each item of the listing at its label.
pub open spec fn ordered_by_label<T>(listing: Seq<(usize, T)>, ordered: Seq<T>) -> bool {
    &&& ordered.len() == listing.len()
    &&& forall|i: int| 0 <= i < listing.len() ==> ordered[(#[trigger] listing[i]).0 as int]
        == listing[i].1
}

/// The slot of a label, counted from the end, holds the item so labelled.
spec fn slotted<T>(listing: Seq<(usize, T)>, slots: Seq<Option<T>>, label: int) -> bool {
    exists|i: int|
        {
            &&& 0 <= i < listing.len()
            &&& (#[trigger] listing[i]).0 == label
            &&& slots[slots.len() - 1 - label] == Some(listing[i].1)
        }
}

/// Puts labelled items in the order of their labels.
pub fn order_by_label<T>(listing: Vec<(usize, T)>) -> (ordered: Vec<T>)
    requires
        labelled(listing@),
    ensures
        ordered_by_label(listing@, ordered@),
{
    let n: usize = listing.len();
    let ghost all = listing@;
    let mut rest: Vec<(usize, T)> = listing;
    let mut slots: Vec<Option<T>> = Vec::new();
    let mut filled: usize = 0;
    while filled < n
        invariant
            filled <= n,
            slots@.len() == filled,
            forall|i: int| 0 <= i < filled ==> (#[trigger] slots@[i]) is None,
        decreases n - filled,
    {
        slots.push(None);
        filled += 1;
    }
    while rest.len() > 0
        invariant
            n == all.len() == slots@.len(),
            rest@.len() <= n,
            rest@ == all.take(rest@.len() as int),
            labelled(all),
            forall|i: int|
                rest@.len() <= i < n ==> slots@[n - 1 - (#[trigger] all[i]).0] == Some(all[i].1),
        decreases rest@.len(),
    {
        let ghost before = slots@;
        let ghost held = rest@.len();
        let popped: Option<(usize, T)> = rest.pop();
        if let Some((label, item)) = popped {
            assert(all[held - 1] == (label, item));
            assert(rest@ =~= all.take(held - 1));
            slots.set(n - 1 - label, Some(item));
            assert forall|i: int| rest@.len() <= i < n implies slots@[n - 1 - (#[trigger] all[i]).0]
                == Some(all[i].1) by {
                if i > held - 1 {
                    assert(all[held - 1].0 != all[i].0);
                }
            }
        }
    }
    assert forall|label: int| 0 <= label < n implies #[trigger] slotted(all, slots@, label) by {
        assert(labels(all, label));
        let i = choose|i: int| 0 <= i < n && (#[trigger] all[i]).0 == label;
        assert(slots@[n - 1 - all[i].0] == Some(all[i].1));
    }
    let ghost full = slots@;
    let mut ordered: Vec<T> = Vec::new();
    while slots.len() > 0
        invariant
            n == all.len() == full.len(),
            slots@.len() + ordered@.len() == n,
            slots@ == full.take(slots@.len() as int),
            forall|label: int| 0 <= label < n ==> #[trigger] slotted(all, full, label),
            forall|label: int| 0 <= label < ordered@.len() ==> full[n - 1 - label] == Some(
                #[trigger] ordered@[label],
            ),
        decreases slots@.len(),
    {
        let ghost label = ordered@.len() as int;
        let ghost held = slots@.len();
        assert(slotted(all, full, label));
        let popped: Option<Option<T>> = slots.pop();
        assert(slots@ =~= full.take(held - 1));
        if let Some(Some(item)) = popped {
            ordered.push(item);
        }
    }
    assert forall|i: int| 0 <= i < n implies ordered@[(#[trigger] all[i]).0 as int] == all[i].1 by {
        let label = all[i].0 as int;
        assert(slotted(all, full, label));
        let other = choose|j: int|
            0 <= j < n && (#[trigger] all[j]).0 == label && full[n - 1 - label] == Some(all[j].1);
        assert(all[other].0 == all[i].0);
        if other < i {
            assert(all[other].0 != all[i].0);
        }
        if i < other {
            assert(all[i].0 != all[other].0);
        }
        assert(full[n - 1 - label] == Some(ordered@[label]));
    }
    ordered
}

// ----- One move's profile

/// What a worker computed for one member: the speeds of its samples in order, the speed
/// at which its last phase ends, and the rest of it, which goes on with its move: its
/// phases, the positions and accelerations of its samples, its length.
#[derive(Debug)]
pub struct MemberProfile<D> {
    pub speeds: Vec<i64>,
    pub end_speed: i64,
    pub detail: D,
}

/// Why a member has no profile.
#[derive(Debug, Clone, Copy, PartialEq, Eq, Structural)]
pub enum ReconstructError {
    Diverged,
    Infeasible { member: usize, entry_v: i64, exit_v: i64 },
}

/// What one move carries on.
#[derive(Debug)]
pub struct MoveVelocity<D> {
    pub entry_v: i64,
    pub exit_v: i64,
    pub peak_v: i64,
    /// The sample speeds, the first and last of them pinned to the seam plan.
    pub speeds: Vec<i64>,
    /// The first sample stands at a rest anchor, so it has no acceleration.
    pub rest_at_start: bool,
    /// The last sample stands at a rest anchor, so it has no acceleration.
    pub rest_at_end: bool,
    /// The speed at which the next move may be entered.
    pub boundary: i64,
    /// The move goes faster than its curvature limit.
    pub limit_ride: bool,
    /// What its profile holds besides the speeds.
    pub detail: D,
}

/// Sample speeds with the first and the last set to the seam speeds.
pub open spec fn pinned(speeds: Seq<i64>, entry_v: i64, exit_v: i64) -> Seq<i64> {
    if speeds.len() == 0 {
        speeds
    } else {
        speeds.update(0, entry_v).update(speeds.len() - 1, exit_v)
    }
}

fn pinned_speeds(speeds: &Vec<i64>, entry_v: i64, exit_v: i64) -> (out: Vec<i64>)
    ensures
        out@ == pinned(speeds@, entry_v, exit_v),
{
    let n: usize = speeds.len();
    let mut out: Vec<i64> = Vec::new();
    let mut i: usize = 0;
    while i < n
        invariant
            i <= n == speeds@.len(),
            out@ == pinned(speeds@, entry_v, exit_v).take(i as int),
        decreases n - i,
    {
        out.push(
            if i + 1 == n {
                exit_v
            } else if i == 0 {
                entry_v
            } else {
                speeds[i]
            },
        );
        assert(out@ =~= pinned(speeds@, entry_v, exit_v).take(i + 1));
        i += 1;
    }
    assert(out@ =~= pinned(speeds@, entry_v, exit_v));
    out
}

/// The highest speed, or rest where every sample lies below it.
pub open spec fn is_peak(speeds: Seq<i64>, rest: i64, peak: i64) -> bool {
    &&& rest <= peak
    &&& forall|i: int| 0 <= i < speeds.len() ==> #[trigger] speeds[i] <= peak
    &&& peak == rest || speeds.contains(peak)
}

fn peak_speed(speeds: &Vec<i64>, rest: i64) -> (peak: i64)
    ensures
        is_peak(speeds@, rest, peak),
{
    let mut peak: i64 = rest;
    let mut i: usize = 0;
    while i < speeds.len()
        invariant
            i <= speeds@.len(),
            rest <= peak,
            forall|k: int| 0 <= k < i ==> #[trigger] speeds@[k] <= peak,
            peak == rest || speeds@.contains(peak),
        decreases speeds@.len() - i,
    {
        if speeds[i] > peak {
            peak = speeds[i];
            assert(speeds@[i as int] == peak);
        }
        i += 1;
    }
    peak
}

/// No sample lies below the floor.
pub open spec fn none_negative(speeds: Seq<i64>, floor: i64) -> bool {
    forall|i: int| 0 <= i < speeds.len() ==> floor <= #[trigger] speeds[i]
}

/// `v` is the first sample below the floor.
pub open spec fn is_first_negative(speeds: Seq<i64>, floor: i64, v: i64) -> bool {
    exists|i: int|
        {
            &&& 0 <= i < speeds.len()
            &&& #[trigger] speeds[i] == v
            &&& v < floor
            &&& none_negative(speeds.take(i), floor)
        }
}

/// The first sample below the floor, if there is one.
pub fn first_negative_velocity(speeds: &Vec<i64>, floor: i64) -> (found: Option<i64>)
    ensures
        match found {
            Some(v) => is_first_negative(speeds@, floor, v),
            None => none_negative(speeds@, floor),
        },
{
    let mut i: usize = 0;
    while i < speeds.len()
        invariant
            i <= speeds@.len(),
            forall|k: int| 0 <= k < i ==> floor <= #[trigger] speeds@[k],
        decreases speeds@.len() - i,
    {
        let v: i64 = speeds[i];
        if v < floor {
            assert(none_negative(speeds@.take(i as int), floor));
            return Some(v);
        }
        i += 1;
    }
    None
}

/// The plan stands still at seam `k`.
pub open spec fn rests_at(v: Seq<i64>, is_anchor: Seq<bool>, scale: SpeedScale, k: int) -> bool {
    is_anchor[k] && v[k] <= scale.rest_limit
}

/// Move `j` carries on what its profile and the seam plan make of it.
pub open spec fn carries<D>(
    out: MoveVelocity<D>,
    m: SeamMove,
    v: Seq<i64>,
    is_anchor: Seq<bool>,
    scale: SpeedScale,
    j: int,
    profile: MemberProfile<D>,
) -> bool {
    let speeds = pinned(profile.speeds@, v[j], v[j + 1]);
    &&& out.speeds@ == speeds
    &&& none_negative(speeds, scale.floor)
    &&& out.entry_v == if speeds.len() > 0 {
        speeds[0]
    } else {
        v[j]
    }
    &&& out.exit_v == if speeds.len() > 0 {
        speeds.last()
    } else {
        v[j + 1]
    }
    &&& is_peak(speeds, scale.rest, out.peak_v)
    &&& out.rest_at_start == rests_at(v, is_anchor, scale, j)
    &&& out.rest_at_end == rests_at(v, is_anchor, scale, j + 1)
    &&& out.boundary == if rests_at(v, is_anchor, scale, j + 1) {
        scale.rest
    } else {
        crate::geometry::velocity::lower(profile.end_speed, v[j + 1])
    }
    &&& out.limit_ride == (m.ride_limit matches Some(limit) && out.peak_v > limit)
    &&& out.detail == profile.detail
}

/// Settles one move, or gives its first negative sample.
fn settle_move<D>(
    m: &SeamMove,
    plan: &SeamPlan,
    scale: &SpeedScale,
    j: usize,
    profile: MemberProfile<D>,
) -> (result: Result<MoveVelocity<D>, i64>)
    requires
        j + 1 < plan.v@.len() == plan.is_anchor@.len(),
    ensures
        match result {
            Ok(out) => carries(out, *m, plan.v@, plan.is_anchor@, *scale, j as int, profile),
            Err(v) => is_first_negative(
                pinned(profile.speeds@, plan.v@[j as int], plan.v@[j + 1]),
                scale.floor,
                v,
            ),
        },
{
    let seams: usize = plan.v.len();
    assert(j + 1 < seams);
    let entry: i64 = plan.v[j];
    let exit: i64 = plan.v[j + 1];
    let speeds: Vec<i64> = pinned_speeds(&profile.speeds, entry, exit);
    if let Some(v) = first_negative_velocity(&speeds, scale.floor) {
        return Err(v);
    }
    let count: usize = speeds.len();
    let entry_v: i64 = if count > 0 {
        speeds[0]
    } else {
        entry
    };
    let exit_v: i64 = if count > 0 {
        speeds[count - 1]
    } else {
        exit
    };
    let peak_v: i64 = peak_speed(&speeds, scale.rest);
    let rest_at_start: bool = plan.is_anchor[j] && entry <= scale.rest_limit;
    let rest_at_end: bool = plan.is_anchor[j + 1] && exit <= scale.rest_limit;
    let boundary: i64 = if rest_at_end {
        scale.rest
    } else if profile.end_speed <= exit {
        profile.end_speed
    } else {
        exit
    };
    let limit_ride: bool = match m.ride_limit {
        Some(limit) => peak_v > limit,
        None => false,
    };
    Ok(
        MoveVelocity {
            entry_v,
            exit_v,
            peak_v,
            speeds,
            rest_at_start,
            rest_at_end,
            boundary,
            limit_ride,
            detail: profile.detail,
        },
    )
}

// ----- One run

/// The error of a member, told at the line where its run starts.
pub open spec fn run_error(error: ReconstructError, line_no: u32) -> VelocityError {
    match error {
        ReconstructError::Diverged => VelocityError::Diverged { line_no },
        ReconstructError::Infeasible { member, entry_v, exit_v } => VelocityError::Infeasible {
            line_no,
            member,
            entry_v,
            exit_v,
        },
    }
}

/// Every member of a run before `count` was profiled.
pub open spec fn all_profiled<D>(
    profiles: Seq<Result<MemberProfile<D>, ReconstructError>>,
    count: int,
) -> bool {
    forall|i: int| 0 <= i < count ==> (#[trigger] profiles[i]) is Ok
}

/// The speeds of member `i` of a run, pinned to the seam plan.
pub open spec fn member_speeds<D>(
    profiles: Seq<Result<MemberProfile<D>, ReconstructError>>,
    v: Seq<i64>,
    run: Run,
    i: int,
) -> Seq<i64> {
    pinned(profiles[i]->Ok_0.speeds@, v[run.start + i], v[run.start + i + 1])
}

/// A run is refused with `error`: a member has no profile, the first such member
/// speaking; or every member has one and a sample is negative, the first speaking.
pub open spec fn run_refused<D>(
    moves: Seq<SeamMove>,
    v: Seq<i64>,
    scale: SpeedScale,
    run: Run,
    profiles: Seq<Result<MemberProfile<D>, ReconstructError>>,
    error: VelocityError,
) -> bool {
    ||| exists|i: int|
        {
            &&& 0 <= i < profiles.len()
            &&& (#[trigger] profiles[i]) is Err
            &&& all_profiled(profiles, i)
            &&& error == run_error(profiles[i]->Err_0, moves[run.start as int].line_no)
        }
    ||| {
        &&& all_profiled(profiles, profiles.len() as int)
        &&& exists|i: int, sample: i64|
            {
                &&& 0 <= i < profiles.len()
                &&& #[trigger] is_first_negative(
                    member_speeds(profiles, v, run, i),
                    scale.floor,
                    sample,
                )
                &&& forall|k: int|
                    0 <= k < i ==> none_negative(
                        #[trigger] member_speeds(profiles, v, run, k),
                        scale.floor,
                    )
                &&& error == VelocityError::NegativeVelocity {
                    line_no: moves[run.start + i].line_no,
                    v: sample,
                }
            }
    }
}

/// The moves of a run carry on what their profiles make of them.
pub open spec fn run_settled<D>(
    moves: Seq<SeamMove>,
    v: Seq<i64>,
    is_anchor: Seq<bool>,
    scale: SpeedScale,
    run: Run,
    profiles: Seq<Result<MemberProfile<D>, ReconstructError>>,
    out: Seq<MoveVelocity<D>>,
) -> bool {
    &&& out.len() == profiles.len()
    &&& all_profiled(profiles, profiles.len() as int)
    &&& forall|i: int|
        0 <= i < out.len() ==> carries(
            #[trigger] out[i],
            moves[run.start + i],
            v,
            is_anchor,
            scale,
            run.start + i,
            profiles[i]->Ok_0,
        )
}

/// A list back to front.
fn reversed<T>(list: Vec<T>) -> (backwards: Vec<T>)
    ensures
        backwards@ == list@.reverse(),
{
    let ghost all = list@;
    let mut rest: Vec<T> = list;
    let mut backwards: Vec<T> = Vec::new();
    while rest.len() > 0
        invariant
            rest@ == all.take(rest@.len() as int),
            rest@.len() + backwards@.len() == all.len(),
            forall|i: int|
                0 <= i < backwards@.len() ==> #[trigger] backwards@[i] == all[all.len() - 1 - i],
        decreases rest@.len(),
    {
        let ghost held = rest@.len();
        let popped: Option<T> = rest.pop();
        if let Some(item) = popped {
            assert(item == all[held - 1]);
            assert(rest@ =~= all.take(held - 1));
            backwards.push(item);
        }
    }
    assert(backwards@ =~= all.reverse());
    backwards
}

/// Settles a run from the profiles of its members, in order.
pub fn settle_run<D>(
    moves: &Vec<SeamMove>,
    plan: &SeamPlan,
    scale: &SpeedScale,
    run: Run,
    profiles: Vec<Result<MemberProfile<D>, ReconstructError>>,
) -> (result: Result<Vec<MoveVelocity<D>>, VelocityError>)
    requires
        run.start < run.end <= moves@.len(),
        profiles@.len() == run.end - run.start,
        run.end < plan.v@.len() == plan.is_anchor@.len(),
    ensures
        match result {
            Ok(out) => run_settled(
                moves@,
                plan.v@,
                plan.is_anchor@,
                *scale,
                run,
                profiles@,
                out@,
            ),
            Err(error) => run_refused(moves@, plan.v@, *scale, run, profiles@, error),
        },
{
    let n: usize = profiles.len();
    let line_no: u32 = moves[run.start].line_no;
    let mut i: usize = 0;
    while i < n
        invariant
            i <= n == profiles@.len(),
            run.start < run.end <= moves@.len(),
            line_no == moves@[run.start as int].line_no,
            all_profiled(profiles@, i as int),
        decreases n - i,
    {
        if let Err(error) = &profiles[i] {
            assert(profiles@[i as int] is Err);
            return Err(
                match *error {
                    ReconstructError::Diverged => VelocityError::Diverged { line_no },
                    ReconstructError::Infeasible {
                        member,
                        entry_v,
                        exit_v,
                    } => VelocityError::Infeasible { line_no, member, entry_v, exit_v },
                },
            );
        }
        i += 1;
    }
    let ghost listed = profiles@;
    let mut left: Vec<Result<MemberProfile<D>, ReconstructError>> = reversed(profiles);
    let mut out: Vec<MoveVelocity<D>> = Vec::new();
    let mut k: usize = 0;
    while k < n
        invariant
            k <= n == listed.len() == run.end - run.start,
            listed == profiles@,
            run.end <= moves@.len(),
            run.end < plan.v@.len() == plan.is_anchor@.len(),
            all_profiled(listed, n as int),
            left@ == listed.reverse().take(n - k),
            out@.len() == k,
            forall|i: int|
                0 <= i < k ==> carries(
                    #[trigger] out@[i],
                    moves@[run.start + i],
                    plan.v@,
                    plan.is_anchor@,
                    *scale,
                    run.start + i,
                    listed[i]->Ok_0,
                ),
        decreases n - k,
    {
        let j: usize = run.start + k;
        let popped: Option<Result<MemberProfile<D>, ReconstructError>> = left.pop();
        assert(listed[k as int] is Ok);
        assert(popped == Some(listed[k as int]));
        assert(left@ =~= listed.reverse().take(n - (k + 1)));
        if let Some(Ok(profile)) = popped {
            match settle_move(&moves[j], plan, scale, j, profile) {
                Ok(settled) => out.push(settled),
                Err(sample) => {
                    assert(is_first_negative(
                        member_speeds(listed, plan.v@, run, k as int),
                        scale.floor,
                        sample,
                    ));
                    assert forall|i: int| 0 <= i < k implies none_negative(
                        #[trigger] member_speeds(listed, plan.v@, run, i),
                        scale.floor,
                    ) by {
                        assert(carries(
                            out@[i],
                            moves@[run.start + i],
                            plan.v@,
                            plan.is_anchor@,
                            *scale,
                            run.start + i,
                            listed[i]->Ok_0,
                        ));
                    }
                    return Err(
                        VelocityError::NegativeVelocity { line_no: moves[j].line_no, v: sample },
                    );
                },
            }
        }
        k += 1;
    }
    Ok(out)
}

// ----- All runs of a prefix

/// A worker pool can be asked for any run of the first `n` moves, and labels one profile
/// for each of its members.
pub open spec fn pool_answers<D, F: Fn(&Vec<i64>, usize, usize) -> Vec<(usize, Result<MemberProfile<D>, ReconstructError>)>>(
    pool: F,
    n: int,
) -> bool {
    &&& forall|v: &Vec<i64>, start: usize, end: usize|
        start < end <= n ==> call_requires(pool, (v, start, end))
    &&& forall|v: &Vec<i64>, start: usize, end: usize, listing: Vec<(usize, Result<MemberProfile<D>, ReconstructError>)>|
        start < end <= n && #[trigger] call_ensures(pool, (v, start, end), listing) ==> labelled(
            listing@,
        ) && listing@.len() == end - start
}

/// A worker pool answers for `run` under the seam speeds `v` with labelled profiles, which in order are `profiles`.
pub open spec fn profiled<D, F: Fn(&Vec<i64>, usize, usize) -> Vec<(usize, Result<MemberProfile<D>, ReconstructError>)>>(
    pool: F,
    v: &Vec<i64>,
    run: Run,
    profiles: Seq<Result<MemberProfile<D>, ReconstructError>>,
) -> bool {
    exists|listing: Vec<(usize, Result<MemberProfile<D>, ReconstructError>)>|
        {
            &&& #[trigger] call_ensures(pool, (v, run.start, run.end), listing)
            &&& ordered_by_label(listing@, profiles)
        }
}

/// Move `j` of the prefix was settled with its run.
pub open spec fn move_settled<D, F: Fn(&Vec<i64>, usize, usize) -> Vec<(usize, Result<MemberProfile<D>, ReconstructError>)>>(
    moves: Seq<SeamMove>,
    plan: SeamPlan,
    scale: SpeedScale,
    n: int,
    pool: F,
    out: Seq<MoveVelocity<D>>,
    j: int,
) -> bool {
    exists|run: Run, profiles: Seq<Result<MemberProfile<D>, ReconstructError>>|
        {
            &&& #[trigger] profiled(pool, &plan.v, run, profiles)
            &&& is_run(plan.is_anchor@, n, run)
            &&& plan.is_anchor@[run.start as int]
            &&& run.start <= j < run.end
            &&& profiles.len() == run.end - run.start
            &&& profiles[j - run.start] is Ok
            &&& carries(
                out[j],
                moves[j],
                plan.v@,
                plan.is_anchor@,
                scale,
                j,
                profiles[j - run.start]->Ok_0,
            )
        }
}

/// The first `count` moves of the prefix were settled with their runs.
pub open spec fn moves_settled<D, F: Fn(&Vec<i64>, usize, usize) -> Vec<(usize, Result<MemberProfile<D>, ReconstructError>)>>(
    moves: Seq<SeamMove>,
    plan: SeamPlan,
    scale: SpeedScale,
    n: int,
    pool: F,
    out: Seq<MoveVelocity<D>>,
    count: int,
) -> bool {
    &&& out.len() == count
    &&& forall|j: int|
        0 <= j < count ==> #[trigger] move_settled(moves, plan, scale, n, pool, out, j)
}

/// A run of the prefix is refused with `error`, and every run before it was settled.
pub open spec fn runs_refused<D, F: Fn(&Vec<i64>, usize, usize) -> Vec<(usize, Result<MemberProfile<D>, ReconstructError>)>>(
    moves: Seq<SeamMove>,
    plan: SeamPlan,
    scale: SpeedScale,
    n: int,
    pool: F,
    error: VelocityError,
) -> bool {
    exists|
        run: Run,
        profiles: Seq<Result<MemberProfile<D>, ReconstructError>>,
        earlier: Seq<MoveVelocity<D>>,
    |
        {
            &&& #[trigger] profiled(pool, &plan.v, run, profiles)
            &&& is_run(plan.is_anchor@, n, run)
            &&& plan.is_anchor@[run.start as int]
            &&& #[trigger] moves_settled(
                moves,
                plan,
                scale,
                n,
                pool,
                earlier,
                run.start as int,
            )
            &&& run_refused(moves, plan.v@, scale, run, profiles, error)
        }
}

/// The profiles of a prefix, and the speed at each of its boundaries.
#[derive(Debug)]
pub struct Reconstruction<D> {
    pub moves: Vec<MoveVelocity<D>>,
    pub boundary_speeds: Vec<i64>,
}

/// Reconstructs the first `n` moves of a plan, run by run. `pool` profiles the moves
/// `start..end` between the planned seam speeds and labels each profile with its member.
pub fn reconstruct_runs<D, F>(
    moves: &Vec<SeamMove>,
    plan: &SeamPlan,
    scale: &SpeedScale,
    entry_v: i64,
    n: usize,
    pool: F,
) -> (result: Result<Reconstruction<D>, VelocityError>) where
    F: Fn(&Vec<i64>, usize, usize) -> Vec<(usize, Result<MemberProfile<D>, ReconstructError>)>,

    requires
        n <= moves@.len(),
        plan.v@.len() == plan.is_anchor@.len() == moves@.len() + 1,
        plan.is_anchor@[0],
        pool_answers(pool, n as int),
    ensures
        match result {
            Ok(out) => {
                &&& out.moves@.len() == n
                &&& out.boundary_speeds@.len() == n + 1
                &&& out.boundary_speeds@[0] == entry_v
                &&& forall|j: int|
                    0 <= j < n ==> out.boundary_speeds@[j + 1] == (#[trigger] out.moves@[j]).boundary
                &&& forall|j: int|
                    0 <= j < n ==> #[trigger] move_settled(
                        moves@,
                        *plan,
                        *scale,
                        n as int,
                        pool,
                        out.moves@,
                        j,
                    )
                &&& moves_settled(
                    moves@,
                    *plan,
                    *scale,
                    n as int,
                    pool,
                    out.moves@,
                    n as int,
                )
            },
            Err(error) => runs_refused(moves@, *plan, *scale, n as int, pool, error),
        },
{
    let mut out: Vec<MoveVelocity<D>> = Vec::new();
    let mut boundary_speeds: Vec<i64> = Vec::new();
    boundary_speeds.push(entry_v);
    let mut start: usize = 0;
    while start < n
        invariant
            start <= n <= moves@.len(),
            plan.v@.len() == plan.is_anchor@.len() == moves@.len() + 1,
            start < n ==> plan.is_anchor@[start as int],
            pool_answers(pool, n as int),
            out@.len() == start,
            boundary_speeds@.len() == start + 1,
            boundary_speeds@[0] == entry_v,
            forall|j: int|
                0 <= j < start ==> boundary_speeds@[j + 1] == (#[trigger] out@[j]).boundary,
            forall|j: int|
                0 <= j < start ==> #[trigger] move_settled(
                    moves@,
                    *plan,
                    *scale,
                    n as int,
                    pool,
                    out@,
                    j,
                ),
        decreases n - start,
    {
        let end: usize = run_end(&plan.is_anchor, n, start);
        let run = Run { start, end };
        let listing: Vec<(usize, Result<MemberProfile<D>, ReconstructError>)> = pool(&plan.v, start, end);
        let profiles: Vec<Result<MemberProfile<D>, ReconstructError>> = order_by_label(listing);
        assert(profiled(pool, &plan.v, run, profiles@));
        let ghost listed = profiles@;
        let settled: Vec<MoveVelocity<D>> = match settle_run(moves, plan, scale, run, profiles) {
            Ok(settled) => settled,
            Err(error) => {
                assert(moves_settled(moves@, *plan, *scale, n as int, pool, out@, start as int));
                return Err(error);
            },
        };
        let ghost before = out@;
        let ghost run_moves = settled@;
        let count: usize = settled.len();
        let mut i: usize = 0;
        while i < count
            invariant
                i <= count == settled@.len(),
                boundary_speeds@.len() == before.len() + i + 1,
                boundary_speeds@[0] == entry_v,
                forall|j: int|
                    0 <= j < before.len() ==> boundary_speeds@[j + 1] == (#[trigger] before[j]).boundary,
                forall|j: int|
                    0 <= j < i ==> boundary_speeds@[before.len() + j + 1] == (
                    #[trigger] settled@[j]).boundary,
            decreases count - i,
        {
            boundary_speeds.push(settled[i].boundary);
            i += 1;
        }
        let mut settled = settled;
        out.append(&mut settled);
        assert(out@ == before + run_moves);
        assert forall|j: int| 0 <= j < end implies #[trigger] move_settled(
            moves@,
            *plan,
            *scale,
            n as int,
            pool,
            out@,
            j,
        ) by {
            if j < start {
                assert(move_settled(moves@, *plan, *scale, n as int, pool, before, j));
                assert(out@[j] == before[j]);
            } else {
                assert(out@[j] == run_moves[j - start]);
                assert(listed[j - start] is Ok);
                assert(profiled(pool, &plan.v, run, listed));
            }
        }
        start = end;
    }
    Ok(Reconstruction { moves: out, boundary_speeds })
}

/// A boundary speed never lies above the seam speed it continues from, so the next
/// window can be entered at it.
pub proof fn law_boundary_keeps_to_the_seam<D>(
    out: MoveVelocity<D>,
    m: SeamMove,
    v: Seq<i64>,
    is_anchor: Seq<bool>,
    scale: SpeedScale,
    j: int,
    profile: MemberProfile<D>,
)
    requires
        carries(out, m, v, is_anchor, scale, j, profile),
        scale.rest <= v[j + 1],
    ensures
        out.boundary <= v[j + 1],
        is_anchor[j + 1] && v[j + 1] <= scale.rest_limit ==> out.boundary == scale.rest,
{
}

// ----- From moves to profiles

/// How many of the first `count` moves ride their curvature limit.
pub open spec fn ride_count<D>(moves: Seq<MoveVelocity<D>>, count: nat) -> nat
    decreases count,
{
    if count == 0 {
        0
    } else {
        ride_count(moves, (count - 1) as nat) + if moves[count - 1].limit_ride {
            1nat
        } else {
            0nat
        }
    }
}

fn count_rides<D>(moves: &Vec<MoveVelocity<D>>) -> (rides: u32)
    requires
        moves@.len() <= u32::MAX,
    ensures
        rides == ride_count(moves@, moves@.len()),
{
    let mut rides: u32 = 0;
    let mut i: usize = 0;
    while i < moves.len()
        invariant
            i <= moves@.len() <= u32::MAX,
            rides == ride_count(moves@, i as nat),
            rides <= i,
        decreases moves@.len() - i,
    {
        if moves[i].limit_ride {
            rides += 1;
        }
        i += 1;
    }
    rides
}

/// What a plan counted on the way.
#[derive(Debug, Clone, Copy, PartialEq, Eq, Structural)]
pub struct VelocityReport {
    pub stops: u32,
    pub curvature_bound: u32,
    pub feedrate_bound: u32,
    pub limit_ride: u32,
}

/// The velocity plan of a window.
#[derive(Debug)]
pub struct VelocityProfile<D> {
    pub moves: Vec<MoveVelocity<D>>,
    pub report: VelocityReport,
    /// The last seam that moves appended later cannot change.
    pub barrier: usize,
    pub v_barrier: i64,
    /// Continuation speed at each reconstructed move boundary.
    pub boundary_speeds: Vec<i64>,
}

/// `plan` with its barrier is what the sweeps make of a window whose moves have no jerk
/// limit and whose entry speed is admitted.
pub open spec fn window_planned<N, X, F, B>(
    moves: Seq<SeamMove>,
    stop_before: Seq<bool>,
    entry_v: i64,
    rest: i64,
    notch_free: N,
    exceeds: X,
    reach: F,
    reach_back: B,
    plan: SeamPlan,
    barrier: int,
) -> bool where
    N: Fn(i64, i64) -> i64,
    X: Fn(i64, i64) -> bool,
    F: Fn(usize, i64) -> Option<i64>,
    B: Fn(usize, i64) -> Option<i64>,
 {
    &&& crate::geometry::velocity::planned(
        moves,
        stop_before,
        entry_v,
        rest,
        notch_free,
        crate::geometry::velocity::answers(reach),
        crate::geometry::velocity::answers(reach_back),
        plan.v@,
        barrier,
    )
    &&& crate::geometry::velocity::anchored(stop_before, plan.is_anchor@)
    &&& crate::geometry::velocity::unlimited(moves, moves.len() as int)
    &&& crate::geometry::velocity::entry_admitted(moves[0], entry_v, exceeds, reach_back, plan.v@)
}

/// What a prefix selection answers, as a relation between the barrier and the count.
pub open spec fn picks<S: FnOnce(usize) -> usize>(select_prefix: S) -> spec_fn(
    usize,
    usize,
) -> bool {
    |barrier: usize, count: usize| call_ensures(select_prefix, (barrier,), count)
}

/// A selection picks `count` moves of a plan with this barrier.
pub open spec fn picked(
    selection: spec_fn(usize, usize) -> bool,
    barrier: usize,
    count: usize,
) -> bool {
    selection(barrier, count)
}

/// `profile` is the plan of a window, with the prefix that `selection` picks
/// reconstructed.
pub open spec fn profile_planned<D, N, X, F, B, P>(
    moves: Seq<SeamMove>,
    stop_before: Seq<bool>,
    entry_v: i64,
    scale: SpeedScale,
    notch_free: N,
    exceeds: X,
    reach: F,
    reach_back: B,
    selection: spec_fn(usize, usize) -> bool,
    pool: P,
    profile: VelocityProfile<D>,
) -> bool where
    N: Fn(i64, i64) -> i64,
    X: Fn(i64, i64) -> bool,
    F: Fn(usize, i64) -> Option<i64>,
    B: Fn(usize, i64) -> Option<i64>,
    P: Fn(&Vec<i64>, usize, usize) -> Vec<(usize, Result<MemberProfile<D>, ReconstructError>)>,
 {
    let n = profile.moves@.len();
    &&& forall|j: int| 0 <= j < moves.len() ==> !(#[trigger] moves[j].jerk is Finite)
    &&& profile.report.curvature_bound == crate::geometry::velocity::curvature_bound(
        moves,
        moves.len(),
    )
    &&& profile.report.curvature_bound + profile.report.feedrate_bound == moves.len()
    &&& profile.report.stops == crate::geometry::velocity::stop_count(stop_before, moves.len())
    &&& profile.report.limit_ride == ride_count(profile.moves@, n)
    &&& profile.boundary_speeds@.len() == n + 1
    &&& profile.boundary_speeds@[0] == entry_v
    &&& forall|j: int|
        0 <= j < n ==> profile.boundary_speeds@[j + 1] == (#[trigger] profile.moves@[j]).boundary
    &&& moves.len() == 0 ==> {
        &&& n == 0
        &&& profile.barrier == 0
        &&& profile.v_barrier == scale.rest
    }
    &&& moves.len() > 0 ==> {
        &&& n <= moves.len()
        &&& picked(selection, profile.barrier, n as usize)
        &&& exists|plan: SeamPlan|
            {
                &&& #[trigger] window_planned(
                    moves,
                    stop_before,
                    entry_v,
                    scale.rest,
                    notch_free,
                    exceeds,
                    reach,
                    reach_back,
                    plan,
                    profile.barrier as int,
                )
                &&& profile.v_barrier == plan.v@[profile.barrier as int]
                &&& moves_settled(moves, plan, scale, n as int, pool, profile.moves@, n as int)
            }
    }
}

/// A window is refused with `error`: the first move with a finite jerk limit speaks; or
/// the seams cannot be planned; or a run of the picked prefix has no profile.
pub open spec fn profile_refused<D, N, X, F, B, P>(
    moves: Seq<SeamMove>,
    stop_before: Seq<bool>,
    entry_v: i64,
    scale: SpeedScale,
    notch_free: N,
    exceeds: X,
    reach: F,
    reach_back: B,
    selection: spec_fn(usize, usize) -> bool,
    pool: P,
    error: VelocityError,
) -> bool where
    N: Fn(i64, i64) -> i64,
    X: Fn(i64, i64) -> bool,
    F: Fn(usize, i64) -> Option<i64>,
    B: Fn(usize, i64) -> Option<i64>,
    P: Fn(&Vec<i64>, usize, usize) -> Vec<(usize, Result<MemberProfile<D>, ReconstructError>)>,
 {
    match error {
        VelocityError::FiniteJerkUnsupported { line_no, jerk } => exists|j: int|
            {
                &&& 0 <= j < moves.len()
                &&& (#[trigger] moves[j]).jerk == crate::geometry::velocity::JerkLimit::Finite(jerk)
                &&& line_no == moves[j].line_no
                &&& forall|i: int| 0 <= i < j ==> !(#[trigger] moves[i].jerk is Finite)
            },
        _ => {
            &&& moves.len() > 0
            &&& forall|j: int| 0 <= j < moves.len() ==> !(#[trigger] moves[j].jerk is Finite)
            &&& {
                ||| crate::geometry::velocity::seams_refused(
                    moves,
                    stop_before,
                    entry_v,
                    scale.rest,
                    notch_free,
                    exceeds,
                    reach,
                    reach_back,
                    error,
                )
                ||| exists|plan: SeamPlan, barrier: usize, count: usize|
                    {
                        &&& #[trigger] window_planned(
                            moves,
                            stop_before,
                            entry_v,
                            scale.rest,
                            notch_free,
                            exceeds,
                            reach,
                            reach_back,
                            plan,
                            barrier as int,
                        )
                        &&& #[trigger] picked(selection, barrier, count)
                        &&& runs_refused(moves, plan, scale, count as int, pool, error)
                    }
            }
        },
    }
}

/// Plans a window and reconstructs the prefix that `select_prefix` picks once it knows
/// the barrier. `stop_before[k]` forces rest at the seam entering `moves[k]`;
/// `stop_before[0]` is ignored. The other functions are those of
/// [`plan_seams`](crate::geometry::velocity::plan_seams) and [`reconstruct_runs`].
pub fn plan_velocity_stops_select_prefix<D, N, X, F, B, S, P>(
    moves: &Vec<SeamMove>,
    stop_before: &Vec<bool>,
    entry_v: i64,
    scale: &SpeedScale,
    notch_free: N,
    exceeds: X,
    reach: F,
    reach_back: B,
    select_prefix: S,
    pool: P,
) -> (result: Result<VelocityProfile<D>, VelocityError>) where
    N: Fn(i64, i64) -> i64,
    X: Fn(i64, i64) -> bool,
    F: Fn(usize, i64) -> Option<i64>,
    B: Fn(usize, i64) -> Option<i64>,
    S: FnOnce(usize) -> usize,
    P: Fn(&Vec<i64>, usize, usize) -> Vec<(usize, Result<MemberProfile<D>, ReconstructError>)>,

    requires
        moves@.len() <= u32::MAX,
        stop_before@.len() == moves@.len(),
        forall|a: i64, b: i64| call_requires(notch_free, (a, b)),
        forall|a: i64, b: i64| call_requires(exceeds, (a, b)),
        forall|j: usize, x: i64| j < moves@.len() ==> call_requires(reach, (j, x)),
        forall|j: usize, x: i64| j < moves@.len() ==> call_requires(reach_back, (j, x)),
        forall|barrier: usize| call_requires(select_prefix, (barrier,)),
        forall|barrier: usize, count: usize|
            call_ensures(select_prefix, (barrier,), count) ==> count <= moves@.len(),
        pool_answers(pool, moves@.len() as int),
    ensures
        match result {
            Ok(profile) => profile_planned(
                moves@,
                stop_before@,
                entry_v,
                *scale,
                notch_free,
                exceeds,
                reach,
                reach_back,
                picks(select_prefix),
                pool,
                profile,
            ),
            Err(error) => profile_refused(
                moves@,
                stop_before@,
                entry_v,
                *scale,
                notch_free,
                exceeds,
                reach,
                reach_back,
                picks(select_prefix),
                pool,
                error,
            ),
        },
{
    match check_jerk(moves) {
        Ok(()) => {},
        Err(error) => {
            return Err(error);
        },
    }
    let n: usize = moves.len();
    if n == 0 {
        let mut boundary_speeds: Vec<i64> = Vec::new();
        boundary_speeds.push(entry_v);
        return Ok(
            VelocityProfile {
                moves: Vec::new(),
                report: VelocityReport {
                    stops: 0,
                    curvature_bound: 0,
                    feedrate_bound: 0,
                    limit_ride: 0,
                },
                barrier: 0,
                v_barrier: scale.rest,
                boundary_speeds,
            },
        );
    }
    let bounds: (u32, u32) = count_bounds(moves);
    let (plan, barrier) = match plan_seams(
        moves,
        stop_before,
        entry_v,
        scale.rest,
        notch_free,
        exceeds,
        reach,
        reach_back,
    ) {
        Ok(planned) => planned,
        Err(error) => {
            return Err(error);
        },
    };
    assert(window_planned(
        moves@,
        stop_before@,
        entry_v,
        scale.rest,
        notch_free,
        exceeds,
        reach,
        reach_back,
        plan,
        barrier as int,
    ));
    let v_barrier: i64 = plan.v[barrier];
    let count: usize = select_prefix(barrier);
    assert(picked(picks(select_prefix), barrier, count));
    let out = match reconstruct_runs(moves, &plan, scale, entry_v, count, pool) {
        Ok(out) => out,
        Err(error) => {
            return Err(error);
        },
    };
    assert(out.moves@.len() as usize == count);
    let limit_ride: u32 = count_rides(&out.moves);
    let profile = VelocityProfile {
        moves: out.moves,
        report: VelocityReport {
            stops: plan.stops,
            curvature_bound: bounds.0,
            feedrate_bound: bounds.1,
            limit_ride,
        },
        barrier,
        v_barrier,
        boundary_speeds: out.boundary_speeds,
    };
    assert(picked(picks(select_prefix), profile.barrier, profile.moves@.len() as usize));
    assert(moves_settled(
        moves@,
        plan,
        *scale,
        count as int,
        pool,
        profile.moves@,
        count as int,
    ));
    assert(profile.v_barrier == plan.v@[profile.barrier as int]);
    assert(window_planned(
        moves@,
        stop_before@,
        entry_v,
        scale.rest,
        notch_free,
        exceeds,
        reach,
        reach_back,
        plan,
        profile.barrier as int,
    ));
    Ok(profile)
}

/// A run ends at the first anchor after its start, or at the end of the prefix.
pub proof fn law_run_ends_at_the_next_anchor(
    is_anchor: Vec<bool>,
    n: usize,
    start: usize,
    end: usize,
)
    requires
        start < n <= is_anchor@.len(),
        call_ensures(run_end, (&is_anchor, n, start), end),
    ensures
        start < end <= n,
        end < n ==> is_anchor@[end as int],
        forall|k: int| start < k < end ==> !#[trigger] is_anchor@[k],
{
}

/// A run is profiled by as many workers as there are cores and members, four at most.
pub proof fn law_workers_are_bounded(cores: usize, members: usize, workers: usize)
    requires
        call_ensures(worker_count, (cores, members), workers),
    ensures
        workers <= 4,
        workers <= cores,
        workers <= members,
        workers == 4 || workers == cores || workers == members,
{
}

/// Every profile comes to stand at its member's place.
pub proof fn law_profiles_stand_at_their_members<T>(
    listing: Vec<(usize, T)>,
    ordered: Vec<T>,
    i: int,
)
    requires
        labelled(listing@),
        call_ensures(order_by_label::<T>, (listing,), ordered),
        0 <= i < listing@.len(),
    ensures
        ordered@.len() == listing@.len(),
        ordered@[listing@[i].0 as int] == listing@[i].1,
{
}

/// Only the ends of a profile are pinned: the last sample to the exit, the first to the
/// entry where it is another one. What lies between keeps its speed.
pub proof fn law_only_the_ends_are_pinned(speeds: Seq<i64>, entry_v: i64, exit_v: i64, i: int)
    ensures
        pinned(speeds, entry_v, exit_v).len() == speeds.len(),
        speeds.len() > 0 ==> pinned(speeds, entry_v, exit_v)[speeds.len() - 1] == exit_v,
        speeds.len() > 1 ==> pinned(speeds, entry_v, exit_v)[0] == entry_v,
        0 < i < speeds.len() - 1 ==> pinned(speeds, entry_v, exit_v)[i] == speeds[i],
{
}

/// The first sample below the floor is found, and only where there is one.
pub proof fn law_first_sample_below_the_floor_is_found(
    speeds: Vec<i64>,
    floor: i64,
    found: Option<i64>,
    i: int,
)
    requires
        call_ensures(first_negative_velocity, (&speeds, floor), found),
    ensures
        found is None <==> forall|k: int| 0 <= k < speeds@.len() ==> floor <= #[trigger] speeds@[k],
        0 <= i < speeds@.len() && speeds@[i] < floor && (forall|k: int|
            0 <= k < i ==> floor <= #[trigger] speeds@[k]) ==> found == Some(speeds@[i]),
{
    if let Some(v) = found {
        let at = choose|at: int|
            {
                &&& 0 <= at < speeds@.len()
                &&& #[trigger] speeds@[at] == v
                &&& v < floor
                &&& none_negative(speeds@.take(at), floor)
            };
        assert(speeds@[at] < floor);
        if 0 <= i < at {
            assert(floor <= speeds@.take(at)[i]);
        }
    }
}

/// A settled move enters and leaves at its seams' speeds, keeps every sample between them,
/// and peaks at its fastest sample. It rests at an end exactly where that seam is an anchor
/// the plan stands still at; then the next move starts from rest, and else at the slower of
/// its own end and the seam. It rides its limit exactly where its peak lies above one.
pub proof fn law_settled_move_meets_its_seams<D>(
    out: MoveVelocity<D>,
    m: SeamMove,
    v: Seq<i64>,
    is_anchor: Seq<bool>,
    scale: SpeedScale,
    j: int,
    profile: MemberProfile<D>,
    i: int,
)
    requires
        carries(out, m, v, is_anchor, scale, j, profile),
    ensures
        out.exit_v == v[j + 1],
        profile.speeds@.len() != 1 ==> out.entry_v == v[j],
        out.speeds@.len() == profile.speeds@.len(),
        profile.speeds@.len() > 0 ==> out.speeds@[out.speeds@.len() - 1] == v[j + 1],
        profile.speeds@.len() > 1 ==> out.speeds@[0] == v[j],
        0 < i < profile.speeds@.len() - 1 ==> out.speeds@[i] == profile.speeds@[i],
        0 <= i < out.speeds@.len() ==> scale.floor <= out.speeds@[i] <= out.peak_v,
        out.peak_v == scale.rest || out.speeds@.contains(out.peak_v),
        out.peak_v >= scale.rest,
        out.rest_at_start <==> is_anchor[j] && v[j] <= scale.rest_limit,
        out.rest_at_end <==> is_anchor[j + 1] && v[j + 1] <= scale.rest_limit,
        out.rest_at_end ==> out.boundary == scale.rest,
        !out.rest_at_end ==> out.boundary <= profile.end_speed && out.boundary <= v[j + 1] && (
        out.boundary == profile.end_speed || out.boundary == v[j + 1]),
        out.limit_ride <==> m.ride_limit is Some && out.peak_v > m.ride_limit->0,
        out.detail == profile.detail,
{
}

/// A run is settled exactly where every member has a profile and no pinned sample lies
/// below the floor. The first member without a profile speaks first, at the line where the
/// run starts.
pub proof fn law_run_is_settled_where_every_member_is<D>(
    moves: Vec<SeamMove>,
    plan: SeamPlan,
    scale: SpeedScale,
    run: Run,
    profiles: Vec<Result<MemberProfile<D>, ReconstructError>>,
    result: Result<Vec<MoveVelocity<D>>, VelocityError>,
    i: int,
)
    requires
        run.start < run.end <= moves@.len(),
        profiles@.len() == run.end - run.start,
        run.end < plan.v@.len() == plan.is_anchor@.len(),
        call_ensures(settle_run::<D>, (&moves, &plan, &scale, run, profiles), result),
    ensures
        result is Ok <==> (forall|k: int|
            0 <= k < profiles@.len() ==> (#[trigger] profiles@[k]) is Ok && none_negative(
                pinned(
                    profiles@[k]->Ok_0.speeds@,
                    plan.v@[run.start + k],
                    plan.v@[run.start + k + 1],
                ),
                scale.floor,
            )),
        result is Ok ==> result->Ok_0@.len() == profiles@.len(),
        0 <= i < profiles@.len() && profiles@[i] is Err && (forall|k: int|
            0 <= k < i ==> (#[trigger] profiles@[k]) is Ok) ==> result is Err && match profiles@[i]->Err_0 {
            ReconstructError::Diverged => result->Err_0 == (VelocityError::Diverged {
                line_no: moves@[run.start as int].line_no,
            }),
            ReconstructError::Infeasible { member, entry_v, exit_v } => result->Err_0 == (
            VelocityError::Infeasible {
                line_no: moves@[run.start as int].line_no,
                member,
                entry_v,
                exit_v,
            }),
        },
{
    let listed = profiles@;
    if let Ok(out) = result {
        assert forall|k: int| 0 <= k < listed.len() implies (#[trigger] listed[k]) is Ok
            && none_negative(
            pinned(listed[k]->Ok_0.speeds@, plan.v@[run.start + k], plan.v@[run.start + k + 1]),
            scale.floor,
        ) by {
            let settled = out@[k];
        }
    } else {
        let error = result->Err_0;
        assert(run_refused(moves@, plan.v@, scale, run, listed, error));
        if forall|k: int|
            0 <= k < listed.len() ==> (#[trigger] listed[k]) is Ok && none_negative(
                pinned(
                    listed[k]->Ok_0.speeds@,
                    plan.v@[run.start + k],
                    plan.v@[run.start + k + 1],
                ),
                scale.floor,
            ) {
            let (k, sample) = choose|k: int, sample: i64|
                0 <= k < listed.len() && #[trigger] is_first_negative(
                    member_speeds(listed, plan.v@, run, k),
                    scale.floor,
                    sample,
                );
            assert(listed[k] is Ok);
            assert(false);
        }
    }
}

/// Neighbouring moves of a settled prefix meet at the seam between them.
pub proof fn law_neighbouring_moves_meet<D, F: Fn(&Vec<i64>, usize, usize) -> Vec<(usize, Result<MemberProfile<D>, ReconstructError>)>>(
    moves: Seq<SeamMove>,
    plan: SeamPlan,
    scale: SpeedScale,
    n: int,
    pool: F,
    out: Seq<MoveVelocity<D>>,
    j: int,
)
    requires
        moves_settled(moves, plan, scale, n, pool, out, n),
        0 <= j < n - 1,
        out[j + 1].speeds@.len() != 1,
    ensures
        out[j].exit_v == out[j + 1].entry_v,
        out[j].exit_v == plan.v@[j + 1],
        out[j].rest_at_end == out[j + 1].rest_at_start,
{
    assert(move_settled(moves, plan, scale, n, pool, out, j));
    assert(move_settled(moves, plan, scale, n, pool, out, j + 1));
}

/// The rides of a prefix are its moves above their limit, each counted once.
pub proof fn law_rides_are_counted_once<D>(moves: Seq<MoveVelocity<D>>, count: nat)
    requires
        count <= moves.len(),
    ensures
        ride_count(moves, count) == moves.take(count as int).filter(
            |m: MoveVelocity<D>| m.limit_ride,
        ).len(),
    decreases count,
{
    let rides = |m: MoveVelocity<D>| m.limit_ride;
    if count > 0 {
        law_rides_are_counted_once(moves, (count - 1) as nat);
        assert(moves.take(count as int) =~= moves.take(count - 1).push(moves[count - 1]));
        moves.take(count - 1).lemma_filter_push(moves[count - 1], rides);
    } else {
        broadcast use Seq::lemma_filter_len;

        assert(moves.take(0).filter(rides).len() <= moves.take(0).len());
    }
}

/// A profile tells of its own window: its rides, a bound for every move, and the speed at
/// each boundary from the entry on. Without moves there is nothing to brake for.
pub proof fn law_profile_tells_of_its_window<D, N, X, F, B, P>(
    moves: Seq<SeamMove>,
    stop_before: Seq<bool>,
    entry_v: i64,
    scale: SpeedScale,
    notch_free: N,
    exceeds: X,
    reach: F,
    reach_back: B,
    selection: spec_fn(usize, usize) -> bool,
    pool: P,
    profile: VelocityProfile<D>,
    j: int,
) where
    N: Fn(i64, i64) -> i64,
    X: Fn(i64, i64) -> bool,
    F: Fn(usize, i64) -> Option<i64>,
    B: Fn(usize, i64) -> Option<i64>,
    P: Fn(&Vec<i64>, usize, usize) -> Vec<(usize, Result<MemberProfile<D>, ReconstructError>)>,

    requires
        profile_planned(
            moves,
            stop_before,
            entry_v,
            scale,
            notch_free,
            exceeds,
            reach,
            reach_back,
            selection,
            pool,
            profile,
        ),
    ensures
        profile.report.limit_ride == profile.moves@.filter(
            |m: MoveVelocity<D>| m.limit_ride,
        ).len(),
        profile.report.curvature_bound + profile.report.feedrate_bound == moves.len(),
        profile.moves@.len() <= moves.len(),
        profile.boundary_speeds@.len() == profile.moves@.len() + 1,
        profile.boundary_speeds@[0] == entry_v,
        0 <= j < profile.moves@.len() ==> profile.boundary_speeds@[j + 1]
            == profile.moves@[j].boundary,
        moves.len() == 0 ==> profile.barrier == 0 && profile.v_barrier == scale.rest,
        moves.len() > 0 ==> selection(profile.barrier, profile.moves@.len() as usize),
{
    let n = profile.moves@.len();
    law_rides_are_counted_once(profile.moves@, n);
    assert(profile.moves@.take(n as int) =~= profile.moves@);
    if 0 <= j < n {
        let own = profile.moves@[j];
    }
}

/// A finite jerk limit refuses a window before anything else, and the first one speaks.
pub proof fn law_first_finite_jerk_refuses_the_window<D, N, X, F, B, P>(
    moves: Seq<SeamMove>,
    stop_before: Seq<bool>,
    entry_v: i64,
    scale: SpeedScale,
    notch_free: N,
    exceeds: X,
    reach: F,
    reach_back: B,
    selection: spec_fn(usize, usize) -> bool,
    pool: P,
    profile: VelocityProfile<D>,
    error: VelocityError,
    j: int,
) where
    N: Fn(i64, i64) -> i64,
    X: Fn(i64, i64) -> bool,
    F: Fn(usize, i64) -> Option<i64>,
    B: Fn(usize, i64) -> Option<i64>,
    P: Fn(&Vec<i64>, usize, usize) -> Vec<(usize, Result<MemberProfile<D>, ReconstructError>)>,

    requires
        0 <= j < moves.len(),
        moves[j].jerk is Finite,
        forall|i: int| 0 <= i < j ==> !(#[trigger] moves[i].jerk is Finite),
    ensures
        !profile_planned(
            moves,
            stop_before,
            entry_v,
            scale,
            notch_free,
            exceeds,
            reach,
            reach_back,
            selection,
            pool,
            profile,
        ),
        profile_refused::<D, N, X, F, B, P>(
            moves,
            stop_before,
            entry_v,
            scale,
            notch_free,
            exceeds,
            reach,
            reach_back,
            selection,
            pool,
            error,
        ) ==> error is FiniteJerkUnsupported && error->FiniteJerkUnsupported_line_no
            == moves[j].line_no && error->jerk == moves[j].jerk->Finite_0,
{
    if profile_refused::<D, N, X, F, B, P>(
        moves,
        stop_before,
        entry_v,
        scale,
        notch_free,
        exceeds,
        reach,
        reach_back,
        selection,
        pool,
        error,
    ) {
        if let VelocityError::FiniteJerkUnsupported { line_no, jerk } = error {
            let at = choose|at: int|
                {
                    &&& 0 <= at < moves.len()
                    &&& (#[trigger] moves[at]).jerk == crate::geometry::velocity::JerkLimit::Finite(
                        jerk,
                    )
                    &&& line_no == moves[at].line_no
                    &&& forall|i: int| 0 <= i < at ==> !(#[trigger] moves[i].jerk is Finite)
                };
            assert(moves[at].jerk is Finite);
            assert(at == j);
        }
    }
}

/// What is reconstructed of a window is driven as the window allows: every move but the last
/// is left no faster than it and the next one allow at their corner; a stop is left at rest
/// where the plan stands still; the first move is entered at the entry speed; and the barrier
/// is told with the speed at which its seam is crossed.
pub proof fn law_reconstructed_moves_keep_to_the_window<D, N, X, F, B, S, P>(
    moves: &Vec<SeamMove>,
    stop_before: &Vec<bool>,
    entry_v: i64,
    scale: &SpeedScale,
    notch_free: N,
    exceeds: X,
    reach: F,
    reach_back: B,
    select_prefix: S,
    pool: P,
    profile: VelocityProfile<D>,
    j: int,
) where
    N: Fn(i64, i64) -> i64,
    X: Fn(i64, i64) -> bool,
    F: Fn(usize, i64) -> Option<i64>,
    B: Fn(usize, i64) -> Option<i64>,
    S: FnOnce(usize) -> usize,
    P: Fn(&Vec<i64>, usize, usize) -> Vec<(usize, Result<MemberProfile<D>, ReconstructError>)>,

    requires
        0 < moves@.len() == stop_before@.len(),
        call_ensures(
            plan_velocity_stops_select_prefix::<D, N, X, F, B, S, P>,
            (
                moves,
                stop_before,
                entry_v,
                scale,
                notch_free,
                exceeds,
                reach,
                reach_back,
                select_prefix,
                pool,
            ),
            Ok::<VelocityProfile<D>, VelocityError>(profile),
        ),
        0 <= j < profile.moves@.len(),
    ensures
        profile.moves@.len() <= moves@.len(),
        call_ensures(select_prefix, (profile.barrier,), profile.moves@.len() as usize),
        j + 1 < moves@.len() && !stop_before@[j + 1] ==> profile.moves@[j].exit_v
            <= moves@[j].flat_ceiling && profile.moves@[j].exit_v <= moves@[j + 1].flat_ceiling,
        j + 1 < moves@.len() && !stop_before@[j + 1]
            && crate::geometry::velocity::only_lowers(notch_free) ==> profile.moves@[j].exit_v
            <= moves@[j].exit_limit && profile.moves@[j].exit_v <= moves@[j + 1].entry_limit,
        j + 1 == moves@.len() || stop_before@[j + 1] ==> profile.moves@[j].exit_v <= scale.rest,
        profile.moves@[j].rest_at_end <==> (j + 1 == moves@.len() || stop_before@[j + 1])
            && profile.moves@[j].exit_v <= scale.rest_limit,
        profile.moves@[j].rest_at_end ==> profile.moves@[j].boundary == scale.rest,
        profile.moves@[j].boundary <= profile.moves@[j].exit_v || profile.moves@[j].rest_at_end,
        profile.boundary_speeds@[j + 1] == profile.moves@[j].boundary,
        profile.moves@[0].speeds@.len() != 1 ==> profile.moves@[0].entry_v == entry_v,
        0 < profile.barrier <= profile.moves@.len() ==> profile.v_barrier
            == profile.moves@[profile.barrier - 1].exit_v,
        profile.barrier == 0 ==> profile.v_barrier == entry_v,
        profile.report.stops == crate::geometry::velocity::stops_within(
            stop_before@,
            moves@.len() as int,
        ).len(),
        profile.report.curvature_bound == crate::geometry::velocity::curved_within(
            moves@,
            moves@.len() as int,
        ).len(),
{
    crate::geometry::velocity::law_every_stop_is_counted(stop_before@, moves@.len());
    crate::geometry::velocity::law_every_curved_move_is_counted(moves@, moves@.len());
    let n = profile.moves@.len();
    let plan = choose|plan: SeamPlan|
        {
            &&& #[trigger] window_planned(
                moves@,
                stop_before@,
                entry_v,
                scale.rest,
                notch_free,
                exceeds,
                reach,
                reach_back,
                plan,
                profile.barrier as int,
            )
            &&& profile.v_barrier == plan.v@[profile.barrier as int]
            &&& moves_settled(moves@, plan, *scale, n as int, pool, profile.moves@, n as int)
        };
    assert(move_settled(moves@, plan, *scale, n as int, pool, profile.moves@, j));
    assert(move_settled(moves@, plan, *scale, n as int, pool, profile.moves@, 0));
    assert(profile.boundary_speeds@[j + 1] == profile.moves@[j].boundary);
    assert(picked(picks(select_prefix), profile.barrier, n as usize));
    crate::geometry::velocity::law_anchors_are_the_ends_and_the_stops(
        moves@,
        stop_before@,
        entry_v,
        scale.rest,
        notch_free,
        reach,
        reach_back,
        plan.v@,
        plan.is_anchor@,
        profile.barrier as int,
        j + 1,
    );
    if j + 1 < moves@.len() && !stop_before@[j + 1] {
        crate::geometry::velocity::law_corner_keeps_to_both_moves(
            moves@,
            stop_before@,
            entry_v,
            scale.rest,
            notch_free,
            reach,
            reach_back,
            plan.v@,
            profile.barrier as int,
            j + 1,
        );
    }
    if 0 < profile.barrier <= n {
        assert(move_settled(
            moves@,
            plan,
            *scale,
            n as int,
            pool,
            profile.moves@,
            profile.barrier - 1,
        ));
    }
}

/// Reconstruction gives one move for each of the prefix, leaving at the seam behind it, with
/// the entry speed ahead of their boundaries.
pub proof fn law_reconstruction_leaves_at_the_seams<D, F>(
    moves: &Vec<SeamMove>,
    plan: &SeamPlan,
    scale: &SpeedScale,
    entry_v: i64,
    n: usize,
    pool: F,
    out: Reconstruction<D>,
    j: int,
) where F: Fn(&Vec<i64>, usize, usize) -> Vec<(usize, Result<MemberProfile<D>, ReconstructError>)>
    requires
        call_ensures(
            reconstruct_runs::<D, F>,
            (moves, plan, scale, entry_v, n, pool),
            Ok::<Reconstruction<D>, VelocityError>(out),
        ),
        0 <= j < n,
    ensures
        out.moves@.len() == n,
        out.boundary_speeds@.len() == n + 1,
        out.boundary_speeds@[0] == entry_v,
        out.boundary_speeds@[j + 1] == out.moves@[j].boundary,
        out.moves@[j].exit_v == plan.v@[j + 1],
        out.moves@[j].speeds@.len() != 1 ==> out.moves@[j].entry_v == plan.v@[j],
        out.moves@[j].rest_at_end <==> plan.is_anchor@[j + 1] && plan.v@[j + 1]
            <= scale.rest_limit,
        out.moves@[j].rest_at_start <==> plan.is_anchor@[j] && plan.v@[j] <= scale.rest_limit,
{
    assert(out.moves@.len() == n);
    assert(out.boundary_speeds@[j + 1] == out.moves@[j].boundary);
    assert(moves_settled(moves@, *plan, *scale, n as int, pool, out.moves@, n as int));
    assert(move_settled(moves@, *plan, *scale, n as int, pool, out.moves@, j));
}

} // verus!
