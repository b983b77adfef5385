//! The velocity plan over a window of moves.
//!
//! A seam is a boundary between two moves; seam `k` enters move `k`. Speeds are seeded
//! from the ceilings on both sides of each seam, held to what can be reached from the
//! entry going forward, then to what can still brake into the terminal rest going
//! backward. The highest seam that the backward sweep did not lower is the barrier:
//! moves appended later cannot change a seam at or before it.

use vstd::prelude::*;

verus! {

/// What a move allows at its jerk limit.
#[derive(Debug, Clone, Copy, PartialEq, Eq, Structural)]
pub enum JerkLimit {
    /// Positive infinity.
    Unlimited,
    /// A finite limit, as its order key.
    Finite(i64),
    /// Neither finite nor positive infinity.
    Unusable,
}

/// What the plan reads of one move.
#[derive(Debug, Clone, Copy, PartialEq, Eq, Structural)]
pub struct SeamMove {
    pub line_no: u32,
    pub jerk: JerkLimit,
    /// The lower of the feedrate and the machine's speed limits.
    pub flat_ceiling: i64,
    /// The speed that the curvature allows where it is highest.
    pub peak_limit: i64,
    /// The speed that the curvature allows where the move starts.
    pub entry_limit: i64,
    /// The speed that the curvature allows where the move ends.
    pub exit_limit: i64,
    /// The speed above which a curved move rides its curvature limit.
    pub ride_limit: Option<i64>,
}

#[derive(Debug, Clone, Copy, PartialEq, Eq, Structural)]
pub enum VelocityError {
    FiniteJerkUnsupported { line_no: u32, jerk: i64 },
    Inconsistent { line_no: u32 },
    NonAlphabet { line_no: u32 },
    NonFinite { line_no: u32 },
    Diverged { line_no: u32 },
    OverCommitted { line_no: u32 },
    NegativeVelocity { line_no: u32, v: i64 },
    /// The seam plan handed a member an entry/exit pair its own exact disk
    /// reach cannot connect.
    Infeasible { line_no: u32, member: usize, entry_v: i64, exit_v: i64 },
    InvalidConfig,
}

/// The order keys of the speeds that the plan compares with.
#[derive(Debug, Clone, Copy, PartialEq, Eq, Structural)]
pub struct SpeedScale {
    /// Standing still.
    pub rest: i64,
    /// The highest speed that counts as standing still at an anchor.
    pub rest_limit: i64,
    /// The lowest sample that does not count as negative.
    pub floor: i64,
}

/// The lower of two keys.
pub open spec fn lower(a: i64, b: i64) -> i64 {
    if a <= b {
        a
    } else {
        b
    }
}

fn lower_of(a: i64, b: i64) -> (least: i64)
    ensures
        least == lower(a, b),
{
    if a <= b {
        a
    } else {
        b
    }
}

// ----- Moves that cannot be planned, and what bounds the others

/// Refuses the first move with a finite jerk limit.
pub fn check_jerk(moves: &Vec<SeamMove>) -> (result: Result<(), VelocityError>)
    ensures
        match result {
            Ok(()) => forall|j: int| 0 <= j < moves@.len() ==> !(#[trigger] moves@[j].jerk is Finite),
            Err(error) => exists|j: int|
                {
                    &&& 0 <= j < moves@.len()
                    &&& (#[trigger] moves@[j]).jerk matches JerkLimit::Finite(jerk)
                    &&& error == VelocityError::FiniteJerkUnsupported {
                        line_no: moves@[j].line_no,
                        jerk,
                    }
                    &&& forall|i: int| 0 <= i < j ==> !(#[trigger] moves@[i].jerk is Finite)
                },
        },
{
    let mut j: usize = 0;
    while j < moves.len()
        invariant
            j <= moves@.len(),
            forall|i: int| 0 <= i < j ==> !(#[trigger] moves@[i].jerk is Finite),
        decreases moves@.len() - j,
    {
        if let JerkLimit::Finite(jerk) = moves[j].jerk {
            assert(moves@[j as int].jerk is Finite);
            return Err(
                VelocityError::FiniteJerkUnsupported { line_no: moves[j].line_no, jerk },
            );
        }
        j += 1;
    }
    Ok(())
}

/// How many of the first `count` moves are bound by their curvature.
pub open spec fn curvature_bound(moves: Seq<SeamMove>, count: nat) -> nat
    decreases count,
{
    if count == 0 {
        0
    } else {
        let m = moves[count - 1];
        curvature_bound(moves, (count - 1) as nat) + if m.peak_limit < m.flat_ceiling {
            1nat
        } else {
            0nat
        }
    }
}

/// How many moves are bound by their curvature, and how many by their feedrate.
pub fn count_bounds(moves: &Vec<SeamMove>) -> (counts: (u32, u32))
    requires
        moves@.len() <= u32::MAX,
    ensures
        counts.0 == curvature_bound(moves@, moves@.len()),
        counts.0 + counts.1 == moves@.len(),
{
    let mut curved: u32 = 0;
    let mut flat: u32 = 0;
    let mut j: usize = 0;
    while j < moves.len()
        invariant
            j <= moves@.len() <= u32::MAX,
            curved == curvature_bound(moves@, j as nat),
            curved + flat == j,
        decreases moves@.len() - j,
    {
        if moves[j].peak_limit < moves[j].flat_ceiling {
            curved += 1;
        } else {
            flat += 1;
        }
        j += 1;
    }
    (curved, flat)
}

// ----- Seam speeds

/// The lower flat ceiling of the two moves that meet at seam `k`.
pub open spec fn seam_ceiling(moves: Seq<SeamMove>, k: int) -> i64 {
    lower(moves[k - 1].flat_ceiling, moves[k].flat_ceiling)
}

/// The lower curvature limit of the two moves that meet at seam `k`.
pub open spec fn seam_limit(moves: Seq<SeamMove>, k: int) -> i64 {
    lower(moves[k - 1].exit_limit, moves[k].entry_limit)
}

/// The call gives `out` for the two speeds.
pub open spec fn combines<F: Fn(i64, i64) -> i64>(f: F, a: i64, b: i64, out: i64) -> bool {
    call_ensures(f, (a, b), out)
}

/// `v` seeds the seams of a window: the entry speed, rest at every stop and at the end,
/// and elsewhere the seam's ceiling lowered by `notch_free`.
pub open spec fn seeded<F: Fn(i64, i64) -> i64>(
    moves: Seq<SeamMove>,
    stop_before: Seq<bool>,
    entry_v: i64,
    rest: i64,
    notch_free: F,
    v: Seq<i64>,
) -> bool {
    &&& v.len() == moves.len() + 1
    &&& v[0] == entry_v
    &&& v[moves.len() as int] == rest
    &&& forall|k: int| 0 < k < moves.len() ==> #[trigger] seam_seeded(
        moves,
        stop_before,
        rest,
        notch_free,
        v,
        k,
    )
}

/// Seam `k` inside the window holds the speed it is seeded with.
pub open spec fn seam_seeded<F: Fn(i64, i64) -> i64>(
    moves: Seq<SeamMove>,
    stop_before: Seq<bool>,
    rest: i64,
    notch_free: F,
    v: Seq<i64>,
    k: int,
) -> bool {
    if stop_before[k] {
        v[k] == rest
    } else {
        exists|r: i64|
            {
                &&& #[trigger] combines(notch_free, seam_ceiling(moves, k), seam_limit(moves, k), r)
                &&& v[k] == lower(seam_ceiling(moves, k), r)
            }
    }
}

/// Which seams of a window are anchors: its entry, its end and every stop.
pub open spec fn anchored(stop_before: Seq<bool>, is_anchor: Seq<bool>) -> bool {
    let n = stop_before.len() as int;
    &&& is_anchor.len() == n + 1
    &&& is_anchor[0] && is_anchor[n]
    &&& forall|k: int| 0 < k < n ==> #[trigger] is_anchor[k] == stop_before[k]
}

/// How many of the seams `1..count` are stops.
pub open spec fn stop_count(stop_before: Seq<bool>, count: nat) -> nat
    decreases count,
{
    if count <= 1 {
        0
    } else {
        stop_count(stop_before, (count - 1) as nat) + if stop_before[count - 1] {
            1nat
        } else {
            0nat
        }
    }
}

/// The seam speeds and anchors of a window.
#[derive(Debug)]
pub struct SeamPlan {
    pub v: Vec<i64>,
    pub is_anchor: Vec<bool>,
    pub stops: u32,
}

/// Seeds the seams of a window. `stop_before[0]` is ignored: the entry seam is anchored
/// at `entry_v`.
pub fn seed_seam_velocities<F: Fn(i64, i64) -> i64>(
    moves: &Vec<SeamMove>,
    stop_before: &Vec<bool>,
    entry_v: i64,
    rest: i64,
    notch_free: F,
) -> (plan: SeamPlan)
    requires
        0 < moves@.len() <= u32::MAX,
        stop_before@.len() == moves@.len(),
        forall|a: i64, b: i64| call_requires(notch_free, (a, b)),
    ensures
        seeded(moves@, stop_before@, entry_v, rest, notch_free, plan.v@),
        anchored(stop_before@, plan.is_anchor@),
        plan.stops == stop_count(stop_before@, moves@.len()),
{
    let n: usize = moves.len();
    let mut v: Vec<i64> = Vec::new();
    let mut is_anchor: Vec<bool> = Vec::new();
    v.push(entry_v);
    is_anchor.push(true);
    let mut stops: u32 = 0;
    let mut k: usize = 1;
    while k < n
        invariant
            1 <= k <= n,
            n == moves@.len() == stop_before@.len() <= u32::MAX,
            v@.len() == k,
            v@[0] == entry_v,
            is_anchor@.len() == k,
            is_anchor@[0],
            forall|a: i64, b: i64| call_requires(notch_free, (a, b)),
            forall|i: int| 0 < i < k ==> #[trigger] seam_seeded(
                moves@,
                stop_before@,
                rest,
                notch_free,
                v@,
                i,
            ),
            forall|i: int| 0 < i < k ==> #[trigger] is_anchor@[i] == stop_before@[i],
            stops == stop_count(stop_before@, k as nat),
            stops < k,
        decreases n - k,
    {
        let ghost before = v@;
        if stop_before[k] {
            stops += 1;
            is_anchor.push(true);
            v.push(rest);
        } else {
            is_anchor.push(false);
            let limit: i64 = lower_of(moves[k - 1].exit_limit, moves[k].entry_limit);
            let ceiling: i64 = lower_of(moves[k - 1].flat_ceiling, moves[k].flat_ceiling);
            let clear: i64 = notch_free(ceiling, limit);
            assert(ceiling == seam_ceiling(moves@, k as int));
            assert(limit == seam_limit(moves@, k as int));
            assert(combines(notch_free, ceiling, limit, clear));
            v.push(lower_of(ceiling, clear));
        }
        assert forall|i: int| 0 < i < k + 1 implies #[trigger] seam_seeded(
            moves@,
            stop_before@,
            rest,
            notch_free,
            v@,
            i,
        ) by {
            if i < k {
                assert(seam_seeded(moves@, stop_before@, rest, notch_free, before, i));
                assert(v@[i] == before[i]);
            }
        }
        k += 1;
    }
    let ghost before = v@;
    v.push(rest);
    is_anchor.push(true);
    assert forall|i: int| 0 < i < n implies #[trigger] seam_seeded(
        moves@,
        stop_before@,
        rest,
        notch_free,
        v@,
        i,
    ) by {
        assert(seam_seeded(moves@, stop_before@, rest, notch_free, before, i));
        assert(v@[i] == before[i]);
    }
    SeamPlan { v, is_anchor, stops }
}

/// Going through move `j` from (or back to) a seam at speed `x` reaches `r`.
pub open spec fn reaches(
    reach: spec_fn(int, i64, i64) -> bool,
    j: int,
    x: i64,
    r: i64,
) -> bool {
    reach(j, x, r)
}

/// What a reach computation answers, as a relation.
pub open spec fn answers<F: Fn(usize, i64) -> Option<i64>>(reach: F) -> spec_fn(
    int,
    i64,
    i64,
) -> bool {
    |j: int, x: i64, r: i64| call_ensures(reach, (j as usize, x), Some(r))
}

/// A reach computation has no answer.
pub open spec fn diverges<F: Fn(usize, i64) -> Option<i64>>(reach: F, j: int, x: i64) -> bool {
    call_ensures(reach, (j as usize, x), None::<i64>)
}

/// The first `count` moves have no jerk limit.
pub open spec fn unlimited(moves: Seq<SeamMove>, count: int) -> bool {
    forall|j: int| 0 <= j < count ==> (#[trigger] moves[j]).jerk is Unlimited
}

/// Move `j` cannot be gone through when entered at speed `x`: the reach has no answer, or
/// it has one and the jerk is limited.
pub open spec fn stuck<F: Fn(usize, i64) -> Option<i64>>(
    m: SeamMove,
    reach: F,
    j: int,
    x: i64,
) -> bool {
    ||| diverges(reach, j, x)
    ||| !(m.jerk is Unlimited) && exists|r: i64| #[trigger] reaches(answers(reach), j, x, r)
}

/// Seam `k` holds the lower of its seed and what is reached from the seam before it.
pub open spec fn seam_forwarded(
    seed: Seq<i64>,
    v: Seq<i64>,
    reach: spec_fn(int, i64, i64) -> bool,
    k: int,
) -> bool {
    exists|r: i64| #[trigger] reaches(reach, k - 1, v[k - 1], r) && v[k] == lower(seed[k], r)
}

/// The seams through `last` are held to what is reached from the entry.
pub open spec fn forwarded_through(
    seed: Seq<i64>,
    v: Seq<i64>,
    reach: spec_fn(int, i64, i64) -> bool,
    last: int,
) -> bool {
    &&& v.len() == seed.len()
    &&& v[0] == seed[0]
    &&& forall|k: int| 0 < k <= last ==> #[trigger] seam_forwarded(seed, v, reach, k)
    &&& forall|k: int| last < k < seed.len() ==> #[trigger] v[k] == seed[k]
}

/// Every seam is held to what is reached from the entry.
pub open spec fn forwarded(
    seed: Seq<i64>,
    v: Seq<i64>,
    reach: spec_fn(int, i64, i64) -> bool,
) -> bool {
    forwarded_through(seed, v, reach, seed.len() - 1)
}

/// Holds every seam to the speed that is reached from the one before it. `reach` gives
/// the speed at the end of a move entered at a speed, or nothing where it diverges.
pub fn forward_pass<F: Fn(usize, i64) -> Option<i64>>(
    moves: &Vec<SeamMove>,
    v: &mut Vec<i64>,
    reach: &F,
) -> (result: Result<(), VelocityError>)
    requires
        old(v)@.len() == moves@.len() + 1,
        forall|j: usize, x: i64| j < moves@.len() ==> call_requires(*reach, (j, x)),
    ensures
        match result {
            Ok(()) => {
                &&& forwarded(old(v)@, final(v)@, answers(*reach))
                &&& unlimited(moves@, moves@.len() as int)
            },
            Err(error) => exists|j: int|
                {
                    &&& 0 <= j < moves@.len()
                    &&& #[trigger] forwarded_through(old(v)@, final(v)@, answers(*reach), j)
                    &&& error == VelocityError::Diverged { line_no: moves@[j].line_no }
                    &&& unlimited(moves@, j)
                    &&& stuck(moves@[j], *reach, j, final(v)@[j])
                },
        },
{
    let seams: usize = v.len();
    let ghost seed = v@;
    let ghost relation = answers(*reach);
    let mut k: usize = 1;
    while k < seams
        invariant
            1 <= k <= seams,
            seams == moves@.len() + 1,
            seams == seed.len(),
            seed == old(v)@,
            relation == answers(*reach),
            forall|j: usize, x: i64| j < moves@.len() ==> call_requires(*reach, (j, x)),
            forwarded_through(seed, v@, relation, k - 1),
            unlimited(moves@, k - 1),
        decreases seams - k,
    {
        let line_no: u32 = moves[k - 1].line_no;
        let ghost before = v@;
        let reached: Option<i64> = (*reach)(k - 1, v[k - 1]);
        let Some(speed) = reached else {
            assert(forwarded_through(seed, v@, relation, k - 1));
            return Err(VelocityError::Diverged { line_no });
        };
        match moves[k - 1].jerk {
            JerkLimit::Unlimited => {},
            _ => {
                assert(forwarded_through(seed, v@, relation, k - 1));
                assert(reaches(relation, k - 1, v@[k - 1], speed));
                return Err(VelocityError::Diverged { line_no });
            },
        }
        assert(reaches(relation, k - 1, before[k - 1], speed));
        let held: i64 = lower_of(v[k], speed);
        v.set(k, held);
        assert forall|i: int| 0 < i <= k implies #[trigger] seam_forwarded(
            seed,
            v@,
            relation,
            i,
        ) by {
            if i < k {
                assert(seam_forwarded(seed, before, relation, i));
                assert(v@[i] == before[i] && v@[i - 1] == before[i - 1]);
            } else {
                assert(v@[k - 1] == before[k - 1]);
            }
        }
        k += 1;
    }
    Ok(())
}

/// Seam `k` holds the lower of its forward speed and what still brakes into the seam
/// after it.
pub open spec fn seam_braked(
    forward: Seq<i64>,
    v: Seq<i64>,
    reach_back: spec_fn(int, i64, i64) -> bool,
    k: int,
) -> bool {
    exists|r: i64| #[trigger] reaches(reach_back, k, v[k + 1], r) && v[k] == lower(forward[k], r)
}

/// The seams after `first`, but for the entry and the end, are held to what still
/// brakes into the seam after them.
pub open spec fn braked_after(
    forward: Seq<i64>,
    v: Seq<i64>,
    reach_back: spec_fn(int, i64, i64) -> bool,
    first: int,
) -> bool {
    &&& v.len() == forward.len()
    &&& v.last() == forward.last()
    &&& forall|k: int| first < k < v.len() - 1 ==> #[trigger] seam_braked(forward, v, reach_back, k)
    &&& forall|k: int| 0 <= k <= first && k < v.len() ==> #[trigger] v[k] == forward[k]
}

/// Every seam but the entry and the end is held to what still brakes into the seam
/// after it.
pub open spec fn braked(
    forward: Seq<i64>,
    v: Seq<i64>,
    reach_back: spec_fn(int, i64, i64) -> bool,
) -> bool {
    braked_after(forward, v, reach_back, 0)
}

/// `barrier` is the highest seam between the entry and the end that kept its forward
/// speed, or 0 where none did.
pub open spec fn is_barrier(forward: Seq<i64>, v: Seq<i64>, barrier: int) -> bool {
    &&& 0 <= barrier
    &&& barrier == 0 || (barrier < v.len() - 1 && v[barrier] == forward[barrier])
    &&& forall|k: int| barrier < k < v.len() - 1 ==> #[trigger] v[k] < forward[k]
}

/// Holds every seam to the speed from which the rest of the window can still brake, and
/// gives the barrier. `reach_back` gives the speed at the start of a move left at a
/// speed, or nothing where it diverges.
pub fn reverse_brake_envelope<F: Fn(usize, i64) -> Option<i64>>(
    moves: &Vec<SeamMove>,
    v: &mut Vec<i64>,
    reach_back: &F,
) -> (result: Result<usize, VelocityError>)
    requires
        0 < moves@.len(),
        old(v)@.len() == moves@.len() + 1,
        forall|j: usize, x: i64| j < moves@.len() ==> call_requires(*reach_back, (j, x)),
    ensures
        match result {
            Ok(barrier) => {
                &&& braked(old(v)@, final(v)@, answers(*reach_back))
                &&& is_barrier(old(v)@, final(v)@, barrier as int)
            },
            Err(error) => exists|k: int|
                {
                    &&& 0 < k < moves@.len()
                    &&& #[trigger] braked_after(old(v)@, final(v)@, answers(*reach_back), k)
                    &&& error == VelocityError::Diverged { line_no: moves@[k].line_no }
                    &&& diverges(*reach_back, k, final(v)@[k + 1])
                },
        },
{
    let n: usize = moves.len();
    let ghost forward = v@;
    let ghost relation = answers(*reach_back);
    let mut barrier: usize = 0;
    let mut above: usize = n;
    while above > 1
        invariant
            1 <= above <= n,
            n == moves@.len(),
            n + 1 == forward.len(),
            forward == old(v)@,
            relation == answers(*reach_back),
            forall|j: usize, x: i64| j < moves@.len() ==> call_requires(*reach_back, (j, x)),
            braked_after(forward, v@, relation, above - 1),
            barrier == 0 || (above <= barrier < n && v@[barrier as int] == forward[barrier as int]),
            barrier == 0 ==> forall|k: int| above <= k < n ==> #[trigger] v@[k] < forward[k],
            forall|k: int| barrier < k < n && above <= k ==> #[trigger] v@[k] < forward[k],
        decreases above,
    {
        let k: usize = above - 1;
        let ghost before = v@;
        let reached: Option<i64> = (*reach_back)(k, v[k + 1]);
        let Some(speed) = reached else {
            assert(braked_after(forward, v@, relation, k as int));
            return Err(VelocityError::Diverged { line_no: moves[k].line_no });
        };
        assert(reaches(relation, k as int, before[k + 1], speed));
        let ceiling: i64 = v[k];
        let held: i64 = lower_of(ceiling, speed);
        v.set(k, held);
        if barrier == 0 && !(held < ceiling) {
            barrier = k;
        }
        assert forall|i: int| k - 1 < i < v@.len() - 1 implies #[trigger] seam_braked(
            forward,
            v@,
            relation,
            i,
        ) by {
            if i > k {
                assert(seam_braked(forward, before, relation, i));
                assert(v@[i] == before[i] && v@[i + 1] == before[i + 1]);
            } else {
                assert(v@[k + 1] == before[k + 1]);
            }
        }
        above = k;
    }
    Ok(barrier)
}

// ----- The whole plan

/// The call says whether `entry_v` lies beyond `limit`.
pub open spec fn says<F: Fn(i64, i64) -> bool>(
    exceeds: F,
    entry_v: i64,
    limit: i64,
    answer: bool,
) -> bool {
    call_ensures(exceeds, (entry_v, limit), answer)
}

/// The speed that the first move allows at the entry.
pub open spec fn entry_ceiling(m: SeamMove) -> i64 {
    lower(m.flat_ceiling, m.entry_limit)
}

/// `v` with its barrier is what the three sweeps make of a window.
pub open spec fn planned<N: Fn(i64, i64) -> i64>(
    moves: Seq<SeamMove>,
    stop_before: Seq<bool>,
    entry_v: i64,
    rest: i64,
    notch_free: N,
    reach: spec_fn(int, i64, i64) -> bool,
    reach_back: spec_fn(int, i64, i64) -> bool,
    v: Seq<i64>,
    barrier: int,
) -> bool {
    exists|seed: Seq<i64>, forward: Seq<i64>|
        {
            &&& seeded(moves, stop_before, entry_v, rest, notch_free, seed)
            &&& #[trigger] forwarded(seed, forward, reach)
            &&& braked(forward, v, reach_back)
            &&& is_barrier(forward, v, barrier)
        }
}

/// The entry speed is admitted under the seam speeds `v`: it lies neither beyond what the
/// first move allows nor beyond what still brakes into the seam after it.
pub open spec fn entry_admitted<X, B>(
    first: SeamMove,
    entry_v: i64,
    exceeds: X,
    reach_back: B,
    v: Seq<i64>,
) -> bool where X: Fn(i64, i64) -> bool, B: Fn(usize, i64) -> Option<i64> {
    &&& says(exceeds, entry_v, entry_ceiling(first), false)
    &&& exists|limit: i64|
        {
            &&& #[trigger] says(exceeds, entry_v, limit, false)
            &&& reaches(answers(reach_back), 0, v[1], limit)
        }
}

/// The forward sweep stops at the move on line `line_no`, entered at the speed that the
/// sweep had given its seam.
pub open spec fn forward_stuck<N, F>(
    moves: Seq<SeamMove>,
    stop_before: Seq<bool>,
    entry_v: i64,
    rest: i64,
    notch_free: N,
    reach: F,
    line_no: u32,
) -> bool where N: Fn(i64, i64) -> i64, F: Fn(usize, i64) -> Option<i64> {
    exists|seed: Seq<i64>, v: Seq<i64>, j: int|
        {
            &&& seeded(moves, stop_before, entry_v, rest, notch_free, seed)
            &&& #[trigger] forwarded_through(seed, v, answers(reach), j)
            &&& 0 <= j < moves.len()
            &&& unlimited(moves, j)
            &&& stuck(moves[j], reach, j, v[j])
            &&& line_no == moves[j].line_no
        }
}

/// The backward sweep stops at the move on line `line_no`, left at the speed that the
/// sweep had given the seam after it.
pub open spec fn backward_stuck<N, B>(
    moves: Seq<SeamMove>,
    stop_before: Seq<bool>,
    entry_v: i64,
    rest: i64,
    notch_free: N,
    reach: spec_fn(int, i64, i64) -> bool,
    reach_back: B,
    line_no: u32,
) -> bool where N: Fn(i64, i64) -> i64, B: Fn(usize, i64) -> Option<i64> {
    exists|seed: Seq<i64>, forward: Seq<i64>, v: Seq<i64>, k: int|
        {
            &&& seeded(moves, stop_before, entry_v, rest, notch_free, seed)
            &&& #[trigger] forwarded(seed, forward, reach)
            &&& #[trigger] braked_after(forward, v, answers(reach_back), k)
            &&& 0 < k < moves.len()
            &&& diverges(reach_back, k, v[k + 1])
            &&& line_no == moves[k].line_no
        }
}

/// A window is refused with `error`. The entry speed is held against what the first move
/// allows before anything else; then the sweeps run, forward and backward, and each stops
/// where a reach at the speed it asks for has no answer; and the entry speed is held
/// against what the planned speeds can still brake from at the last.
pub open spec fn seams_refused<N, X, F, B>(
    moves: Seq<SeamMove>,
    stop_before: Seq<bool>,
    entry_v: i64,
    rest: i64,
    notch_free: N,
    exceeds: X,
    reach: F,
    reach_back: B,
    error: VelocityError,
) -> bool where
    N: Fn(i64, i64) -> i64,
    X: Fn(i64, i64) -> bool,
    F: Fn(usize, i64) -> Option<i64>,
    B: Fn(usize, i64) -> Option<i64>,
 {
    let over_committed = VelocityError::OverCommitted { line_no: moves[0].line_no };
    ||| says(exceeds, entry_v, entry_ceiling(moves[0]), true) && error == over_committed
    ||| {
        &&& says(exceeds, entry_v, entry_ceiling(moves[0]), false)
        &&& error matches VelocityError::Diverged { line_no } && forward_stuck(
            moves,
            stop_before,
            entry_v,
            rest,
            notch_free,
            reach,
            line_no,
        )
    }
    ||| {
        &&& says(exceeds, entry_v, entry_ceiling(moves[0]), false)
        &&& unlimited(moves, moves.len() as int)
        &&& {
            ||| error matches VelocityError::Diverged { line_no } && backward_stuck(
                moves,
                stop_before,
                entry_v,
                rest,
                notch_free,
                answers(reach),
                reach_back,
                line_no,
            )
            ||| exists|v: Seq<i64>, barrier: int|
                {
                    &&& #[trigger] planned(
                        moves,
                        stop_before,
                        entry_v,
                        rest,
                        notch_free,
                        answers(reach),
                        answers(reach_back),
                        v,
                        barrier,
                    )
                    &&& entry_refused(moves[0], entry_v, exceeds, reach_back, v, error)
                }
        }
    }
}

/// Under the planned speeds `v` the entry is refused with `error`: the reach back through
/// the first move has no answer, or the entry speed lies beyond its answer.
pub open spec fn entry_refused<X, B>(
    first: SeamMove,
    entry_v: i64,
    exceeds: X,
    reach_back: B,
    v: Seq<i64>,
    error: VelocityError,
) -> bool where X: Fn(i64, i64) -> bool, B: Fn(usize, i64) -> Option<i64> {
    ||| diverges(reach_back, 0, v[1]) && error == (VelocityError::Diverged {
        line_no: first.line_no,
    })
    ||| error == (VelocityError::OverCommitted { line_no: first.line_no }) && exists|limit: i64|
        {
            &&& #[trigger] says(exceeds, entry_v, limit, true)
            &&& reaches(answers(reach_back), 0, v[1], limit)
        }
}

/// Plans the seam speeds of a window, and gives them with the barrier.
///
/// `notch_free` lowers a seam's ceiling by its curvature limit; `exceeds` says whether
/// the entry speed lies beyond a limit by more than the tolerance; `reach` and
/// `reach_back` go through one move forward and backward.
pub fn plan_seams<N, X, F, B>(
    moves: &Vec<SeamMove>,
    stop_before: &Vec<bool>,
    entry_v: i64,
    rest: i64,
    notch_free: N,
    exceeds: X,
    reach: F,
    reach_back: B,
) -> (result: Result<(SeamPlan, usize), VelocityError>) where
    N: Fn(i64, i64) -> i64,
    X: Fn(i64, i64) -> bool,
    F: Fn(usize, i64) -> Option<i64>,
    B: Fn(usize, i64) -> Option<i64>,

    requires
        0 < moves@.len() <= u32::MAX,
        stop_before@.len() == moves@.len(),
        forall|a: i64, b: i64| call_requires(notch_free, (a, b)),
        forall|a: i64, b: i64| call_requires(exceeds, (a, b)),
        forall|j: usize, x: i64| j < moves@.len() ==> call_requires(reach, (j, x)),
        forall|j: usize, x: i64| j < moves@.len() ==> call_requires(reach_back, (j, x)),
    ensures
        match result {
            Ok((plan, barrier)) => {
                &&& planned(
                    moves@,
                    stop_before@,
                    entry_v,
                    rest,
                    notch_free,
                    answers(reach),
                    answers(reach_back),
                    plan.v@,
                    barrier as int,
                )
                &&& anchored(stop_before@, plan.is_anchor@)
                &&& plan.stops == stop_count(stop_before@, moves@.len())
                &&& entry_admitted(moves@[0], entry_v, exceeds, reach_back, plan.v@)
                &&& unlimited(moves@, moves@.len() as int)
            },
            Err(error) => seams_refused(
                moves@,
                stop_before@,
                entry_v,
                rest,
                notch_free,
                exceeds,
                reach,
                reach_back,
                error,
            ),
        },
{
    let ceiling: i64 = lower_of(moves[0].flat_ceiling, moves[0].entry_limit);
    if exceeds(entry_v, ceiling) {
        assert(says(exceeds, entry_v, ceiling, true));
        return Err(VelocityError::OverCommitted { line_no: moves[0].line_no });
    }
    assert(says(exceeds, entry_v, ceiling, false));
    let mut plan = seed_seam_velocities(moves, stop_before, entry_v, rest, notch_free);
    let ghost seed = plan.v@;
    match forward_pass(moves, &mut plan.v, &reach) {
        Ok(()) => {},
        Err(error) => {
            assert(forward_stuck(
                moves@,
                stop_before@,
                entry_v,
                rest,
                notch_free,
                reach,
                error->Diverged_line_no,
            ));
            return Err(error);
        },
    }
    let ghost forward = plan.v@;
    let barrier: usize = match reverse_brake_envelope(moves, &mut plan.v, &reach_back) {
        Ok(barrier) => barrier,
        Err(error) => {
            assert(backward_stuck(
                moves@,
                stop_before@,
                entry_v,
                rest,
                notch_free,
                answers(reach),
                reach_back,
                error->Diverged_line_no,
            ));
            return Err(error);
        },
    };
    assert(forwarded(seed, forward, answers(reach)));
    assert(planned(
        moves@,
        stop_before@,
        entry_v,
        rest,
        notch_free,
        answers(reach),
        answers(reach_back),
        plan.v@,
        barrier as int,
    ));
    let slowest: Option<i64> = reach_back(0, plan.v[1]);
    let Some(brake) = slowest else {
        assert(diverges(reach_back, 0, plan.v@[1]));
        return Err(VelocityError::Diverged { line_no: moves[0].line_no });
    };
    assert(reaches(answers(reach_back), 0, plan.v@[1], brake));
    if exceeds(entry_v, brake) {
        assert(says(exceeds, entry_v, brake, true));
        return Err(VelocityError::OverCommitted { line_no: moves[0].line_no });
    }
    assert(says(exceeds, entry_v, brake, false));
    Ok((plan, barrier))
}

// ----- Laws of the sweeps

/// A reach never lowers its answer when its speed is raised; so it has one answer.
pub open spec fn monotone(reach: spec_fn(int, i64, i64) -> bool) -> bool {
    forall|j: int, x: i64, y: i64, r: i64, q: i64|
        #![trigger reaches(reach, j, x, r), reaches(reach, j, y, q)]
        x <= y && reaches(reach, j, x, r) && reaches(reach, j, y, q) ==> r <= q
}

/// No answer of a reach lies below rest.
pub open spec fn at_least(reach: spec_fn(int, i64, i64) -> bool, rest: i64) -> bool {
    forall|j: int, x: i64, r: i64| #[trigger] reaches(reach, j, x, r) ==> rest <= r
}

/// Moves appended to a window leave every seam at or before its barrier as it was: the
/// barrier is where the backward sweep reconverges, whatever comes after the window.
/// `seed` seeds the window, whose end is at rest, and `longer_seed` the same window with
/// moves appended.
pub proof fn law_barrier_is_final(
    seed: Seq<i64>,
    forward: Seq<i64>,
    v: Seq<i64>,
    barrier: int,
    longer_seed: Seq<i64>,
    longer_forward: Seq<i64>,
    longer_v: Seq<i64>,
    rest: i64,
    reach: spec_fn(int, i64, i64) -> bool,
    reach_back: spec_fn(int, i64, i64) -> bool,
)
    requires
        2 <= seed.len() <= longer_seed.len(),
        forall|k: int| 0 <= k < seed.len() - 1 ==> #[trigger] longer_seed[k] == seed[k],
        seed.last() == rest,
        forall|k: int| 0 < k < longer_seed.len() ==> rest <= #[trigger] longer_seed[k],
        forwarded(seed, forward, reach),
        braked(forward, v, reach_back),
        is_barrier(forward, v, barrier),
        forwarded(longer_seed, longer_forward, reach),
        braked(longer_forward, longer_v, reach_back),
        monotone(reach),
        monotone(reach_back),
        at_least(reach, rest),
        at_least(reach_back, rest),
    ensures
        forall|k: int| 0 <= k <= barrier ==> #[trigger] longer_v[k] == v[k],
{
    let n = seed.len() - 1;
    lemma_forward_agrees(seed, forward, longer_seed, longer_forward, reach, n - 1);
    assert(forward[0] == longer_forward[0]);
    if barrier > 0 {
        assert(seam_forwarded(seed, forward, reach, n));
        assert(forward[n] <= rest);
        lemma_at_least_rest(longer_seed, longer_forward, longer_v, rest, reach, reach_back, n);
        lemma_braked_rises(forward, v, longer_forward, longer_v, reach_back, barrier, n);
        assert(longer_v[barrier] == v[barrier]) by {
            lemma_held(longer_forward, longer_v, reach_back, barrier);
        }
        lemma_braked_agrees(forward, v, longer_forward, longer_v, reach_back, barrier, 1);
    }
    assert forall|k: int| 0 <= k <= barrier implies #[trigger] longer_v[k] == v[k] by {
        if k > 0 {
            lemma_braked_agrees(forward, v, longer_forward, longer_v, reach_back, barrier, k);
        }
    }
}

/// A braked seam lies at or below its forward speed.
proof fn lemma_held(
    forward: Seq<i64>,
    v: Seq<i64>,
    reach_back: spec_fn(int, i64, i64) -> bool,
    k: int,
)
    requires
        braked(forward, v, reach_back),
        0 <= k < v.len(),
    ensures
        v[k] <= forward[k],
{
    if 0 < k < v.len() - 1 {
        assert(seam_braked(forward, v, reach_back, k));
    }
}

/// The forward speeds of the window do not depend on what is appended to it.
proof fn lemma_forward_agrees(
    seed: Seq<i64>,
    forward: Seq<i64>,
    longer_seed: Seq<i64>,
    longer_forward: Seq<i64>,
    reach: spec_fn(int, i64, i64) -> bool,
    last: int,
)
    requires
        0 <= last < seed.len() - 1,
        seed.len() <= longer_seed.len(),
        forall|k: int| 0 <= k < seed.len() - 1 ==> #[trigger] longer_seed[k] == seed[k],
        forwarded(seed, forward, reach),
        forwarded(longer_seed, longer_forward, reach),
        monotone(reach),
    ensures
        forall|k: int| 0 <= k <= last ==> #[trigger] longer_forward[k] == forward[k],
    decreases last,
{
    if last == 0 {
        assert(longer_seed[0] == seed[0]);
    } else {
        lemma_forward_agrees(seed, forward, longer_seed, longer_forward, reach, last - 1);
        assert(seam_forwarded(seed, forward, reach, last));
        assert(seam_forwarded(longer_seed, longer_forward, reach, last));
        assert(longer_forward[last - 1] == forward[last - 1]);
        let r = choose|r: i64|
            #[trigger] reaches(reach, last - 1, forward[last - 1], r) && forward[last] == lower(
                seed[last],
                r,
            );
        let q = choose|q: i64|
            #[trigger] reaches(reach, last - 1, longer_forward[last - 1], q)
                && longer_forward[last] == lower(longer_seed[last], q);
        assert(r <= q && q <= r);
        assert(longer_seed[last] == seed[last]);
    }
}

/// Seam `k` of the longer window moves at rest or faster.
proof fn lemma_at_least_rest(
    seed: Seq<i64>,
    forward: Seq<i64>,
    v: Seq<i64>,
    rest: i64,
    reach: spec_fn(int, i64, i64) -> bool,
    reach_back: spec_fn(int, i64, i64) -> bool,
    k: int,
)
    requires
        0 < k < seed.len(),
        forall|i: int| 0 < i < seed.len() ==> rest <= #[trigger] seed[i],
        forwarded(seed, forward, reach),
        braked(forward, v, reach_back),
        at_least(reach, rest),
        at_least(reach_back, rest),
    ensures
        rest <= v[k],
{
    assert(seam_forwarded(seed, forward, reach, k));
    assert(rest <= seed[k]);
    assert(rest <= forward[k]);
    if k < v.len() - 1 {
        assert(seam_braked(forward, v, reach_back, k));
    }
}

/// From a seam on which the longer window is no slower, every seam before it down to
/// `k` is no slower either.
proof fn lemma_braked_rises(
    forward: Seq<i64>,
    v: Seq<i64>,
    longer_forward: Seq<i64>,
    longer_v: Seq<i64>,
    reach_back: spec_fn(int, i64, i64) -> bool,
    k: int,
    n: int,
)
    requires
        0 < k <= n,
        n == v.len() - 1,
        v.len() <= longer_v.len(),
        v[n] <= longer_v[n],
        forall|i: int| 0 <= i <= n - 1 ==> #[trigger] longer_forward[i] == forward[i],
        braked(forward, v, reach_back),
        braked(longer_forward, longer_v, reach_back),
        monotone(reach_back),
    ensures
        v[k] <= longer_v[k],
    decreases n - k,
{
    if k < n {
        lemma_braked_rises(forward, v, longer_forward, longer_v, reach_back, k + 1, n);
        assert(seam_braked(forward, v, reach_back, k));
        assert(seam_braked(longer_forward, longer_v, reach_back, k));
        let r = choose|r: i64|
            #[trigger] reaches(reach_back, k, v[k + 1], r) && v[k] == lower(forward[k], r);
        let q = choose|q: i64|
            #[trigger] reaches(reach_back, k, longer_v[k + 1], q) && longer_v[k] == lower(
                longer_forward[k],
                q,
            );
        assert(r <= q);
        assert(longer_forward[k] == forward[k]);
    }
}

/// Where the two windows agree on the barrier, they agree on every seam before it.
proof fn lemma_braked_agrees(
    forward: Seq<i64>,
    v: Seq<i64>,
    longer_forward: Seq<i64>,
    longer_v: Seq<i64>,
    reach_back: spec_fn(int, i64, i64) -> bool,
    barrier: int,
    k: int,
)
    requires
        0 < k <= barrier < v.len() - 1,
        v.len() <= longer_v.len(),
        longer_v[barrier] == v[barrier],
        forall|i: int| 0 <= i <= v.len() - 2 ==> #[trigger] longer_forward[i] == forward[i],
        braked(forward, v, reach_back),
        braked(longer_forward, longer_v, reach_back),
        monotone(reach_back),
    ensures
        longer_v[k] == v[k],
    decreases barrier - k,
{
    if k < barrier {
        lemma_braked_agrees(forward, v, longer_forward, longer_v, reach_back, barrier, k + 1);
        assert(seam_braked(forward, v, reach_back, k));
        assert(seam_braked(longer_forward, longer_v, reach_back, k));
        let r = choose|r: i64|
            #[trigger] reaches(reach_back, k, v[k + 1], r) && v[k] == lower(forward[k], r);
        let q = choose|q: i64|
            #[trigger] reaches(reach_back, k, longer_v[k + 1], q) && longer_v[k] == lower(
                longer_forward[k],
                q,
            );
        assert(r <= q && q <= r);
        assert(longer_forward[k] == forward[k]);
    }
}

// ----- Laws of a plan, on the moves themselves

/// A notch never answers above the ceiling or above the limit it is given.
pub open spec fn only_lowers<N: Fn(i64, i64) -> i64>(notch_free: N) -> bool {
    forall|ceiling: i64, limit: i64, r: i64|
        #[trigger] call_ensures(notch_free, (ceiling, limit), r) ==> r <= ceiling && r <= limit
}

/// Where two moves meet without a stop, neither of them is driven faster than it allows
/// there: the seam keeps to the curvature where the first one ends, to the curvature where
/// the second one starts, and to the flat ceilings of both.
pub proof fn law_corner_keeps_to_both_moves<N, F, B>(
    moves: Seq<SeamMove>,
    stop_before: Seq<bool>,
    entry_v: i64,
    rest: i64,
    notch_free: N,
    reach: F,
    reach_back: B,
    v: Seq<i64>,
    barrier: int,
    k: int,
) where
    N: Fn(i64, i64) -> i64,
    F: Fn(usize, i64) -> Option<i64>,
    B: Fn(usize, i64) -> Option<i64>,

    requires
        planned(
            moves,
            stop_before,
            entry_v,
            rest,
            notch_free,
            answers(reach),
            answers(reach_back),
            v,
            barrier,
        ),
        0 < k < moves.len(),
        !stop_before[k],
    ensures
        v[k] <= moves[k - 1].flat_ceiling,
        v[k] <= moves[k].flat_ceiling,
        only_lowers(notch_free) ==> v[k] <= moves[k - 1].exit_limit,
        only_lowers(notch_free) ==> v[k] <= moves[k].entry_limit,
{
    let (seed, forward) = choose|seed: Seq<i64>, forward: Seq<i64>|
        {
            &&& seeded(moves, stop_before, entry_v, rest, notch_free, seed)
            &&& #[trigger] forwarded(seed, forward, answers(reach))
            &&& braked(forward, v, answers(reach_back))
            &&& is_barrier(forward, v, barrier)
        };
    lemma_held(forward, v, answers(reach_back), k);
    assert(seam_forwarded(seed, forward, answers(reach), k));
    assert(seam_seeded(moves, stop_before, rest, notch_free, seed, k));
}

/// A plan enters its window at the speed it was asked to, comes to rest before every move
/// that asks for a stop and at the end of the window, and marks exactly those seams and
/// its entry as anchors.
pub proof fn law_anchors_are_the_ends_and_the_stops<N, F, B>(
    moves: Seq<SeamMove>,
    stop_before: Seq<bool>,
    entry_v: i64,
    rest: i64,
    notch_free: N,
    reach: F,
    reach_back: B,
    v: Seq<i64>,
    is_anchor: Seq<bool>,
    barrier: int,
    k: int,
) where
    N: Fn(i64, i64) -> i64,
    F: Fn(usize, i64) -> Option<i64>,
    B: Fn(usize, i64) -> Option<i64>,

    requires
        0 < moves.len() == stop_before.len(),
        planned(
            moves,
            stop_before,
            entry_v,
            rest,
            notch_free,
            answers(reach),
            answers(reach_back),
            v,
            barrier,
        ),
        anchored(stop_before, is_anchor),
        0 <= k <= moves.len(),
    ensures
        v.len() == moves.len() + 1,
        is_anchor.len() == moves.len() + 1,
        v[0] == entry_v,
        is_anchor[k] <==> (k == 0 || k == moves.len() || stop_before[k]),
        is_anchor[k] && k > 0 ==> v[k] <= rest,
{
    let (seed, forward) = choose|seed: Seq<i64>, forward: Seq<i64>|
        {
            &&& seeded(moves, stop_before, entry_v, rest, notch_free, seed)
            &&& #[trigger] forwarded(seed, forward, answers(reach))
            &&& braked(forward, v, answers(reach_back))
            &&& is_barrier(forward, v, barrier)
        };
    lemma_held(forward, v, answers(reach_back), k);
    if k > 0 {
        assert(seam_forwarded(seed, forward, answers(reach), k));
        if k < moves.len() {
            assert(seam_seeded(moves, stop_before, rest, notch_free, seed, k));
        }
    }
    assert(v[0] == forward[0]);
}

/// The next seam can always be braked into: every seam but the entry holds at most what
/// going back through its move from the planned speed after it answers.
pub proof fn law_every_move_can_be_braked<N, F, B>(
    moves: Seq<SeamMove>,
    stop_before: Seq<bool>,
    entry_v: i64,
    rest: i64,
    notch_free: N,
    reach: F,
    reach_back: B,
    v: Seq<i64>,
    barrier: int,
    k: int,
) where
    N: Fn(i64, i64) -> i64,
    F: Fn(usize, i64) -> Option<i64>,
    B: Fn(usize, i64) -> Option<i64>,

    requires
        planned(
            moves,
            stop_before,
            entry_v,
            rest,
            notch_free,
            answers(reach),
            answers(reach_back),
            v,
            barrier,
        ),
        0 < k < moves.len(),
    ensures
        exists|r: i64|
            #[trigger] call_ensures(reach_back, (k as usize, v[k + 1]), Some(r)) && v[k] <= r,
{
    let (seed, forward) = choose|seed: Seq<i64>, forward: Seq<i64>|
        {
            &&& seeded(moves, stop_before, entry_v, rest, notch_free, seed)
            &&& #[trigger] forwarded(seed, forward, answers(reach))
            &&& braked(forward, v, answers(reach_back))
            &&& is_barrier(forward, v, barrier)
        };
    assert(seam_braked(forward, v, answers(reach_back), k));
    let r = choose|r: i64|
        #[trigger] reaches(answers(reach_back), k, v[k + 1], r) && v[k] == lower(forward[k], r);
    assert(call_ensures(reach_back, (k as usize, v[k + 1]), Some(r)));
}

/// Past the barrier every seam is slowed down by what comes after it and by nothing else:
/// it holds exactly what still brakes into the seam after it, and both of its moves would
/// have allowed more.
pub proof fn law_past_the_barrier_only_braking_holds<N, F, B>(
    moves: Seq<SeamMove>,
    stop_before: Seq<bool>,
    entry_v: i64,
    rest: i64,
    notch_free: N,
    reach: F,
    reach_back: B,
    v: Seq<i64>,
    barrier: int,
    k: int,
) where
    N: Fn(i64, i64) -> i64,
    F: Fn(usize, i64) -> Option<i64>,
    B: Fn(usize, i64) -> Option<i64>,

    requires
        planned(
            moves,
            stop_before,
            entry_v,
            rest,
            notch_free,
            answers(reach),
            answers(reach_back),
            v,
            barrier,
        ),
        barrier < k < moves.len(),
    ensures
        0 <= barrier < moves.len(),
        call_ensures(reach_back, (k as usize, v[k + 1]), Some(v[k])),
        stop_before[k] ==> v[k] < rest,
        !stop_before[k] ==> v[k] < moves[k - 1].flat_ceiling && v[k] < moves[k].flat_ceiling,
        !stop_before[k] && only_lowers(notch_free) ==> v[k] < moves[k - 1].exit_limit && v[k]
            < moves[k].entry_limit,
{
    let (seed, forward) = choose|seed: Seq<i64>, forward: Seq<i64>|
        {
            &&& seeded(moves, stop_before, entry_v, rest, notch_free, seed)
            &&& #[trigger] forwarded(seed, forward, answers(reach))
            &&& braked(forward, v, answers(reach_back))
            &&& is_barrier(forward, v, barrier)
        };
    assert(v[k] < forward[k]);
    assert(seam_forwarded(seed, forward, answers(reach), k));
    assert(seam_seeded(moves, stop_before, rest, notch_free, seed, k));
    assert(seam_braked(forward, v, answers(reach_back), k));
    let r = choose|r: i64|
        #[trigger] reaches(answers(reach_back), k, v[k + 1], r) && v[k] == lower(forward[k], r);
    assert(call_ensures(reach_back, (k as usize, v[k + 1]), Some(r)));
}

/// Going through a move at a higher speed never answers less.
pub open spec fn never_answers_less<F: Fn(usize, i64) -> Option<i64>>(reach: F) -> bool {
    forall|j: usize, x: i64, y: i64, r: i64, q: i64|
        #![trigger call_ensures(reach, (j, x), Some(r)), call_ensures(reach, (j, y), Some(q))]
        x <= y && call_ensures(reach, (j, x), Some(r)) && call_ensures(reach, (j, y), Some(q))
            ==> r <= q
}

/// Seam `k` of some speeds `w` keeps to everything that bounds it: a stop is at rest, any
/// other seam keeps to the flat ceilings of both moves and to every answer of the notch for
/// them and their curvature, and either can be braked from.
pub open spec fn keeps_its_bounds<N: Fn(i64, i64) -> i64, B: Fn(usize, i64) -> Option<i64>>(
    moves: Seq<SeamMove>,
    stop_before: Seq<bool>,
    rest: i64,
    notch_free: N,
    reach_back: B,
    w: Seq<i64>,
    k: int,
) -> bool {
    &&& stop_before[k] ==> w[k] <= rest
    &&& !stop_before[k] ==> w[k] <= moves[k - 1].flat_ceiling && w[k] <= moves[k].flat_ceiling
    &&& !stop_before[k] ==> forall|ceiling: i64, limit: i64, r: i64|
        {
            &&& ceiling == moves[k - 1].flat_ceiling || ceiling == moves[k].flat_ceiling
            &&& ceiling <= moves[k - 1].flat_ceiling && ceiling <= moves[k].flat_ceiling
            &&& limit == moves[k - 1].exit_limit || limit == moves[k].entry_limit
            &&& limit <= moves[k - 1].exit_limit && limit <= moves[k].entry_limit
            &&& #[trigger] call_ensures(notch_free, (ceiling, limit), r)
        } ==> w[k] <= r
    &&& exists|r: i64|
        #[trigger] call_ensures(reach_back, (k as usize, w[k + 1]), Some(r)) && w[k] <= r
}

/// Going through move `i` from the speed `w` holds before it reaches at least what `w` holds
/// after it.
pub open spec fn reaches_on<F: Fn(usize, i64) -> Option<i64>>(reach: F, w: Seq<i64>, i: int) -> bool {
    exists|r: i64| #[trigger] call_ensures(reach, (i as usize, w[i]), Some(r)) && w[i + 1] <= r
}

/// A plan is the fastest one there is: any other speeds that enter no faster, keep to the
/// bounds of every seam, can be reached from one seam to the next and end at rest, are
/// nowhere faster than the planned ones.
pub proof fn law_plan_is_the_fastest<N, F, B>(
    moves: Seq<SeamMove>,
    stop_before: Seq<bool>,
    entry_v: i64,
    rest: i64,
    notch_free: N,
    reach: F,
    reach_back: B,
    v: Seq<i64>,
    barrier: int,
    w: Seq<i64>,
    k: int,
) where
    N: Fn(i64, i64) -> i64,
    F: Fn(usize, i64) -> Option<i64>,
    B: Fn(usize, i64) -> Option<i64>,

    requires
        planned(
            moves,
            stop_before,
            entry_v,
            rest,
            notch_free,
            answers(reach),
            answers(reach_back),
            v,
            barrier,
        ),
        never_answers_less(reach),
        never_answers_less(reach_back),
        w.len() == moves.len() + 1,
        w[0] <= entry_v,
        w[moves.len() as int] <= rest,
        forall|i: int| 0 < i < moves.len() ==> #[trigger] keeps_its_bounds(
            moves,
            stop_before,
            rest,
            notch_free,
            reach_back,
            w,
            i,
        ),
        forall|i: int| 0 <= i < moves.len() ==> #[trigger] reaches_on(reach, w, i),
        0 <= k <= moves.len(),
    ensures
        w[k] <= v[k],
{
    let (seed, forward) = choose|seed: Seq<i64>, forward: Seq<i64>|
        {
            &&& seeded(moves, stop_before, entry_v, rest, notch_free, seed)
            &&& #[trigger] forwarded(seed, forward, answers(reach))
            &&& braked(forward, v, answers(reach_back))
            &&& is_barrier(forward, v, barrier)
        };
    assert forall|i: int| 0 <= i <= moves.len() implies #[trigger] w[i] <= seed[i] by {
        if 0 < i < moves.len() {
            assert(keeps_its_bounds(moves, stop_before, rest, notch_free, reach_back, w, i));
            assert(seam_seeded(moves, stop_before, rest, notch_free, seed, i));
        }
    }
    lemma_forward_dominates(seed, forward, reach, w, moves.len() as int);
    lemma_braked_dominates(moves, stop_before, rest, notch_free, forward, v, reach_back, w, k);
}

proof fn lemma_forward_dominates<F: Fn(usize, i64) -> Option<i64>>(
    seed: Seq<i64>,
    forward: Seq<i64>,
    reach: F,
    w: Seq<i64>,
    last: int,
)
    requires
        forwarded(seed, forward, answers(reach)),
        never_answers_less(reach),
        w.len() == seed.len(),
        forall|i: int| 0 <= i < seed.len() ==> #[trigger] w[i] <= seed[i],
        forall|i: int| 0 <= i < seed.len() - 1 ==> #[trigger] reaches_on(reach, w, i),
        0 <= last < seed.len(),
    ensures
        forall|i: int| 0 <= i <= last ==> #[trigger] w[i] <= forward[i],
    decreases last,
{
    if last > 0 {
        lemma_forward_dominates(seed, forward, reach, w, last - 1);
        assert(w[last - 1] <= forward[last - 1]);
        assert(seam_forwarded(seed, forward, answers(reach), last));
        let r = choose|r: i64|
            #[trigger] reaches(answers(reach), last - 1, forward[last - 1], r) && forward[last]
                == lower(seed[last], r);
        assert(call_ensures(reach, ((last - 1) as usize, forward[last - 1]), Some(r)));
        let i = last - 1;
        assert(reaches_on(reach, w, i));
        let q = choose|q: i64|
            #[trigger] call_ensures(reach, (i as usize, w[i]), Some(q)) && w[i + 1] <= q;
        assert(q <= r);
        assert(w[last] <= seed[last]);
    } else {
        assert(w[0] <= seed[0]);
    }
}

proof fn lemma_braked_dominates<N: Fn(i64, i64) -> i64, B: Fn(usize, i64) -> Option<i64>>(
    moves: Seq<SeamMove>,
    stop_before: Seq<bool>,
    rest: i64,
    notch_free: N,
    forward: Seq<i64>,
    v: Seq<i64>,
    reach_back: B,
    w: Seq<i64>,
    k: int,
)
    requires
        braked(forward, v, answers(reach_back)),
        never_answers_less(reach_back),
        w.len() == forward.len() == moves.len() + 1,
        forall|i: int| 0 <= i < forward.len() ==> #[trigger] w[i] <= forward[i],
        forall|i: int| 0 < i < moves.len() ==> #[trigger] keeps_its_bounds(
            moves,
            stop_before,
            rest,
            notch_free,
            reach_back,
            w,
            i,
        ),
        0 <= k < w.len(),
    ensures
        w[k] <= v[k],
    decreases w.len() - k,
{
    assert(w[k] <= forward[k]);
    if 0 < k < moves.len() {
        lemma_braked_dominates(
            moves,
            stop_before,
            rest,
            notch_free,
            forward,
            v,
            reach_back,
            w,
            k + 1,
        );
        assert(keeps_its_bounds(moves, stop_before, rest, notch_free, reach_back, w, k));
        assert(seam_braked(forward, v, answers(reach_back), k));
        let r = choose|r: i64|
            #[trigger] reaches(answers(reach_back), k, v[k + 1], r) && v[k] == lower(forward[k], r);
        assert(call_ensures(reach_back, (k as usize, v[k + 1]), Some(r)));
        let q = choose|q: i64|
            #[trigger] call_ensures(reach_back, (k as usize, w[k + 1]), Some(q)) && w[k] <= q;
        assert(q <= r);
    } else if k == 0 {
        assert(v[0] == forward[0]);
    } else {
        assert(v.last() == forward.last());
    }
}

/// An entry speed that is admitted keeps to the first move's flat ceiling, to its curvature
/// where it starts, and to what still brakes into the first planned seam, as far as
/// `exceeds` tells a speed that lies beyond another.
pub proof fn law_admitted_entry_keeps_to_the_first_move<X, B>(
    first: SeamMove,
    entry_v: i64,
    exceeds: X,
    reach_back: B,
    v: Seq<i64>,
) where X: Fn(i64, i64) -> bool, B: Fn(usize, i64) -> Option<i64>
    requires
        entry_admitted(first, entry_v, exceeds, reach_back, v),
        forall|a: i64, b: i64| #[trigger] call_ensures(exceeds, (a, b), false) ==> a <= b,
    ensures
        entry_v <= first.flat_ceiling,
        entry_v <= first.entry_limit,
        exists|r: i64|
            #[trigger] call_ensures(reach_back, (0usize, v[1]), Some(r)) && entry_v <= r,
{
    let limit = choose|limit: i64|
        {
            &&& #[trigger] says(exceeds, entry_v, limit, false)
            &&& reaches(answers(reach_back), 0, v[1], limit)
        };
    assert(call_ensures(exceeds, (entry_v, limit), false));
    assert(call_ensures(exceeds, (entry_v, entry_ceiling(first)), false));
    assert(call_ensures(reach_back, (0usize, v[1]), Some(limit)));
}

/// A refused window names the move it is refused for: an entry that is over-committed is
/// the first move's, and lies beyond what that move allows at its start or beyond what can
/// still brake through it; a divergence is of a move that some reach does not answer for or
/// whose jerk is limited. No window is refused for anything else.
pub proof fn law_refusal_names_its_move<N, X, F, B>(
    moves: Seq<SeamMove>,
    stop_before: Seq<bool>,
    entry_v: i64,
    rest: i64,
    notch_free: N,
    exceeds: X,
    reach: F,
    reach_back: B,
    error: VelocityError,
) where
    N: Fn(i64, i64) -> i64,
    X: Fn(i64, i64) -> bool,
    F: Fn(usize, i64) -> Option<i64>,
    B: Fn(usize, i64) -> Option<i64>,

    requires
        0 < moves.len(),
        seams_refused(
            moves,
            stop_before,
            entry_v,
            rest,
            notch_free,
            exceeds,
            reach,
            reach_back,
            error,
        ),
        forall|a: i64, b: i64| #[trigger] call_ensures(exceeds, (a, b), true) ==> a > b,
    ensures
        match error {
            VelocityError::OverCommitted { line_no } => {
                &&& line_no == moves[0].line_no
                &&& {
                    ||| entry_v > moves[0].flat_ceiling
                    ||| entry_v > moves[0].entry_limit
                    ||| exists|x: i64, r: i64|
                        #[trigger] call_ensures(reach_back, (0usize, x), Some(r)) && entry_v > r
                }
            },
            VelocityError::Diverged { line_no } => exists|j: int|
                {
                    &&& 0 <= j < moves.len()
                    &&& (#[trigger] moves[j]).line_no == line_no
                    &&& {
                        ||| !(moves[j].jerk is Unlimited)
                        ||| exists|x: i64| #[trigger]
                            call_ensures(reach, (j as usize, x), None::<i64>)
                        ||| exists|x: i64| #[trigger]
                            call_ensures(reach_back, (j as usize, x), None::<i64>)
                    }
                },
            _ => false,
        },
{
    if says(exceeds, entry_v, entry_ceiling(moves[0]), true) {
        assert(call_ensures(exceeds, (entry_v, entry_ceiling(moves[0])), true));
    }
    match error {
        VelocityError::Diverged { line_no } => {
            if forward_stuck(moves, stop_before, entry_v, rest, notch_free, reach, line_no) {
                let (seed, v, j) = choose|seed: Seq<i64>, v: Seq<i64>, j: int|
                    {
                        &&& seeded(moves, stop_before, entry_v, rest, notch_free, seed)
                        &&& #[trigger] forwarded_through(seed, v, answers(reach), j)
                        &&& 0 <= j < moves.len()
                        &&& unlimited(moves, j)
                        &&& stuck(moves[j], reach, j, v[j])
                        &&& line_no == moves[j].line_no
                    };
                assert(moves[j].line_no == line_no);
            } else if backward_stuck(
                moves,
                stop_before,
                entry_v,
                rest,
                notch_free,
                answers(reach),
                reach_back,
                line_no,
            ) {
                let (seed, forward, v, k) = choose|
                    seed: Seq<i64>,
                    forward: Seq<i64>,
                    v: Seq<i64>,
                    k: int,
                |
                    {
                        &&& seeded(moves, stop_before, entry_v, rest, notch_free, seed)
                        &&& #[trigger] forwarded(seed, forward, answers(reach))
                        &&& #[trigger] braked_after(forward, v, answers(reach_back), k)
                        &&& 0 < k < moves.len()
                        &&& diverges(reach_back, k, v[k + 1])
                        &&& line_no == moves[k].line_no
                    };
                assert(moves[k].line_no == line_no);
            } else {
                let (v, barrier) = choose|v: Seq<i64>, barrier: int|
                    {
                        &&& #[trigger] planned(
                            moves,
                            stop_before,
                            entry_v,
                            rest,
                            notch_free,
                            answers(reach),
                            answers(reach_back),
                            v,
                            barrier,
                        )
                        &&& entry_refused(moves[0], entry_v, exceeds, reach_back, v, error)
                    };
                assert(moves[0].line_no == line_no);
                assert(call_ensures(reach_back, (0usize, v[1]), None::<i64>));
            }
        },
        VelocityError::OverCommitted { .. } => {
            if !says(exceeds, entry_v, entry_ceiling(moves[0]), true) {
                let (v, barrier) = choose|v: Seq<i64>, barrier: int|
                    {
                        &&& #[trigger] planned(
                            moves,
                            stop_before,
                            entry_v,
                            rest,
                            notch_free,
                            answers(reach),
                            answers(reach_back),
                            v,
                            barrier,
                        )
                        &&& entry_refused(moves[0], entry_v, exceeds, reach_back, v, error)
                    };
                let limit = choose|limit: i64|
                    {
                        &&& #[trigger] says(exceeds, entry_v, limit, true)
                        &&& reaches(answers(reach_back), 0, v[1], limit)
                    };
                assert(call_ensures(exceeds, (entry_v, limit), true));
                assert(call_ensures(reach_back, (0usize, v[1]), Some(limit)));
            }
        },
        _ => {},
    }
}

/// The seams inside a window of `count` moves that stop.
pub open spec fn stops_within(stop_before: Seq<bool>, count: int) -> Set<int> {
    Set::new(|k: int| 0 < k < count && stop_before[k])
}

/// As many stops are counted as there are seams inside the window that stop; the entry's
/// flag never counts.
pub proof fn law_every_stop_is_counted(stop_before: Seq<bool>, count: nat)
    ensures
        stops_within(stop_before, count as int).finite(),
        stop_count(stop_before, count) == stops_within(stop_before, count as int).len(),
    decreases count,
{
    if count <= 1 {
        assert(stops_within(stop_before, count as int) =~= Set::<int>::empty());
    } else {
        let k = count - 1;
        law_every_stop_is_counted(stop_before, k as nat);
        if stop_before[k] {
            assert(stops_within(stop_before, count as int) =~= stops_within(
                stop_before,
                k,
            ).insert(k));
        } else {
            assert(stops_within(stop_before, count as int) =~= stops_within(stop_before, k));
        }
    }
}

/// The moves among the first `count` whose curvature allows less than their flat ceiling.
pub open spec fn curved_within(moves: Seq<SeamMove>, count: int) -> Set<int> {
    Set::new(|j: int| 0 <= j < count && moves[j].peak_limit < moves[j].flat_ceiling)
}

/// As many moves are counted as bound by their curvature as there are moves whose curvature
/// allows less than their flat ceiling.
pub proof fn law_every_curved_move_is_counted(moves: Seq<SeamMove>, count: nat)
    ensures
        curved_within(moves, count as int).finite(),
        curvature_bound(moves, count) == curved_within(moves, count as int).len(),
    decreases count,
{
    if count == 0 {
        assert(curved_within(moves, 0) =~= Set::<int>::empty());
    } else {
        let j = count - 1;
        law_every_curved_move_is_counted(moves, j as nat);
        if moves[j].peak_limit < moves[j].flat_ceiling {
            assert(curved_within(moves, count as int) =~= curved_within(moves, j).insert(j));
        } else {
            assert(curved_within(moves, count as int) =~= curved_within(moves, j));
        }
    }
}

/// A window with a jerk limit on some move is refused for the first such move, by its line
/// and its limit; every curved move is counted as bound by its curvature and every other one
/// by its feedrate.
pub proof fn law_first_limited_jerk_is_refused(
    moves: &Vec<SeamMove>,
    checked: Result<(), VelocityError>,
    counts: (u32, u32),
    j: int,
)
    requires
        call_ensures(check_jerk, (moves,), checked),
        call_ensures(count_bounds, (moves,), counts),
        0 <= j < moves@.len(),
        moves@[j].jerk is Finite,
        forall|i: int| 0 <= i < j ==> !((#[trigger] moves@[i]).jerk is Finite),
    ensures
        checked == Err::<(), VelocityError>(
            VelocityError::FiniteJerkUnsupported {
                line_no: moves@[j].line_no,
                jerk: moves@[j].jerk->Finite_0,
            },
        ),
        counts.0 == curved_within(moves@, moves@.len() as int).len(),
        counts.0 + counts.1 == moves@.len(),
{
    law_every_curved_move_is_counted(moves@, moves@.len());
    assert(moves@[j].jerk is Finite);
    if let Err(error) = checked {
        let first = choose|first: int|
            {
                &&& 0 <= first < moves@.len()
                &&& (#[trigger] moves@[first]).jerk matches JerkLimit::Finite(jerk)
                &&& error == VelocityError::FiniteJerkUnsupported {
                    line_no: moves@[first].line_no,
                    jerk,
                }
                &&& forall|i: int| 0 <= i < first ==> !(#[trigger] moves@[i].jerk is Finite)
            };
        assert(first == j);
    }
}

/// A seam between two moves is seeded at rest where the second one asks for a stop, and
/// elsewhere no faster than the flat ceilings of both and the notch's answer for the slower
/// ceiling and the tighter curvature. The entry is seeded at the entry speed and the end at
/// rest; the stops are marked and counted.
pub proof fn law_seed_keeps_to_both_moves<F: Fn(i64, i64) -> i64>(
    moves: &Vec<SeamMove>,
    stop_before: &Vec<bool>,
    entry_v: i64,
    rest: i64,
    notch_free: F,
    plan: SeamPlan,
    k: int,
)
    requires
        0 < moves@.len(),
        stop_before@.len() == moves@.len(),
        call_ensures(
            seed_seam_velocities::<F>,
            (moves, stop_before, entry_v, rest, notch_free),
            plan,
        ),
        0 < k < moves@.len(),
    ensures
        plan.v@.len() == moves@.len() + 1,
        plan.v@[0] == entry_v,
        plan.v@[moves@.len() as int] == rest,
        plan.is_anchor@[0] && plan.is_anchor@[moves@.len() as int],
        plan.is_anchor@[k] <==> stop_before@[k],
        plan.stops == stops_within(stop_before@, moves@.len() as int).len(),
        stop_before@[k] ==> plan.v@[k] == rest,
        !stop_before@[k] ==> plan.v@[k] <= moves@[k - 1].flat_ceiling && plan.v@[k]
            <= moves@[k].flat_ceiling,
        !stop_before@[k] && only_lowers(notch_free) ==> plan.v@[k] <= moves@[k - 1].exit_limit
            && plan.v@[k] <= moves@[k].entry_limit,
        !stop_before@[k] ==> plan.v@[k] == moves@[k - 1].flat_ceiling || plan.v@[k]
            == moves@[k].flat_ceiling || exists|ceiling: i64, limit: i64|
            {
                &&& ceiling == moves@[k - 1].flat_ceiling || ceiling == moves@[k].flat_ceiling
                &&& limit == moves@[k - 1].exit_limit || limit == moves@[k].entry_limit
                &&& #[trigger] call_ensures(notch_free, (ceiling, limit), plan.v@[k])
            },
{
    law_every_stop_is_counted(stop_before@, moves@.len());
    assert(seam_seeded(moves@, stop_before@, rest, notch_free, plan.v@, k));
    if !stop_before@[k] {
        let r = choose|r: i64|
            {
                &&& #[trigger] combines(
                    notch_free,
                    seam_ceiling(moves@, k),
                    seam_limit(moves@, k),
                    r,
                )
                &&& plan.v@[k] == lower(seam_ceiling(moves@, k), r)
            };
        assert(call_ensures(notch_free, (seam_ceiling(moves@, k), seam_limit(moves@, k)), r));
    }
}

/// Going forward, every seam holds at most its seed and at most what its move reaches from
/// the speed that the seam before it holds, and one of the two exactly. Going backward,
/// every inner seam holds at most what it held and at most what still brakes into the seam
/// after it, and one of the two exactly; the entry and the end keep their speeds.
pub proof fn law_each_sweep_holds_seams_to_their_neighbours<
    F: Fn(usize, i64) -> Option<i64>,
    B: Fn(usize, i64) -> Option<i64>,
>(
    moves: &Vec<SeamMove>,
    v: &mut Vec<i64>,
    reach: F,
    w: &mut Vec<i64>,
    reach_back: B,
    barrier: usize,
    k: int,
)
    requires
        call_ensures(forward_pass::<F>, (moves, v, &reach), Ok::<(), VelocityError>(())),
        call_ensures(
            reverse_brake_envelope::<B>,
            (moves, w, &reach_back),
            Ok::<usize, VelocityError>(barrier),
        ),
        0 < moves@.len(),
        old(v)@.len() == moves@.len() + 1,
        old(w)@.len() == moves@.len() + 1,
        0 < k <= moves@.len(),
    ensures
        final(v)@.len() == old(v)@.len(),
        final(v)@[0] == old(v)@[0],
        final(v)@[k] <= old(v)@[k],
        exists|r: i64|
            {
                &&& #[trigger] call_ensures(reach, ((k - 1) as usize, final(v)@[k - 1]), Some(r))
                &&& final(v)@[k] <= r
                &&& final(v)@[k] == r || final(v)@[k] == old(v)@[k]
            },
        final(w)@.len() == old(w)@.len(),
        final(w)@[0] == old(w)@[0],
        k == moves@.len() ==> final(w)@[k] == old(w)@[k],
        final(w)@[k] <= old(w)@[k],
        k < moves@.len() ==> exists|r: i64|
            {
                &&& #[trigger] call_ensures(reach_back, (k as usize, final(w)@[k + 1]), Some(r))
                &&& final(w)@[k] <= r
                &&& final(w)@[k] == r || final(w)@[k] == old(w)@[k]
            },
        barrier < moves@.len(),
        barrier < k < moves@.len() ==> final(w)@[k] < old(w)@[k],
        final(w)@[barrier as int] == old(w)@[barrier as int],
{
    assert(forwarded(old(v)@, final(v)@, answers(reach)));
    assert(seam_forwarded(old(v)@, final(v)@, answers(reach), k));
    let r = choose|r: i64|
        #[trigger] reaches(answers(reach), k - 1, final(v)@[k - 1], r) && final(v)@[k] == lower(
            old(v)@[k],
            r,
        );
    assert(call_ensures(reach, ((k - 1) as usize, final(v)@[k - 1]), Some(r)));
    assert(braked(old(w)@, final(w)@, answers(reach_back)));
    assert(final(w)@.last() == old(w)@.last());
    assert(final(w)@[0] == old(w)@[0]);
    if k < moves@.len() {
        assert(seam_braked(old(w)@, final(w)@, answers(reach_back), k));
        let q = choose|q: i64|
            #[trigger] reaches(answers(reach_back), k, final(w)@[k + 1], q) && final(w)@[k]
                == lower(old(w)@[k], q);
        assert(call_ensures(reach_back, (k as usize, final(w)@[k + 1]), Some(q)));
    }
}

/// The speeds that a plan hands out are those of its seams: it enters at the entry speed,
/// rests where a stop is asked for and at the end, keeps to both moves of every corner, can
/// be braked from everywhere, and is nowhere faster than what can be reached from its entry.
pub proof fn law_planned_seams_keep_every_bound<N, X, F, B>(
    moves: &Vec<SeamMove>,
    stop_before: &Vec<bool>,
    entry_v: i64,
    rest: i64,
    notch_free: N,
    exceeds: X,
    reach: F,
    reach_back: B,
    plan: SeamPlan,
    barrier: usize,
    k: int,
) -> (forward: Seq<i64>) where
    N: Fn(i64, i64) -> i64,
    X: Fn(i64, i64) -> bool,
    F: Fn(usize, i64) -> Option<i64>,
    B: Fn(usize, i64) -> Option<i64>,

    requires
        0 < moves@.len() == stop_before@.len(),
        call_ensures(
            plan_seams::<N, X, F, B>,
            (moves, stop_before, entry_v, rest, notch_free, exceeds, reach, reach_back),
            Ok::<(SeamPlan, usize), VelocityError>((plan, barrier)),
        ),
        0 < k < moves@.len(),
    ensures
        plan.v@.len() == moves@.len() + 1,
        plan.v@[0] == entry_v,
        plan.v@[moves@.len() as int] <= rest,
        plan.is_anchor@[k] <==> stop_before@[k],
        stop_before@[k] ==> plan.v@[k] <= rest,
        !stop_before@[k] ==> plan.v@[k] <= moves@[k - 1].flat_ceiling && plan.v@[k]
            <= moves@[k].flat_ceiling,
        !stop_before@[k] && only_lowers(notch_free) ==> plan.v@[k] <= moves@[k - 1].exit_limit
            && plan.v@[k] <= moves@[k].entry_limit,
        exists|r: i64|
            #[trigger] call_ensures(reach_back, (k as usize, plan.v@[k + 1]), Some(r))
                && plan.v@[k] <= r,
        forward.len() == moves@.len() + 1,
        forward[0] == entry_v,
        forall|i: int| 0 <= i <= moves@.len() ==> plan.v@[i] <= #[trigger] forward[i],
        exists|r: i64|
            #[trigger] call_ensures(reach, ((k - 1) as usize, forward[k - 1]), Some(r))
                && forward[k] <= r,
        moves@[k].jerk is Unlimited,
        call_ensures(exceeds, (entry_v, lower(moves@[0].flat_ceiling, moves@[0].entry_limit)), false),
{
    if !stop_before@[k] {
        law_corner_keeps_to_both_moves(
            moves@,
            stop_before@,
            entry_v,
            rest,
            notch_free,
            reach,
            reach_back,
            plan.v@,
            barrier as int,
            k,
        );
    }
    law_anchors_are_the_ends_and_the_stops(
        moves@,
        stop_before@,
        entry_v,
        rest,
        notch_free,
        reach,
        reach_back,
        plan.v@,
        plan.is_anchor@,
        barrier as int,
        k,
    );
    law_anchors_are_the_ends_and_the_stops(
        moves@,
        stop_before@,
        entry_v,
        rest,
        notch_free,
        reach,
        reach_back,
        plan.v@,
        plan.is_anchor@,
        barrier as int,
        moves@.len() as int,
    );
    law_every_move_can_be_braked(
        moves@,
        stop_before@,
        entry_v,
        rest,
        notch_free,
        reach,
        reach_back,
        plan.v@,
        barrier as int,
        k,
    );
    let (seed, forward) = choose|seed: Seq<i64>, forward: Seq<i64>|
        {
            &&& seeded(moves@, stop_before@, entry_v, rest, notch_free, seed)
            &&& #[trigger] forwarded(seed, forward, answers(reach))
            &&& braked(forward, plan.v@, answers(reach_back))
            &&& is_barrier(forward, plan.v@, barrier as int)
        };
    assert(seam_forwarded(seed, forward, answers(reach), k));
    let r = choose|r: i64|
        #[trigger] reaches(answers(reach), k - 1, forward[k - 1], r) && forward[k] == lower(
            seed[k],
            r,
        );
    assert(call_ensures(reach, ((k - 1) as usize, forward[k - 1]), Some(r)));
    assert forall|i: int| 0 <= i <= moves@.len() implies plan.v@[i] <= #[trigger] forward[i] by {
        lemma_held(forward, plan.v@, answers(reach_back), i);
    }
    assert(moves@[k].jerk is Unlimited);
    assert(says(exceeds, entry_v, entry_ceiling(moves@[0]), false));
    forward
}

} // verus!
