//! Drip cohorts: lanes that advance together while homing, a window at a time.

use crate::pump::lanes::{AxisKey, Pump};
use vstd::prelude::*;

verus! {

/// The longest stretch of motion a drip keeps ahead of execution.
pub const DRIP_WINDOW_NS: u64 = 100_000_000;

/// A request to drip some lanes. A step that takes longer than the timeout fails.
#[derive(Debug)]
pub struct DripArm {
    pub cohort: u64,
    pub participants: Vec<AxisKey>,
    pub timeout_ns: u64,
}

/// One lane of a cohort: its executed count when the cohort was armed, and when
/// the cohort last saw it move.
#[derive(Debug, Clone, Copy, PartialEq, Eq, Structural)]
pub struct DripParticipant {
    pub key: AxisKey,
    pub baseline: u32,
    pub last_retired: u32,
}

/// The armed cohort. `step_deadline_ns` is on the caller's monotonic clock.
pub struct DripCohort {
    pub id: u64,
    pub participants: Vec<DripParticipant>,
    pub timeout_ns: u64,
    pub step_deadline_ns: u64,
    pub execution_floor: u32,
}

/// No lane takes part twice.
pub open spec fn distinct_participants(participants: Seq<DripParticipant>) -> bool {
    forall|i: int, j: int|
        0 <= i < j < participants.len() ==> participants[i].key != participants[j].key
}

/// `i` is the place of the first lane with this key.
pub open spec fn first_lane<S>(pump: Pump<S>, key: AxisKey, i: int) -> bool {
    &&& 0 <= i < pump.lanes@.len()
    &&& pump.lanes@[i].key == key
    &&& forall|j: int| 0 <= j < i ==> (#[trigger] pump.lanes@[j]).key != key
}

/// The place of a key's lane, where the pump has one.
pub open spec fn lane_place<S>(pump: Pump<S>, key: AxisKey) -> int {
    choose|i: int| first_lane(pump, key, i)
}

pub open spec fn has_lane<S>(pump: Pump<S>, key: AxisKey) -> bool {
    exists|i: int| first_lane(pump, key, i)
}

/// What one participant has executed since the cohort was armed.
pub open spec fn executed_by<S>(participant: DripParticipant, pump: Pump<S>) -> u32 {
    crate::pump::execution_credit::wrap_diff(
        if has_lane(pump, participant.key) {
            pump.lanes@[lane_place(pump, participant.key)].queue.credit@.totals.retired
        } else {
            0
        },
        participant.baseline,
    )
}

/// The participant still has work: spans that wait, or spans not yet played.
pub open spec fn active<S>(participant: DripParticipant, pump: Pump<S>) -> bool {
    has_lane(pump, participant.key) && !pump.lanes@[lane_place(
        pump,
        participant.key,
    )].queue.spec_idle()
}

/// `floor` is the least executed count among the active participants, and zero
/// where none is active.
pub open spec fn is_execution_floor<S>(
    participants: Seq<DripParticipant>,
    pump: Pump<S>,
    floor: u32,
) -> bool {
    &&& forall|i: int|
        0 <= i < participants.len() && active(#[trigger] participants[i], pump) ==> floor
            <= executed_by(participants[i], pump)
    &&& (exists|i: int|
        0 <= i < participants.len() && active(#[trigger] participants[i], pump) && floor
            == executed_by(participants[i], pump)) || (floor == 0 && forall|i: int|
        0 <= i < participants.len() ==> !active(#[trigger] participants[i], pump))
}

proof fn lemma_first_lane_is_unique<S>(pump: Pump<S>, key: AxisKey, i: int, j: int)
    requires
        first_lane(pump, key, i),
        first_lane(pump, key, j),
    ensures
        i == j,
{
    if i < j {
        assert(pump.lanes@[i].key != key);
    }
    if j < i {
        assert(pump.lanes@[j].key != key);
    }
}

fn find_lane<S>(pump: &Pump<S>, key: AxisKey) -> (place: Option<usize>)
    ensures
        match place {
            Some(i) => first_lane(*pump, key, i as int) && has_lane(*pump, key) && lane_place(
                *pump,
                key,
            ) == i,
            None => !has_lane(*pump, key),
        },
{
    let mut index: usize = 0;
    while index < pump.lanes.len()
        invariant
            index <= pump.lanes@.len(),
            forall|i: int| 0 <= i < index ==> (#[trigger] pump.lanes@[i]).key != key,
        decreases pump.lanes@.len() - index,
    {
        if pump.lanes[index].key == key {
            assert(first_lane(*pump, key, index as int));
            proof {
                lemma_first_lane_is_unique(*pump, key, index as int, lane_place(*pump, key));
            }
            return Some(index);
        }
        index += 1;
    }
    None
}

impl DripCohort {
    pub open spec fn wf(&self) -> bool {
        distinct_participants(self.participants@)
    }

    /// What the lane `key` has executed since the cohort was armed.
    pub fn executed<S>(&self, key: AxisKey, pump: &Pump<S>) -> (count: u32)
        requires
            self.wf(),
            exists|i: int|
                0 <= i < self.participants@.len() && (#[trigger] self.participants@[i]).key == key,
        ensures
            forall|i: int|
                0 <= i < self.participants@.len() && (#[trigger] self.participants@[i]).key == key
                    ==> count == executed_by(self.participants@[i], *pump),
    {
        let retired: u32 = match find_lane(pump, key) {
            Some(place) => pump.lanes[place].queue.credit.snapshot().retired,
            None => 0,
        };
        let mut index: usize = 0;
        while index < self.participants.len() && self.participants[index].key != key
            invariant
                index <= self.participants@.len(),
                forall|i: int|
                    0 <= i < index ==> (#[trigger] self.participants@[i]).key != key,
            decreases self.participants@.len() - index,
        {
            index += 1;
        }
        let baseline: u32 = self.participants[index].baseline;
        retired.wrapping_sub(baseline)
    }

    /// The least executed count among the lanes that still have work.
    pub fn active_execution_floor<S>(&self, pump: &Pump<S>) -> (floor: u32)
        requires
            self.wf(),
        ensures
            is_execution_floor(self.participants@, *pump, floor),
    {
        let mut least: Option<u32> = None;
        let mut index: usize = 0;
        while index < self.participants.len()
            invariant
                self.wf(),
                index <= self.participants@.len(),
                match least {
                    Some(floor) => is_execution_floor(
                        self.participants@.take(index as int),
                        *pump,
                        floor,
                    ) && exists|i: int|
                        0 <= i < index && active(#[trigger] self.participants@[i], *pump) && floor
                            == executed_by(self.participants@[i], *pump),
                    None => forall|i: int|
                        0 <= i < index ==> !active(#[trigger] self.participants@[i], *pump),
                },
            decreases self.participants@.len() - index,
        {
            let participant = self.participants[index];
            let ghost earlier = self.participants@.take(index as int);
            let ghost upto = self.participants@.take(index + 1);
            assert(upto =~= earlier.push(participant));
            if let Some(place) = find_lane(pump, participant.key) {
                if !pump.lanes[place].queue.is_idle() {
                    assert(active(self.participants@[index as int], *pump));
                    let count: u32 = self.executed(participant.key, pump);
                    let lower: u32 = match least {
                        Some(floor) => if floor < count {
                            floor
                        } else {
                            count
                        },
                        None => count,
                    };
                    proof {
                        let ghost found = if least is Some && least->0 < count {
                            choose|i: int|
                                0 <= i < index && active(#[trigger] self.participants@[i], *pump)
                                    && least->0 == executed_by(self.participants@[i], *pump)
                        } else {
                            index as int
                        };
                        assert(active(self.participants@[found], *pump));
                        assert(lower == executed_by(self.participants@[found], *pump));
                        assert(upto[found] == self.participants@[found]);
                        assert forall|i: int|
                            0 <= i < upto.len() && active(#[trigger] upto[i], *pump) implies lower
                            <= executed_by(upto[i], *pump) by {
                            assert(upto[i] == self.participants@[i]);
                            if i < index {
                                assert(earlier[i] == upto[i]);
                            }
                        }
                    }
                    least = Some(lower);
                }
            }
            proof {
                if !active(participant, *pump) && least is Some {
                    let floor = least->0;
                    let kept = choose|i: int|
                        0 <= i < index && active(#[trigger] self.participants@[i], *pump) && floor
                            == executed_by(self.participants@[i], *pump);
                    assert(upto[kept] == self.participants@[kept]);
                    assert forall|i: int|
                        0 <= i < upto.len() && active(#[trigger] upto[i], *pump) implies floor
                        <= executed_by(upto[i], *pump) by {
                        if i < index {
                            assert(earlier[i] == upto[i]);
                        }
                    }
                }
            }
            index += 1;
        }
        assert(self.participants@.take(index as int) =~= self.participants@);
        match least {
            Some(floor) => floor,
            None => 0,
        }
    }
}

/// The floor is determined by the participants and the lanes alone.
pub proof fn law_execution_floor_is_unique<S>(
    participants: Seq<DripParticipant>,
    pump: Pump<S>,
    a: u32,
    b: u32,
)
    requires
        is_execution_floor(participants, pump, a),
        is_execution_floor(participants, pump, b),
    ensures
        a == b,
{
}

/// Lane `i` is the first of its key and still has work: spans that wait, or pushed work
/// that was neither retired nor abandoned.
pub open spec fn works_on<S>(pump: Pump<S>, key: AxisKey, i: int) -> bool {
    let totals = pump.lanes@[i].queue.credit@.totals;
    &&& 0 <= i < pump.lanes@.len()
    &&& pump.lanes@[i].key == key
    &&& forall|j: int| 0 <= j < i ==> (#[trigger] pump.lanes@[j]).key != key
    &&& pump.lanes@[i].queue.spans@.len() > 0 || (totals.pushed - totals.retired
        - totals.abandoned) % 0x1_0000_0000 != 0
}

/// What lane `i` retired since the baseline, modulo the counter's width.
pub open spec fn retired_since<S>(pump: Pump<S>, i: int, baseline: u32) -> int {
    (pump.lanes@[i].queue.credit@.totals.retired - baseline) % 0x1_0000_0000
}

/// A participant has executed what the first lane of its key retired since the baseline;
/// a key without a lane counts on from zero. Counts wrap.
pub proof fn law_executed_counts_from_the_baseline<S>(
    participant: DripParticipant,
    pump: Pump<S>,
    i: int,
)
    ensures
        0 <= i < pump.lanes@.len() && pump.lanes@[i].key == participant.key && (forall|j: int|
            0 <= j < i ==> (#[trigger] pump.lanes@[j]).key != participant.key) ==> executed_by(
            participant,
            pump,
        ) == retired_since(pump, i, participant.baseline),
        (forall|j: int|
            0 <= j < pump.lanes@.len() ==> (#[trigger] pump.lanes@[j]).key != participant.key)
            ==> executed_by(participant, pump) == (0 - participant.baseline) % 0x1_0000_0000,
{
    let key = participant.key;
    if 0 <= i < pump.lanes@.len() && pump.lanes@[i].key == key && (forall|j: int|
        0 <= j < i ==> (#[trigger] pump.lanes@[j]).key != key) {
        assert(first_lane(pump, key, i));
        lemma_first_lane_is_unique(pump, key, i, lane_place(pump, key));
    }
}

proof fn lemma_working_lane_is_active<S>(participant: DripParticipant, pump: Pump<S>, i: int)
    requires
        works_on(pump, participant.key, i),
    ensures
        active(participant, pump),
        executed_by(participant, pump) == retired_since(pump, i, participant.baseline),
{
    assert(first_lane(pump, participant.key, i));
    lemma_first_lane_is_unique(pump, participant.key, i, lane_place(pump, participant.key));
}

/// No working participant is behind the floor, and one of them stands exactly at it; with
/// no working participant the floor is zero.
pub proof fn law_floor_is_the_slowest_working_lane<S>(cohort: DripCohort, pump: Pump<S>, floor: u32)
    requires
        call_ensures(DripCohort::active_execution_floor::<S>, (&cohort, &pump), floor),
        cohort.wf(),
    ensures
        forall|p: int, i: int|
            0 <= p < cohort.participants@.len() && #[trigger] works_on(
                pump,
                cohort.participants@[p].key,
                i,
            ) ==> floor <= retired_since(pump, i, cohort.participants@[p].baseline),
        (exists|p: int, i: int|
            0 <= p < cohort.participants@.len() && #[trigger] works_on(
                pump,
                cohort.participants@[p].key,
                i,
            ) && floor == retired_since(pump, i, cohort.participants@[p].baseline)) || (floor == 0
            && forall|p: int, i: int|
            0 <= p < cohort.participants@.len() ==> !#[trigger] works_on(
                pump,
                cohort.participants@[p].key,
                i,
            )),
{
    let participants = cohort.participants@;
    assert forall|p: int, i: int|
        0 <= p < participants.len() && #[trigger] works_on(pump, participants[p].key, i) implies
        floor <= retired_since(pump, i, participants[p].baseline) && active(
        participants[p],
        pump,
    ) by {
        lemma_working_lane_is_active(participants[p], pump, i);
    }
    if exists|p: int|
        0 <= p < participants.len() && active(#[trigger] participants[p], pump) && floor
            == executed_by(participants[p], pump) {
        let p = choose|p: int|
            0 <= p < participants.len() && active(#[trigger] participants[p], pump) && floor
                == executed_by(participants[p], pump);
        let i = lane_place(pump, participants[p].key);
        assert(works_on(pump, participants[p].key, i));
    }
}

} // verus!
