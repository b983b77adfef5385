//! Starting a homing run: what is asked for is checked, the lifecycle is taken, and the
//! drip is armed before the run becomes active. A start that fails on the way gives
//! the lifecycle back.

use crate::homing::query::{find_driver, McuAxes};
use crate::homing::state::{
    copied_keys, HomingRun, HomingState, LaneCleanup, LifecycleView, PhaseView, RemoteFreeze,
    RunView, TripMember,
};
use crate::pump::drip::DripArm;
use crate::pump::lanes::AxisKey;
use crate::text::append_decimal;
use std::collections::HashMap;
use vstd::prelude::*;
use vstd::std_specs::hash::group_hash_axioms;
use vstd::string::*;

verus! {

broadcast use group_hash_axioms;

/// How long a homing drip may take over one step.
pub const HOMING_DRIP_TIMEOUT_NS: u64 = 5_000_000_000;

/// The motor an endstop is bound to: its mcu, its index, its stepper and its oid.
pub type FreezeSpec = (u32, u8, u8, u32);

/// An endstop as a caller names it: its id, its mcu and the motor bound to it.
pub type EndstopSpec = (u8, u32, Option<FreezeSpec>);

pub open spec fn duplicate_text(freeze: RemoteFreeze) -> Seq<char> {
    "home_axis: duplicate motor binding for mcu "@ + crate::text::decimal(
        freeze.motor_mcu as nat,
    ) + " oid "@ + crate::text::decimal(freeze.stepper_oid as nat)
}

/// Both endstops are bound, and to the same motor.
pub open spec fn same_motor(a: TripMember, b: TripMember) -> bool {
    match (a.remote_freeze, b.remote_freeze) {
        (Some(one), Some(other)) => one.motor_mcu == other.motor_mcu && one.stepper_oid
            == other.stepper_oid,
        _ => false,
    }
}

/// The motor of the endstop at `index` is bound to an earlier one already.
pub open spec fn repeats(members: Seq<TripMember>, index: int) -> bool {
    exists|i: int| 0 <= i < index && same_motor(#[trigger] members[i], members[index])
}

/// No motor is bound twice.
pub open spec fn bindings_distinct(members: Seq<TripMember>) -> bool {
    forall|index: int| 0 <= index < members.len() ==> !#[trigger] repeats(members, index)
}

/// Refuses endstops of which two are bound to one motor, whatever their indices say of
/// it: a motor has one identity, its mcu and oid.
pub fn validate_trip_members(members: &[TripMember]) -> (outcome: Result<(), String>)
    ensures
        outcome is Ok <==> bindings_distinct(members@),
        outcome matches Err(reason) ==> exists|index: int|
            {
                &&& 0 <= index < members@.len()
                &&& #[trigger] repeats(members@, index)
                &&& forall|i: int| 0 <= i < index ==> !#[trigger] repeats(members@, i)
                &&& reason@ == duplicate_text(members@[index].remote_freeze->0)
            },
{
    let mut index: usize = 0;
    while index < members.len()
        invariant
            index <= members@.len(),
            forall|i: int| 0 <= i < index ==> !#[trigger] repeats(members@, i),
        decreases members@.len() - index,
    {
        if let Some(freeze) = members[index].remote_freeze {
            let mut earlier: usize = 0;
            while earlier < index
                invariant
                    earlier <= index < members@.len(),
                    members@[index as int].remote_freeze == Some(freeze),
                    forall|i: int| 0 <= i < index ==> !#[trigger] repeats(members@, i),
                    forall|i: int|
                        0 <= i < earlier ==> !same_motor(
                            #[trigger] members@[i],
                            members@[index as int],
                        ),
                decreases index - earlier,
            {
                if let Some(other) = members[earlier].remote_freeze {
                    if other.motor_mcu == freeze.motor_mcu && other.stepper_oid
                        == freeze.stepper_oid {
                        assert(same_motor(members@[earlier as int], members@[index as int]));
                        assert(repeats(members@, index as int));
                        let mut reason = "home_axis: duplicate motor binding for mcu ".to_owned();
                        append_decimal(&mut reason, freeze.motor_mcu as u64);
                        reason.append(" oid ");
                        append_decimal(&mut reason, freeze.stepper_oid as u64);
                        return Err(reason);
                    }
                }
                earlier += 1;
            }
        }
        assert(!repeats(members@, index as int));
        index += 1;
    }
    Ok(())
}

/// The endstop a caller names.
pub open spec fn member_of(endstop: EndstopSpec) -> TripMember {
    TripMember {
        endstop_mcu: endstop.1,
        endstop_id: endstop.0,
        remote_freeze: match endstop.2 {
            Some(freeze) => Some(
                RemoteFreeze {
                    motor_mcu: freeze.0,
                    motor_idx: freeze.1,
                    stepper_idx: freeze.2,
                    stepper_oid: freeze.3,
                },
            ),
            None => None,
        },
    }
}

/// The endstops a caller names, in order.
pub fn trip_members(endstops: &[EndstopSpec]) -> (members: Vec<TripMember>)
    ensures
        members@ == endstops@.map_values(|endstop: EndstopSpec| member_of(endstop)),
{
    let mut members: Vec<TripMember> = Vec::new();
    let mut index: usize = 0;
    let ghost as_member = |endstop: EndstopSpec| member_of(endstop);
    while index < endstops.len()
        invariant
            index <= endstops@.len(),
            as_member == (|endstop: EndstopSpec| member_of(endstop)),
            members@ == endstops@.take(index as int).map_values(as_member),
        decreases endstops@.len() - index,
    {
        let (endstop_id, endstop_mcu, freeze): (u8, u32, Option<FreezeSpec>) = endstops[index];
        let remote_freeze = match freeze {
            Some((motor_mcu, motor_idx, stepper_idx, stepper_oid)) => Some(
                RemoteFreeze { motor_mcu, motor_idx, stepper_idx, stepper_oid },
            ),
            None => None,
        };
        members.push(TripMember { endstop_mcu, endstop_id, remote_freeze });
        assert(members@ =~= endstops@.take(index + 1).map_values(as_member));
        index += 1;
    }
    assert(endstops@.take(index as int) =~= endstops@);
    members
}

pub open spec fn axis_range_text(axis: u8) -> Seq<char> {
    "home_axis: axis "@ + crate::text::decimal(axis as nat) + " out of range (0=X, 1=Y, 2=Z)"@
}

pub open spec fn axis_missing_text(axis: u8) -> Seq<char> {
    "home_axis: axis "@ + crate::text::decimal(axis as nat)
        + " not found in mcu_axis_configs (init_planner not called?)"@
}

/// The lane of the axis that is homed: that of the first mcu that drives it.
pub fn resolve_homing_target(axis: u8, configs: &[McuAxes]) -> (target: Result<AxisKey, String>)
    ensures
        match target {
            Ok(key) => axis <= 2 && key.axis == axis && exists|place: int| #[trigger]
                crate::homing::query::first_driver(configs@, axis as usize, place) && key.mcu_id
                    == configs@[place].mcu_id,
            Err(reason) => if axis > 2 {
                reason@ == axis_range_text(axis)
            } else {
                !crate::homing::query::driven(configs@, axis as usize) && reason@
                    == axis_missing_text(axis)
            },
        },
{
    if axis > 2 {
        let mut reason = "home_axis: axis ".to_owned();
        append_decimal(&mut reason, axis as u64);
        reason.append(" out of range (0=X, 1=Y, 2=Z)");
        return Err(reason);
    }
    match find_driver(configs, axis as usize) {
        Some(place) => Ok(AxisKey { mcu_id: configs[place].mcu_id, axis }),
        None => {
            let mut reason = "home_axis: axis ".to_owned();
            append_decimal(&mut reason, axis as u64);
            reason.append(" not found in mcu_axis_configs (init_planner not called?)");
            Err(reason)
        },
    }
}

/// Hands out a new number for each run.
#[derive(Debug, Clone, Copy, PartialEq, Eq, Structural)]
pub struct CohortCounter {
    pub next: u64,
}

impl CohortCounter {
    pub fn new() -> (counter: Self)
        ensures
            counter.next == 1,
    {
        CohortCounter { next: 1 }
    }

    pub fn next_homing_cohort(&mut self) -> (cohort: u64)
        ensures
            cohort == old(self).next,
            final(self).next == if old(self).next == u64::MAX {
                0
            } else {
                (old(self).next + 1) as u64
            },
    {
        let cohort: u64 = self.next;
        self.next = self.next.wrapping_add(1);
        cohort
    }
}

/// Where a start stands: what it waits to hear.
#[derive(Debug, Clone, Copy, PartialEq, Eq, Structural)]
pub enum HomeStage {
    ClearingLatch,
    Quiescing,
    Seeding,
    ArmingDrip,
    StartingMove,
    Dispatching,
    Started,
    Failed,
}

/// What came of asking the pump to drip.
#[derive(Debug, Clone, Copy, PartialEq, Eq, Structural)]
pub enum DripAnswer {
    Armed,
    NotStarted,
    ChannelClosed,
}

/// What came of waiting for the homing move to be dispatched.
#[derive(Debug)]
pub enum DispatchAnswer {
    Dispatched,
    Failed(String),
    TimedOut,
}

/// One start on its way: the run it will make, of which the start position and the
/// window are settled as it goes.
#[derive(Debug)]
pub struct HomeStart<P> {
    pub run: HomingRun<P>,
    pub stage: HomeStage,
}

pub open spec fn no_endstops_text() -> Seq<char> {
    "home_axis: endstops list must not be empty"@
}

pub open spec fn no_planner_text() -> Seq<char> {
    "home_axis: planner not initialized"@
}

/// Why a start failed, and what the pump is told of it.
#[derive(Debug)]
pub struct StartFailure {
    pub reason: String,
    pub cleanup: LaneCleanup,
}

impl StartFailure {
    /// The start of `run` failed for `reason`: its lanes are flushed and its cohort is
    /// disarmed.
    pub open spec fn tells<P>(self, run: RunView<P>, reason: Seq<char>) -> bool {
        self.reason@ == reason && self.cleanup.clears(run)
    }
}

/// The lifecycle after a start has failed: given back.
pub open spec fn given_back<P>(state: LifecycleView<P>) -> LifecycleView<P> {
    LifecycleView {
        phase: PhaseView::Idle,
        pending_trips: Seq::empty(),
        failure: None,
        consumer_cancelled: false,
        drip_active: false,
        ..state
    }
}

/// The endstops whose arm times count for the run.
pub open spec fn trip_ids(members: Seq<TripMember>) -> Seq<(u32, u8)> {
    members.map_values(|member: TripMember| (member.endstop_mcu, member.endstop_id))
}

fn ids_of(members: &Vec<TripMember>) -> (ids: Vec<(u32, u8)>)
    ensures
        ids@ == trip_ids(members@),
{
    let mut ids: Vec<(u32, u8)> = Vec::new();
    let mut index: usize = 0;
    while index < members.len()
        invariant
            index <= members@.len(),
            ids@ == trip_ids(members@.take(index as int)),
        decreases members@.len() - index,
    {
        ids.push((members[index].endstop_mcu, members[index].endstop_id));
        assert(ids@ =~= trip_ids(members@.take(index + 1)));
        index += 1;
    }
    assert(members@.take(index as int) =~= members@);
    ids
}

/// The first thing wrong with what is asked for, if anything is: no endstops, a motor
/// bound twice, no planner, or an axis that cannot be homed.
pub fn check_home_request(
    endstops: &[EndstopSpec],
    has_planner: bool,
    axis: u8,
    configs: &[McuAxes],
) -> (checked: Result<(Vec<TripMember>, AxisKey), String>)
    ensures
        ({
            let members = endstops@.map_values(|endstop: EndstopSpec| member_of(endstop));
            match checked {
                Ok((listed, key)) => {
                    &&& endstops@.len() > 0
                    &&& listed@ == members
                    &&& bindings_distinct(members)
                    &&& has_planner
                    &&& axis <= 2 && key.axis == axis
                    &&& exists|place: int| #[trigger]
                        crate::homing::query::first_driver(configs@, axis as usize, place)
                            && key.mcu_id == configs@[place].mcu_id
                },
                Err(reason) => if endstops@.len() == 0 {
                    reason@ == no_endstops_text()
                } else if !bindings_distinct(members) {
                    exists|index: int|
                        {
                            &&& 0 <= index < members.len()
                            &&& #[trigger] repeats(members, index)
                            &&& forall|i: int| 0 <= i < index ==> !#[trigger] repeats(members, i)
                            &&& reason@ == duplicate_text(members[index].remote_freeze->0)
                        }
                } else if !has_planner {
                    reason@ == no_planner_text()
                } else if axis > 2 {
                    reason@ == axis_range_text(axis)
                } else {
                    !crate::homing::query::driven(configs@, axis as usize) && reason@
                        == axis_missing_text(axis)
                },
            }
        }),
{
    if endstops.len() == 0 {
        return Err("home_axis: endstops list must not be empty".to_owned());
    }
    let members = trip_members(endstops);
    match validate_trip_members(members.as_slice()) {
        Ok(()) => {},
        Err(reason) => {
            return Err(reason);
        },
    }
    if !has_planner {
        return Err("home_axis: planner not initialized".to_owned());
    }
    match resolve_homing_target(axis, configs) {
        Ok(key) => Ok((members, key)),
        Err(reason) => Err(reason),
    }
}

impl<P: Copy> HomeStart<P> {
    /// The start holds the lifecycle: it is registering the start's run.
    pub open spec fn holds(&self, state: LifecycleView<P>) -> bool {
        state.registering(self.run.cohort)
    }

    /// Takes the lifecycle for a run.
    pub fn begin(
        state: &mut HomingState<P>,
        cohort: u64,
        members: Vec<TripMember>,
        axis_key: AxisKey,
        all_axis_keys: Vec<AxisKey>,
        start_pos: P,
    ) -> (start: Result<HomeStart<P>, String>)
        ensures
            match start {
                Ok(begun) => {
                    &&& old(state)@.phase is Idle
                    &&& final(state)@ == (LifecycleView {
                        phase: PhaseView::Registering(cohort, axis_key.mcu_id),
                        ..old(state)@
                    })
                    &&& begun.holds(final(state)@)
                    &&& begun.stage == HomeStage::ClearingLatch
                    &&& begun.run@ == (RunView {
                        cohort,
                        remaining_trips: members@,
                        axis_key,
                        all_axis_keys: all_axis_keys@,
                        window_start_host: 0,
                        start_pos,
                    })
                },
                Err(reason) => {
                    &&& !(old(state)@.phase is Idle)
                    &&& reason@ == crate::homing::state::owned_text()
                    &&& final(state)@ == old(state)@
                },
            },
    {
        match state.begin(cohort, axis_key.mcu_id) {
            Ok(()) => Ok(
                HomeStart {
                    run: HomingRun {
                        cohort,
                        remaining_trips: members,
                        axis_key,
                        all_axis_keys,
                        window_start_host: 0,
                        start_pos,
                    },
                    stage: HomeStage::ClearingLatch,
                },
            ),
            Err(reason) => Err(reason),
        }
    }

    /// Forgets the drive fault latched for the mcu of the axis that is homed, so that one
    /// reported from here on is of this run. The faults of other mcus stay.
    pub fn clear_latch(&mut self, drive_faults: &mut HashMap<u32, u16>)
        requires
            old(self).stage == HomeStage::ClearingLatch,
        ensures
            final(self).run == old(self).run,
            final(self).stage == HomeStage::Quiescing,
            final(drive_faults)@ == old(drive_faults)@.remove(old(self).run.axis_key.mcu_id),
    {
        drive_faults.remove(&self.run.axis_key.mcu_id);
        assert(drive_faults@ =~= old(drive_faults)@.remove(old(self).run.axis_key.mcu_id));
        self.stage = HomeStage::Quiescing;
    }

    /// What the pump is asked for: to drip all lanes of the run, under its cohort.
    pub fn drip_arm(&self) -> (arm: DripArm)
        requires
            self.stage == HomeStage::ArmingDrip,
        ensures
            arm.cohort == self.run.cohort,
            arm.participants@ == self.run.all_axis_keys@,
            arm.timeout_ns == HOMING_DRIP_TIMEOUT_NS,
    {
        DripArm {
            cohort: self.run.cohort,
            participants: copied_keys(&self.run.all_axis_keys),
            timeout_ns: HOMING_DRIP_TIMEOUT_NS,
        }
    }

    /// Gives the lifecycle back. The pump is then told to flush the run's lanes and to
    /// disarm its cohort.
    fn fail(&mut self, state: &mut HomingState<P>, reason: String) -> (failure: StartFailure)
        requires
            old(self).holds(old(state)@),
        ensures
            final(self).run == old(self).run,
            final(self).stage == HomeStage::Failed,
            final(state)@ == given_back(old(state)@),
            failure.tells(old(self).run@, reason@),
    {
        state.cancel_registration();
        self.stage = HomeStage::Failed;
        StartFailure { reason, cleanup: LaneCleanup::of(&self.run) }
    }

    /// The pump was asked to come to rest.
    pub fn quiesced(&mut self, state: &mut HomingState<P>, outcome: Result<(), String>) -> (
    result: Result<(), StartFailure>)
        requires
            old(self).holds(old(state)@),
            old(self).stage == HomeStage::Quiescing,
        ensures
            final(self).run == old(self).run,
            match outcome {
                Ok(()) => result is Ok && final(self).stage == HomeStage::Seeding && final(state)@
                    == old(state)@,
                Err(reason) => {
                    &&& result is Err
                    &&& result->Err_0.tells(old(self).run@, reason@)
                    &&& final(self).stage == HomeStage::Failed
                    &&& final(state)@ == given_back(old(state)@)
                },
            },
    {
        match outcome {
            Ok(()) => {
                self.stage = HomeStage::Seeding;
                Ok(())
            },
            Err(reason) => {
                Err(self.fail(state, reason))
            },
        }
    }

    /// The mcus' counters were seeded with the machine position the run starts at. The
    /// run's window then starts when the first of its endstops was armed, or now, and
    /// the drip is opened, unless the run has failed meanwhile.
    pub fn seeded(
        &mut self,
        state: &mut HomingState<P>,
        machine_start: P,
        host_now: i64,
        outcome: Result<(), String>,
    ) -> (result: Result<(), StartFailure>)
        requires
            old(self).holds(old(state)@),
            old(self).stage == HomeStage::Seeding,
        ensures
            match outcome {
                Err(reason) => {
                    &&& result is Err
                    &&& result->Err_0.tells(old(self).run@, reason@)
                    &&& final(self).run == old(self).run
                    &&& final(self).stage == HomeStage::Failed
                    &&& final(state)@ == given_back(old(state)@)
                },
                Ok(()) => {
                    &&& final(self).run@ == (RunView {
                        start_pos: machine_start,
                        window_start_host: final(self).run.window_start_host,
                        ..old(self).run@
                    })
                    &&& exists|start: Option<i64>|
                        {
                            &&& #[trigger] crate::homing::state::is_window_start(
                                old(state)@.recent_arms,
                                trip_ids(old(self).run.remaining_trips@),
                                start,
                            )
                            &&& final(self).run.window_start_host == match start {
                                Some(time) => time,
                                None => host_now,
                            }
                        }
                    &&& match old(state)@.failure {
                        None => {
                            &&& result is Ok
                            &&& final(self).stage == HomeStage::ArmingDrip
                            &&& final(state)@ == (LifecycleView {
                                recent_arms: Seq::empty(),
                                drip_active: true,
                                ..old(state)@
                            })
                        },
                        Some(failure) => {
                            &&& result is Err
                            &&& result->Err_0.tells(old(self).run@, failure)
                            &&& final(self).stage == HomeStage::Failed
                            &&& final(state)@ == given_back(
                                LifecycleView { recent_arms: Seq::empty(), ..old(state)@ },
                            )
                        },
                    }
                },
            },
    {
        match outcome {
            Err(reason) => {
                Err(self.fail(state, reason))
            },
            Ok(()) => {
                let ids = ids_of(&self.run.remaining_trips);
                let window_start: i64 = match state.take_arm_window_start(ids.as_slice()) {
                    Some(time) => time,
                    None => host_now,
                };
                self.run.start_pos = machine_start;
                self.run.window_start_host = window_start;
                match state.arm(self.run.cohort) {
                    Ok(()) => {
                        self.stage = HomeStage::ArmingDrip;
                        Ok(())
                    },
                    Err(reason) => {
                        Err(self.fail(state, reason))
                    },
                }
            },
        }
    }

    /// The pump was asked for the run's [`HomeStart::drip_arm`].
    pub fn drip_armed(&mut self, state: &mut HomingState<P>, answer: DripAnswer) -> (
    result: Result<(), StartFailure>)
        requires
            old(self).holds(old(state)@),
            old(self).stage == HomeStage::ArmingDrip,
        ensures
            final(self).run == old(self).run,
            match answer {
                DripAnswer::Armed => {
                    &&& result is Ok
                    &&& final(self).stage == HomeStage::StartingMove
                    &&& final(state)@ == old(state)@
                },
                _ => {
                    &&& result is Err
                    &&& result->Err_0.tells(
                        old(self).run@,
                        if answer == DripAnswer::NotStarted {
                            "home_axis: pump not started"@
                        } else {
                            "home_axis: pump channel closed"@
                        },
                    )
                    &&& final(self).stage == HomeStage::Failed
                    &&& final(state)@ == given_back(old(state)@)
                },
            },
    {
        match answer {
            DripAnswer::Armed => {
                self.stage = HomeStage::StartingMove;
                Ok(())
            },
            DripAnswer::NotStarted => {
                Err(self.fail(state, "home_axis: pump not started".to_owned()))
            },
            DripAnswer::ChannelClosed => {
                Err(self.fail(state, "home_axis: pump channel closed".to_owned()))
            },
        }
    }

    /// The homing move was handed to the planner.
    pub fn move_started(&mut self, state: &mut HomingState<P>, outcome: Result<(), String>) -> (
    result: Result<(), StartFailure>)
        requires
            old(self).holds(old(state)@),
            old(self).stage == HomeStage::StartingMove,
        ensures
            final(self).run == old(self).run,
            match outcome {
                Ok(()) => result is Ok && final(self).stage == HomeStage::Dispatching && final(state)@ == old(state)@,
                Err(reason) => {
                    &&& result is Err
                    &&& result->Err_0.tells(old(self).run@, reason@)
                    &&& final(self).stage == HomeStage::Failed
                    &&& final(state)@ == given_back(old(state)@)
                },
            },
    {
        match outcome {
            Ok(()) => {
                self.stage = HomeStage::Dispatching;
                Ok(())
            },
            Err(reason) => {
                Err(self.fail(state, reason))
            },
        }
    }

    /// The homing move was waited for. Once it is dispatched the run becomes active,
    /// unless it has failed meanwhile; the trips buffered for it are then the caller's
    /// to dispatch.
    pub fn dispatched(self, state: &mut HomingState<P>, answer: DispatchAnswer) -> (result: Result<
        (),
        StartFailure,
    >)
        requires
            self.holds(old(state)@),
            self.stage == HomeStage::Dispatching,
        ensures
            match answer {
                DispatchAnswer::Dispatched => match old(state)@.failure {
                    None => result is Ok && final(state)@ == (LifecycleView {
                        phase: PhaseView::Active(self.run@),
                        ..old(state)@
                    }),
                    Some(failure) => {
                        &&& result is Err
                        &&& result->Err_0.tells(self.run@, failure)
                        &&& final(state)@ == given_back(old(state)@)
                    },
                },
                DispatchAnswer::Failed(reason) => {
                    &&& result is Err
                    &&& result->Err_0.tells(self.run@, reason@)
                    &&& final(state)@ == given_back(old(state)@)
                },
                DispatchAnswer::TimedOut => {
                    &&& result is Err
                    &&& result->Err_0.tells(
                        self.run@,
                        "home_axis: planner timed out dispatching homing move"@,
                    )
                    &&& final(state)@ == given_back(old(state)@)
                },
            },
    {
        let cleanup = LaneCleanup::of(&self.run);
        let reason: String = match answer {
            DispatchAnswer::Dispatched => match state.register(self.run) {
                Ok(()) => {
                    return Ok(());
                },
                Err(reason) => reason,
            },
            DispatchAnswer::Failed(reason) => reason,
            DispatchAnswer::TimedOut => "home_axis: planner timed out dispatching homing move".to_owned(),
        };
        state.cancel_registration();
        Err(StartFailure { reason, cleanup })
    }
}

/// The trips buffered while the run was being registered, each to be dispatched once.
pub fn take_early_trips<P>(state: &mut HomingState<P>) -> (trips: Vec<crate::homing::state::Trip>)
    ensures
        trips@ == old(state)@.pending_trips,
        final(state)@ == (LifecycleView { pending_trips: Seq::empty(), ..old(state)@ }),
{
    let mut trips: Vec<crate::homing::state::Trip> = Vec::new();
    std::mem::swap(&mut state.lifecycle.pending_trips, &mut trips);
    trips
}

/// A start that fails leaves the lifecycle free for the next one, with the drip closed
/// and nothing of the failed start in it.
pub proof fn law_failed_start_gives_the_lifecycle_back<P>(state: LifecycleView<P>)
    requires
        state.settled(),
    ensures
        given_back(state).phase is Idle,
        !given_back(state).drip_active,
        given_back(state).failure is None,
        given_back(state).pending_trips.len() == 0,
        given_back(state).settled(),
{
}

/// An endstop keeps what its caller names: its id and its mcu, and of the motor bound to it
/// the mcu, the index, the stepper and the oid, each in its place.
pub proof fn law_endstop_keeps_its_names(
    endstop_id: u8,
    mcu: u32,
    motor_mcu: u32,
    motor_idx: u8,
    stepper_idx: u8,
    stepper_oid: u32,
)
    ensures
        ({
            let bound = member_of(
                (endstop_id, mcu, Some((motor_mcu, motor_idx, stepper_idx, stepper_oid))),
            );
            let free = member_of((endstop_id, mcu, None));
            &&& bound.endstop_id == endstop_id && bound.endstop_mcu == mcu
            &&& bound.remote_freeze is Some
            &&& bound.remote_freeze->0.motor_mcu == motor_mcu
            &&& bound.remote_freeze->0.motor_idx == motor_idx
            &&& bound.remote_freeze->0.stepper_idx == stepper_idx
            &&& bound.remote_freeze->0.stepper_oid == stepper_oid
            &&& free.endstop_id == endstop_id && free.endstop_mcu == mcu
            &&& free.remote_freeze is None
        }),
{
}

/// Two endstops are refused together exactly where both are bound and to the same mcu and
/// oid, whatever else their bindings say; and then in either order.
pub proof fn law_motor_is_its_mcu_and_oid(a: TripMember, b: TripMember)
    ensures
        same_motor(a, b) <==> same_motor(b, a),
        a.remote_freeze is None || b.remote_freeze is None ==> !same_motor(a, b),
        a.remote_freeze is Some && b.remote_freeze is Some ==> (same_motor(a, b) <==> (
        a.remote_freeze->0.motor_mcu == b.remote_freeze->0.motor_mcu
            && a.remote_freeze->0.stepper_oid == b.remote_freeze->0.stepper_oid)),
{
}

/// Accepted endstops are bound to motors that differ in their mcu or their oid; where any two
/// are not, they are refused.
pub proof fn law_accepted_endstops_bind_different_motors(
    members: &[TripMember],
    outcome: Result<(), String>,
    i: int,
    j: int,
)
    requires
        call_ensures(validate_trip_members, (members,), outcome),
        0 <= i < j < members@.len(),
        members@[i].remote_freeze is Some,
        members@[j].remote_freeze is Some,
        members@[i].remote_freeze->0.motor_mcu == members@[j].remote_freeze->0.motor_mcu,
        members@[i].remote_freeze->0.stepper_oid == members@[j].remote_freeze->0.stepper_oid,
    ensures
        outcome is Err,
{
    assert(same_motor(members@[i], members@[j]));
    assert(repeats(members@, j));
}

/// Endstops of which no two are bound to the same mcu and oid are accepted.
pub proof fn law_different_motors_are_accepted(members: &[TripMember], outcome: Result<(), String>)
    requires
        call_ensures(validate_trip_members, (members,), outcome),
        forall|i: int, j: int|
            0 <= i < j < members@.len() && (#[trigger] members@[i]).remote_freeze is Some && (
            #[trigger] members@[j]).remote_freeze is Some ==> {
                ||| members@[i].remote_freeze->0.motor_mcu != members@[j].remote_freeze->0.motor_mcu
                ||| members@[i].remote_freeze->0.stepper_oid
                    != members@[j].remote_freeze->0.stepper_oid
            },
    ensures
        outcome is Ok,
{
    assert forall|index: int| 0 <= index < members@.len() implies !#[trigger] repeats(
        members@,
        index,
    ) by {
        if repeats(members@, index) {
            let i = choose|i: int|
                0 <= i < index && same_motor(#[trigger] members@[i], members@[index]);
            assert(members@[i].remote_freeze is Some);
        }
    }
}

/// The window of a run counts from its own endstops: each by its mcu and its id, in order.
pub proof fn law_window_counts_from_the_runs_endstops(members: Seq<TripMember>, i: int)
    requires
        0 <= i < members.len(),
    ensures
        trip_ids(members).len() == members.len(),
        trip_ids(members)[i] == (members[i].endstop_mcu, members[i].endstop_id),
{
}

/// A failed start tells its reason, and has the lanes of its own run flushed and its own
/// cohort disarmed.
pub proof fn law_failed_start_clears_its_own_lanes<P>(
    failure: StartFailure,
    run: RunView<P>,
    reason: Seq<char>,
    state: LifecycleView<P>,
)
    ensures
        failure.tells(run, reason) ==> failure.reason@ == reason && failure.cleanup.flush@
            == run.all_axis_keys && failure.cleanup.disarm == run.cohort,
        given_back(state).recent_arms == state.recent_arms,
        given_back(state).pending_suppresses == state.pending_suppresses,
        !given_back(state).consumer_cancelled,
{
}

/// Every endstop of a request is kept, in order and under its own names.
pub proof fn law_every_named_endstop_is_kept(
    endstops: &[EndstopSpec],
    members: Vec<TripMember>,
    i: int,
)
    requires
        call_ensures(trip_members, (endstops,), members),
    ensures
        members@.len() == endstops@.len(),
        0 <= i < endstops@.len() ==> members@[i].endstop_id == endstops@[i].0
            && members@[i].endstop_mcu == endstops@[i].1 && (members@[i].remote_freeze is Some
            <==> endstops@[i].2 is Some),
{
}

/// Only the first three axes are homed, each on the lane of the first mcu that lists it; an
/// axis that none lists is refused by its number.
pub proof fn law_axis_is_homed_where_it_is_driven(
    axis: u8,
    configs: &[McuAxes],
    target: Result<AxisKey, String>,
    place: int,
)
    requires
        call_ensures(resolve_homing_target, (axis, configs), target),
        0 <= place < configs@.len(),
        configs@[place].axes@.contains(axis as usize),
        forall|i: int|
            0 <= i < place ==> !(#[trigger] configs@[i]).axes@.contains(axis as usize),
    ensures
        target is Ok <==> axis <= 2,
        target is Ok ==> target->Ok_0.axis == axis && target->Ok_0.mcu_id == configs@[place].mcu_id,
        target is Err ==> target->Err_0@ == "home_axis: axis "@ + crate::text::decimal(axis as nat)
            + " out of range (0=X, 1=Y, 2=Z)"@,
{
    crate::homing::query::law_first_mcu_that_lists_the_axis_drives_it(
        configs@,
        axis as usize,
        place,
        place,
    );
    if target is Ok {
        let found = choose|found: int| #[trigger]
            crate::homing::query::first_driver(configs@, axis as usize, found)
                && target->Ok_0.mcu_id == configs@[found].mcu_id;
        crate::homing::query::law_first_mcu_that_lists_the_axis_drives_it(
            configs@,
            axis as usize,
            found,
            place,
        );
        if found < place {
            assert(configs@[found].axes@.contains(axis as usize));
        }
    }
}

/// A request is accepted exactly where it names an endstop, binds no motor twice, finds a
/// planner, and asks for an axis that can be homed; and the first that is missing is told.
pub proof fn law_request_is_refused_for_its_first_fault(
    endstops: &[EndstopSpec],
    has_planner: bool,
    axis: u8,
    configs: &[McuAxes],
    checked: Result<(Vec<TripMember>, AxisKey), String>,
)
    requires
        call_ensures(check_home_request, (endstops, has_planner, axis, configs), checked),
    ensures
        endstops@.len() == 0 ==> checked is Err && checked->Err_0@
            == "home_axis: endstops list must not be empty"@,
        !has_planner || axis > 2 ==> checked is Err,
        checked matches Ok((members, key)) ==> {
            &&& members@.len() == endstops@.len()
            &&& members@.len() > 0
            &&& key.axis == axis
            &&& has_planner
        },
{
}

/// Each run has a number of its own: the one after the last, going round at the end.
pub proof fn law_cohorts_count_up(counter: &mut CohortCounter, cohort: u64, fresh: CohortCounter)
    requires
        call_ensures(CohortCounter::next_homing_cohort, (counter,), cohort),
        call_ensures(CohortCounter::new, (), fresh),
    ensures
        cohort == old(counter).next,
        final(counter).next == (cohort + 1) % 0x1_0000_0000_0000_0000,
        fresh.next == 1,
{
}

/// A start takes a free lifecycle for the run it was given, with the window not settled yet;
/// an owned one is left alone.
pub proof fn law_start_takes_a_free_lifecycle<P: Copy>(
    state: &mut HomingState<P>,
    cohort: u64,
    members: Vec<TripMember>,
    axis_key: AxisKey,
    all_axis_keys: Vec<AxisKey>,
    start_pos: P,
    start: Result<HomeStart<P>, String>,
)
    requires
        call_ensures(
            HomeStart::<P>::begin,
            (state, cohort, members, axis_key, all_axis_keys, start_pos),
            start,
        ),
    ensures
        start is Ok <==> old(state)@.phase is Idle,
        start is Ok ==> final(state)@.phase == PhaseView::<P>::Registering(
            cohort,
            axis_key.mcu_id,
        ),
        start is Err ==> final(state)@ == old(state)@,
        start matches Ok(begun) ==> {
            &&& begun.stage is ClearingLatch
            &&& begun.run.cohort == cohort
            &&& begun.run.remaining_trips@ == members@
            &&& begun.run.axis_key == axis_key
            &&& begun.run.all_axis_keys@ == all_axis_keys@
            &&& begun.run.start_pos == start_pos
        },
{
    if let Ok(begun) = start {
        crate::homing::state::law_run_value_is_its_fields(begun.run);
    }
}

/// Clearing the latch forgets the fault of the homed mcu and of no other; the drip is asked
/// for on every lane of the run, under its cohort, with five seconds for each step.
pub proof fn law_latch_and_drip_are_of_the_run<P: Copy>(
    start: &mut HomeStart<P>,
    drive_faults: &mut HashMap<u32, u16>,
    mcu: u32,
    armed: HomeStart<P>,
    arm: DripArm,
)
    requires
        old(start).stage == HomeStage::ClearingLatch,
        armed.stage == HomeStage::ArmingDrip,
        call_ensures(HomeStart::<P>::clear_latch, (start, drive_faults), ()),
        call_ensures(HomeStart::<P>::drip_arm, (&armed,), arm),
    ensures
        !final(drive_faults)@.contains_key(old(start).run.axis_key.mcu_id),
        mcu != old(start).run.axis_key.mcu_id ==> (final(drive_faults)@.contains_key(mcu)
            <==> old(drive_faults)@.contains_key(mcu)),
        mcu != old(start).run.axis_key.mcu_id && old(drive_faults)@.contains_key(mcu)
            ==> final(drive_faults)@[mcu] == old(drive_faults)@[mcu],
        final(start).stage == HomeStage::Quiescing,
        final(start).run == old(start).run,
        arm.cohort == armed.run.cohort,
        arm.participants@ == armed.run.all_axis_keys@,
        arm.timeout_ns == 5_000_000_000,
{
}

/// A start goes on through its stages one by one, each only where the step before succeeded;
/// a step that fails tells its own reason, has the run's lanes flushed and its cohort
/// disarmed, and gives the lifecycle back.
pub proof fn law_start_goes_on_step_by_step<P: Copy>(
    quiesced: &mut HomeStart<P>,
    quiesced_state: &mut HomingState<P>,
    rest: Result<(), String>,
    rested: Result<(), StartFailure>,
    armed: &mut HomeStart<P>,
    armed_state: &mut HomingState<P>,
    answer: DripAnswer,
    dripping: Result<(), StartFailure>,
    moved: &mut HomeStart<P>,
    moved_state: &mut HomingState<P>,
    outcome: Result<(), String>,
    started: Result<(), StartFailure>,
)
    requires
        old(quiesced).holds(old(quiesced_state)@),
        old(quiesced).stage == HomeStage::Quiescing,
        call_ensures(HomeStart::<P>::quiesced, (quiesced, quiesced_state, rest), rested),
        old(armed).holds(old(armed_state)@),
        old(armed).stage == HomeStage::ArmingDrip,
        call_ensures(HomeStart::<P>::drip_armed, (armed, armed_state, answer), dripping),
        old(moved).holds(old(moved_state)@),
        old(moved).stage == HomeStage::StartingMove,
        call_ensures(HomeStart::<P>::move_started, (moved, moved_state, outcome), started),
    ensures
        rested is Ok <==> rest is Ok,
        rested is Ok ==> final(quiesced).stage == HomeStage::Seeding && final(quiesced_state)@
            == old(quiesced_state)@,
        rested matches Err(failure) ==> failure.reason@ == rest->Err_0@ && failure.cleanup.disarm
            == old(quiesced).run.cohort && failure.cleanup.flush@
            == old(quiesced).run.all_axis_keys@ && final(quiesced).stage == HomeStage::Failed
            && final(quiesced_state)@.phase is Idle && !final(quiesced_state)@.drip_active,
        dripping is Ok <==> answer is Armed,
        dripping is Ok ==> final(armed).stage == HomeStage::StartingMove,
        dripping matches Err(failure) ==> failure.reason@ == (if answer is NotStarted {
            "home_axis: pump not started"@
        } else {
            "home_axis: pump channel closed"@
        }) && failure.cleanup.disarm == old(armed).run.cohort && final(armed).stage
            == HomeStage::Failed && final(armed_state)@.phase is Idle,
        started is Ok <==> outcome is Ok,
        started is Ok ==> final(moved).stage == HomeStage::Dispatching,
        started matches Err(failure) ==> failure.reason@ == outcome->Err_0@
            && failure.cleanup.disarm == old(moved).run.cohort && final(moved).stage
            == HomeStage::Failed && final(moved_state)@.phase is Idle,
{
    crate::homing::state::law_run_value_is_its_fields(old(quiesced).run);
    crate::homing::state::law_run_value_is_its_fields(old(armed).run);
    crate::homing::state::law_run_value_is_its_fields(old(moved).run);
}

/// A seeded start has its run start at the machine position, and its window at the first arm
/// of one of its endstops or now. The drip opens unless the run failed meanwhile.
pub proof fn law_seeded_start_opens_the_drip<P: Copy>(
    start: &mut HomeStart<P>,
    state: &mut HomingState<P>,
    machine_start: P,
    host_now: i64,
    outcome: Result<(), String>,
    result: Result<(), StartFailure>,
)
    requires
        old(start).holds(old(state)@),
        old(start).stage == HomeStage::Seeding,
        call_ensures(
            HomeStart::<P>::seeded,
            (start, state, machine_start, host_now, outcome),
            result,
        ),
    ensures
        result is Ok <==> outcome is Ok && old(state)@.failure is None,
        result is Ok ==> final(start).stage == HomeStage::ArmingDrip && final(state)@.drip_active
            && final(state)@.phase == old(state)@.phase,
        result is Err ==> final(start).stage == HomeStage::Failed && final(state)@.phase is Idle
            && !final(state)@.drip_active,
        result matches Err(failure) ==> failure.reason@ == match outcome {
            Err(reason) => reason@,
            Ok(()) => old(state)@.failure->0,
        },
        outcome is Ok ==> final(start).run.start_pos == machine_start && final(start).run.cohort == old(start).run.cohort,
        outcome is Ok && old(state)@.recent_arms.len() == 0 ==> final(start).run.window_start_host
            == host_now,
{
    crate::homing::state::law_run_value_is_its_fields(final(start).run);
    crate::homing::state::law_run_value_is_its_fields(old(start).run);
}

/// A dispatched start makes its run active unless the run failed meanwhile; any other answer
/// is told and gives the lifecycle back. The trips that were buffered are handed out once,
/// in order.
pub proof fn law_dispatched_start_makes_its_run_active<P: Copy>(
    start: HomeStart<P>,
    state: &mut HomingState<P>,
    answer: DispatchAnswer,
    result: Result<(), StartFailure>,
    buffered: &mut HomingState<P>,
    trips: Vec<crate::homing::state::Trip>,
)
    requires
        start.holds(old(state)@),
        start.stage == HomeStage::Dispatching,
        call_ensures(HomeStart::<P>::dispatched, (start, state, answer), result),
        call_ensures(take_early_trips::<P>, (buffered,), trips),
    ensures
        result is Ok <==> answer is Dispatched && old(state)@.failure is None,
        result is Ok ==> final(state)@.phase == PhaseView::Active(start.run@),
        result is Err ==> final(state)@.phase is Idle && !final(state)@.drip_active,
        result matches Err(failure) ==> failure.cleanup.disarm == start.run.cohort
            && failure.reason@ == match answer {
            DispatchAnswer::Dispatched => old(state)@.failure->0,
            DispatchAnswer::Failed(reason) => reason@,
            DispatchAnswer::TimedOut => "home_axis: planner timed out dispatching homing move"@,
        },
        trips@ == old(buffered)@.pending_trips,
        final(buffered)@.pending_trips.len() == 0,
        final(buffered)@.phase == old(buffered)@.phase,
{
    crate::homing::state::law_run_value_is_its_fields(start.run);
}

/// A request whose endstops bind different motors is refused for the planner before the axis,
/// and for an axis that no mcu drives last; each refusal says which.
pub proof fn law_refusals_of_a_request_come_in_order(
    endstops: &[EndstopSpec],
    has_planner: bool,
    axis: u8,
    configs: &[McuAxes],
    checked: Result<(Vec<TripMember>, AxisKey), String>,
)
    requires
        call_ensures(check_home_request, (endstops, has_planner, axis, configs), checked),
        endstops@.len() > 0,
        forall|i: int| 0 <= i < endstops@.len() ==> (#[trigger] endstops@[i]).2 is None,
    ensures
        !has_planner ==> checked is Err && checked->Err_0@ == "home_axis: planner not initialized"@,
        has_planner && axis > 2 ==> checked is Err && checked->Err_0@ == "home_axis: axis "@
            + crate::text::decimal(axis as nat) + " out of range (0=X, 1=Y, 2=Z)"@,
        has_planner && axis <= 2 && (forall|i: int|
            0 <= i < configs@.len() ==> !(#[trigger] configs@[i]).axes@.contains(axis as usize))
            ==> checked is Err && checked->Err_0@ == "home_axis: axis "@ + crate::text::decimal(
            axis as nat,
        ) + " not found in mcu_axis_configs (init_planner not called?)"@,
        has_planner && axis <= 2 && (exists|i: int|
            0 <= i < configs@.len() && (#[trigger] configs@[i]).axes@.contains(axis as usize))
            ==> checked is Ok,
{
    let members = endstops@.map_values(|endstop: EndstopSpec| member_of(endstop));
    assert forall|index: int| 0 <= index < members.len() implies !#[trigger] repeats(
        members,
        index,
    ) by {
        assert(endstops@[index].2 is None);
    }
    if forall|i: int|
        0 <= i < configs@.len() ==> !(#[trigger] configs@[i]).axes@.contains(axis as usize) {
        assert forall|i: int| 0 <= i < configs@.len() implies !crate::homing::query::drives(
            #[trigger] configs@[i],
            axis as usize,
        ) by {
            assert(!configs@[i].axes@.contains(axis as usize));
        }
    }
    if exists|i: int|
        0 <= i < configs@.len() && (#[trigger] configs@[i]).axes@.contains(axis as usize) {
        let at = choose|i: int|
            0 <= i < configs@.len() && (#[trigger] configs@[i]).axes@.contains(axis as usize);
        assert(crate::homing::query::drives(configs@[at], axis as usize));
    }
}

/// A motor that is bound twice is refused by the mcu and the number of the second binding.
pub proof fn law_motor_bound_twice_is_named(
    members: &[TripMember],
    outcome: Result<(), String>,
    i: int,
    j: int,
)
    requires
        call_ensures(validate_trip_members, (members,), outcome),
        0 <= i < j < members@.len(),
        members@[i].remote_freeze is Some,
        members@[j].remote_freeze is Some,
        members@[i].remote_freeze->0.motor_mcu == members@[j].remote_freeze->0.motor_mcu,
        members@[i].remote_freeze->0.stepper_oid == members@[j].remote_freeze->0.stepper_oid,
        forall|k: int| 0 <= k < j ==> !#[trigger] repeats(members@, k),
    ensures
        outcome is Err,
        outcome->Err_0@ == "home_axis: duplicate motor binding for mcu "@ + crate::text::decimal(
            members@[j].remote_freeze->0.motor_mcu as nat,
        ) + " oid "@ + crate::text::decimal(members@[j].remote_freeze->0.stepper_oid as nat),
{
    assert(same_motor(members@[i], members@[j]));
    assert(repeats(members@, j));
}

} // verus!
