//! The homing lifecycle: who owns the one run there can be, and what became of it.
//!
//! A run is registered, becomes active, is taken exactly once by whoever ends it,
//! and leaves a result that its caller polls. Partial work (a motor frozen while
//! the run goes on) is counted, and the lifecycle is not free again before all of
//! it has retired.
//!
//! Positions are of a type the caller picks. Arm times are integers ordered as the
//! host's clock readings are.

use crate::pump::lanes::AxisKey;
use vstd::prelude::*;
use vstd::string::*;

verus! {

/// The stepper a keyed endstop froze on its mcu. A trip is answered by cutting and
/// reseeding exactly this motor's stream, so its identity, not its index within a
/// lane, is what the host resolves against.
#[derive(Debug, Clone, Copy, PartialEq, Eq, Structural)]
pub struct RemoteFreeze {
    pub motor_mcu: u32,
    pub motor_idx: u8,
    pub stepper_idx: u8,
    pub stepper_oid: u32,
}

/// One endstop of a run.
#[derive(Debug, Clone, Copy, PartialEq, Eq, Structural)]
pub struct TripMember {
    pub endstop_mcu: u32,
    pub endstop_id: u8,
    pub remote_freeze: Option<RemoteFreeze>,
}

/// A trip as it was reported: the mcu, the endstop and the mcu's clock.
pub type Trip = (u32, u8, u64);

/// The trip position, the final position and the trip clock, or why the run failed.
pub type HomingResult<P> = Result<(P, P, u64), String>;

#[derive(Debug)]
pub struct HomingRun<P> {
    pub cohort: u64,
    pub remaining_trips: Vec<TripMember>,
    pub axis_key: AxisKey,
    pub all_axis_keys: Vec<AxisKey>,
    pub window_start_host: i64,
    pub start_pos: P,
}

/// What the pump is told of a run that will not go on: flush these lanes, then disarm
/// this cohort's drip.
#[derive(Debug)]
pub struct LaneCleanup {
    pub flush: Vec<AxisKey>,
    pub disarm: u64,
}

impl LaneCleanup {
    /// All lanes of the run are flushed, and its own cohort is disarmed.
    pub open spec fn clears<P>(self, run: RunView<P>) -> bool {
        self.flush@ == run.all_axis_keys && self.disarm == run.cohort
    }

    pub fn of<P>(run: &HomingRun<P>) -> (cleanup: LaneCleanup)
        ensures
            cleanup.clears(run@),
    {
        LaneCleanup { flush: copied_keys(&run.all_axis_keys), disarm: run.cohort }
    }
}

/// The same lanes again, in order.
pub(crate) fn copied_keys(keys: &Vec<AxisKey>) -> (copy: Vec<AxisKey>)
    ensures
        copy@ == keys@,
{
    let mut copy: Vec<AxisKey> = Vec::new();
    let mut index: usize = 0;
    while index < keys.len()
        invariant
            index <= keys@.len(),
            copy@ == keys@.take(index as int),
        decreases keys@.len() - index,
    {
        copy.push(keys[index]);
        assert(copy@ =~= keys@.take(index + 1));
        index += 1;
    }
    assert(keys@.take(index as int) =~= keys@);
    copy
}

#[derive(Debug)]
pub enum HomingPhase<P> {
    Idle,
    Registering(u64, u32),
    Active(HomingRun<P>),
    Completing(u64, u32),
    Finished(u64, HomingResult<P>),
    Retiring(u64),
}

#[derive(Debug)]
pub struct HomingLifecycle<P> {
    pub phase: HomingPhase<P>,
    pub pending_suppresses: usize,
    pub pending_trips: Vec<Trip>,
    pub recent_arms: Vec<(u32, u8, i64)>,
    pub failure: Option<String>,
    pub consumer_cancelled: bool,
    pub drip_active: bool,
}

/// The value of a run.
#[verifier::ext_equal]
pub struct RunView<P> {
    pub cohort: u64,
    pub remaining_trips: Seq<TripMember>,
    pub axis_key: AxisKey,
    pub all_axis_keys: Seq<AxisKey>,
    pub window_start_host: i64,
    pub start_pos: P,
}

/// The value of a phase.
#[verifier::ext_equal]
pub enum PhaseView<P> {
    Idle,
    Registering(u64, u32),
    Active(RunView<P>),
    Completing(u64, u32),
    Finished(u64, Result<(P, P, u64), Seq<char>>),
    Retiring(u64),
}

/// The value of a lifecycle.
#[verifier::ext_equal]
pub struct LifecycleView<P> {
    pub phase: PhaseView<P>,
    pub pending_suppresses: int,
    pub pending_trips: Seq<Trip>,
    pub recent_arms: Seq<(u32, u8, i64)>,
    pub failure: Option<Seq<char>>,
    pub consumer_cancelled: bool,
    pub drip_active: bool,
}

pub open spec fn result_view<P>(result: HomingResult<P>) -> Result<(P, P, u64), Seq<char>> {
    match result {
        Ok(positions) => Ok(positions),
        Err(reason) => Err(reason@),
    }
}

pub open spec fn failure_view(failure: Option<String>) -> Option<Seq<char>> {
    match failure {
        Some(reason) => Some(reason@),
        None => None,
    }
}

pub open spec fn run_option_view<P>(run: Option<HomingRun<P>>) -> Option<RunView<P>> {
    match run {
        Some(run) => Some(run@),
        None => None,
    }
}

impl<P> View for HomingRun<P> {
    type V = RunView<P>;

    open spec fn view(&self) -> RunView<P> {
        RunView {
            cohort: self.cohort,
            remaining_trips: self.remaining_trips@,
            axis_key: self.axis_key,
            all_axis_keys: self.all_axis_keys@,
            window_start_host: self.window_start_host,
            start_pos: self.start_pos,
        }
    }
}

impl<P> View for HomingPhase<P> {
    type V = PhaseView<P>;

    open spec fn view(&self) -> PhaseView<P> {
        match *self {
            HomingPhase::Idle => PhaseView::Idle,
            HomingPhase::Registering(cohort, mcu) => PhaseView::Registering(cohort, mcu),
            HomingPhase::Active(run) => PhaseView::Active(run@),
            HomingPhase::Completing(cohort, mcu) => PhaseView::Completing(cohort, mcu),
            HomingPhase::Finished(cohort, result) => PhaseView::Finished(
                cohort,
                result_view(result),
            ),
            HomingPhase::Retiring(cohort) => PhaseView::Retiring(cohort),
        }
    }
}

impl<P> View for HomingLifecycle<P> {
    type V = LifecycleView<P>;

    open spec fn view(&self) -> LifecycleView<P> {
        LifecycleView {
            phase: self.phase@,
            pending_suppresses: self.pending_suppresses as int,
            pending_trips: self.pending_trips@,
            recent_arms: self.recent_arms@,
            failure: failure_view(self.failure),
            consumer_cancelled: self.consumer_cancelled,
            drip_active: self.drip_active,
        }
    }
}

// ---------------------------------------------------------------------------
// Transitions
// ---------------------------------------------------------------------------

pub open spec fn owned_text() -> Seq<char> {
    "home_axis: homing lifecycle is already owned"@
}

pub open spec fn lost_ownership_text() -> Seq<char> {
    "home_axis: registration lost lifecycle ownership"@
}

pub open spec fn nothing_to_poll_text() -> Seq<char> {
    "home_axis_poll: no homing in progress"@
}

pub open spec fn aborted_text() -> Seq<char> {
    "homing aborted"@
}

pub open spec fn suppress_timeout_text(pending: nat) -> Seq<char> {
    "StepperSuppress: "@ + crate::text::decimal(pending)
        + " partial call(s) did not finish before terminal Stop"@
}

impl<P> LifecycleView<P> {
    pub open spec fn initial() -> LifecycleView<P> {
        LifecycleView {
            phase: PhaseView::Idle,
            pending_suppresses: 0,
            pending_trips: Seq::empty(),
            recent_arms: Seq::empty(),
            failure: None,
            consumer_cancelled: false,
            drip_active: false,
        }
    }

    pub open spec fn registering(self, cohort: u64) -> bool {
        self.phase matches PhaseView::Registering(id, _) && id == cohort
    }

    pub open spec fn completing(self, cohort: u64) -> bool {
        self.phase matches PhaseView::Completing(id, _) && id == cohort
    }

    /// The state with `error` as its failure, unless it has one already.
    pub open spec fn failed(self, error: Seq<char>) -> LifecycleView<P> {
        LifecycleView {
            failure: Some(
                match self.failure {
                    Some(first) => first,
                    None => error,
                },
            ),
            ..self
        }
    }

    /// The state once the run's end has an owner: an active run is taken and completes
    /// from now on; nothing else changes.
    pub open spec fn taken(self) -> LifecycleView<P> {
        match self.phase {
            PhaseView::Active(run) => LifecycleView {
                phase: PhaseView::Completing(run.cohort, run.axis_key.mcu_id),
                drip_active: false,
                ..self
            },
            _ => self,
        }
    }

    /// The run that taking the terminal hands out.
    pub open spec fn takes(self) -> Option<RunView<P>> {
        match self.phase {
            PhaseView::Active(run) => Some(run),
            _ => None,
        }
    }

    /// The state once a result is let go: free, or waiting for partial work.
    pub open spec fn released(self, cohort: u64) -> LifecycleView<P> {
        LifecycleView {
            phase: if self.pending_suppresses == 0 {
                PhaseView::Idle
            } else {
                PhaseView::Retiring(cohort)
            },
            pending_trips: Seq::empty(),
            failure: None,
            consumer_cancelled: false,
            ..self
        }
    }

    pub open spec fn completed(
        self,
        cohort: u64,
        result: Result<(P, P, u64), Seq<char>>,
    ) -> LifecycleView<P> {
        if self.consumer_cancelled {
            self.released(cohort)
        } else {
            LifecycleView {
                phase: PhaseView::Finished(
                    cohort,
                    match self.failure {
                        Some(error) => Err(error),
                        None => result,
                    },
                ),
                failure: None,
                ..self
            }
        }
    }

    /// The result a poll delivers now: an error at once, a success once all partial
    /// work has retired.
    pub open spec fn deliverable(self) -> Option<(u64, Result<(P, P, u64), Seq<char>>)> {
        match self.phase {
            PhaseView::Finished(cohort, result) if result is Err || self.pending_suppresses == 0 =>
                Some((cohort, result)),
            _ => None,
        }
    }

    /// The mcu of the homed axis, while a run is underway.
    pub open spec fn axis_mcu(self) -> Option<u32> {
        match self.phase {
            PhaseView::Registering(_, mcu) => Some(mcu),
            PhaseView::Completing(_, mcu) => Some(mcu),
            PhaseView::Active(run) => Some(run.axis_key.mcu_id),
            _ => None,
        }
    }

    /// A fault concerns the run: any fault without an mcu, and one of the homed axis's.
    pub open spec fn concerned(self, mcu: Option<u32>) -> bool {
        self.axis_mcu() is Some && (mcu is None || mcu == self.axis_mcu())
    }

    pub open spec fn interrupted(self, mcu: Option<u32>, error: Seq<char>) -> LifecycleView<P> {
        if self.concerned(mcu) {
            self.failed(error).taken()
        } else {
            self
        }
    }

    pub open spec fn aborted(self) -> LifecycleView<P> {
        match self.phase {
            PhaseView::Idle | PhaseView::Retiring(_) => self,
            PhaseView::Finished(cohort, _) => self.released(cohort),
            _ => (LifecycleView { consumer_cancelled: true, ..self }).failed(aborted_text()).taken(),
        }
    }

    /// Partial work of this cohort is still owed to the lifecycle.
    pub open spec fn awaits_partial(self, cohort: u64) -> bool {
        &&& self.pending_suppresses > 0
        &&& match self.phase {
            PhaseView::Finished(id, _) => id == cohort,
            PhaseView::Active(run) => run.cohort == cohort,
            PhaseView::Completing(id, _) => id == cohort,
            PhaseView::Retiring(id) => id == cohort,
            _ => false,
        }
    }

    /// The state once one piece of partial work has retired, before a failed run is
    /// taken.
    pub open spec fn partial_noted(self, error: Option<Seq<char>>) -> LifecycleView<P> {
        let noted = match (self.phase, error) {
            (PhaseView::Finished(cohort, Ok(_)), Some(reason)) => LifecycleView {
                phase: PhaseView::Finished(cohort, Err(reason)),
                ..self
            },
            (PhaseView::Active(_), Some(reason)) => self.failed(reason),
            (PhaseView::Completing(_, _), Some(reason)) => self.failed(reason),
            _ => self,
        };
        LifecycleView {
            pending_suppresses: noted.pending_suppresses - 1,
            phase: if noted.pending_suppresses == 1 && noted.phase is Retiring {
                PhaseView::Idle
            } else {
                noted.phase
            },
            ..noted
        }
    }

    /// The run that retiring partial work ends: the active one, once it has failed.
    pub open spec fn partial_takes(self, cohort: u64, error: Option<Seq<char>>) -> Option<
        RunView<P>,
    > {
        let noted = self.partial_noted(error);
        match noted.takes() {
            Some(run) if noted.failure is Some && run.cohort == cohort => Some(run),
            _ => None,
        }
    }

    pub open spec fn partial_retired(
        self,
        cohort: u64,
        error: Option<Seq<char>>,
    ) -> LifecycleView<P> {
        if self.partial_takes(cohort, error) is Some {
            self.partial_noted(error).taken()
        } else {
            self.partial_noted(error)
        }
    }

    /// A trip that finds no run yet is kept for the one being registered.
    pub open spec fn buffers_trips(self) -> bool {
        self.phase is Idle || self.phase is Registering
    }

    /// Nothing is left over from a run that has ended: a lifecycle that holds no run
    /// has no failure and no cancelled consumer, and an active run has not failed.
    pub open spec fn settled(self) -> bool {
        &&& self.pending_suppresses >= 0
        &&& self.phase is Idle || self.phase is Finished || self.phase is Retiring ==> self.failure
            is None && !self.consumer_cancelled
        &&& self.phase is Active ==> self.failure is None
        &&& self.phase is Retiring ==> self.pending_suppresses > 0
    }
}

/// The arm is another endstop's.
pub open spec fn arm_of_another(mcu: u32, endstop_id: u8) -> spec_fn((u32, u8, i64)) -> bool {
    |arm: (u32, u8, i64)| !(arm.0 == mcu && arm.1 == endstop_id)
}

/// The trip is another endstop's.
pub open spec fn trip_of_another(mcu: u32, endstop_id: u8) -> spec_fn(Trip) -> bool {
    |trip: Trip| !(trip.0 == mcu && trip.1 == endstop_id)
}

/// The arms left once `mcu`'s endstop is armed anew.
pub open spec fn other_arms(arms: Seq<(u32, u8, i64)>, mcu: u32, endstop_id: u8) -> Seq<
    (u32, u8, i64),
> {
    arms.filter(arm_of_another(mcu, endstop_id))
}

/// The buffered trips left once `mcu`'s endstop is armed anew.
pub open spec fn other_trips(trips: Seq<Trip>, mcu: u32, endstop_id: u8) -> Seq<Trip> {
    trips.filter(trip_of_another(mcu, endstop_id))
}

/// `start` is the earliest time at which one of `trips` was armed, if one was.
pub open spec fn is_window_start(
    arms: Seq<(u32, u8, i64)>,
    trips: Seq<(u32, u8)>,
    start: Option<i64>,
) -> bool {
    match start {
        Some(earliest) => {
            &&& exists|i: int|
                0 <= i < arms.len() && trips.contains((#[trigger] arms[i].0, arms[i].1)) && arms[i].2
                    == earliest
            &&& forall|i: int|
                0 <= i < arms.len() && trips.contains((#[trigger] arms[i].0, arms[i].1)) ==> earliest
                    <= arms[i].2
        },
        None => forall|i: int|
            0 <= i < arms.len() ==> !trips.contains((#[trigger] arms[i].0, arms[i].1)),
    }
}

fn contains_trip(trips: &[(u32, u8)], mcu: u32, endstop_id: u8) -> (found: bool)
    ensures
        found == trips@.contains((mcu, endstop_id)),
{
    let mut index: usize = 0;
    while index < trips.len()
        invariant
            index <= trips@.len(),
            forall|i: int| 0 <= i < index ==> trips@[i] != (mcu, endstop_id),
        decreases trips@.len() - index,
    {
        let (trip_mcu, trip_endstop): (u32, u8) = trips[index];
        if trip_mcu == mcu && trip_endstop == endstop_id {
            assert(trips@[index as int] == (mcu, endstop_id));
            return true;
        }
        index += 1;
    }
    false
}

impl<P> HomingLifecycle<P> {
    pub fn new() -> (lifecycle: Self)
        ensures
            lifecycle@ == LifecycleView::<P>::initial(),
    {
        HomingLifecycle {
            phase: HomingPhase::Idle,
            pending_suppresses: 0,
            pending_trips: Vec::new(),
            recent_arms: Vec::new(),
            failure: None,
            consumer_cancelled: false,
            drip_active: false,
        }
    }

    fn fail(&mut self, error: String)
        ensures
            final(self)@ == old(self)@.failed(error@),
    {
        if self.failure.is_none() {
            self.failure = Some(error);
        }
    }

    fn release_result(&mut self, cohort: u64)
        ensures
            final(self)@ == old(self)@.released(cohort),
    {
        self.pending_trips = Vec::new();
        self.failure = None;
        self.consumer_cancelled = false;
        self.phase = if self.pending_suppresses == 0 {
            HomingPhase::Idle
        } else {
            HomingPhase::Retiring(cohort)
        };
    }

    /// The run a trip is matched against. Before there is one the trip is kept for it;
    /// after the run was taken the trip is dropped.
    pub fn trip_run(&mut self, trip: Trip) -> (run: Option<&mut HomingRun<P>>)
        ensures
            run is Some <==> old(self)@.phase is Active,
            match run {
                Some(found) => {
                    &&& old(self)@.phase == PhaseView::Active(found@)
                    &&& final(self)@ == (LifecycleView {
                        phase: PhaseView::Active(final(found)@),
                        ..old(self)@
                    })
                },
                None => final(self)@ == if old(self)@.buffers_trips() {
                    LifecycleView {
                        pending_trips: old(self)@.pending_trips.push(trip),
                        ..old(self)@
                    }
                } else {
                    old(self)@
                },
            },
    {
        match &mut self.phase {
            HomingPhase::Idle | HomingPhase::Registering(..) => {
                self.pending_trips.push(trip);
                None
            },
            HomingPhase::Active(run) => Some(run),
            HomingPhase::Completing(..) | HomingPhase::Finished(..) | HomingPhase::Retiring(_) => {
                None
            },
        }
    }

    /// Takes the active run, where `matches` accepts it: its end is then the caller's to
    /// complete, and nobody else can take it.
    pub fn take_terminal<F: FnOnce(&HomingRun<P>) -> bool>(&mut self, matches: F) -> (run: Option<
        HomingRun<P>,
    >)
        requires
            old(self).phase matches HomingPhase::Active(active) ==> call_requires(
                matches,
                (&active,),
            ),
        ensures
            match run {
                Some(taken) => {
                    &&& old(self).phase == HomingPhase::Active(taken)
                    &&& call_ensures(matches, (&taken,), true)
                    &&& final(self)@ == old(self)@.taken()
                },
                None => {
                    &&& final(self)@ == old(self)@
                    &&& old(self).phase matches HomingPhase::Active(active) ==> call_ensures(
                        matches,
                        (&active,),
                        false,
                    )
                },
            },
    {
        let (cohort, axis_mcu): (u64, u32) = match &self.phase {
            HomingPhase::Active(run) => {
                if !matches(run) {
                    return None;
                }
                (run.cohort, run.axis_key.mcu_id)
            },
            _ => {
                return None;
            },
        };
        let mut phase = HomingPhase::Completing(cohort, axis_mcu);
        std::mem::swap(&mut self.phase, &mut phase);
        self.drip_active = false;
        match phase {
            HomingPhase::Active(run) => Some(run),
            _ => None,
        }
    }

    fn take_active(&mut self) -> (run: Option<HomingRun<P>>)
        ensures
            run_option_view(run) == old(self)@.takes(),
            final(self)@ == old(self)@.taken(),
    {
        let any = |run: &HomingRun<P>| -> (accepted: bool)
            ensures
                accepted,
            { true };
        self.take_terminal(any)
    }
}

/// The one homing run there can be.
#[derive(Debug)]
pub struct HomingState<P> {
    pub lifecycle: HomingLifecycle<P>,
}

impl<P> Default for HomingState<P> {
    fn default() -> (state: Self)
        ensures
            state@ == LifecycleView::<P>::initial(),
    {
        HomingState { lifecycle: HomingLifecycle::new() }
    }
}

impl<P> HomingState<P> {
    pub open spec fn view(&self) -> LifecycleView<P> {
        self.lifecycle@
    }

    /// Takes ownership of the free lifecycle for a new run.
    pub fn begin(&mut self, cohort: u64, axis_mcu: u32) -> (outcome: Result<(), String>)
        ensures
            outcome is Ok <==> old(self)@.phase is Idle,
            outcome matches Err(reason) ==> reason@ == owned_text() && final(self)@ == old(self)@,
            outcome is Ok ==> final(self)@ == (LifecycleView {
                phase: PhaseView::Registering(cohort, axis_mcu),
                ..old(self)@
            }),
    {
        match self.lifecycle.phase {
            HomingPhase::Idle => {
                self.lifecycle.phase = HomingPhase::Registering(cohort, axis_mcu);
                Ok(())
            },
            _ => Err("home_axis: homing lifecycle is already owned".to_owned()),
        }
    }

    /// Opens the drip, unless the run has failed while it was being registered.
    pub fn arm(&mut self, cohort: u64) -> (outcome: Result<(), String>)
        requires
            old(self)@.registering(cohort),
        ensures
            match outcome {
                Ok(()) => old(self)@.failure is None && final(self)@ == (LifecycleView {
                    drip_active: true,
                    ..old(self)@
                }),
                Err(reason) => old(self)@.failure == Some(reason@) && final(self)@ == old(self)@,
            },
    {
        if let Some(error) = &self.lifecycle.failure {
            return Err(error.clone());
        }
        self.lifecycle.drip_active = true;
        Ok(())
    }

    /// Makes the run active, unless the lifecycle is not this cohort's any more or the
    /// run has failed meanwhile; the failure is then handed out.
    pub fn register(&mut self, run: HomingRun<P>) -> (outcome: Result<(), String>)
        ensures
            if !old(self)@.registering(run.cohort) {
                &&& outcome is Err && outcome->Err_0@ == lost_ownership_text()
                &&& final(self)@ == old(self)@
            } else {
                match old(self)@.failure {
                    Some(error) => {
                        &&& outcome is Err && outcome->Err_0@ == error
                        &&& final(self)@ == (LifecycleView { failure: None, ..old(self)@ })
                    },
                    None => {
                        &&& outcome is Ok
                        &&& final(self)@ == (LifecycleView {
                            phase: PhaseView::Active(run@),
                            ..old(self)@
                        })
                    },
                }
            },
    {
        let registering = match self.lifecycle.phase {
            HomingPhase::Registering(id, _) => id == run.cohort,
            _ => false,
        };
        if !registering {
            return Err("home_axis: registration lost lifecycle ownership".to_owned());
        }
        if let Some(error) = self.lifecycle.failure.take() {
            return Err(error);
        }
        self.lifecycle.phase = HomingPhase::Active(run);
        Ok(())
    }

    /// Completes a run whose end the caller owns. A failure noted meanwhile stands
    /// instead of the result; a consumer that has given up is not kept waiting for one.
    pub fn complete(&mut self, cohort: u64, result: HomingResult<P>)
        requires
            old(self)@.completing(cohort),
        ensures
            final(self)@ == old(self)@.completed(cohort, result_view(result)),
            !old(self).lifecycle.consumer_cancelled && old(self).lifecycle.failure is None
                ==> final(self).lifecycle.phase == HomingPhase::Finished(cohort, result),
            !old(self).lifecycle.consumer_cancelled && old(self).lifecycle.failure is Some
                ==> final(self).lifecycle.phase == HomingPhase::<P>::Finished(
                cohort,
                Err(old(self).lifecycle.failure->0),
            ),
    {
        if self.lifecycle.consumer_cancelled {
            self.lifecycle.release_result(cohort);
        } else {
            let result = match self.lifecycle.failure.take() {
                Some(error) => Err(error),
                None => result,
            };
            self.lifecycle.phase = HomingPhase::Finished(cohort, result);
        }
    }

    /// Delivers the result once: an error as soon as it is there, a success once all
    /// partial work has retired.
    pub fn poll(&mut self) -> (outcome: Result<Option<HomingResult<P>>, String>)
        ensures
            match outcome {
                Err(reason) => old(self)@.phase is Idle && reason@ == nothing_to_poll_text()
                    && final(self)@ == old(self)@,
                Ok(None) => !(old(self)@.phase is Idle) && old(self)@.deliverable() is None
                    && final(self)@ == old(self)@,
                Ok(Some(result)) => match old(self)@.deliverable() {
                    Some((cohort, delivered)) => delivered == result_view(result) && final(self)@
                        == old(self)@.released(cohort),
                    None => false,
                },
            },
            outcome matches Ok(Some(result)) ==> old(self).lifecycle.phase
                == HomingPhase::<P>::Finished(
                old(self).lifecycle.phase->Finished_0,
                result,
            ),
    {
        let ready = match &self.lifecycle.phase {
            HomingPhase::Idle => {
                return Err("home_axis_poll: no homing in progress".to_owned());
            },
            HomingPhase::Finished(_, result) => match result {
                Ok(_) => self.lifecycle.pending_suppresses == 0,
                Err(_) => true,
            },
            _ => false,
        };
        if !ready {
            return Ok(None);
        }
        let mut phase = HomingPhase::Idle;
        std::mem::swap(&mut self.lifecycle.phase, &mut phase);
        match phase {
            HomingPhase::Finished(cohort, result) => {
                self.lifecycle.release_result(cohort);
                Ok(Some(result))
            },
            _ => Ok(None),
        }
    }

    /// Gives up a registration that did not come to a run.
    pub fn cancel_registration(&mut self)
        requires
            old(self)@.phase is Registering,
        ensures
            final(self)@ == (LifecycleView {
                phase: PhaseView::Idle,
                pending_trips: Seq::empty(),
                failure: None,
                consumer_cancelled: false,
                drip_active: false,
                ..old(self)@
            }),
    {
        self.lifecycle.phase = HomingPhase::Idle;
        self.lifecycle.pending_trips = Vec::new();
        self.lifecycle.failure = None;
        self.lifecycle.consumer_cancelled = false;
        self.lifecycle.drip_active = false;
    }

    /// Notes that an endstop was armed: trips buffered for it before are void, and the
    /// new arm stands instead of an earlier one.
    pub fn note_arm(&mut self, mcu: u32, endstop_id: u8, host_time: i64)
        ensures
            final(self)@ == (LifecycleView {
                pending_trips: other_trips(old(self)@.pending_trips, mcu, endstop_id),
                recent_arms: other_arms(old(self)@.recent_arms, mcu, endstop_id).push(
                    (mcu, endstop_id, host_time),
                ),
                ..old(self)@
            }),
    {
        let ghost keeps_trip = trip_of_another(mcu, endstop_id);
        let mut trips: Vec<Trip> = Vec::new();
        let mut index: usize = 0;
        assert(self.lifecycle.pending_trips@.take(0).filter(keeps_trip) =~= Seq::empty());
        while index < self.lifecycle.pending_trips.len()
            invariant
                index <= self.lifecycle.pending_trips@.len(),
                self@ == old(self)@,
                keeps_trip == trip_of_another(mcu, endstop_id),
                trips@ == self.lifecycle.pending_trips@.take(index as int).filter(keeps_trip),
            decreases self.lifecycle.pending_trips@.len() - index,
        {
            let trip = self.lifecycle.pending_trips[index];
            assert(self.lifecycle.pending_trips@.take(index + 1)
                =~= self.lifecycle.pending_trips@.take(index as int).push(trip));
            proof {
                self.lifecycle.pending_trips@.take(index as int).lemma_filter_push(
                    trip,
                    keeps_trip,
                );
            }
            if trip.0 != mcu || trip.1 != endstop_id {
                trips.push(trip);
            }
            index += 1;
        }
        assert(self.lifecycle.pending_trips@.take(index as int)
            =~= self.lifecycle.pending_trips@);
        let ghost keeps_arm = arm_of_another(mcu, endstop_id);
        let mut arms: Vec<(u32, u8, i64)> = Vec::new();
        index = 0;
        assert(self.lifecycle.recent_arms@.take(0).filter(keeps_arm) =~= Seq::empty());
        while index < self.lifecycle.recent_arms.len()
            invariant
                index <= self.lifecycle.recent_arms@.len(),
                self@ == old(self)@,
                trips@ == other_trips(old(self)@.pending_trips, mcu, endstop_id),
                keeps_arm == arm_of_another(mcu, endstop_id),
                arms@ == self.lifecycle.recent_arms@.take(index as int).filter(keeps_arm),
            decreases self.lifecycle.recent_arms@.len() - index,
        {
            let arm = self.lifecycle.recent_arms[index];
            assert(self.lifecycle.recent_arms@.take(index + 1)
                =~= self.lifecycle.recent_arms@.take(index as int).push(arm));
            proof {
                self.lifecycle.recent_arms@.take(index as int).lemma_filter_push(arm, keeps_arm);
            }
            if arm.0 != mcu || arm.1 != endstop_id {
                arms.push(arm);
            }
            index += 1;
        }
        assert(self.lifecycle.recent_arms@.take(index as int) =~= self.lifecycle.recent_arms@);
        arms.push((mcu, endstop_id, host_time));
        self.lifecycle.pending_trips = trips;
        self.lifecycle.recent_arms = arms;
    }

    /// When the earliest of a run's endstops was armed. Every recorded arm is forgotten.
    pub fn take_arm_window_start(&mut self, trips: &[(u32, u8)]) -> (start: Option<i64>)
        ensures
            is_window_start(old(self)@.recent_arms, trips@, start),
            final(self)@ == (LifecycleView { recent_arms: Seq::empty(), ..old(self)@ }),
    {
        let mut start: Option<i64> = None;
        let mut index: usize = 0;
        while index < self.lifecycle.recent_arms.len()
            invariant
                index <= self.lifecycle.recent_arms@.len(),
                self@ == old(self)@,
                is_window_start(
                    self.lifecycle.recent_arms@.take(index as int),
                    trips@,
                    start,
                ),
            decreases self.lifecycle.recent_arms@.len() - index,
        {
            let (mcu, endstop_id, host_time): (u32, u8, i64) = self.lifecycle.recent_arms[index];
            let ghost earlier = self.lifecycle.recent_arms@.take(index as int);
            let ghost upto = self.lifecycle.recent_arms@.take(index + 1);
            assert(upto =~= earlier.push((mcu, endstop_id, host_time)));
            let ghost before = start;
            if contains_trip(trips, mcu, endstop_id) {
                start = match start {
                    Some(earliest) => if earliest <= host_time {
                        Some(earliest)
                    } else {
                        Some(host_time)
                    },
                    None => Some(host_time),
                };
            }
            proof {
                if let Some(earliest) = start {
                    if before == Some(earliest) {
                        let i = choose|i: int|
                            0 <= i < earlier.len() && trips@.contains(
                                (#[trigger] earlier[i].0, earlier[i].1),
                            ) && earlier[i].2 == earliest;
                        assert(upto[i] == earlier[i]);
                        assert(trips@.contains((upto[i].0, upto[i].1)));
                    } else {
                        assert(upto[index as int] == (mcu, endstop_id, host_time));
                        assert(trips@.contains((upto[index as int].0, upto[index as int].1)));
                    }
                    assert forall|i: int|
                        0 <= i < upto.len() && trips@.contains((#[trigger] upto[i].0, upto[i].1))
                        implies earliest <= upto[i].2 by {
                        if i < index {
                            assert(upto[i] == earlier[i]);
                            assert(trips@.contains((earlier[i].0, earlier[i].1)));
                        }
                    }
                } else {
                    assert forall|i: int| 0 <= i < upto.len() implies !trips@.contains(
                        (#[trigger] upto[i].0, upto[i].1),
                    ) by {
                        if i < index {
                            assert(upto[i] == earlier[i]);
                            assert(!trips@.contains((earlier[i].0, earlier[i].1)));
                        }
                    }
                }
            }
            index += 1;
        }
        assert(self.lifecycle.recent_arms@.take(index as int) =~= self.lifecycle.recent_arms@);
        self.lifecycle.recent_arms = Vec::new();
        start
    }

    /// A fault from outside the run. Where it concerns the run, the run has failed with
    /// the first such error, and an active run is handed to the caller to end.
    pub fn interrupt(&mut self, mcu: Option<u32>, error: String) -> (run: Option<HomingRun<P>>)
        ensures
            final(self)@ == old(self)@.interrupted(mcu, error@),
            run_option_view(run) == if old(self)@.concerned(mcu) {
                old(self)@.takes()
            } else {
                None
            },
    {
        let axis_mcu: u32 = match &self.lifecycle.phase {
            HomingPhase::Registering(_, mcu) => *mcu,
            HomingPhase::Completing(_, mcu) => *mcu,
            HomingPhase::Active(run) => run.axis_key.mcu_id,
            HomingPhase::Idle | HomingPhase::Finished(..) | HomingPhase::Retiring(_) => {
                return None;
            },
        };
        if let Some(mcu) = mcu {
            if mcu != axis_mcu {
                return None;
            }
        }
        self.lifecycle.fail(error);
        self.lifecycle.take_active()
    }

    /// The consumer gives the run up: a result that is there is let go, and a run that
    /// is underway has failed and is handed to the caller to end, where it is active.
    pub fn abort(&mut self) -> (run: Option<HomingRun<P>>)
        ensures
            final(self)@ == old(self)@.aborted(),
            run_option_view(run) == old(self)@.takes(),
    {
        let finished: Option<u64> = match &self.lifecycle.phase {
            HomingPhase::Idle | HomingPhase::Retiring(_) => {
                return None;
            },
            HomingPhase::Finished(cohort, _) => Some(*cohort),
            _ => None,
        };
        match finished {
            Some(cohort) => {
                self.lifecycle.release_result(cohort);
                None
            },
            None => {
                self.lifecycle.consumer_cancelled = true;
                self.lifecycle.fail("homing aborted".to_owned());
                self.lifecycle.take_active()
            },
        }
    }

    /// What a wait for partial work is answered when it ends, `timed_out` or woken.
    pub fn wait_for_pending_suppresses(&self, cohort: u64, timed_out: bool) -> (outcome: Result<
        (),
        String,
    >)
        requires
            self@.completing(cohort),
        ensures
            outcome is Err <==> timed_out && self@.pending_suppresses != 0,
            outcome matches Err(reason) ==> reason@ == suppress_timeout_text(
                self@.pending_suppresses as nat,
            ),
    {
        if timed_out && self.lifecycle.pending_suppresses != 0 {
            let mut reason = "StepperSuppress: ".to_owned();
            crate::text::append_decimal(&mut reason, self.lifecycle.pending_suppresses as u64);
            reason.append(" partial call(s) did not finish before terminal Stop");
            return Err(reason);
        }
        Ok(())
    }

    /// One piece of partial work has retired. Its error fails a run that is not over
    /// yet, and replaces a success nobody has polled; a run that fails by it is handed
    /// to the caller to end. The last piece frees a lifecycle that only waited for it.
    pub fn retire_partial(&mut self, cohort: u64, error: Option<String>) -> (run: Option<
        HomingRun<P>,
    >)
        requires
            old(self)@.awaits_partial(cohort),
        ensures
            final(self)@ == old(self)@.partial_retired(cohort, failure_view(error)),
            run_option_view(run) == old(self)@.partial_takes(cohort, failure_view(error)),
    {
        let ghost before = self@;
        let ghost reason = failure_view(error);
        if let Some(error) = error {
            let unpolled: Option<u64> = match &self.lifecycle.phase {
                HomingPhase::Finished(id, result) => match result {
                    Ok(_) => Some(*id),
                    Err(_) => None,
                },
                _ => None,
            };
            if let Some(id) = unpolled {
                self.lifecycle.phase = HomingPhase::Finished(id, Err(error));
            } else {
                let underway = match &self.lifecycle.phase {
                    HomingPhase::Active(_) => true,
                    HomingPhase::Completing(..) => true,
                    _ => false,
                };
                if underway {
                    self.lifecycle.fail(error);
                }
            }
        }
        self.lifecycle.pending_suppresses = self.lifecycle.pending_suppresses - 1;
        if self.lifecycle.pending_suppresses == 0 {
            if let HomingPhase::Retiring(_) = self.lifecycle.phase {
                self.lifecycle.phase = HomingPhase::Idle;
            }
        }
        assert(self@ == before.partial_noted(reason));
        if self.lifecycle.failure.is_some() {
            let this_cohort = |run: &HomingRun<P>| -> (same: bool)
                ensures
                    same == (run.cohort == cohort),
                { run.cohort == cohort };
            self.lifecycle.take_terminal(this_cohort)
        } else {
            None
        }
    }
}

/// Whatever happens to the lifecycle, nothing is left over from a run that ended.
pub proof fn law_lifecycle_stays_settled<P>(
    state: LifecycleView<P>,
    cohort: u64,
    result: Result<(P, P, u64), Seq<char>>,
    mcu: Option<u32>,
    error: Seq<char>,
    partial_error: Option<Seq<char>>,
)
    requires
        state.settled(),
    ensures
        LifecycleView::<P>::initial().settled(),
        state.taken().settled(),
        state.released(cohort).settled(),
        state.completed(cohort, result).settled(),
        state.interrupted(mcu, error).settled(),
        state.aborted().settled(),
        state.awaits_partial(cohort) ==> state.partial_retired(cohort, partial_error).settled(),
{
}

/// A run's end has one owner: once it is taken, nobody takes it again before it is
/// completed, whatever else fails meanwhile.
pub proof fn law_run_is_taken_once<P>(
    state: LifecycleView<P>,
    mcu: Option<u32>,
    error: Seq<char>,
    cohort: u64,
    partial_error: Option<Seq<char>>,
)
    requires
        state.phase is Active,
    ensures
        state.taken().takes() is None,
        state.taken().interrupted(mcu, error).takes() is None,
        state.taken().aborted().takes() is None,
        state.taken().partial_takes(cohort, partial_error) is None,
        state.taken().completing(state.takes()->0.cohort),
{
}

/// The first failure stands: later ones do not replace it, and it is what the run
/// completes with, whatever its result would have been.
pub proof fn law_first_failure_stands<P>(
    state: LifecycleView<P>,
    first: Seq<char>,
    second: Seq<char>,
    cohort: u64,
    result: Result<(P, P, u64), Seq<char>>,
)
    requires
        state.failure is None,
        !state.consumer_cancelled,
    ensures
        state.failed(first).failed(second) == state.failed(first),
        state.failed(first).completed(cohort, result).phase == PhaseView::<P>::Finished(
            cohort,
            Err(first),
        ),
{
}

/// An error is delivered at once; a success waits until all partial work retired.
pub proof fn law_success_waits_for_partial_work<P>(
    state: LifecycleView<P>,
    cohort: u64,
    result: Result<(P, P, u64), Seq<char>>,
)
    requires
        state.phase == PhaseView::<P>::Finished(cohort, result),
    ensures
        result is Err ==> state.deliverable() == Some((cohort, result)),
        result is Ok ==> (state.deliverable() is Some <==> state.pending_suppresses == 0),
{
}

/// A result is delivered once, and an abandoned one never: letting it go leaves
/// nothing to deliver.
pub proof fn law_result_is_delivered_once<P>(
    state: LifecycleView<P>,
    cohort: u64,
    result: Result<(P, P, u64), Seq<char>>,
)
    ensures
        state.released(cohort).deliverable() is None,
        state.consumer_cancelled ==> state.completed(cohort, result).deliverable() is None,
        state.phase is Finished ==> state.aborted().deliverable() is None,
{
}

/// The next run begins only once every piece of partial work of the last one has
/// retired, and the last piece to retire frees the lifecycle.
pub proof fn law_partial_work_holds_the_lifecycle<P>(
    state: LifecycleView<P>,
    cohort: u64,
    error: Option<Seq<char>>,
)
    ensures
        state.pending_suppresses != 0 ==> !(state.released(cohort).phase is Idle),
        state.settled() && state.phase == PhaseView::<P>::Retiring(cohort) ==> (
        state.partial_retired(cohort, error).phase is Idle <==> state.pending_suppresses == 1),
{
}

/// A late failure replaces a success nobody has polled, and nothing else of a result.
pub proof fn law_late_failure_replaces_success<P>(
    state: LifecycleView<P>,
    cohort: u64,
    result: Result<(P, P, u64), Seq<char>>,
    error: Seq<char>,
)
    requires
        state.settled(),
        state.phase == PhaseView::<P>::Finished(cohort, result),
        state.awaits_partial(cohort),
    ensures
        state.partial_retired(cohort, Some(error)).phase == PhaseView::<P>::Finished(
            cohort,
            match result {
                Ok(_) => Err(error),
                Err(first) => Err(first),
            },
        ),
        state.partial_retired(cohort, None).phase == state.phase,
{
}

/// A trip that comes while a run ends is not replayed into the next one.
pub proof fn law_late_trips_are_dropped<P>(state: LifecycleView<P>, cohort: u64)
    requires
        state.phase is Completing || state.phase is Finished || state.phase is Retiring,
    ensures
        !state.buffers_trips(),
        state.released(cohort).pending_trips.len() == 0,
{
}

/// A fault of another mcu than the homed axis's leaves the run alone.
pub proof fn law_unrelated_fault_is_ignored<P>(state: LifecycleView<P>, mcu: u32, error: Seq<char>)
    requires
        state.axis_mcu() != Some(mcu),
    ensures
        state.interrupted(Some(mcu), error) == state,
{
}

/// A run that has not failed and whose consumer still waits is completed with its result as
/// it is: the trip position first, the position it came to rest at second, and the trip
/// clock. The poll that delivers it hands out the same three, or the same error.
pub proof fn law_result_is_delivered_as_completed<P>(
    state: LifecycleView<P>,
    cohort: u64,
    result: Result<(P, P, u64), Seq<char>>,
)
    requires
        state.failure is None,
        !state.consumer_cancelled,
    ensures
        state.completed(cohort, result).phase == PhaseView::<P>::Finished(cohort, result),
        result matches Ok((trip, rest, clock)) ==> (state.pending_suppresses == 0
            ==> state.completed(cohort, result).deliverable() == Some(
            (cohort, Ok::<(P, P, u64), Seq<char>>((trip, rest, clock))),
        )),
        result matches Err(reason) ==> state.completed(cohort, result).deliverable() == Some(
            (cohort, Err::<(P, P, u64), Seq<char>>(reason)),
        ),
        state.completed(cohort, result).failure is None,
        state.completed(cohort, result).pending_suppresses == state.pending_suppresses,
        state.completed(cohort, result).pending_trips == state.pending_trips,
        state.completed(cohort, result).recent_arms == state.recent_arms,
        state.completed(cohort, result).drip_active == state.drip_active,
{
}

/// The value of a result is the result: both positions in their order, the clock, and the
/// text of an error.
pub proof fn law_result_value_keeps_its_order<P>(trip: P, rest: P, clock: u64, reason: String)
    ensures
        result_view(Ok::<(P, P, u64), String>((trip, rest, clock))) == Ok::<
            (P, P, u64),
            Seq<char>,
        >((trip, rest, clock)),
        result_view(Err::<(P, P, u64), String>(reason)) == Err::<(P, P, u64), Seq<char>>(reason@),
        failure_view(Some(reason)) == Some(reason@),
        failure_view(None) is None,
{
}

/// Only a finished run has anything to deliver, and it is that run's own.
pub proof fn law_only_a_finished_run_delivers<P>(state: LifecycleView<P>)
    ensures
        !(state.phase is Finished) ==> state.deliverable() is None,
        state.deliverable() matches Some((cohort, result)) ==> state.phase == PhaseView::<
            P,
        >::Finished(cohort, result),
{
}

/// Taking an active run leaves its cohort and the mcu of its axis to complete, and closes
/// the drip. Nothing else changes, and no other phase has a run to take.
pub proof fn law_taken_run_is_left_to_complete<P>(state: LifecycleView<P>)
    ensures
        state.phase matches PhaseView::Active(run) ==> {
            &&& state.takes() == Some(run)
            &&& state.taken().phase == PhaseView::<P>::Completing(run.cohort, run.axis_key.mcu_id)
            &&& !state.taken().drip_active
        },
        !(state.phase is Active) ==> state.takes() is None && state.taken() == state,
        state.taken().failure == state.failure,
        state.taken().consumer_cancelled == state.consumer_cancelled,
        state.taken().pending_suppresses == state.pending_suppresses,
        state.taken().pending_trips == state.pending_trips,
        state.taken().recent_arms == state.recent_arms,
{
}

/// A fault without an mcu, or of the mcu of the homed axis, fails a run that is being
/// registered, is active or completes, with the first error there was; an active run is
/// taken by it. A fault of any other mcu, or without a run underway, changes nothing.
pub proof fn law_fault_of_the_homed_mcu_fails_the_run<P>(
    state: LifecycleView<P>,
    mcu: Option<u32>,
    error: Seq<char>,
)
    ensures
        ({
            let homed = match state.phase {
                PhaseView::Registering(_, own) => Some(own),
                PhaseView::Completing(_, own) => Some(own),
                PhaseView::Active(run) => Some(run.axis_key.mcu_id),
                _ => None,
            };
            let after = state.interrupted(mcu, error);
            &&& homed is None ==> after == state && !state.concerned(mcu)
            &&& homed is Some && mcu is Some && mcu != homed ==> after == state
                && !state.concerned(mcu)
            &&& homed is Some && (mcu is None || mcu == homed) ==> {
                &&& state.concerned(mcu)
                &&& state.failure is None ==> after.failure == Some(error)
                &&& state.failure is Some ==> after.failure == state.failure
                &&& state.phase matches PhaseView::Active(run) ==> after.phase == PhaseView::<
                    P,
                >::Completing(run.cohort, run.axis_key.mcu_id)
                &&& !(state.phase is Active) ==> after.phase == state.phase
                &&& after.consumer_cancelled == state.consumer_cancelled
                &&& after.pending_suppresses == state.pending_suppresses
                &&& after.pending_trips == state.pending_trips
            }
        }),
{
}

/// A consumer that gives up leaves nothing behind of a finished run. A run underway is noted
/// as given up and as failed, an active one is taken, and its result is then let go instead
/// of kept.
pub proof fn law_abort_is_noted_until_the_run_ends<P>(
    state: LifecycleView<P>,
    result: Result<(P, P, u64), Seq<char>>,
)
    ensures
        state.phase is Idle || state.phase is Retiring ==> state.aborted() == state,
        state.phase is Finished ==> {
            &&& state.aborted().phase is Idle || state.aborted().phase is Retiring
            &&& state.aborted().failure is None
            &&& !state.aborted().consumer_cancelled
        },
        state.phase is Registering || state.phase is Completing || state.phase is Active ==> {
            &&& state.aborted().consumer_cancelled
            &&& state.failure is None ==> state.aborted().failure == Some("homing aborted"@)
            &&& state.failure is Some ==> state.aborted().failure == state.failure
        },
        state.phase is Registering || state.phase is Completing ==> state.aborted().phase
            == state.phase,
        state.phase matches PhaseView::Active(run) ==> {
            &&& state.aborted().phase == PhaseView::<P>::Completing(
                run.cohort,
                run.axis_key.mcu_id,
            )
            &&& !(state.aborted().completed(run.cohort, result).phase is Finished)
        },
        state.aborted().pending_suppresses == state.pending_suppresses,
{
}

/// Letting a result go frees the lifecycle where no partial work is owed, and else keeps it
/// for the cohort that owes it. The trips buffered meanwhile are dropped with the failure,
/// the arms stay.
pub proof fn law_released_lifecycle_is_free_or_retiring<P>(state: LifecycleView<P>, cohort: u64)
    ensures
        ({
            let after = state.released(cohort);
            &&& state.pending_suppresses == 0 ==> after.phase is Idle
            &&& state.pending_suppresses != 0 ==> after.phase == PhaseView::<P>::Retiring(cohort)
            &&& after.pending_trips.len() == 0
            &&& after.failure is None
            &&& !after.consumer_cancelled
            &&& after.pending_suppresses == state.pending_suppresses
            &&& after.recent_arms == state.recent_arms
            &&& after.drip_active == state.drip_active
        }),
{
}

/// Retiring a piece of partial work takes one piece off what is owed. An error fails an
/// active run, which is then taken, and a completing one; without an error, or once the run
/// is over, nothing fails. An active run that has not failed goes on.
pub proof fn law_partial_work_retires_one_by_one<P>(
    state: LifecycleView<P>,
    cohort: u64,
    error: Option<Seq<char>>,
)
    requires
        state.settled(),
        state.awaits_partial(cohort),
    ensures
        ({
            let after = state.partial_retired(cohort, error);
            &&& state.pending_suppresses > 0
            &&& after.pending_suppresses == state.pending_suppresses - 1
            &&& state.phase matches PhaseView::Active(run) ==> {
                &&& run.cohort == cohort
                &&& error is None ==> after.phase == state.phase && after.failure is None
                    && state.partial_takes(cohort, error) is None
                &&& error is Some ==> after.failure == error && after.phase == PhaseView::<
                    P,
                >::Completing(run.cohort, run.axis_key.mcu_id) && state.partial_takes(
                    cohort,
                    error,
                ) == Some(run)
            }
            &&& state.phase is Completing ==> {
                &&& after.phase == state.phase
                &&& state.partial_takes(cohort, error) is None
                &&& state.failure is Some ==> after.failure == state.failure
                &&& state.failure is None ==> after.failure == error
            }
            &&& state.phase is Retiring ==> {
                &&& after.failure is None
                &&& state.pending_suppresses == 1 ==> after.phase is Idle
                &&& state.pending_suppresses > 1 ==> after.phase == state.phase
            }
            &&& after.pending_trips == state.pending_trips
            &&& after.recent_arms == state.recent_arms
            &&& after.consumer_cancelled == state.consumer_cancelled
        }),
{
}

/// Partial work is owed to a lifecycle only where some is pending and the run that it holds,
/// in whatever phase, is of that cohort.
pub proof fn law_partial_work_is_of_the_held_run<P>(state: LifecycleView<P>, cohort: u64)
    requires
        state.awaits_partial(cohort),
    ensures
        state.pending_suppresses > 0,
        !(state.phase is Idle) && !(state.phase is Registering),
        state.phase matches PhaseView::Active(run) ==> run.cohort == cohort,
        state.phase matches PhaseView::Completing(id, _) ==> id == cohort,
        state.phase matches PhaseView::Finished(id, _) ==> id == cohort,
        state.phase matches PhaseView::Retiring(id) ==> id == cohort,
{
}

/// Arming an endstop anew forgets the arms and the buffered trips of that endstop and of no
/// other.
pub proof fn law_arming_forgets_only_its_own_endstop(
    arms: Seq<(u32, u8, i64)>,
    trips: Seq<Trip>,
    mcu: u32,
    endstop_id: u8,
    arm: (u32, u8, i64),
    trip: Trip,
)
    ensures
        other_arms(arms, mcu, endstop_id).contains(arm) <==> arms.contains(arm) && !(arm.0 == mcu
            && arm.1 == endstop_id),
        other_trips(trips, mcu, endstop_id).contains(trip) <==> trips.contains(trip) && !(trip.0
            == mcu && trip.1 == endstop_id),
        other_arms(arms, mcu, endstop_id).len() <= arms.len(),
        other_trips(trips, mcu, endstop_id).len() <= trips.len(),
{
    broadcast use {
        Seq::lemma_filter_len,
        Seq::lemma_filter_pred,
        Seq::lemma_filter_contains,
        Seq::lemma_filter_contains_rev,
    };

    if arms.contains(arm) && !(arm.0 == mcu && arm.1 == endstop_id) {
        let i = choose|i: int| 0 <= i < arms.len() && arms[i] == arm;
        assert(arm_of_another(mcu, endstop_id)(arms[i]));
        assert(arms.filter(arm_of_another(mcu, endstop_id)).contains(arms[i]));
    }
    if other_arms(arms, mcu, endstop_id).contains(arm) {
        let kept = arms.filter(arm_of_another(mcu, endstop_id));
        let i = choose|i: int| 0 <= i < kept.len() && kept[i] == arm;
        assert(arm_of_another(mcu, endstop_id)(kept[i]));
        assert(arms.contains(kept[i]));
    }
    if trips.contains(trip) && !(trip.0 == mcu && trip.1 == endstop_id) {
        let i = choose|i: int| 0 <= i < trips.len() && trips[i] == trip;
        assert(trip_of_another(mcu, endstop_id)(trips[i]));
        assert(trips.filter(trip_of_another(mcu, endstop_id)).contains(trips[i]));
    }
    if other_trips(trips, mcu, endstop_id).contains(trip) {
        let kept = trips.filter(trip_of_another(mcu, endstop_id));
        let i = choose|i: int| 0 <= i < kept.len() && kept[i] == trip;
        assert(trip_of_another(mcu, endstop_id)(kept[i]));
        assert(trips.contains(kept[i]));
    }
}

/// A run's window starts when the first of its endstops was armed: no arm of one of them is
/// earlier, one of them was armed then, and arms of other endstops do not count.
pub proof fn law_window_starts_at_the_first_arm(
    arms: Seq<(u32, u8, i64)>,
    trips: Seq<(u32, u8)>,
    start: Option<i64>,
    arm: (u32, u8, i64),
)
    requires
        is_window_start(arms, trips, start),
    ensures
        arms.contains(arm) && trips.contains((arm.0, arm.1)) ==> start is Some && start->0 <= arm.2,
        start matches Some(time) ==> exists|first: (u32, u8, i64)|
            {
                &&& #[trigger] arms.contains(first)
                &&& trips.contains((first.0, first.1))
                &&& first.2 == time
            },
{
    if arms.contains(arm) {
        let i = choose|i: int| 0 <= i < arms.len() && arms[i] == arm;
        assert(arms[i].0 == arm.0);
    }
    if let Some(time) = start {
        let i = choose|i: int|
            0 <= i < arms.len() && trips.contains((#[trigger] arms[i].0, arms[i].1)) && arms[i].2
                == time;
        assert(arms.contains(arms[i]));
    }
}

/// A trip is kept for a run that is not there yet, and for no other.
pub proof fn law_early_trips_wait_for_registration<P>(state: LifecycleView<P>)
    ensures
        state.buffers_trips() <==> state.phase is Idle || state.phase is Registering,
{
}

/// What the pump is told of a run that will not go on is that run's lanes, all of them in
/// order, and that run's cohort.
pub proof fn law_cleanup_is_of_the_runs_lanes<P>(run: HomingRun<P>, cleanup: LaneCleanup)
    requires
        call_ensures(LaneCleanup::of::<P>, (&run,), cleanup),
    ensures
        cleanup.disarm == run.cohort,
        cleanup.flush@.len() == run.all_axis_keys@.len(),
        forall|i: int|
            0 <= i < cleanup.flush@.len() ==> #[trigger] cleanup.flush@[i]
                == run.all_axis_keys@[i],
{
}

/// Arming an endstop anew keeps the arms and trips of the others in their order.
pub proof fn law_arming_keeps_the_order_of_the_others(
    arms: Seq<(u32, u8, i64)>,
    trips: Seq<Trip>,
    mcu: u32,
    endstop_id: u8,
    arm: (u32, u8, i64),
    trip: Trip,
)
    ensures
        other_arms(Seq::empty(), mcu, endstop_id).len() == 0,
        other_trips(Seq::empty(), mcu, endstop_id).len() == 0,
        arm.0 == mcu && arm.1 == endstop_id ==> other_arms(arms.push(arm), mcu, endstop_id)
            == other_arms(arms, mcu, endstop_id),
        arm.0 != mcu || arm.1 != endstop_id ==> other_arms(arms.push(arm), mcu, endstop_id)
            == other_arms(arms, mcu, endstop_id).push(arm),
        trip.0 == mcu && trip.1 == endstop_id ==> other_trips(trips.push(trip), mcu, endstop_id)
            == other_trips(trips, mcu, endstop_id),
        trip.0 != mcu || trip.1 != endstop_id ==> other_trips(trips.push(trip), mcu, endstop_id)
            == other_trips(trips, mcu, endstop_id).push(trip),
{
    broadcast use Seq::lemma_filter_len;

    arms.lemma_filter_push(arm, arm_of_another(mcu, endstop_id));
    trips.lemma_filter_push(trip, trip_of_another(mcu, endstop_id));
    assert(Seq::<(u32, u8, i64)>::empty().filter(arm_of_another(mcu, endstop_id)).len() <= 0);
    assert(Seq::<Trip>::empty().filter(trip_of_another(mcu, endstop_id)).len() <= 0);
}

/// The value of a run is its fields.
pub proof fn law_run_value_is_its_fields<P>(run: HomingRun<P>)
    ensures
        run@.cohort == run.cohort,
        run@.remaining_trips == run.remaining_trips@,
        run@.axis_key == run.axis_key,
        run@.all_axis_keys == run.all_axis_keys@,
        run@.window_start_host == run.window_start_host,
        run@.start_pos == run.start_pos,
        run_option_view(Some(run)) == Some(run@),
        run_option_view(None::<HomingRun<P>>) is None,
{
}

/// The value of a lifecycle is its fields, and its phase the value of its phase.
pub proof fn law_lifecycle_value_is_its_fields<P>(lifecycle: HomingLifecycle<P>)
    ensures
        lifecycle@.pending_suppresses == lifecycle.pending_suppresses,
        lifecycle@.pending_trips == lifecycle.pending_trips@,
        lifecycle@.recent_arms == lifecycle.recent_arms@,
        lifecycle.failure is None <==> lifecycle@.failure is None,
        lifecycle.failure matches Some(reason) ==> lifecycle@.failure == Some(reason@),
        lifecycle@.consumer_cancelled == lifecycle.consumer_cancelled,
        lifecycle@.drip_active == lifecycle.drip_active,
        lifecycle@.phase is Idle <==> lifecycle.phase is Idle,
        lifecycle.phase matches HomingPhase::Registering(cohort, mcu) ==> lifecycle@.phase
            == PhaseView::<P>::Registering(cohort, mcu),
        lifecycle.phase matches HomingPhase::Active(run) ==> lifecycle@.phase == PhaseView::<
            P,
        >::Active(run@),
        lifecycle.phase matches HomingPhase::Completing(cohort, mcu) ==> lifecycle@.phase
            == PhaseView::<P>::Completing(cohort, mcu),
        lifecycle.phase matches HomingPhase::Retiring(cohort) ==> lifecycle@.phase == PhaseView::<
            P,
        >::Retiring(cohort),
        lifecycle.phase matches HomingPhase::Finished(cohort, Ok(positions)) ==> lifecycle@.phase
            == PhaseView::<P>::Finished(cohort, Ok(positions)),
        lifecycle.phase matches HomingPhase::Finished(cohort, Err(reason)) ==> lifecycle@.phase
            == PhaseView::<P>::Finished(cohort, Err(reason@)),
{
}

/// A new lifecycle is free and holds nothing.
pub proof fn law_new_lifecycle_is_free<P>(lifecycle: HomingLifecycle<P>)
    requires
        call_ensures(HomingLifecycle::<P>::new, (), lifecycle),
    ensures
        lifecycle.phase is Idle,
        lifecycle.pending_suppresses == 0,
        lifecycle.pending_trips@.len() == 0,
        lifecycle.recent_arms@.len() == 0,
        lifecycle.failure is None,
        !lifecycle.consumer_cancelled,
        !lifecycle.drip_active,
{
    law_lifecycle_value_is_its_fields(lifecycle);
}

/// A registration and a completion are of the cohort that the phase names.
pub proof fn law_phase_names_its_cohort<P>(state: LifecycleView<P>, cohort: u64, mcu: u32)
    ensures
        state.phase == PhaseView::<P>::Registering(cohort, mcu) ==> state.registering(cohort),
        state.registering(cohort) ==> state.phase is Registering
            && state.phase->Registering_0 == cohort,
        state.phase == PhaseView::<P>::Completing(cohort, mcu) ==> state.completing(cohort),
        state.completing(cohort) ==> state.phase is Completing && state.phase->Completing_0
            == cohort,
{
}

/// A wait that times out tells how many partial calls were left.
pub proof fn law_timed_out_wait_counts_what_is_left<P>(
    state: HomingState<P>,
    cohort: u64,
    timed_out: bool,
    outcome: Result<(), String>,
)
    requires
        state@.completing(cohort),
        call_ensures(
            HomingState::<P>::wait_for_pending_suppresses,
            (&state, cohort, timed_out),
            outcome,
        ),
    ensures
        outcome is Err <==> timed_out && state.lifecycle.pending_suppresses > 0,
        outcome is Err ==> outcome->Err_0@ == "StepperSuppress: "@ + crate::text::decimal(
            state.lifecycle.pending_suppresses as nat,
        ) + " partial call(s) did not finish before terminal Stop"@,
{
}

/// Completing a run leaves the result that was handed in to be polled: both positions in
/// their order and the clock. A failure noted before stands instead, and where the consumer
/// has given up there is nothing to poll. The poll that follows hands out what was left.
pub proof fn law_poll_hands_out_what_was_completed<P>(
    completed: &mut HomingState<P>,
    cohort: u64,
    result: HomingResult<P>,
    polled: &mut HomingState<P>,
    outcome: Result<Option<HomingResult<P>>, String>,
)
    requires
        call_ensures(HomingState::<P>::complete, (completed, cohort, result), ()),
        call_ensures(HomingState::<P>::poll, (polled,), outcome),
        old(polled).lifecycle.phase == final(completed).lifecycle.phase,
    ensures
        !old(completed).lifecycle.consumer_cancelled ==> final(completed).lifecycle.phase
            is Finished && final(completed).lifecycle.phase->Finished_0 == cohort,
        !old(completed).lifecycle.consumer_cancelled && old(completed).lifecycle.failure is None
            ==> final(completed).lifecycle.phase->Finished_1 == result && (outcome matches Ok(
            Some(delivered),
        ) ==> delivered == result),
        !old(completed).lifecycle.consumer_cancelled ==> (old(completed).lifecycle.failure matches Some(failure) ==> outcome matches Ok(Some(delivered))
            ==> delivered is Err && delivered->Err_0@ == failure@),
        old(completed).lifecycle.consumer_cancelled ==> !(final(completed).lifecycle.phase
            is Finished),
        final(completed)@.pending_suppresses == old(completed)@.pending_suppresses,
        final(completed)@.recent_arms == old(completed)@.recent_arms,
{
}

/// A poll is refused exactly where there is no run. It hands out a result exactly where the
/// run has finished with an error, or with success and no partial work left; then the
/// lifecycle is let go. Any other poll changes nothing.
pub proof fn law_poll_waits_for_a_finished_run<P>(
    state: &mut HomingState<P>,
    outcome: Result<Option<HomingResult<P>>, String>,
)
    requires
        call_ensures(HomingState::<P>::poll, (state,), outcome),
    ensures
        outcome is Err <==> old(state).lifecycle.phase is Idle,
        outcome is Err ==> outcome->Err_0@ == "home_axis_poll: no homing in progress"@,
        outcome is Ok && outcome->Ok_0 is Some <==> old(state).lifecycle.phase is Finished && (
        old(state).lifecycle.phase->Finished_1 is Err || old(state).lifecycle.pending_suppresses
            == 0),
        outcome is Ok && outcome->Ok_0 is Some ==> outcome->Ok_0->0 == old(state).lifecycle.phase->Finished_1 && !(final(state)@.phase is Finished),
        !(outcome is Ok && outcome->Ok_0 is Some) ==> final(state)@ == old(state)@,
{
}

/// A run begins exactly on a free lifecycle, and then registers under its cohort and the mcu
/// of its axis. The drip opens exactly where the run has not failed meanwhile; else its
/// failure is told and nothing opens.
pub proof fn law_run_begins_on_a_free_lifecycle<P>(
    begun: &mut HomingState<P>,
    cohort: u64,
    axis_mcu: u32,
    outcome: Result<(), String>,
    armed: &mut HomingState<P>,
    opened: Result<(), String>,
)
    requires
        old(armed)@.registering(cohort),
        call_ensures(HomingState::<P>::begin, (begun, cohort, axis_mcu), outcome),
        call_ensures(HomingState::<P>::arm, (armed, cohort), opened),
    ensures
        outcome is Ok <==> old(begun).lifecycle.phase is Idle,
        outcome is Ok ==> final(begun)@.phase == PhaseView::<P>::Registering(cohort, axis_mcu),
        outcome is Err ==> final(begun)@ == old(begun)@ && outcome->Err_0@
            == "home_axis: homing lifecycle is already owned"@,
        final(begun)@.pending_trips == old(begun)@.pending_trips,
        final(begun)@.recent_arms == old(begun)@.recent_arms,
        final(begun)@.drip_active == old(begun)@.drip_active,
        opened is Ok <==> old(armed).lifecycle.failure is None,
        opened is Ok ==> final(armed)@.drip_active,
        old(armed).lifecycle.failure matches Some(failure) ==> opened->Err_0@ == failure@
            && final(armed)@ == old(armed)@,
        final(armed)@.phase == old(armed)@.phase,
{
}

/// A run becomes active as it is, exactly where its own cohort is registering and nothing
/// failed meanwhile. A failure is handed out and forgotten, and a lifecycle of another is
/// left alone.
pub proof fn law_run_becomes_active_under_its_cohort<P>(
    state: &mut HomingState<P>,
    run: HomingRun<P>,
    outcome: Result<(), String>,
)
    requires
        call_ensures(HomingState::<P>::register, (state, run), outcome),
    ensures
        ({
            let own = old(state)@.phase is Registering && old(state)@.phase->Registering_0
                == run.cohort;
            &&& outcome is Ok <==> own && old(state)@.failure is None
            &&& outcome is Ok ==> final(state)@.phase == PhaseView::Active(run@)
            &&& !own ==> final(state)@ == old(state)@ && outcome->Err_0@
                == "home_axis: registration lost lifecycle ownership"@
            &&& own ==> (old(state)@.failure matches Some(failure) ==> outcome->Err_0@ == failure
                && final(state)@.failure is None && final(state)@.phase == old(state)@.phase)
            &&& final(state)@.pending_trips == old(state)@.pending_trips
            &&& final(state)@.pending_suppresses == old(state)@.pending_suppresses
        }),
{
}

/// A registration that is given up leaves the lifecycle free, with its trips, failure and
/// drip gone and the arms and partial work as they were.
pub proof fn law_cancelled_registration_frees_the_lifecycle<P>(state: &mut HomingState<P>)
    requires
        old(state)@.phase is Registering,
        call_ensures(HomingState::<P>::cancel_registration, (state,), ()),
    ensures
        final(state)@.phase is Idle,
        final(state)@.pending_trips.len() == 0,
        final(state)@.failure is None,
        !final(state)@.consumer_cancelled,
        !final(state)@.drip_active,
        final(state)@.recent_arms == old(state)@.recent_arms,
        final(state)@.pending_suppresses == old(state)@.pending_suppresses,
{
}

/// Arming an endstop records it last, with its time, and voids the trips that were buffered
/// for it. Taking the window forgets every arm and nothing else.
pub proof fn law_arm_is_recorded_last<P>(
    armed: &mut HomingState<P>,
    mcu: u32,
    endstop_id: u8,
    host_time: i64,
    asked: &mut HomingState<P>,
    trips: &[(u32, u8)],
    start: Option<i64>,
)
    requires
        call_ensures(HomingState::<P>::note_arm, (armed, mcu, endstop_id, host_time), ()),
        call_ensures(HomingState::<P>::take_arm_window_start, (asked, trips), start),
    ensures
        final(armed)@.recent_arms.len() > 0,
        final(armed)@.recent_arms.last() == (mcu, endstop_id, host_time),
        final(armed)@.recent_arms.drop_last() == other_arms(
            old(armed)@.recent_arms,
            mcu,
            endstop_id,
        ),
        final(armed)@.pending_trips == other_trips(old(armed)@.pending_trips, mcu, endstop_id),
        final(armed)@.phase == old(armed)@.phase,
        final(armed)@.failure == old(armed)@.failure,
        is_window_start(old(asked)@.recent_arms, trips@, start),
        final(asked)@.recent_arms.len() == 0,
        final(asked)@.phase == old(asked)@.phase,
        final(asked)@.pending_trips == old(asked)@.pending_trips,
{
    assert(final(armed)@.recent_arms.drop_last() =~= other_arms(
        old(armed)@.recent_arms,
        mcu,
        endstop_id,
    ));
}

/// An active run is handed to whoever interrupts it by a fault of its own mcu or of none,
/// and to whoever aborts it; in no other phase is one handed out.
pub proof fn law_interrupted_run_is_handed_out<P>(
    interrupted: &mut HomingState<P>,
    mcu: Option<u32>,
    error: String,
    taken: Option<HomingRun<P>>,
    aborted: &mut HomingState<P>,
    given_up: Option<HomingRun<P>>,
)
    requires
        call_ensures(HomingState::<P>::interrupt, (interrupted, mcu, error), taken),
        call_ensures(HomingState::<P>::abort, (aborted,), given_up),
    ensures
        taken is Some <==> old(interrupted)@.phase is Active && (mcu is None || mcu == Some(
            old(interrupted)@.phase->Active_0.axis_key.mcu_id,
        )),
        taken matches Some(run) ==> run@ == old(interrupted)@.phase->Active_0
            && final(interrupted)@.phase is Completing && final(interrupted)@.failure is Some,
        given_up is Some <==> old(aborted)@.phase is Active,
        given_up matches Some(run) ==> run@ == old(aborted)@.phase->Active_0
            && final(aborted)@.phase is Completing && final(aborted)@.consumer_cancelled,
        final(interrupted)@ == old(interrupted)@.interrupted(mcu, error@),
        final(aborted)@ == old(aborted)@.aborted(),
{
}

/// A piece of partial work that failed hands out the active run it ends, and no other does.
pub proof fn law_failed_partial_work_hands_out_the_run<P>(
    state: &mut HomingState<P>,
    cohort: u64,
    error: Option<String>,
    run: Option<HomingRun<P>>,
)
    requires
        old(state)@.awaits_partial(cohort),
        old(state)@.settled(),
        call_ensures(HomingState::<P>::retire_partial, (state, cohort, error), run),
    ensures
        run is Some <==> old(state)@.phase is Active && error is Some,
        run matches Some(taken) ==> taken@ == old(state)@.phase->Active_0 && final(state)@.phase
            is Completing && final(state)@.failure == Some(error->0@),
        final(state)@.pending_suppresses == old(state)@.pending_suppresses - 1,
        final(state)@ == old(state)@.partial_retired(cohort, failure_view(error)),
{
}

/// The active run is taken exactly where it is accepted: it is then completing under its own
/// cohort and mcu, with the drip closed. In any other phase, or where it is not accepted,
/// nothing is taken and nothing changes.
pub proof fn law_accepted_run_is_taken<P, F: FnOnce(&HomingRun<P>) -> bool>(
    lifecycle: &mut HomingLifecycle<P>,
    accepts: F,
    taken: Option<HomingRun<P>>,
)
    requires
        call_ensures(HomingLifecycle::<P>::take_terminal::<F>, (lifecycle, accepts), taken),
    ensures
        taken matches Some(run) ==> {
            &&& old(lifecycle).phase == HomingPhase::Active(run)
            &&& call_ensures(accepts, (&run,), true)
            &&& final(lifecycle)@.phase == PhaseView::<P>::Completing(
                run.cohort,
                run.axis_key.mcu_id,
            )
            &&& !final(lifecycle)@.drip_active
            &&& final(lifecycle)@.failure == old(lifecycle)@.failure
            &&& final(lifecycle)@.pending_suppresses == old(lifecycle)@.pending_suppresses
            &&& final(lifecycle)@.pending_trips == old(lifecycle)@.pending_trips
            &&& final(lifecycle)@.recent_arms == old(lifecycle)@.recent_arms
        },
        taken is None ==> final(lifecycle)@ == old(lifecycle)@,
        taken is None ==> (old(lifecycle).phase matches HomingPhase::Active(run) ==> call_ensures(
            accepts,
            (&run,),
            false,
        )),
        !(old(lifecycle).phase is Active) ==> taken is None,
{
}

} // verus!
