//! How a run ends after its last endstop tripped.
//!
//! Everything that must come to rest is stopped even where an earlier step failed;
//! only then does the run fail with all the errors together. The positions are
//! worked out only after a clean stop, and the streams open again only with them.

use crate::homing::state::{HomingResult, HomingRun, RemoteFreeze, RunView};
use crate::pump::lanes::AxisKey;
use crate::sorted::insert_in_order;
use crate::text::{append_decimal, append_signed_decimal, join};
use vstd::prelude::*;
use vstd::string::*;

verus! {

/// Where the handler stands: what it waits to hear.
#[derive(Debug)]
pub enum TripStage<P> {
    Waiting,
    Suppressing,
    Halting,
    Stopping,
    Reconstructing { source_mcu: u32, clock: u64 },
    CheckingFailure { trip: P, rest: P },
    Resuming { trip: P, rest: P, index: usize },
    ResumingPump { trip: P, rest: P },
    Finished(HomingResult<P>),
}

/// What the handler asks for next.
#[derive(Debug, Clone, Copy, PartialEq, Eq, Structural)]
pub enum TripAction {
    /// Wait until no partial work is pending, or give up waiting.
    AwaitPartialWork,
    /// Freeze the last endstop's motor on its own mcu, and relay the clock at which
    /// that took effect.
    Suppress { freeze: RemoteFreeze },
    /// Disarm the drip and halt the run's lanes in the pump.
    HaltPump,
    /// Stop every mcu of the run, and report the clock at which the homed axis's mcu
    /// discarded its stream.
    StopMcus,
    /// Work out where the run tripped, as of `trip_clock` of the mcu `trip_mcu`, and where
    /// it came to rest, as of `clock` of the mcu `source_mcu`.
    Reconstruct { trip_mcu: u32, trip_clock: u64, source_mcu: u32, clock: u64 },
    /// Report whether the run has failed meanwhile.
    CheckFailure,
    /// Open this mcu's stream again.
    ResumeMcu { mcu_id: u32 },
    /// Let the run's lanes in the pump send again, and wait for a barrier.
    ResumePump,
    /// Complete the run with the handler's result.
    Complete,
}

/// What came of resuming one mcu's stream.
#[derive(Debug)]
pub enum ResumeReply {
    NoTransport,
    CallFailed(String),
    DecodeFailed(String),
    Result(i32),
}

/// What came of resuming the pump's lanes.
#[derive(Debug, Clone, Copy, PartialEq, Eq, Structural)]
pub enum PumpResume {
    Resumed,
    ClosedBeforeResume,
    ClosedBeforeBarrier,
    NotAcknowledged,
}

/// What the caller has to say to the last action.
#[derive(Debug)]
pub enum TripEvent<P> {
    Waited(Result<(), String>),
    Suppressed(Result<u64, String>),
    Halted(bool),
    Stopped(Result<u64, String>),
    Positions(Result<(P, P), String>),
    Failure(Option<String>),
    Resumed(ResumeReply),
    PumpResumed(PumpResume),
}

/// The handler of one run's end.
#[derive(Debug)]
pub struct TripHandler<P> {
    pub run: HomingRun<P>,
    pub event_mcu: u32,
    pub trip_clock: u64,
    pub freeze: Option<RemoteFreeze>,
    pub has_pump: bool,
    /// The mcus of the run's lanes, in increasing order.
    pub mcus: Vec<u32>,
    pub errors: Vec<String>,
    /// The mcu and clock at which the last motor froze, where it was frozen.
    pub suppression: Option<(u32, u64)>,
    pub stage: TripStage<P>,
}

/// The value of a stage.
#[verifier::ext_equal]
pub enum StageView<P> {
    Waiting,
    Suppressing,
    Halting,
    Stopping,
    Reconstructing { source_mcu: u32, clock: u64 },
    CheckingFailure { trip: P, rest: P },
    Resuming { trip: P, rest: P, index: int },
    ResumingPump { trip: P, rest: P },
    Finished(Result<(P, P, u64), Seq<char>>),
}

/// The value of a handler.
#[verifier::ext_equal]
pub struct HandlerView<P> {
    pub run: RunView<P>,
    pub event_mcu: u32,
    pub trip_clock: u64,
    pub freeze: Option<RemoteFreeze>,
    pub has_pump: bool,
    pub mcus: Seq<u32>,
    pub errors: Seq<Seq<char>>,
    pub suppression: Option<(u32, u64)>,
    pub stage: StageView<P>,
}

impl<P> View for TripStage<P> {
    type V = StageView<P>;

    open spec fn view(&self) -> StageView<P> {
        match *self {
            TripStage::Waiting => StageView::Waiting,
            TripStage::Suppressing => StageView::Suppressing,
            TripStage::Halting => StageView::Halting,
            TripStage::Stopping => StageView::Stopping,
            TripStage::Reconstructing { source_mcu, clock } => StageView::Reconstructing {
                source_mcu,
                clock,
            },
            TripStage::CheckingFailure { trip, rest } => StageView::CheckingFailure { trip, rest },
            TripStage::Resuming { trip, rest, index } => StageView::Resuming {
                trip,
                rest,
                index: index as int,
            },
            TripStage::ResumingPump { trip, rest } => StageView::ResumingPump { trip, rest },
            TripStage::Finished(result) => StageView::Finished(
                crate::homing::state::result_view(result),
            ),
        }
    }
}

impl<P> View for TripHandler<P> {
    type V = HandlerView<P>;

    open spec fn view(&self) -> HandlerView<P> {
        HandlerView {
            run: self.run@,
            event_mcu: self.event_mcu,
            trip_clock: self.trip_clock,
            freeze: self.freeze,
            has_pump: self.has_pump,
            mcus: self.mcus@,
            errors: crate::text::texts(self.errors@),
            suppression: self.suppression,
            stage: self.stage@,
        }
    }
}

pub open spec fn pump_halt_text() -> Seq<char> {
    "EndstopTrip: pump did not halt before endpoint Stop"@
}

pub open spec fn resume_refusal(mcu_id: u32, reply: ResumeReply) -> Option<Seq<char>> {
    let mcu = crate::text::decimal(mcu_id as nat);
    match reply {
        ResumeReply::NoTransport => Some("ResumeStream: no transport for mcu "@ + mcu),
        ResumeReply::CallFailed(reason) => Some(
            "ResumeStream call failed for mcu "@ + mcu + ": "@ + reason@,
        ),
        ResumeReply::DecodeFailed(reason) => Some(
            "ResumeStream decode failed for mcu "@ + mcu + ": "@ + reason@,
        ),
        ResumeReply::Result(result) => if result == 0 {
            None
        } else {
            Some(
                "ResumeStream rejected by mcu "@ + mcu + ": result="@
                    + crate::text::signed_decimal(result as int),
            )
        },
    }
}

pub open spec fn pump_refusal(resume: PumpResume) -> Option<Seq<char>> {
    match resume {
        PumpResume::Resumed => None,
        PumpResume::ClosedBeforeResume => Some("EndstopTrip: pump channel closed before resume"@),
        PumpResume::ClosedBeforeBarrier => Some(
            "EndstopTrip: pump channel closed before resume barrier"@,
        ),
        PumpResume::NotAcknowledged => Some(
            "EndstopTrip: pump did not acknowledge resume after endpoint ResumeStream"@,
        ),
    }
}

/// What one mcu's reply to a resume means.
pub fn check_resume(mcu_id: u32, reply: ResumeReply) -> (outcome: Result<(), String>)
    ensures
        match resume_refusal(mcu_id, reply) {
            None => outcome is Ok,
            Some(text) => outcome is Err && outcome->Err_0@ == text,
        },
{
    match reply {
        ResumeReply::NoTransport => {
            let mut refusal = "ResumeStream: no transport for mcu ".to_owned();
            append_decimal(&mut refusal, mcu_id as u64);
            Err(refusal)
        },
        ResumeReply::CallFailed(reason) => {
            let mut refusal = "ResumeStream call failed for mcu ".to_owned();
            append_decimal(&mut refusal, mcu_id as u64);
            refusal.append(": ");
            refusal.append(reason.as_str());
            Err(refusal)
        },
        ResumeReply::DecodeFailed(reason) => {
            let mut refusal = "ResumeStream decode failed for mcu ".to_owned();
            append_decimal(&mut refusal, mcu_id as u64);
            refusal.append(": ");
            refusal.append(reason.as_str());
            Err(refusal)
        },
        ResumeReply::Result(result) => {
            if result == 0 {
                return Ok(());
            }
            let mut refusal = "ResumeStream rejected by mcu ".to_owned();
            append_decimal(&mut refusal, mcu_id as u64);
            refusal.append(": result=");
            append_signed_decimal(&mut refusal, result as i64);
            Err(refusal)
        },
    }
}

/// What resuming the pump came to.
pub fn check_pump_resume(resume: PumpResume) -> (outcome: Result<(), String>)
    ensures
        match pump_refusal(resume) {
            None => outcome is Ok,
            Some(text) => outcome is Err && outcome->Err_0@ == text,
        },
{
    match resume {
        PumpResume::Resumed => Ok(()),
        PumpResume::ClosedBeforeResume => Err(
            "EndstopTrip: pump channel closed before resume".to_owned(),
        ),
        PumpResume::ClosedBeforeBarrier => Err(
            "EndstopTrip: pump channel closed before resume barrier".to_owned(),
        ),
        PumpResume::NotAcknowledged => Err(
            "EndstopTrip: pump did not acknowledge resume after endpoint ResumeStream".to_owned(),
        ),
    }
}

/// Some lane of the run is on this mcu.
pub open spec fn has_lane_on(keys: Seq<AxisKey>, mcu_id: u32) -> bool {
    exists|i: int| 0 <= i < keys.len() && (#[trigger] keys[i]).mcu_id == mcu_id
}

/// `mcus` lists the mcus of the lanes, each once and in increasing order.
pub open spec fn lists_mcus(mcus: Seq<u32>, keys: Seq<AxisKey>) -> bool {
    &&& crate::sorted::strictly_increasing(mcus)
    &&& forall|mcu_id: u32| #[trigger] mcus.contains(mcu_id) <==> has_lane_on(keys, mcu_id)
}

/// The mcus of some lanes.
pub fn mcus_of(keys: &Vec<AxisKey>) -> (mcus: Vec<u32>)
    ensures
        lists_mcus(mcus@, keys@),
{
    let mut mcus: Vec<u32> = Vec::new();
    let mut index: usize = 0;
    while index < keys.len()
        invariant
            index <= keys@.len(),
            lists_mcus(mcus@, keys@.take(index as int)),
        decreases keys@.len() - index,
    {
        let ghost listed = mcus@;
        let mcu_id: u32 = keys[index].mcu_id;
        insert_in_order(&mut mcus, mcu_id);
        proof {
            let earlier = keys@.take(index as int);
            let upto = keys@.take(index + 1);
            assert forall|other: u32| #[trigger] mcus@.contains(other) <==> has_lane_on(
                upto,
                other,
            ) by {
                assert(mcus@.contains(other) <==> listed.contains(other) || other == mcu_id);
                if has_lane_on(earlier, other) {
                    let i = choose|i: int|
                        0 <= i < earlier.len() && (#[trigger] earlier[i]).mcu_id == other;
                    assert(upto[i] == earlier[i]);
                }
                if other == mcu_id {
                    assert(upto[index as int].mcu_id == other);
                }
                if has_lane_on(upto, other) {
                    let i = choose|i: int|
                        0 <= i < upto.len() && (#[trigger] upto[i]).mcu_id == other;
                    if i < index {
                        assert(earlier[i] == upto[i]);
                    }
                }
            }
        }
        index += 1;
    }
    assert(keys@.take(index as int) =~= keys@);
    mcus
}

/// The event answers what the stage asked.
pub open spec fn trip_event_fits<P>(stage: StageView<P>, event: TripEvent<P>) -> bool {
    match event {
        TripEvent::Waited(_) => stage is Waiting,
        TripEvent::Suppressed(_) => stage is Suppressing,
        TripEvent::Halted(_) => stage is Halting,
        TripEvent::Stopped(_) => stage is Stopping,
        TripEvent::Positions(_) => stage is Reconstructing,
        TripEvent::Failure(_) => stage is CheckingFailure,
        TripEvent::Resumed(_) => stage is Resuming,
        TripEvent::PumpResumed(_) => stage is ResumingPump,
    }
}

impl<P> HandlerView<P> {
    /// Each mcu still to resume is one of the run's.
    pub open spec fn wf(self) -> bool {
        &&& lists_mcus(self.mcus, self.run.all_axis_keys)
        &&& self.stage matches StageView::Resuming { index, .. } ==> 0 <= index < self.mcus.len()
    }

    /// The state with one more error, where there is one.
    pub open spec fn noting(self, error: Option<Seq<char>>) -> HandlerView<P> {
        match error {
            Some(text) => HandlerView { errors: self.errors.push(text), ..self },
            None => self,
        }
    }

    /// The last motor is on another mcu than the endstop that tripped.
    pub open spec fn freezes_remotely(self) -> bool {
        self.freeze matches Some(freeze) && freeze.motor_mcu != self.event_mcu
    }

    /// The stage that stops the motion.
    pub open spec fn stop_stage(self) -> StageView<P> {
        if self.has_pump {
            StageView::Halting
        } else {
            StageView::Stopping
        }
    }

    pub open spec fn after_wait(self, waited: Result<(), String>) -> HandlerView<P> {
        let noted = self.noting(
            match waited {
                Ok(()) => None,
                Err(reason) => Some(reason@),
            },
        );
        HandlerView {
            suppression: if self.freeze is Some && !self.freezes_remotely() {
                Some((self.event_mcu, self.trip_clock))
            } else {
                self.suppression
            },
            stage: if self.freezes_remotely() {
                StageView::Suppressing
            } else {
                self.stop_stage()
            },
            ..noted
        }
    }

    pub open spec fn after_suppress(self, suppressed: Result<u64, String>) -> HandlerView<P> {
        match suppressed {
            Ok(clock) => HandlerView {
                suppression: Some((self.freeze->0.motor_mcu, clock)),
                stage: self.stop_stage(),
                ..self
            },
            Err(reason) => HandlerView {
                stage: self.stop_stage(),
                ..self.noting(Some(reason@))
            },
        }
    }

    pub open spec fn after_halt(self, halted: bool) -> HandlerView<P> {
        HandlerView {
            stage: StageView::Stopping,
            ..self.noting(
                if halted {
                    None
                } else {
                    Some(pump_halt_text())
                },
            )
        }
    }

    pub open spec fn after_stop(self, stopped: Result<u64, String>) -> HandlerView<P> {
        let noted = self.noting(
            match stopped {
                Ok(_) => None,
                Err(reason) => Some(reason@),
            },
        );
        if noted.errors.len() > 0 {
            HandlerView {
                stage: StageView::Finished(Err(crate::text::joined(noted.errors, "; "@))),
                ..noted
            }
        } else {
            let (source_mcu, clock) = match self.suppression {
                Some(frozen) => frozen,
                None => (self.run.axis_key.mcu_id, stopped->Ok_0),
            };
            HandlerView { stage: StageView::Reconstructing { source_mcu, clock }, ..noted }
        }
    }

    pub open spec fn after_positions(self, positions: Result<(P, P), String>) -> HandlerView<P> {
        HandlerView {
            stage: match positions {
                Ok((trip, rest)) => StageView::CheckingFailure { trip, rest },
                Err(reason) => StageView::Finished(Err(reason@)),
            },
            ..self
        }
    }

    /// The stage that resumes the mcu at `index`, or what follows the last one.
    pub open spec fn resume_stage(self, trip: P, rest: P, index: int) -> StageView<P> {
        if index < self.mcus.len() {
            StageView::Resuming { trip, rest, index }
        } else if self.has_pump {
            StageView::ResumingPump { trip, rest }
        } else {
            StageView::Finished(Ok((trip, rest, self.trip_clock)))
        }
    }

    /// The handler after an event.
    pub open spec fn next(self, event: TripEvent<P>) -> HandlerView<P> {
        match event {
            TripEvent::Waited(waited) => self.after_wait(waited),
            TripEvent::Suppressed(suppressed) => self.after_suppress(suppressed),
            TripEvent::Halted(halted) => self.after_halt(halted),
            TripEvent::Stopped(stopped) => self.after_stop(stopped),
            TripEvent::Positions(positions) => self.after_positions(positions),
            TripEvent::Failure(failure) => match self.stage {
                StageView::CheckingFailure { trip, rest } => HandlerView {
                    stage: match failure {
                        Some(reason) => StageView::Finished(Err(reason@)),
                        None => self.resume_stage(trip, rest, 0),
                    },
                    ..self
                },
                _ => self,
            },
            TripEvent::Resumed(reply) => match self.stage {
                StageView::Resuming { trip, rest, index } => HandlerView {
                    stage: match resume_refusal(self.mcus[index], reply) {
                        Some(refusal) => StageView::Finished(Err(refusal)),
                        None => self.resume_stage(trip, rest, index + 1),
                    },
                    ..self
                },
                _ => self,
            },
            TripEvent::PumpResumed(resume) => match self.stage {
                StageView::ResumingPump { trip, rest } => HandlerView {
                    stage: match pump_refusal(resume) {
                        Some(refusal) => StageView::Finished(Err(refusal)),
                        None => StageView::Finished(Ok((trip, rest, self.trip_clock))),
                    },
                    ..self
                },
                _ => self,
            },
        }
    }

    /// What the handler asks for at its stage.
    pub open spec fn action(self) -> TripAction {
        match self.stage {
            StageView::Waiting => TripAction::AwaitPartialWork,
            StageView::Suppressing => TripAction::Suppress { freeze: self.freeze->0 },
            StageView::Halting => TripAction::HaltPump,
            StageView::Stopping => TripAction::StopMcus,
            StageView::Reconstructing { source_mcu, clock } => TripAction::Reconstruct {
                trip_mcu: self.event_mcu,
                trip_clock: self.trip_clock,
                source_mcu,
                clock,
            },
            StageView::CheckingFailure { .. } => TripAction::CheckFailure,
            StageView::Resuming { index, .. } => TripAction::ResumeMcu { mcu_id: self.mcus[index] },
            StageView::ResumingPump { .. } => TripAction::ResumePump,
            StageView::Finished(_) => TripAction::Complete,
        }
    }

    /// A remote freeze is asked for only where there is one to make.
    pub open spec fn consistent(self) -> bool {
        self.stage is Suppressing ==> self.freeze is Some
    }
}

impl<P: Copy> TripHandler<P> {
    /// The handler of a run that its last endstop has ended.
    pub fn start(
        run: HomingRun<P>,
        event_mcu: u32,
        trip_clock: u64,
        freeze: Option<RemoteFreeze>,
        has_pump: bool,
    ) -> (handler: Self)
        ensures
            handler@.wf(),
            handler@.consistent(),
            handler@ == (HandlerView {
                run: run@,
                event_mcu,
                trip_clock,
                freeze,
                has_pump,
                mcus: handler@.mcus,
                errors: Seq::empty(),
                suppression: None,
                stage: StageView::Waiting,
            }),
    {
        let mcus = mcus_of(&run.all_axis_keys);
        let handler = TripHandler {
            run,
            event_mcu,
            trip_clock,
            freeze,
            has_pump,
            mcus,
            errors: Vec::new(),
            suppression: None,
            stage: TripStage::Waiting,
        };
        assert(handler@.errors =~= Seq::empty());
        handler
    }

    pub fn action(&self) -> (action: TripAction)
        requires
            self@.wf(),
            self@.consistent(),
        ensures
            action == self@.action(),
    {
        match &self.stage {
            TripStage::Waiting => TripAction::AwaitPartialWork,
            TripStage::Suppressing => match self.freeze {
                Some(freeze) => TripAction::Suppress { freeze },
                None => TripAction::AwaitPartialWork,
            },
            TripStage::Halting => TripAction::HaltPump,
            TripStage::Stopping => TripAction::StopMcus,
            TripStage::Reconstructing { source_mcu, clock } => TripAction::Reconstruct {
                trip_mcu: self.event_mcu,
                trip_clock: self.trip_clock,
                source_mcu: *source_mcu,
                clock: *clock,
            },
            TripStage::CheckingFailure { .. } => TripAction::CheckFailure,
            TripStage::Resuming { index, .. } => TripAction::ResumeMcu {
                mcu_id: self.mcus[*index],
            },
            TripStage::ResumingPump { .. } => TripAction::ResumePump,
            TripStage::Finished(_) => TripAction::Complete,
        }
    }

    fn note(&mut self, error: String)
        ensures
            final(self)@ == old(self)@.noting(Some(error@)),
    {
        self.errors.push(error);
        assert(self@.errors =~= old(self)@.errors.push(error@));
    }

    fn stop_stage(&self) -> (stage: TripStage<P>)
        ensures
            stage@ == self@.stop_stage(),
    {
        if self.has_pump {
            TripStage::Halting
        } else {
            TripStage::Stopping
        }
    }

    fn resume_stage(&self, trip: P, rest: P, index: usize) -> (stage: TripStage<P>)
        ensures
            stage@ == self@.resume_stage(trip, rest, index as int),
    {
        if index < self.mcus.len() {
            TripStage::Resuming { trip, rest, index }
        } else if self.has_pump {
            TripStage::ResumingPump { trip, rest }
        } else {
            TripStage::Finished(Ok((trip, rest, self.trip_clock)))
        }
    }

    /// Takes the answer to the last action.
    pub fn advance(&mut self, event: TripEvent<P>)
        requires
            old(self)@.wf(),
            old(self)@.consistent(),
            trip_event_fits(old(self)@.stage, event),
        ensures
            final(self)@.wf(),
            final(self)@.consistent(),
            final(self)@ == old(self)@.next(event),
    {
        match event {
            TripEvent::Waited(waited) => {
                if let Err(reason) = waited {
                    self.note(reason);
                }
                let stop = self.stop_stage();
                self.stage = stop;
                if let Some(freeze) = self.freeze {
                    if freeze.motor_mcu == self.event_mcu {
                        self.suppression = Some((self.event_mcu, self.trip_clock));
                    } else {
                        self.stage = TripStage::Suppressing;
                    }
                }
            },
            TripEvent::Suppressed(suppressed) => {
                match suppressed {
                    Ok(clock) => {
                        if let Some(freeze) = self.freeze {
                            self.suppression = Some((freeze.motor_mcu, clock));
                        }
                    },
                    Err(reason) => {
                        self.note(reason);
                    },
                }
                let stop = self.stop_stage();
                self.stage = stop;
            },
            TripEvent::Halted(halted) => {
                if !halted {
                    self.note("EndstopTrip: pump did not halt before endpoint Stop".to_owned());
                }
                self.stage = TripStage::Stopping;
            },
            TripEvent::Stopped(stopped) => {
                let discard_clock: u64 = match stopped {
                    Ok(clock) => clock,
                    Err(reason) => {
                        self.note(reason);
                        0
                    },
                };
                if self.errors.len() > 0 {
                    let reasons = join(&self.errors, "; ");
                    self.stage = TripStage::Finished(Err(reasons));
                } else {
                    let (source_mcu, clock): (u32, u64) = match self.suppression {
                        Some(frozen) => frozen,
                        None => (self.run.axis_key.mcu_id, discard_clock),
                    };
                    self.stage = TripStage::Reconstructing { source_mcu, clock };
                }
            },
            TripEvent::Positions(positions) => {
                self.stage = match positions {
                    Ok((trip, rest)) => TripStage::CheckingFailure { trip, rest },
                    Err(reason) => TripStage::Finished(Err(reason)),
                };
            },
            TripEvent::Failure(failure) => {
                if let TripStage::CheckingFailure { trip, rest } = self.stage {
                    let stage = match failure {
                        Some(reason) => TripStage::Finished(Err(reason)),
                        None => self.resume_stage(trip, rest, 0),
                    };
                    self.stage = stage;
                }
            },
            TripEvent::Resumed(reply) => {
                if let TripStage::Resuming { trip, rest, index } = self.stage {
                    let count: usize = self.mcus.len();
                    assert(index < count);
                    let stage = match check_resume(self.mcus[index], reply) {
                        Err(refusal) => TripStage::Finished(Err(refusal)),
                        Ok(()) => self.resume_stage(trip, rest, index + 1),
                    };
                    self.stage = stage;
                }
            },
            TripEvent::PumpResumed(resume) => {
                if let TripStage::ResumingPump { trip, rest } = self.stage {
                    let stage = match check_pump_resume(resume) {
                        Err(refusal) => TripStage::Finished(Err(refusal)),
                        Ok(()) => TripStage::Finished(Ok((trip, rest, self.trip_clock))),
                    };
                    self.stage = stage;
                }
            },
        }
    }

    /// The run's cohort and result, once the handler has finished.
    pub fn into_result(self) -> (result: Option<(u64, HomingResult<P>)>)
        ensures
            match self@.stage {
                StageView::Finished(outcome) => match result {
                    Some((cohort, reported)) => cohort == self@.run.cohort
                        && crate::homing::state::result_view(reported) == outcome,
                    None => false,
                },
                _ => result is None,
            },
            self.stage matches TripStage::Finished(reported) ==> result == Some(
                (self.run.cohort, reported),
            ),
    {
        match self.stage {
            TripStage::Finished(result) => Some((self.run.cohort, result)),
            _ => None,
        }
    }
}

/// A failed step never keeps the motion from being stopped: until the mcus were told
/// to stop, the handler goes on, and every error is kept.
pub proof fn law_motion_is_stopped_despite_errors<P>(state: HandlerView<P>, event: TripEvent<P>)
    requires
        trip_event_fits(state.stage, event),
        state.stage is Waiting || state.stage is Suppressing || state.stage is Halting,
    ensures
        !(state.next(event).stage is Finished),
        state.errors.is_prefix_of(state.next(event).errors),
{
}

/// Positions are worked out only after a clean stop: any error before or at the stop
/// ends the run, with all the errors in the order they came.
pub proof fn law_errors_end_the_run_together<P>(state: HandlerView<P>, stopped: Result<u64, String>)
    requires
        state.stage is Stopping,
    ensures
        state.next(TripEvent::Stopped(stopped)).stage is Reconstructing <==> state.errors.len() == 0
            && stopped is Ok,
        state.errors.len() > 0 && stopped is Ok ==> state.next(TripEvent::Stopped(stopped)).stage
            == StageView::<P>::Finished(Err(crate::text::joined(state.errors, "; "@))),
{
}

/// The run tripped at the clock of the trip, on the mcu that reported it. It comes to
/// rest where its last motor froze, or, where none was frozen, where
/// the homed axis's mcu discarded its stream.
pub proof fn law_positions_are_taken_at_the_trip_and_the_freeze<P>(state: HandlerView<P>, discard_clock: u64)
    requires
        state.stage is Stopping,
        state.errors.len() == 0,
    ensures
        state.next(TripEvent::Stopped(Ok(discard_clock))).action() == (TripAction::Reconstruct {
            trip_mcu: state.event_mcu,
            trip_clock: state.trip_clock,
            source_mcu: match state.suppression {
                Some((mcu, _)) => mcu,
                None => state.run.axis_key.mcu_id,
            },
            clock: match state.suppression {
                Some((_, clock)) => clock,
                None => discard_clock,
            },
        }),
{
}

/// A run succeeds only once every mcu's stream and the pump's lanes are open again, and
/// then with the positions that were worked out and the clock of the trip.
pub proof fn law_success_follows_every_resume<P>(
    state: HandlerView<P>,
    event: TripEvent<P>,
    trip: P,
    rest: P,
    clock: u64,
)
    requires
        state.wf(),
        trip_event_fits(state.stage, event),
        !(state.stage is Finished),
        state.next(event).stage == StageView::<P>::Finished(Ok((trip, rest, clock))),
    ensures
        clock == state.trip_clock,
        match state.stage {
            StageView::ResumingPump { trip: t, rest: r } => t == trip && r == rest && event
                == TripEvent::<P>::PumpResumed(PumpResume::Resumed),
            StageView::Resuming { trip: t, rest: r, index } => t == trip && r == rest && index
                == state.mcus.len() - 1 && !state.has_pump && event == TripEvent::<P>::Resumed(
                ResumeReply::Result(0),
            ),
            StageView::CheckingFailure { trip: t, rest: r } => t == trip && r == rest
                && state.mcus.len() == 0 && !state.has_pump,
            _ => false,
        },
{
}

/// Streams are opened one mcu after another, from the first to the last.
pub proof fn law_every_mcu_is_resumed_in_turn<P>(state: HandlerView<P>, event: TripEvent<P>)
    requires
        state.wf(),
        trip_event_fits(state.stage, event),
        state.next(event).stage is Resuming,
    ensures
        match state.stage {
            StageView::CheckingFailure { .. } => state.next(event).stage->Resuming_index == 0,
            StageView::Resuming { index, .. } => state.next(event).stage->Resuming_index == index
                + 1,
            _ => false,
        },
{
}

/// Whatever the handler hears, it stays the handler of the same run, trip and mcus.
pub proof fn law_handler_keeps_its_run<P>(state: HandlerView<P>, event: TripEvent<P>)
    ensures
        state.next(event).run == state.run,
        state.next(event).event_mcu == state.event_mcu,
        state.next(event).trip_clock == state.trip_clock,
        state.next(event).freeze == state.freeze,
        state.next(event).has_pump == state.has_pump,
        state.next(event).mcus == state.mcus,
{
}

/// After the wait, a motor on the endstop's own mcu counts as frozen at the trip, a motor on
/// another mcu is frozen there next, and without a motor the motion is stopped at once; the
/// pump first, where there is one. A wait that failed is kept as an error.
pub proof fn law_last_motor_is_frozen_where_it_is<P>(
    state: HandlerView<P>,
    waited: Result<(), String>,
)
    ensures
        ({
            let after = state.next(TripEvent::Waited(waited));
            &&& state.freeze matches Some(freeze) ==> {
                &&& freeze.motor_mcu == state.event_mcu ==> after.suppression == Some(
                    (state.event_mcu, state.trip_clock),
                ) && !(after.stage is Suppressing)
                &&& freeze.motor_mcu != state.event_mcu ==> after.suppression
                    == state.suppression && after.stage is Suppressing && after.action() == (
                TripAction::Suppress { freeze })
            }
            &&& state.freeze is None ==> after.suppression == state.suppression
            &&& !(after.stage is Suppressing) ==> if state.has_pump {
                after.action() is HaltPump
            } else {
                after.action() is StopMcus
            }
            &&& waited is Ok ==> after.errors == state.errors
            &&& waited matches Err(reason) ==> after.errors.len() == state.errors.len() + 1
                && after.errors.last() == reason@
        }),
{
}

/// The freeze counts from the clock at which it took effect on the motor's own mcu; one that
/// failed is kept as an error and counts from nowhere. The motion is stopped next in either
/// case, the pump before the mcus.
pub proof fn law_freeze_counts_from_its_own_clock<P>(
    state: HandlerView<P>,
    suppressed: Result<u64, String>,
    halted: bool,
)
    requires
        state.freeze is Some,
    ensures
        ({
            let after = state.next(TripEvent::Suppressed(suppressed));
            &&& suppressed matches Ok(clock) ==> after.suppression == Some(
                (state.freeze->0.motor_mcu, clock),
            ) && after.errors == state.errors
            &&& suppressed matches Err(reason) ==> after.suppression == state.suppression
                && after.errors.len() == state.errors.len() + 1 && after.errors.last() == reason@
            &&& if state.has_pump {
                after.action() is HaltPump
            } else {
                after.action() is StopMcus
            }
        }),
        ({
            let after = state.next(TripEvent::Halted(halted));
            &&& after.action() is StopMcus
            &&& halted ==> after.errors == state.errors
            &&& !halted ==> after.errors.len() == state.errors.len() + 1
            &&& after.suppression == state.suppression
        }),
{
}

/// A stop that failed ends the run, and its error is the last of those joined.
pub proof fn law_failed_stop_ends_the_run<P>(state: HandlerView<P>, reason: String)
    ensures
        state.next(TripEvent::Stopped(Err(reason))).stage == StageView::<P>::Finished(
            Err(crate::text::joined(state.errors.push(reason@), "; "@)),
        ),
{
}

/// The positions are carried on as they were worked out, the trip's first and the rest's
/// second, through every stage to the result; whatever fails on the way is the result
/// instead.
pub proof fn law_positions_are_carried_to_the_result<P>(
    state: HandlerView<P>,
    event: TripEvent<P>,
    trip: P,
    rest: P,
)
    requires
        trip_event_fits(state.stage, event),
        state.stage == (StageView::CheckingFailure { trip, rest }) || state.stage == (
        StageView::ResumingPump { trip, rest }) || (state.stage is Resuming
            && state.stage->Resuming_trip == trip && state.stage->Resuming_rest == rest),
    ensures
        match state.next(event).stage {
            StageView::Resuming { trip: t, rest: r, .. } => t == trip && r == rest,
            StageView::ResumingPump { trip: t, rest: r } => t == trip && r == rest,
            StageView::Finished(Ok((t, r, clock))) => t == trip && r == rest && clock
                == state.trip_clock,
            StageView::Finished(Err(_)) => true,
            _ => false,
        },
        event matches TripEvent::Failure(Some(reason)) ==> state.next(event).stage
            == StageView::<P>::Finished(Err(reason@)),
        event matches TripEvent::Failure(None) ==> !(state.next(event).stage matches
            StageView::Finished(Err(_))),
        state.next(event).errors == state.errors,
{
}

/// What was worked out is what is checked and carried on; what could not be worked out ends
/// the run with its own reason.
pub proof fn law_worked_out_positions_are_taken<P>(
    state: HandlerView<P>,
    positions: Result<(P, P), String>,
)
    ensures
        positions matches Ok((trip, rest)) ==> state.next(TripEvent::Positions(positions)).stage
            == (StageView::CheckingFailure { trip, rest }),
        positions matches Err(reason) ==> state.next(TripEvent::Positions(positions)).stage
            == StageView::<P>::Finished(Err(reason@)),
{
}

/// An mcu's stream counts as open only where it replied with zero, and the pump's lanes only
/// where they were resumed; anything else ends the run with an error.
pub proof fn law_only_an_accepted_resume_counts<P>(
    state: HandlerView<P>,
    mcu_id: u32,
    reply: ResumeReply,
    resume: PumpResume,
)
    ensures
        resume_refusal(mcu_id, reply) is None <==> reply == ResumeReply::Result(0),
        pump_refusal(resume) is None <==> resume is Resumed,
        state.stage is Resuming && reply != ResumeReply::Result(0) ==> state.next(
            TripEvent::Resumed(reply),
        ).stage matches StageView::Finished(Err(_)),
        state.stage is ResumingPump && !(resume is Resumed) ==> state.next(
            TripEvent::PumpResumed(resume),
        ).stage matches StageView::Finished(Err(_)),
{
}

/// Each stage asks for its own: the wait, the freeze of the bound motor, the halt, the stop,
/// the failure, the mcu whose turn it is, the pump.
pub proof fn law_each_stage_asks_for_its_own<P>(state: HandlerView<P>)
    ensures
        state.action() is AwaitPartialWork <==> state.stage is Waiting,
        state.action() is Suppress <==> state.stage is Suppressing,
        state.action() is HaltPump <==> state.stage is Halting,
        state.action() is StopMcus <==> state.stage is Stopping,
        state.action() is Reconstruct <==> state.stage is Reconstructing,
        state.action() is CheckFailure <==> state.stage is CheckingFailure,
        state.action() is ResumeMcu <==> state.stage is Resuming,
        state.action() is ResumePump <==> state.stage is ResumingPump,
        state.action() is Complete <==> state.stage is Finished,
        state.stage is Resuming ==> state.action() == (TripAction::ResumeMcu {
            mcu_id: state.mcus[state.stage->Resuming_index],
        }),
        state.stage is Suppressing && state.freeze is Some ==> state.action() == (
        TripAction::Suppress { freeze: state.freeze->0 }),
{
}

/// Every mcu that a lane of the run is on is listed, no other is, and each once: they go
/// strictly upward.
pub proof fn law_every_mcu_of_the_run_is_listed(
    keys: Vec<AxisKey>,
    mcus: Vec<u32>,
    lane: int,
    i: int,
    j: int,
)
    requires
        call_ensures(mcus_of, (&keys,), mcus),
    ensures
        0 <= lane < keys@.len() ==> mcus@.contains(keys@[lane].mcu_id),
        0 <= i < mcus@.len() ==> exists|k: int|
            0 <= k < keys@.len() && (#[trigger] keys@[k]).mcu_id == mcus@[i],
        0 <= i < j < mcus@.len() ==> mcus@[i] < mcus@[j],
{
    if 0 <= lane < keys@.len() {
        assert(has_lane_on(keys@, keys@[lane].mcu_id));
        assert(mcus@.contains(keys@[lane].mcu_id));
    }
    if 0 <= i < mcus@.len() {
        assert(mcus@.contains(mcus@[i]));
    }
}

/// A reply to a resume that is no success names its mcu and its own reason or result, and a
/// pump that did not resume tells how far it came.
pub proof fn law_refused_resume_names_its_mcu(
    mcu_id: u32,
    reply: ResumeReply,
    outcome: Result<(), String>,
    resume: PumpResume,
    pump: Result<(), String>,
)
    requires
        call_ensures(check_resume, (mcu_id, reply), outcome),
        call_ensures(check_pump_resume, (resume,), pump),
    ensures
        outcome is Ok <==> reply == ResumeReply::Result(0),
        reply is NoTransport ==> outcome->Err_0@ == "ResumeStream: no transport for mcu "@
            + crate::text::decimal(mcu_id as nat),
        reply matches ResumeReply::CallFailed(reason) ==> outcome->Err_0@
            == "ResumeStream call failed for mcu "@ + crate::text::decimal(mcu_id as nat) + ": "@
            + reason@,
        reply matches ResumeReply::DecodeFailed(reason) ==> outcome->Err_0@
            == "ResumeStream decode failed for mcu "@ + crate::text::decimal(mcu_id as nat) + ": "@
            + reason@,
        reply matches ResumeReply::Result(result) ==> result != 0 ==> outcome->Err_0@
            == "ResumeStream rejected by mcu "@ + crate::text::decimal(mcu_id as nat) + ": result="@
            + crate::text::signed_decimal(result as int),
        pump is Ok <==> resume is Resumed,
        resume is ClosedBeforeResume ==> pump->Err_0@
            == "EndstopTrip: pump channel closed before resume"@,
        resume is ClosedBeforeBarrier ==> pump->Err_0@
            == "EndstopTrip: pump channel closed before resume barrier"@,
        resume is NotAcknowledged ==> pump->Err_0@
            == "EndstopTrip: pump did not acknowledge resume after endpoint ResumeStream"@,
{
}

/// A handler that hears an answer goes on as its value does; a pump that did not halt is
/// noted as such.
pub proof fn law_handler_goes_on_as_it_heard<P: Copy>(
    handler: &mut TripHandler<P>,
    event: TripEvent<P>,
)
    requires
        old(handler)@.wf(),
        old(handler)@.consistent(),
        trip_event_fits(old(handler)@.stage, event),
        call_ensures(TripHandler::<P>::advance, (handler, event), ()),
    ensures
        final(handler)@ == old(handler)@.next(event),
        event == TripEvent::<P>::Halted(false) ==> final(handler)@.errors.last()
            == "EndstopTrip: pump did not halt before endpoint Stop"@,
        event is Waited || event is Suppressed || event is Halted ==> !(final(handler)@.stage
            is Finished),
        final(handler)@.run == old(handler)@.run,
{
}

/// The value of a handler is its fields.
pub proof fn law_handler_value_is_its_fields<P>(handler: TripHandler<P>)
    ensures
        handler@.run == handler.run@,
        handler@.event_mcu == handler.event_mcu,
        handler@.trip_clock == handler.trip_clock,
        handler@.freeze == handler.freeze,
        handler@.has_pump == handler.has_pump,
        handler@.mcus == handler.mcus@,
        handler@.suppression == handler.suppression,
        handler@.errors.len() == handler.errors@.len(),
        forall|i: int|
            0 <= i < handler.errors@.len() ==> handler@.errors[i] == (
            #[trigger] handler.errors@[i])@,
        handler.stage matches TripStage::Finished(Ok((trip, rest, clock))) ==> handler@.stage
            == StageView::<P>::Finished(Ok((trip, rest, clock))),
        handler.stage matches TripStage::CheckingFailure { trip, rest } ==> handler@.stage == (
        StageView::CheckingFailure { trip, rest }),
        handler.stage matches TripStage::Resuming { trip, rest, index } ==> handler@.stage == (
        StageView::Resuming { trip, rest, index: index as int }),
        handler.stage matches TripStage::ResumingPump { trip, rest } ==> handler@.stage == (
        StageView::ResumingPump { trip, rest }),
        handler.stage matches TripStage::Reconstructing { source_mcu, clock } ==> handler@.stage
            == (StageView::<P>::Reconstructing { source_mcu, clock }),
{
}

/// A handler starts waiting, for the run, the trip and the motor it was given, without an
/// error and with nothing frozen; and it hands out its run's cohort and result exactly once
/// it has finished.
pub proof fn law_handler_starts_waiting<P: Copy>(
    run: HomingRun<P>,
    event_mcu: u32,
    trip_clock: u64,
    freeze: Option<RemoteFreeze>,
    has_pump: bool,
    started: TripHandler<P>,
    ended: TripHandler<P>,
    result: Option<(u64, HomingResult<P>)>,
)
    requires
        call_ensures(
            TripHandler::<P>::start,
            (run, event_mcu, trip_clock, freeze, has_pump),
            started,
        ),
        call_ensures(TripHandler::<P>::into_result, (ended,), result),
    ensures
        started@.stage is Waiting,
        started@.run == run@,
        started@.event_mcu == event_mcu,
        started@.trip_clock == trip_clock,
        started@.freeze == freeze,
        started@.has_pump == has_pump,
        started@.errors.len() == 0,
        started@.suppression is None,
        result is Some <==> ended.stage is Finished,
        result matches Some((cohort, reported)) ==> cohort == ended.run.cohort && ended.stage
            == TripStage::Finished(reported),
{
}

/// Once every mcu has resumed the pump is resumed, where there is one, and else the run has
/// ended well; while mcus are left the next one is resumed. An mcu that does not resume ends
/// the run with a refusal that names that mcu.
pub proof fn law_pump_is_resumed_after_the_last_mcu<P>(
    state: HandlerView<P>,
    trip: P,
    rest: P,
    index: int,
    reply: ResumeReply,
    resume: PumpResume,
)
    requires
        state.wf(),
        0 <= index < state.mcus.len(),
    ensures
        ({
            let resuming = HandlerView {
                stage: StageView::Resuming { trip, rest, index },
                ..state
            };
            let after = resuming.next(TripEvent::Resumed(reply)).stage;
            &&& reply == ResumeReply::Result(0) && index + 1 < state.mcus.len() ==> after == (
            StageView::Resuming { trip, rest, index: index + 1 })
            &&& reply == ResumeReply::Result(0) && index + 1 == state.mcus.len() && state.has_pump
                ==> after == (StageView::ResumingPump { trip, rest })
            &&& reply == ResumeReply::Result(0) && index + 1 == state.mcus.len()
                && !state.has_pump ==> after == StageView::<P>::Finished(
                Ok((trip, rest, state.trip_clock)),
            )
            &&& reply is NoTransport ==> after == StageView::<P>::Finished(
                Err(
                    "ResumeStream: no transport for mcu "@ + crate::text::decimal(
                        state.mcus[index] as nat,
                    ),
                ),
            )
            &&& reply matches ResumeReply::CallFailed(reason) ==> after == StageView::<
                P,
            >::Finished(
                Err(
                    "ResumeStream call failed for mcu "@ + crate::text::decimal(
                        state.mcus[index] as nat,
                    ) + ": "@ + reason@,
                ),
            )
            &&& reply matches ResumeReply::Result(result) ==> result != 0 ==> after == StageView::<
                P,
            >::Finished(
                Err(
                    "ResumeStream rejected by mcu "@ + crate::text::decimal(
                        state.mcus[index] as nat,
                    ) + ": result="@ + crate::text::signed_decimal(result as int),
                ),
            )
        }),
        ({
            let checking = HandlerView {
                stage: StageView::CheckingFailure { trip, rest },
                ..state
            };
            checking.next(TripEvent::Failure(None)).stage == (StageView::Resuming {
                trip,
                rest,
                index: 0,
            })
        }),
        ({
            let pumping = HandlerView { stage: StageView::ResumingPump { trip, rest }, ..state };
            let after = pumping.next(TripEvent::PumpResumed(resume)).stage;
            &&& resume is Resumed ==> after == StageView::<P>::Finished(
                Ok((trip, rest, state.trip_clock)),
            )
            &&& resume is NotAcknowledged ==> after == StageView::<P>::Finished(
                Err(
                    "EndstopTrip: pump did not acknowledge resume after endpoint ResumeStream"@,
                ),
            )
        }),
{
}

} // verus!
