//! Commands to the endpoints behind the pump: what each one asks of which
//! endpoint, in which order, and what it is answered when that fails.
//!
//! The endpoints themselves live with the caller. A command becomes a plan: the
//! actions to perform one after another, stopping at the first that fails, and
//! how the command ends once they are done. A handover between two transports
//! and a change of the feedforward depend on what the endpoints answer, so they
//! end in a machine that takes one answer at a time.

use crate::pump::buzz::{BuzzRoute, EndpointBuzzSpec, EndpointMap};
use crate::pump::lanes::AxisKey;
use crate::text::{append_decimal, append_signed_decimal};
use vstd::prelude::*;
use vstd::string::*;

verus! {

/// The transport that sends compressed step pulses.
pub const TRANSPORT_PULSE: u8 = 0;

/// The transport that sends phase samples.
pub const TRANSPORT_PHASE: u8 = 1;

/// The acknowledgement of a command that was carried out.
#[derive(Debug, Clone, Copy, PartialEq, Eq, Structural)]
pub struct EndpointReply;

/// One mcu's share of a position seed.
#[derive(Debug, Clone, Copy, PartialEq, Eq, Structural)]
pub struct SeedConfig {
    pub mcu_id: u32,
    pub ethercat: bool,
    pub pulse_lanes: bool,
    pub phase_lanes: bool,
}

#[derive(Debug)]
pub enum EndpointCommand {
    FreezeMotor { mcu_id: u32, motor: usize, count: i64 },
    ReseedMotor { mcu_id: u32, motor: usize, count: i64 },
    SeedPosition { configs: Vec<SeedConfig> },
    Handover { key: AxisKey, from: u8, to: u8 },
    BuzzRoutes { specs: Vec<EndpointBuzzSpec> },
    SetFfLead { mcu_id: u32, slot: u8, lead_ns: i64 },
    SetDynamicsModel { mcu_id: u32, n_slots: usize },
}

/// One thing to do at an endpoint. Seeding names the config it is for by its
/// place in the command.
#[derive(Debug, Clone, Copy, PartialEq, Eq, Structural)]
pub enum EndpointAction {
    FreezeMotor { mcu_id: u32, motor: usize, count: i64 },
    AbortOutbound { mcu_id: u32 },
    ResetMotor { mcu_id: u32, motor: usize, count: i64 },
    PulseSeedCounts { config: usize },
    ResetPulse { config: usize },
    PhaseSeedCounts { config: usize },
    ResetPhase { config: usize },
}

/// How a command ends once its actions are done.
#[derive(Debug)]
pub enum PlanEnd {
    Reply(EndpointReply),
    Refused(String),
    DeliverRoutes(Vec<BuzzRoute>),
    Handover(Handover),
    Feedforward(FeedforwardChange),
}

#[derive(Debug)]
pub struct EndpointPlan {
    pub actions: Vec<EndpointAction>,
    pub end: PlanEnd,
}

/// One of a lane's two endpoints.
#[derive(Debug, Clone, Copy, PartialEq, Eq, Structural)]
pub enum Side {
    Pulse,
    Phase,
}

pub open spec fn transport_name_text(mode: u8) -> Seq<char> {
    if mode == TRANSPORT_PULSE {
        "pulse"@
    } else if mode == TRANSPORT_PHASE {
        "phase"@
    } else {
        "unknown"@
    }
}

pub fn transport_name(mode: u8) -> (name: &'static str)
    ensures
        name@ == transport_name_text(mode),
{
    if mode == TRANSPORT_PULSE {
        "pulse"
    } else if mode == TRANSPORT_PHASE {
        "phase"
    } else {
        "unknown"
    }
}

/// The lane as refusals name it.
pub open spec fn lane_text(key: AxisKey) -> Seq<char> {
    "mcu "@ + crate::text::decimal(key.mcu_id as nat) + " axis "@ + crate::text::decimal(
        key.axis as nat,
    )
}

/// The lane as handover refusals name it.
pub open spec fn key_text(key: AxisKey) -> Seq<char> {
    "AxisKey { mcu_id: "@ + crate::text::decimal(key.mcu_id as nat) + ", axis: "@
        + crate::text::decimal(key.axis as nat) + " }"@
}

pub open spec fn missing_side_text(key: AxisKey, mode: u8) -> Seq<char> {
    "switch_axis_transport: "@ + lane_text(key) + " has no "@ + transport_name_text(mode)
        + " endpoint"@
}

pub open spec fn missing_binding_text(key: AxisKey, mode: u8) -> Seq<char> {
    "switch_axis_transport: "@ + lane_text(key) + " has no "@ + transport_name_text(mode)
        + " binding"@
}

pub open spec fn unbound_handover_text(key: AxisKey, mode: u8) -> Seq<char> {
    "switch_axis_transport: "@ + key_text(key) + " has no "@ + transport_name_text(mode)
        + " binding"@
}

pub open spec fn transport_changed_text(key: AxisKey) -> Seq<char> {
    "switch_axis_transport: "@ + key_text(key)
        + " outgoing transport changed during handover"@
}

pub open spec fn unknown_transport_text(mode: u8) -> Seq<char> {
    "switch_axis_transport: unknown transport "@ + crate::text::decimal(mode as nat)
}

fn append_lane(out: &mut String, key: AxisKey)
    ensures
        final(out)@ == old(out)@ + lane_text(key),
{
    out.append("mcu ");
    append_decimal(out, key.mcu_id as u64);
    out.append(" axis ");
    append_decimal(out, key.axis as u64);
    assert(out@ =~= old(out)@ + lane_text(key));
}

fn append_key(out: &mut String, key: AxisKey)
    ensures
        final(out)@ == old(out)@ + key_text(key),
{
    out.append("AxisKey { mcu_id: ");
    append_decimal(out, key.mcu_id as u64);
    out.append(", axis: ");
    append_decimal(out, key.axis as u64);
    out.append(" }");
    assert(out@ =~= old(out)@ + key_text(key));
}

/// The refusal of a lane that lacks a transport's binding.
pub fn missing_binding(key: AxisKey, mode: u8) -> (refusal: String)
    ensures
        refusal@ == missing_binding_text(key, mode),
{
    let mut refusal = "switch_axis_transport: ".to_owned();
    append_lane(&mut refusal, key);
    refusal.append(" has no ");
    refusal.append(transport_name(mode));
    refusal.append(" binding");
    refusal
}

/// The endpoint of one transport of a lane, or why there is none.
pub open spec fn side_of(map: EndpointMap, key: AxisKey, mode: u8) -> Result<Side, Seq<char>> {
    if mode == TRANSPORT_PULSE {
        if map.spec_has_pulse(key.mcu_id) {
            Ok(Side::Pulse)
        } else {
            Err(missing_side_text(key, mode))
        }
    } else if mode == TRANSPORT_PHASE {
        if map.spec_has_phase(key.mcu_id) {
            Ok(Side::Phase)
        } else {
            Err(missing_side_text(key, mode))
        }
    } else {
        Err(unknown_transport_text(mode))
    }
}

/// The text of a refusal, where there is one.
pub open spec fn same_outcome<T>(outcome: Result<T, String>, expected: Result<T, Seq<char>>) -> bool {
    match outcome {
        Ok(value) => expected == Ok::<T, Seq<char>>(value),
        Err(refusal) => expected == Err::<T, Seq<char>>(refusal@),
    }
}

pub fn transport_side(map: &EndpointMap, key: AxisKey, mode: u8) -> (side: Result<Side, String>)
    ensures
        same_outcome(side, side_of(*map, key, mode)),
{
    if mode != TRANSPORT_PULSE && mode != TRANSPORT_PHASE {
        let mut refusal = "switch_axis_transport: unknown transport ".to_owned();
        append_decimal(&mut refusal, mode as u64);
        return Err(refusal);
    }
    if mode == TRANSPORT_PULSE && map.has_pulse(key.mcu_id) {
        return Ok(Side::Pulse);
    }
    if mode == TRANSPORT_PHASE && map.has_phase(key.mcu_id) {
        return Ok(Side::Phase);
    }
    let mut refusal = "switch_axis_transport: ".to_owned();
    append_lane(&mut refusal, key);
    refusal.append(" has no ");
    refusal.append(transport_name(mode));
    refusal.append(" endpoint");
    Err(refusal)
}

// ---------------------------------------------------------------------------
// Handover between a lane's two transports
// ---------------------------------------------------------------------------

/// Where a handover stands: what it is waiting to hear.
#[derive(Debug, Clone, Copy, PartialEq, Eq, Structural)]
pub enum HandoverStage {
    Quiescence,
    ExecutedPosition,
    Adoption { executed: i64 },
    Placement { executed: i64 },
    Delivery { position: Option<i64> },
    Finished,
}

/// What a handover asks for next.
#[derive(Debug, Clone, Copy, PartialEq, Eq, Structural)]
pub enum HandoverAction {
    AskQuiescent { side: Side },
    ReadExecuted { side: Side, axis: u8 },
    AdoptTransport { key: AxisKey, to: u8 },
    PlaceAt { side: Side, axis: u8, executed: i64 },
    Deliver { position: Option<i64> },
    Reply,
}

/// What the caller has to say to the last action.
#[derive(Debug)]
pub enum HandoverEvent {
    Quiescent(bool),
    Executed(i64),
    Done,
    Failed(String),
}

/// One handover: the outgoing endpoint must have come to rest before its position
/// is read, and the incoming one is placed exactly there.
#[derive(Debug, Clone, Copy, PartialEq, Eq, Structural)]
pub struct Handover {
    pub key: AxisKey,
    pub to: u8,
    pub outgoing: Side,
    pub incoming: Side,
    pub stage: HandoverStage,
}

/// The handover of a lane, or why it cannot start.
pub open spec fn handover_of(
    map: EndpointMap,
    key: AxisKey,
    from: u8,
    to: u8,
    supported: bool,
    current: u8,
) -> Result<Handover, Seq<char>> {
    if !supported {
        Err(unbound_handover_text(key, to))
    } else if current != from {
        Err(transport_changed_text(key))
    } else {
        match side_of(map, key, from) {
            Err(refusal) => Err(refusal),
            Ok(outgoing) => match side_of(map, key, to) {
                Err(refusal) => Err(refusal),
                Ok(incoming) => Ok(
                    Handover { key, to, outgoing, incoming, stage: HandoverStage::Quiescence },
                ),
            },
        }
    }
}

/// The event answers what the stage asked.
pub open spec fn handover_event_fits(stage: HandoverStage, event: HandoverEvent) -> bool {
    match event {
        HandoverEvent::Failed(_) => stage != HandoverStage::Finished,
        HandoverEvent::Quiescent(_) => stage == HandoverStage::Quiescence,
        HandoverEvent::Executed(_) => stage == HandoverStage::ExecutedPosition,
        HandoverEvent::Done => stage is Adoption || stage is Placement || stage is Delivery,
    }
}

/// The stage after an event, or the refusal that ends the handover.
pub open spec fn handover_next(stage: HandoverStage, event: HandoverEvent) -> Result<
    HandoverStage,
    Seq<char>,
> {
    match event {
        HandoverEvent::Failed(reason) => if stage is Delivery {
            Err("handover result delivery failed: "@ + reason@)
        } else {
            Err(reason@)
        },
        HandoverEvent::Quiescent(quiescent) => if quiescent {
            Ok(HandoverStage::ExecutedPosition)
        } else {
            Ok(HandoverStage::Delivery { position: None })
        },
        HandoverEvent::Executed(executed) => Ok(HandoverStage::Adoption { executed }),
        HandoverEvent::Done => match stage {
            HandoverStage::Adoption { executed } => Ok(HandoverStage::Placement { executed }),
            HandoverStage::Placement { executed } => Ok(
                HandoverStage::Delivery { position: Some(executed) },
            ),
            _ => Ok(HandoverStage::Finished),
        },
    }
}

impl Handover {
    /// What the handover asks for at its stage.
    pub open spec fn spec_action(self) -> HandoverAction {
        match self.stage {
            HandoverStage::Quiescence => HandoverAction::AskQuiescent { side: self.outgoing },
            HandoverStage::ExecutedPosition => HandoverAction::ReadExecuted {
                side: self.outgoing,
                axis: self.key.axis,
            },
            HandoverStage::Adoption { executed } => HandoverAction::AdoptTransport {
                key: self.key,
                to: self.to,
            },
            HandoverStage::Placement { executed } => HandoverAction::PlaceAt {
                side: self.incoming,
                axis: self.key.axis,
                executed,
            },
            HandoverStage::Delivery { position } => HandoverAction::Deliver { position },
            HandoverStage::Finished => HandoverAction::Reply,
        }
    }

    pub fn start(
        map: &EndpointMap,
        key: AxisKey,
        from: u8,
        to: u8,
        supported: bool,
        current: u8,
    ) -> (handover: Result<Handover, String>)
        ensures
            same_outcome(handover, handover_of(*map, key, from, to, supported, current)),
    {
        if !supported {
            let mut refusal = "switch_axis_transport: ".to_owned();
            append_key(&mut refusal, key);
            refusal.append(" has no ");
            refusal.append(transport_name(to));
            refusal.append(" binding");
            return Err(refusal);
        }
        if current != from {
            let mut refusal = "switch_axis_transport: ".to_owned();
            append_key(&mut refusal, key);
            refusal.append(" outgoing transport changed during handover");
            return Err(refusal);
        }
        let outgoing = match transport_side(map, key, from) {
            Ok(side) => side,
            Err(refusal) => return Err(refusal),
        };
        let incoming = match transport_side(map, key, to) {
            Ok(side) => side,
            Err(refusal) => return Err(refusal),
        };
        Ok(Handover { key, to, outgoing, incoming, stage: HandoverStage::Quiescence })
    }

    pub fn action(&self) -> (action: HandoverAction)
        ensures
            action == self.spec_action(),
    {
        match self.stage {
            HandoverStage::Quiescence => HandoverAction::AskQuiescent { side: self.outgoing },
            HandoverStage::ExecutedPosition => HandoverAction::ReadExecuted {
                side: self.outgoing,
                axis: self.key.axis,
            },
            HandoverStage::Adoption { .. } => HandoverAction::AdoptTransport {
                key: self.key,
                to: self.to,
            },
            HandoverStage::Placement { executed } => HandoverAction::PlaceAt {
                side: self.incoming,
                axis: self.key.axis,
                executed,
            },
            HandoverStage::Delivery { position } => HandoverAction::Deliver { position },
            HandoverStage::Finished => HandoverAction::Reply,
        }
    }

    /// Takes the answer to the last action. A refusal ends the handover.
    pub fn advance(&mut self, event: HandoverEvent) -> (outcome: Result<(), String>)
        requires
            handover_event_fits(old(self).stage, event),
        ensures
            match handover_next(old(self).stage, event) {
                Ok(stage) => outcome is Ok && *final(self) == (Handover { stage, ..*old(self) }),
                Err(refusal) => *final(self) == *old(self) && outcome is Err && outcome->Err_0@
                    == refusal,
            },
    {
        match event {
            HandoverEvent::Failed(reason) => {
                if let HandoverStage::Delivery { .. } = self.stage {
                    let mut refusal = "handover result delivery failed: ".to_owned();
                    refusal.append(reason.as_str());
                    Err(refusal)
                } else {
                    Err(reason)
                }
            },
            HandoverEvent::Quiescent(quiescent) => {
                self.stage = if quiescent {
                    HandoverStage::ExecutedPosition
                } else {
                    HandoverStage::Delivery { position: None }
                };
                Ok(())
            },
            HandoverEvent::Executed(executed) => {
                self.stage = HandoverStage::Adoption { executed };
                Ok(())
            },
            HandoverEvent::Done => {
                self.stage = match self.stage {
                    HandoverStage::Adoption { executed } => HandoverStage::Placement { executed },
                    HandoverStage::Placement { executed } => HandoverStage::Delivery {
                        position: Some(executed),
                    },
                    _ => HandoverStage::Finished,
                };
                Ok(())
            },
        }
    }
}

// ---------------------------------------------------------------------------
// Feedforward changes on an EtherCAT endpoint
// ---------------------------------------------------------------------------

/// What is changed.
#[derive(Debug, Clone, Copy, PartialEq, Eq, Structural)]
pub enum FeedforwardKind {
    FfLead { slot: u8, lead_ns: i64 },
    DynamicsModel { n_slots: usize },
}

#[derive(Debug, Clone, Copy, PartialEq, Eq, Structural)]
pub enum FeedforwardStage {
    Grid,
    GridAdoption { grid_index: u64, grid_clock: u64 },
    Quiescence,
    LaneCount,
    EndpointResult,
    FillerResult,
    Finished,
}

#[derive(Debug, Clone, Copy, PartialEq, Eq, Structural)]
pub enum FeedforwardAction {
    QueryGrid,
    ObserveGrid { grid_index: u64, grid_clock: u64 },
    AskQuiescent,
    AskLaneCount,
    CallEndpoint,
    ApplyToFiller,
    Reply,
}

/// The endpoint's sample grid, as it reports it.
#[derive(Debug, Clone, Copy, PartialEq, Eq, Structural)]
pub struct SampleGrid {
    pub executor: u32,
    pub ring_depth_cycles: u32,
    pub grid_index: u64,
    pub grid_clock: u64,
}

#[derive(Debug)]
pub enum FeedforwardEvent {
    Grid(SampleGrid),
    Done,
    Quiescent(bool),
    LaneCount(usize),
    Result(i32),
    Failed(String),
}

/// One change: it is made only while the endpoint has no setpoints outstanding,
/// at the endpoint first and in the host's filler after it.
#[derive(Debug, Clone, Copy, PartialEq, Eq, Structural)]
pub struct FeedforwardChange {
    pub mcu_id: u32,
    pub kind: FeedforwardKind,
    /// The executor that runs a setpoint ring.
    pub ring_executor: u32,
    pub stage: FeedforwardStage,
}

pub open spec fn feedforward_name(kind: FeedforwardKind) -> Seq<char> {
    match kind {
        FeedforwardKind::FfLead { .. } => "set_ff_lead"@,
        FeedforwardKind::DynamicsModel { .. } => "set_dynamics_model"@,
    }
}

fn name_of(kind: FeedforwardKind) -> (name: &'static str)
    ensures
        name@ == feedforward_name(kind),
{
    match kind {
        FeedforwardKind::FfLead { .. } => "set_ff_lead",
        FeedforwardKind::DynamicsModel { .. } => "set_dynamics_model",
    }
}

pub open spec fn not_quiescent_text() -> Seq<char> {
    ": the endpoint still has setpoints outstanding — changing the feedforward mid-stream would step the velocity and torque feedforward; wait for the motion to finish"@
}

pub open spec fn endpoint_result_text(what: Seq<char>, result: i32) -> Seq<char> {
    what + ": endpoint result "@ + crate::text::signed_decimal(result as int)
}

pub open spec fn filler_result_text(what: Seq<char>, result: i32) -> Seq<char> {
    what + ": host filler refused it (result "@ + crate::text::signed_decimal(result as int)
        + ")"@
}

/// Zero is success; every other endpoint result is a refusal that names it.
pub fn require_endpoint_ok(result: i32, what: &str) -> (outcome: Result<(), String>)
    ensures
        outcome is Ok <==> result == 0,
        outcome matches Err(refusal) ==> refusal@ == endpoint_result_text(what@, result),
{
    if result != 0 {
        let mut refusal = what.to_owned();
        refusal.append(": endpoint result ");
        append_signed_decimal(&mut refusal, result as i64);
        return Err(refusal);
    }
    Ok(())
}

/// Zero is success; every other filler result is a refusal that names it.
pub fn require_filler_ok(result: i32, what: &str) -> (outcome: Result<(), String>)
    ensures
        outcome is Ok <==> result == 0,
        outcome matches Err(refusal) ==> refusal@ == filler_result_text(what@, result),
{
    if result != 0 {
        let mut refusal = what.to_owned();
        refusal.append(": host filler refused it (result ");
        append_signed_decimal(&mut refusal, result as i64);
        refusal.append(")");
        return Err(refusal);
    }
    Ok(())
}

/// Whether the endpoint's grid can be filled, and what to say if not.
pub open spec fn grid_refusal(what: Seq<char>, grid: SampleGrid, ring_executor: u32) -> Option<
    Seq<char>,
> {
    if grid.executor != ring_executor {
        Some(
            what + ": endpoint reports unsupported executor "@ + crate::text::decimal(
                grid.executor as nat,
            ),
        )
    } else if grid.ring_depth_cycles == 0 {
        Some(what + ": endpoint reports a setpoint ring of zero cycles"@)
    } else {
        None
    }
}

/// Refuses a grid that is not a setpoint ring with room in it.
pub fn check_grid(grid: SampleGrid, ring_executor: u32, what: &str) -> (outcome: Result<(), String>)
    ensures
        match grid_refusal(what@, grid, ring_executor) {
            None => outcome is Ok,
            Some(text) => outcome is Err && outcome->Err_0@ == text,
        },
{
    if grid.executor != ring_executor {
        let mut refusal = what.to_owned();
        refusal.append(": endpoint reports unsupported executor ");
        append_decimal(&mut refusal, grid.executor as u64);
        return Err(refusal);
    }
    if grid.ring_depth_cycles == 0 {
        let mut refusal = what.to_owned();
        refusal.append(": endpoint reports a setpoint ring of zero cycles");
        return Err(refusal);
    }
    Ok(())
}

/// The event answers what the stage asked.
pub open spec fn feedforward_event_fits(stage: FeedforwardStage, event: FeedforwardEvent) -> bool {
    match event {
        FeedforwardEvent::Failed(_) => stage == FeedforwardStage::Grid || stage is GridAdoption
            || stage == FeedforwardStage::EndpointResult,
        FeedforwardEvent::Grid(_) => stage == FeedforwardStage::Grid,
        FeedforwardEvent::Done => stage is GridAdoption,
        FeedforwardEvent::Quiescent(_) => stage == FeedforwardStage::Quiescence,
        FeedforwardEvent::LaneCount(_) => stage == FeedforwardStage::LaneCount,
        FeedforwardEvent::Result(_) => stage == FeedforwardStage::EndpointResult || stage
            == FeedforwardStage::FillerResult,
    }
}

pub open spec fn lane_mismatch_text(n_slots: usize, lanes: usize) -> Seq<char> {
    "set_dynamics_model: the model covers "@ + crate::text::decimal(n_slots as nat)
        + " slots but the endpoint's filler drives "@ + crate::text::decimal(lanes as nat)
        + " lanes"@
}

/// The stage after an event, or the refusal that ends the change.
pub open spec fn feedforward_next(change: FeedforwardChange, event: FeedforwardEvent) -> Result<
    FeedforwardStage,
    Seq<char>,
> {
    let what = feedforward_name(change.kind);
    match event {
        FeedforwardEvent::Failed(reason) => if change.stage == FeedforwardStage::Grid {
            Err(what + ": the endpoint's sample grid is unreadable: "@ + reason@)
        } else if change.stage is GridAdoption {
            Err(what + ": the endpoint's sample grid was refused: "@ + reason@)
        } else {
            Err(reason@)
        },
        FeedforwardEvent::Grid(grid) => match grid_refusal(what, grid, change.ring_executor) {
            Some(refusal) => Err(refusal),
            None => Ok(
                FeedforwardStage::GridAdoption {
                    grid_index: grid.grid_index,
                    grid_clock: grid.grid_clock,
                },
            ),
        },
        FeedforwardEvent::Done => Ok(FeedforwardStage::Quiescence),
        FeedforwardEvent::Quiescent(quiescent) => if !quiescent {
            Err(what + not_quiescent_text())
        } else if change.kind is DynamicsModel {
            Ok(FeedforwardStage::LaneCount)
        } else {
            Ok(FeedforwardStage::EndpointResult)
        },
        FeedforwardEvent::LaneCount(lanes) => match change.kind {
            FeedforwardKind::DynamicsModel { n_slots } if n_slots != lanes => Err(
                lane_mismatch_text(n_slots, lanes),
            ),
            _ => Ok(FeedforwardStage::EndpointResult),
        },
        FeedforwardEvent::Result(result) => if change.stage == FeedforwardStage::EndpointResult {
            if result == 0 {
                Ok(FeedforwardStage::FillerResult)
            } else {
                Err(endpoint_result_text(what, result))
            }
        } else if result == 0 {
            Ok(FeedforwardStage::Finished)
        } else {
            Err(filler_result_text(what, result))
        },
    }
}

/// The change of one endpoint, or why it cannot start.
pub open spec fn feedforward_of(
    map: EndpointMap,
    mcu_id: u32,
    kind: FeedforwardKind,
    connected: bool,
    ring_executor: u32,
) -> Result<FeedforwardChange, Seq<char>> {
    let what = feedforward_name(kind);
    if !map.ethercat@.contains(mcu_id) {
        Err(what + ": mcu "@ + crate::text::decimal(mcu_id as nat) + " has no EtherCAT filler"@)
    } else if !connected {
        Err(what + ": mcu "@ + crate::text::decimal(mcu_id as nat) + " connection dropped"@)
    } else {
        Ok(FeedforwardChange { mcu_id, kind, ring_executor, stage: FeedforwardStage::Grid })
    }
}

impl FeedforwardChange {
    pub open spec fn spec_action(self) -> FeedforwardAction {
        match self.stage {
            FeedforwardStage::Grid => FeedforwardAction::QueryGrid,
            FeedforwardStage::GridAdoption { grid_index, grid_clock } =>
                FeedforwardAction::ObserveGrid { grid_index, grid_clock },
            FeedforwardStage::Quiescence => FeedforwardAction::AskQuiescent,
            FeedforwardStage::LaneCount => FeedforwardAction::AskLaneCount,
            FeedforwardStage::EndpointResult => FeedforwardAction::CallEndpoint,
            FeedforwardStage::FillerResult => FeedforwardAction::ApplyToFiller,
            FeedforwardStage::Finished => FeedforwardAction::Reply,
        }
    }

    pub fn start(
        map: &EndpointMap,
        mcu_id: u32,
        kind: FeedforwardKind,
        connected: bool,
        ring_executor: u32,
    ) -> (change: Result<FeedforwardChange, String>)
        ensures
            same_outcome(change, feedforward_of(*map, mcu_id, kind, connected, ring_executor)),
    {
        if !map.has_ethercat(mcu_id) {
            let mut refusal = name_of(kind).to_owned();
            refusal.append(": mcu ");
            append_decimal(&mut refusal, mcu_id as u64);
            refusal.append(" has no EtherCAT filler");
            return Err(refusal);
        }
        if !connected {
            let mut refusal = name_of(kind).to_owned();
            refusal.append(": mcu ");
            append_decimal(&mut refusal, mcu_id as u64);
            refusal.append(" connection dropped");
            return Err(refusal);
        }
        Ok(FeedforwardChange { mcu_id, kind, ring_executor, stage: FeedforwardStage::Grid })
    }

    pub fn action(&self) -> (action: FeedforwardAction)
        ensures
            action == self.spec_action(),
    {
        match self.stage {
            FeedforwardStage::Grid => FeedforwardAction::QueryGrid,
            FeedforwardStage::GridAdoption { grid_index, grid_clock } =>
                FeedforwardAction::ObserveGrid { grid_index, grid_clock },
            FeedforwardStage::Quiescence => FeedforwardAction::AskQuiescent,
            FeedforwardStage::LaneCount => FeedforwardAction::AskLaneCount,
            FeedforwardStage::EndpointResult => FeedforwardAction::CallEndpoint,
            FeedforwardStage::FillerResult => FeedforwardAction::ApplyToFiller,
            FeedforwardStage::Finished => FeedforwardAction::Reply,
        }
    }

    fn refuse_grid(&self, reason: &str) -> (refusal: String)
        requires
            self.stage == FeedforwardStage::Grid || self.stage is GridAdoption || self.stage
                == FeedforwardStage::EndpointResult,
        ensures
            forall|event: FeedforwardEvent|
                event matches FeedforwardEvent::Failed(text) && text@ == reason@
                    ==> #[trigger] feedforward_next(*self, event) == Err::<
                    FeedforwardStage,
                    Seq<char>,
                >(refusal@),
    {
        match self.stage {
            FeedforwardStage::Grid => {
                let mut refusal = name_of(self.kind).to_owned();
                refusal.append(": the endpoint's sample grid is unreadable: ");
                refusal.append(reason);
                refusal
            },
            FeedforwardStage::GridAdoption { .. } => {
                let mut refusal = name_of(self.kind).to_owned();
                refusal.append(": the endpoint's sample grid was refused: ");
                refusal.append(reason);
                refusal
            },
            _ => reason.to_owned(),
        }
    }

    /// Takes the answer to the last action. A refusal ends the change.
    pub fn advance(&mut self, event: FeedforwardEvent) -> (outcome: Result<(), String>)
        requires
            feedforward_event_fits(old(self).stage, event),
        ensures
            match feedforward_next(*old(self), event) {
                Ok(stage) => outcome is Ok && *final(self) == (FeedforwardChange {
                    stage,
                    ..*old(self)
                }),
                Err(refusal) => *final(self) == *old(self) && outcome is Err && outcome->Err_0@
                    == refusal,
            },
    {
        match event {
            FeedforwardEvent::Failed(reason) => { Err(self.refuse_grid(reason.as_str())) },
            FeedforwardEvent::Grid(grid) => {
                match check_grid(grid, self.ring_executor, name_of(self.kind)) {
                    Ok(()) => {
                        self.stage =
                        FeedforwardStage::GridAdoption {
                            grid_index: grid.grid_index,
                            grid_clock: grid.grid_clock,
                        };
                        Ok(())
                    },
                    Err(refusal) => Err(refusal),
                }
            },
            FeedforwardEvent::Done => {
                self.stage = FeedforwardStage::Quiescence;
                Ok(())
            },
            FeedforwardEvent::Quiescent(quiescent) => {
                if !quiescent {
                    let mut refusal = name_of(self.kind).to_owned();
                    refusal.append(
                        ": the endpoint still has setpoints outstanding — changing the feedforward mid-stream would step the velocity and torque feedforward; wait for the motion to finish",
                    );
                    return Err(refusal);
                }
                self.stage = match self.kind {
                    FeedforwardKind::DynamicsModel { .. } => FeedforwardStage::LaneCount,
                    FeedforwardKind::FfLead { .. } => FeedforwardStage::EndpointResult,
                };
                Ok(())
            },
            FeedforwardEvent::LaneCount(lanes) => {
                if let FeedforwardKind::DynamicsModel { n_slots } = self.kind {
                    if n_slots != lanes {
                        let mut refusal = "set_dynamics_model: the model covers ".to_owned();
                        append_decimal(&mut refusal, n_slots as u64);
                        refusal.append(" slots but the endpoint's filler drives ");
                        append_decimal(&mut refusal, lanes as u64);
                        refusal.append(" lanes");
                        return Err(refusal);
                    }
                }
                self.stage = FeedforwardStage::EndpointResult;
                Ok(())
            },
            FeedforwardEvent::Result(result) => {
                if let FeedforwardStage::EndpointResult = self.stage {
                    match require_endpoint_ok(result, name_of(self.kind)) {
                        Ok(()) => {
                            self.stage = FeedforwardStage::FillerResult;
                            Ok(())
                        },
                        Err(refusal) => Err(refusal),
                    }
                } else {
                    match require_filler_ok(result, name_of(self.kind)) {
                        Ok(()) => {
                            self.stage = FeedforwardStage::Finished;
                            Ok(())
                        },
                        Err(refusal) => Err(refusal),
                    }
                }
            },
        }
    }
}

// ---------------------------------------------------------------------------
// Plans
// ---------------------------------------------------------------------------

/// What the caller knows of the lanes and connections when a command arrives.
#[derive(Debug, Clone, Copy, PartialEq, Eq, Structural)]
pub struct EndpointFacts {
    /// For a handover: the lane is bound to the transport asked for.
    pub supported: bool,
    /// For a handover: the lane's transport just now.
    pub current: u8,
    /// For a feedforward change: the endpoint's connection is alive.
    pub connected: bool,
    /// The executor that runs a setpoint ring.
    pub ring_executor: u32,
}

pub open spec fn no_pulse_text(what: Seq<char>, mcu_id: u32) -> Seq<char> {
    what + ": no pulse endpoint for mcu "@ + crate::text::decimal(mcu_id as nat)
}

pub open spec fn no_phase_text(mcu_id: u32) -> Seq<char> {
    "position seed: no phase endpoint for mcu "@ + crate::text::decimal(mcu_id as nat)
}

fn no_pulse(what: &str, mcu_id: u32) -> (refusal: String)
    ensures
        refusal@ == no_pulse_text(what@, mcu_id),
{
    let mut refusal = what.to_owned();
    refusal.append(": no pulse endpoint for mcu ");
    append_decimal(&mut refusal, mcu_id as u64);
    refusal
}

/// The actions that seed the first `count` configs, and the refusal they end in.
pub open spec fn seed_plan(configs: Seq<SeedConfig>, map: EndpointMap, count: int) -> (
    Seq<EndpointAction>,
    Option<Seq<char>>,
)
    decreases count,
{
    if count <= 0 {
        (Seq::empty(), None)
    } else {
        let (earlier, refusal) = seed_plan(configs, map, count - 1);
        if refusal is Some {
            (earlier, refusal)
        } else {
            let (actions, refusal) = seed_config_plan(configs[count - 1], map, (count - 1) as usize);
            (earlier + actions, refusal)
        }
    }
}

/// The actions that seed one config: nothing for an EtherCAT one, else the counts
/// of each kind of lane it has and the reset that adopts them, pulse lanes first.
pub open spec fn seed_config_plan(config: SeedConfig, map: EndpointMap, place: usize) -> (
    Seq<EndpointAction>,
    Option<Seq<char>>,
) {
    let pulse = EndpointAction::PulseSeedCounts { config: place };
    let phase = EndpointAction::PhaseSeedCounts { config: place };
    if config.ethercat {
        (Seq::empty(), None)
    } else if config.pulse_lanes && !map.spec_has_pulse(config.mcu_id) {
        (seq![pulse], Some(no_pulse_text("position seed"@, config.mcu_id)))
    } else {
        let seeded = if config.pulse_lanes {
            seq![pulse, EndpointAction::ResetPulse { config: place }]
        } else {
            Seq::empty()
        };
        if !config.phase_lanes {
            (seeded, None)
        } else if !map.spec_has_phase(config.mcu_id) {
            (seeded + seq![phase], Some(no_phase_text(config.mcu_id)))
        } else {
            (seeded + seq![phase, EndpointAction::ResetPhase { config: place }], None)
        }
    }
}

fn append_seed_config(
    actions: &mut Vec<EndpointAction>,
    config: SeedConfig,
    map: &EndpointMap,
    place: usize,
) -> (refusal: Option<String>)
    ensures
        final(actions)@ == old(actions)@ + seed_config_plan(config, *map, place).0,
        match refusal {
            Some(text) => seed_config_plan(config, *map, place).1 == Some(text@),
            None => seed_config_plan(config, *map, place).1 is None,
        },
{
    if config.ethercat {
        assert(actions@ =~= old(actions)@ + seed_config_plan(config, *map, place).0);
        return None;
    }
    if config.pulse_lanes {
        actions.push(EndpointAction::PulseSeedCounts { config: place });
        if !map.has_pulse(config.mcu_id) {
            assert(actions@ =~= old(actions)@ + seed_config_plan(config, *map, place).0);
            return Some(no_pulse("position seed", config.mcu_id));
        }
        actions.push(EndpointAction::ResetPulse { config: place });
    }
    if config.phase_lanes {
        actions.push(EndpointAction::PhaseSeedCounts { config: place });
        if !map.has_phase(config.mcu_id) {
            assert(actions@ =~= old(actions)@ + seed_config_plan(config, *map, place).0);
            let mut refusal = "position seed: no phase endpoint for mcu ".to_owned();
            append_decimal(&mut refusal, config.mcu_id as u64);
            return Some(refusal);
        }
        actions.push(EndpointAction::ResetPhase { config: place });
    }
    assert(actions@ =~= old(actions)@ + seed_config_plan(config, *map, place).0);
    None
}

proof fn lemma_seeding_stops_at_a_refusal(
    configs: Seq<SeedConfig>,
    map: EndpointMap,
    count: int,
    total: int,
)
    requires
        0 <= count <= total,
        seed_plan(configs, map, count).1 is Some,
    ensures
        seed_plan(configs, map, total) == seed_plan(configs, map, count),
    decreases total,
{
    if count < total {
        lemma_seeding_stops_at_a_refusal(configs, map, count, total - 1);
    }
}

/// The actions a command performs before it ends.
pub open spec fn command_actions(
    map: EndpointMap,
    command: EndpointCommand,
) -> Seq<EndpointAction> {
    match command {
        EndpointCommand::FreezeMotor { mcu_id, motor, count } => if map.spec_has_pulse(mcu_id) {
            seq![EndpointAction::FreezeMotor { mcu_id, motor, count }]
        } else {
            Seq::empty()
        },
        EndpointCommand::ReseedMotor { mcu_id, motor, count } => if map.spec_has_pulse(mcu_id) {
            seq![
                EndpointAction::AbortOutbound { mcu_id },
                EndpointAction::ResetMotor { mcu_id, motor, count },
            ]
        } else {
            Seq::empty()
        },
        EndpointCommand::SeedPosition { configs } => seed_plan(
            configs@,
            map,
            configs@.len() as int,
        ).0,
        _ => Seq::empty(),
    }
}

/// A command ends in `end`.
pub open spec fn command_ends(
    map: EndpointMap,
    command: EndpointCommand,
    facts: EndpointFacts,
    end: PlanEnd,
) -> bool {
    let done = end == PlanEnd::Reply(EndpointReply);
    match command {
        EndpointCommand::FreezeMotor { mcu_id, .. } => if map.spec_has_pulse(mcu_id) {
            done
        } else {
            end matches PlanEnd::Refused(text) && text@ == no_pulse_text("keyed trip"@, mcu_id)
        },
        EndpointCommand::ReseedMotor { mcu_id, .. } => if map.spec_has_pulse(mcu_id) {
            done
        } else {
            end matches PlanEnd::Refused(text) && text@ == no_pulse_text(
                "stepcompress reconcile"@,
                mcu_id,
            )
        },
        EndpointCommand::SeedPosition { configs } => match seed_plan(
            configs@,
            map,
            configs@.len() as int,
        ).1 {
            None => done,
            Some(refusal) => end matches PlanEnd::Refused(text) && text@ == refusal,
        },
        EndpointCommand::BuzzRoutes { specs } => match crate::pump::buzz::routes_of(specs@, map) {
            Ok(routes) => end matches PlanEnd::DeliverRoutes(list)
                && crate::pump::buzz::route_views(list@) == routes,
            Err(refusal) => end matches PlanEnd::Refused(text) && text@ == refusal,
        },
        EndpointCommand::Handover { key, from, to } => match handover_of(
            map,
            key,
            from,
            to,
            facts.supported,
            facts.current,
        ) {
            Ok(handover) => end == PlanEnd::Handover(handover),
            Err(refusal) => end matches PlanEnd::Refused(text) && text@ == refusal,
        },
        EndpointCommand::SetFfLead { mcu_id, slot, lead_ns } => match feedforward_of(
            map,
            mcu_id,
            FeedforwardKind::FfLead { slot, lead_ns },
            facts.connected,
            facts.ring_executor,
        ) {
            Ok(change) => end == PlanEnd::Feedforward(change),
            Err(refusal) => end matches PlanEnd::Refused(text) && text@ == refusal,
        },
        EndpointCommand::SetDynamicsModel { mcu_id, n_slots } => match feedforward_of(
            map,
            mcu_id,
            FeedforwardKind::DynamicsModel { n_slots },
            facts.connected,
            facts.ring_executor,
        ) {
            Ok(change) => end == PlanEnd::Feedforward(change),
            Err(refusal) => end matches PlanEnd::Refused(text) && text@ == refusal,
        },
    }
}

/// The plan of one command.
pub fn handle_endpoint_command(
    map: &EndpointMap,
    command: &EndpointCommand,
    facts: EndpointFacts,
) -> (plan: EndpointPlan)
    requires
        map.wf(),
    ensures
        plan.actions@ == command_actions(*map, *command),
        command_ends(*map, *command, facts, plan.end),
{
    let mut actions: Vec<EndpointAction> = Vec::new();
    let end = match command {
        EndpointCommand::FreezeMotor { mcu_id, motor, count } => {
            if map.has_pulse(*mcu_id) {
                actions.push(
                    EndpointAction::FreezeMotor { mcu_id: *mcu_id, motor: *motor, count: *count },
                );
                PlanEnd::Reply(EndpointReply)
            } else {
                PlanEnd::Refused(no_pulse("keyed trip", *mcu_id))
            }
        },
        EndpointCommand::ReseedMotor { mcu_id, motor, count } => {
            if map.has_pulse(*mcu_id) {
                actions.push(EndpointAction::AbortOutbound { mcu_id: *mcu_id });
                actions.push(
                    EndpointAction::ResetMotor { mcu_id: *mcu_id, motor: *motor, count: *count },
                );
                PlanEnd::Reply(EndpointReply)
            } else {
                PlanEnd::Refused(no_pulse("stepcompress reconcile", *mcu_id))
            }
        },
        EndpointCommand::SeedPosition { configs } => {
            let mut index: usize = 0;
            while index < configs.len()
                invariant
                    index <= configs@.len(),
                    actions@ == seed_plan(configs@, *map, index as int).0,
                    seed_plan(configs@, *map, index as int).1 is None,
                    *command == (EndpointCommand::SeedPosition { configs: *configs }),
                decreases configs@.len() - index,
            {
                let refusal = append_seed_config(&mut actions, configs[index], map, index);
                if let Some(text) = refusal {
                    proof {
                        lemma_seeding_stops_at_a_refusal(
                            configs@,
                            *map,
                            index + 1,
                            configs@.len() as int,
                        );
                    }
                    return EndpointPlan { actions, end: PlanEnd::Refused(text) };
                }
                index += 1;
            }
            PlanEnd::Reply(EndpointReply)
        },
        EndpointCommand::Handover { key, from, to } => {
            match Handover::start(map, *key, *from, *to, facts.supported, facts.current) {
                Ok(handover) => PlanEnd::Handover(handover),
                Err(refusal) => PlanEnd::Refused(refusal),
            }
        },
        EndpointCommand::BuzzRoutes { specs } => {
            match map.resolve_buzz_routes(specs.as_slice()) {
                Ok(routes) => PlanEnd::DeliverRoutes(routes),
                Err(refusal) => PlanEnd::Refused(refusal),
            }
        },
        EndpointCommand::SetFfLead { mcu_id, slot, lead_ns } => {
            let kind = FeedforwardKind::FfLead { slot: *slot, lead_ns: *lead_ns };
            match FeedforwardChange::start(
                map,
                *mcu_id,
                kind,
                facts.connected,
                facts.ring_executor,
            ) {
                Ok(change) => PlanEnd::Feedforward(change),
                Err(refusal) => PlanEnd::Refused(refusal),
            }
        },
        EndpointCommand::SetDynamicsModel { mcu_id, n_slots } => {
            let kind = FeedforwardKind::DynamicsModel { n_slots: *n_slots };
            match FeedforwardChange::start(
                map,
                *mcu_id,
                kind,
                facts.connected,
                facts.ring_executor,
            ) {
                Ok(change) => PlanEnd::Feedforward(change),
                Err(refusal) => PlanEnd::Refused(refusal),
            }
        },
    };
    assert(actions@ =~= command_actions(*map, *command));
    EndpointPlan { actions, end }
}

/// What a buzz request is answered once its routes were handed over: the routes reach
/// their receiver, or the delivery's own error is told.
pub fn routes_delivered(delivery: Result<(), String>) -> (answer: Result<EndpointReply, String>)
    ensures
        match delivery {
            Ok(()) => answer == Ok::<EndpointReply, String>(EndpointReply),
            Err(error) => answer is Err && answer->Err_0@ == "buzz routes delivery failed: "@ + error@,
        },
{
    match delivery {
        Ok(()) => Ok(EndpointReply),
        Err(error) => {
            let mut refusal = "buzz routes delivery failed: ".to_owned();
            refusal.append(error.as_str());
            Err(refusal)
        },
    }
}

/// What came back of a call to an endpoint: an error of the call itself, or a message of
/// this kind with what decoding it as the expected kind gives.
#[derive(Debug)]
pub enum CallAnswer<T> {
    Failed(String),
    Received { kind: String, decoded: Result<T, String> },
}

/// The error of a call, if it has one: the call failed, a message of another kind came
/// back, or the message could not be decoded, in this order.
pub open spec fn call_refusal<T>(request: Seq<char>, expected: Seq<char>, answer: CallAnswer<T>)
    -> Option<Seq<char>> {
    match answer {
        CallAnswer::Failed(error) => Some(request + ": endpoint call failed: "@ + error@),
        CallAnswer::Received { kind, decoded } => if kind@ != expected {
            Some(request + ": expected "@ + expected + ", got "@ + kind@)
        } else {
            match decoded {
                Ok(_) => None,
                Err(error) => Some(expected + ": decode failed: "@ + error@),
            }
        },
    }
}

/// What a call to an endpoint comes to. Messages are named by their kind.
pub fn endpoint_call<T>(request: &str, expected: &String, answer: CallAnswer<T>) -> (outcome:
    Result<T, String>)
    ensures
        match call_refusal(request@, expected@, answer) {
            Some(text) => outcome is Err && outcome->Err_0@ == text,
            None => answer matches CallAnswer::Received { decoded, .. } && outcome is Ok
                && decoded is Ok && outcome->Ok_0 == decoded->Ok_0,
        },
{
    match answer {
        CallAnswer::Failed(error) => {
            let mut refusal = request.to_owned();
            refusal.append(": endpoint call failed: ");
            refusal.append(error.as_str());
            Err(refusal)
        },
        CallAnswer::Received { kind, decoded } => {
            if kind != *expected {
                let mut refusal = request.to_owned();
                refusal.append(": expected ");
                refusal.append(expected.as_str());
                refusal.append(", got ");
                refusal.append(kind.as_str());
                return Err(refusal);
            }
            match decoded {
                Ok(message) => Ok(message),
                Err(error) => {
                    let mut refusal = expected.as_str().to_owned();
                    refusal.append(": decode failed: ");
                    refusal.append(error.as_str());
                    Err(refusal)
                },
            }
        },
    }
}

/// The incoming transport is placed exactly where the outgoing one came to rest,
/// and that is the position the caller is told.
pub proof fn law_handover_carries_the_executed_position(executed: i64)
    ensures
        ({
            let adopting = handover_next(
                HandoverStage::ExecutedPosition,
                HandoverEvent::Executed(executed),
            )->Ok_0;
            let placing = handover_next(adopting, HandoverEvent::Done)->Ok_0;
            let delivering = handover_next(placing, HandoverEvent::Done)->Ok_0;
            &&& adopting == (HandoverStage::Adoption { executed })
            &&& placing == (HandoverStage::Placement { executed })
            &&& delivering == (HandoverStage::Delivery { position: Some(executed) })
            &&& handover_next(delivering, HandoverEvent::Done) == Ok::<HandoverStage, Seq<char>>(
                HandoverStage::Finished,
            )
        }),
{
}

/// While the outgoing transport still moves, the handover goes straight to its
/// answer: neither transport is touched, and the answer holds no position.
pub proof fn law_handover_waits_for_rest(handover: Handover)
    requires
        handover.stage == HandoverStage::Quiescence,
    ensures
        handover_next(handover.stage, HandoverEvent::Quiescent(false)) == Ok::<
            HandoverStage,
            Seq<char>,
        >(HandoverStage::Delivery { position: None }),
        handover.spec_action() == (HandoverAction::AskQuiescent { side: handover.outgoing }),
{
}

/// The endpoint is called only once its grid was adopted and it was at rest, and
/// the filler is changed only once the endpoint accepted: every way into either
/// stage goes through the stage before it.
pub proof fn law_feedforward_changes_in_order(change: FeedforwardChange, event: FeedforwardEvent)
    requires
        feedforward_event_fits(change.stage, event),
    ensures
        feedforward_next(change, event) == Ok::<FeedforwardStage, Seq<char>>(
            FeedforwardStage::EndpointResult,
        ) ==> change.stage == FeedforwardStage::Quiescence || change.stage
            == FeedforwardStage::LaneCount,
        feedforward_next(change, event) == Ok::<FeedforwardStage, Seq<char>>(
            FeedforwardStage::FillerResult,
        ) ==> change.stage == FeedforwardStage::EndpointResult && event
            == FeedforwardEvent::Result(0),
        feedforward_next(change, event) == Ok::<FeedforwardStage, Seq<char>>(
            FeedforwardStage::LaneCount,
        ) ==> change.stage == FeedforwardStage::Quiescence && event
            == FeedforwardEvent::Quiescent(true),
        feedforward_next(change, event) == Ok::<FeedforwardStage, Seq<char>>(
            FeedforwardStage::Finished,
        ) ==> change.stage == FeedforwardStage::FillerResult && event
            == FeedforwardEvent::Result(0),
{
}

/// The mcu has an endpoint among these.
pub open spec fn is_among(endpoints: Seq<crate::pump::buzz::LaneEndpoint>, mcu_id: u32) -> bool {
    exists|i: int| 0 <= i < endpoints.len() && (#[trigger] endpoints[i]).mcu_id == mcu_id
}

/// The map has an endpoint for the lane's transport: 0 is pulse, 1 is phase, and there is
/// no other.
pub open spec fn reaches_transport(map: EndpointMap, key: AxisKey, mode: u8) -> bool {
    mode == 0 && is_among(map.pulse@, key.mcu_id) || mode == 1 && is_among(
        map.phase@,
        key.mcu_id,
    )
}

/// A transport is reached on the side of its own kind, exactly where the lane's mcu has an
/// endpoint of that kind.
pub proof fn law_transport_has_its_own_side(
    map: EndpointMap,
    key: AxisKey,
    mode: u8,
    side: Result<Side, String>,
)
    requires
        call_ensures(transport_side, (&map, key, mode), side),
    ensures
        side is Ok <==> reaches_transport(map, key, mode),
        side is Ok ==> (side->Ok_0 == Side::Pulse <==> mode == 0),
        side is Ok ==> (side->Ok_0 == Side::Phase <==> mode == 1),
        mode > 1 ==> side->Err_0@ == "switch_axis_transport: unknown transport "@
            + crate::text::decimal(mode as nat),
        side is Err && mode == 0 ==> side->Err_0@ == "switch_axis_transport: "@ + ("mcu "@
            + crate::text::decimal(key.mcu_id as nat) + " axis "@ + crate::text::decimal(
            key.axis as nat,
        )) + " has no "@ + "pulse"@ + " endpoint"@,
        side is Err && mode == 1 ==> side->Err_0@ == "switch_axis_transport: "@ + ("mcu "@
            + crate::text::decimal(key.mcu_id as nat) + " axis "@ + crate::text::decimal(
            key.axis as nat,
        )) + " has no "@ + "phase"@ + " endpoint"@,
{
}

/// A handover starts exactly where the lane is bound to the new transport, still runs on
/// the old one, and has an endpoint of both; it takes the old transport's side out and the
/// new one's in, and begins by waiting for rest.
pub proof fn law_handover_goes_from_the_old_side_to_the_new(
    map: EndpointMap,
    key: AxisKey,
    from: u8,
    to: u8,
    supported: bool,
    current: u8,
    handover: Result<Handover, String>,
)
    requires
        call_ensures(Handover::start, (&map, key, from, to, supported, current), handover),
    ensures
        handover is Ok <==> supported && current == from && reaches_transport(map, key, from)
            && reaches_transport(map, key, to),
        handover matches Ok(started) ==> {
            &&& started.key == key
            &&& started.to == to
            &&& started.stage == HandoverStage::Quiescence
            &&& (started.outgoing == Side::Pulse <==> from == 0)
            &&& (started.incoming == Side::Pulse <==> to == 0)
        },
{
}

/// The outgoing side is asked about rest and position, the incoming one is placed, and in
/// between the lane adopts the new transport.
pub proof fn law_handover_asks_the_old_side_and_places_the_new(
    handover: Handover,
    action: HandoverAction,
)
    requires
        call_ensures(Handover::action, (&handover,), action),
    ensures
        handover.stage == HandoverStage::Quiescence <==> action is AskQuiescent,
        action is AskQuiescent ==> action->AskQuiescent_side == handover.outgoing,
        handover.stage == HandoverStage::ExecutedPosition <==> action is ReadExecuted,
        action is ReadExecuted ==> action->ReadExecuted_side == handover.outgoing
            && action->ReadExecuted_axis == handover.key.axis,
        handover.stage is Adoption <==> action is AdoptTransport,
        action is AdoptTransport ==> action->key == handover.key && action->to == handover.to,
        handover.stage is Placement <==> action is PlaceAt,
        action is PlaceAt ==> action->PlaceAt_side == handover.incoming && action->PlaceAt_axis
            == handover.key.axis && action->executed == handover.stage->Placement_executed,
        handover.stage is Delivery <==> action is Deliver,
        action is Deliver ==> action->position == handover.stage->position,
        handover.stage == HandoverStage::Finished <==> action is Reply,
{
}

/// At rest the position is read next. A failure ends the handover in the reason given, with
/// a word on the delivery where that failed.
pub proof fn law_handover_reads_only_at_rest_and_ends_at_a_failure(
    stage: HandoverStage,
    reason: String,
)
    ensures
        handover_next(HandoverStage::Quiescence, HandoverEvent::Quiescent(true)) == Ok::<
            HandoverStage,
            Seq<char>,
        >(HandoverStage::ExecutedPosition),
        handover_next(stage, HandoverEvent::Failed(reason)) is Err,
        stage !is Delivery ==> handover_next(stage, HandoverEvent::Failed(reason))->Err_0
            == reason@,
        stage is Delivery ==> handover_next(stage, HandoverEvent::Failed(reason))->Err_0
            == "handover result delivery failed: "@ + reason@,
{
}

/// A grid can be filled exactly where the ring executor runs it and it has cycles.
pub proof fn law_only_a_ring_with_room_is_filled(
    grid: SampleGrid,
    ring_executor: u32,
    what: &str,
    outcome: Result<(), String>,
)
    requires
        call_ensures(check_grid, (grid, ring_executor, what), outcome),
    ensures
        outcome is Ok <==> grid.executor == ring_executor && grid.ring_depth_cycles > 0,
{
}

/// A change starts exactly at an mcu with a filler whose connection is alive, as the change
/// asked for, by asking for the grid.
pub proof fn law_change_starts_at_a_connected_filler(
    map: EndpointMap,
    mcu_id: u32,
    kind: FeedforwardKind,
    connected: bool,
    ring_executor: u32,
    change: Result<FeedforwardChange, String>,
)
    requires
        call_ensures(
            FeedforwardChange::start,
            (&map, mcu_id, kind, connected, ring_executor),
            change,
        ),
    ensures
        change is Ok <==> connected && exists|i: int|
            0 <= i < map.ethercat@.len() && map.ethercat@[i] == mcu_id,
        change matches Ok(started) ==> {
            &&& started.mcu_id == mcu_id
            &&& started.kind == kind
            &&& started.ring_executor == ring_executor
            &&& started.stage == FeedforwardStage::Grid
        },
{
}

/// Each stage asks for what it waits for; the grid is observed as it was reported.
pub proof fn law_change_asks_for_what_it_waits_for(
    change: FeedforwardChange,
    action: FeedforwardAction,
)
    requires
        call_ensures(FeedforwardChange::action, (&change,), action),
    ensures
        change.stage == FeedforwardStage::Grid <==> action is QueryGrid,
        change.stage is GridAdoption <==> action is ObserveGrid,
        action is ObserveGrid ==> action->grid_index == change.stage->grid_index
            && action->grid_clock == change.stage->grid_clock,
        change.stage == FeedforwardStage::Quiescence <==> action is AskQuiescent,
        change.stage == FeedforwardStage::LaneCount <==> action is AskLaneCount,
        change.stage == FeedforwardStage::EndpointResult <==> action is CallEndpoint,
        change.stage == FeedforwardStage::FillerResult <==> action is ApplyToFiller,
        change.stage == FeedforwardStage::Finished <==> action is Reply,
{
}

/// A change goes on exactly after a grid that can be filled, the observation of it, rest,
/// as many lanes as a model covers, and a result of zero from the endpoint and from the
/// filler. Every other answer ends it.
pub proof fn law_change_goes_on_only_after_a_good_answer(
    change: FeedforwardChange,
    event: FeedforwardEvent,
)
    requires
        feedforward_event_fits(change.stage, event),
    ensures
        event matches FeedforwardEvent::Grid(grid) ==> (feedforward_next(change, event) is Ok
            <==> grid.executor == change.ring_executor && grid.ring_depth_cycles > 0),
        event matches FeedforwardEvent::Grid(grid) ==> feedforward_next(change, event) is Ok
            ==> feedforward_next(change, event)->Ok_0 is GridAdoption && feedforward_next(
            change,
            event,
        )->Ok_0->grid_index == grid.grid_index && feedforward_next(change, event)->Ok_0->grid_clock
            == grid.grid_clock,
        event is Done ==> feedforward_next(change, event) is Ok && feedforward_next(
            change,
            event,
        )->Ok_0 == FeedforwardStage::Quiescence,
        event matches FeedforwardEvent::Quiescent(quiescent) ==> (feedforward_next(change, event)
            is Ok <==> quiescent),
        event is Quiescent && feedforward_next(change, event) is Ok ==> feedforward_next(
            change,
            event,
        )->Ok_0 == if change.kind is DynamicsModel {
            FeedforwardStage::LaneCount
        } else {
            FeedforwardStage::EndpointResult
        },
        event matches FeedforwardEvent::LaneCount(lanes) ==> (feedforward_next(change, event) is Ok
            <==> (change.kind is DynamicsModel ==> change.kind->n_slots == lanes)),
        event is LaneCount && feedforward_next(change, event) is Ok ==> feedforward_next(
            change,
            event,
        )->Ok_0 == FeedforwardStage::EndpointResult,
        event matches FeedforwardEvent::Result(result) ==> (feedforward_next(change, event) is Ok
            <==> result == 0),
        event is Result && feedforward_next(change, event) is Ok ==> feedforward_next(
            change,
            event,
        )->Ok_0 == if change.stage == FeedforwardStage::EndpointResult {
            FeedforwardStage::FillerResult
        } else {
            FeedforwardStage::Finished
        },
        event is Failed ==> feedforward_next(change, event) is Err,
{
}

/// A call comes to the message that was decoded, exactly where one of the expected kind
/// came back and could be decoded; a failed call and a failed decoding tell their error.
pub proof fn law_call_gives_the_expected_message<T>(
    request: &str,
    expected: String,
    answer: CallAnswer<T>,
    outcome: Result<T, String>,
)
    requires
        call_ensures(endpoint_call::<T>, (request, &expected, answer), outcome),
    ensures
        outcome is Ok <==> answer is Received && answer->kind@ == expected@ && answer->decoded
            is Ok,
        outcome is Ok ==> outcome->Ok_0 == answer->decoded->Ok_0,
        answer matches CallAnswer::Failed(error) ==> outcome->Err_0@ == request@
            + ": endpoint call failed: "@ + error@,
        answer is Received && answer->kind@ != expected@ ==> outcome->Err_0@ == request@
            + ": expected "@ + expected@ + ", got "@ + answer->kind@,
        answer is Received && answer->kind@ == expected@ && answer->decoded is Err
            ==> outcome->Err_0@ == expected@ + ": decode failed: "@ + answer->decoded->Err_0@,
{
}

/// A motor is frozen at, or reseeded to, the count asked for, exactly where its mcu has a
/// pulse endpoint; before a reseed what is outbound is given up. Elsewhere nothing is done
/// and the command is refused.
pub proof fn law_motor_commands_act_on_their_pulse_endpoint(
    map: EndpointMap,
    command: EndpointCommand,
    facts: EndpointFacts,
    plan: EndpointPlan,
)
    requires
        map.wf(),
        call_ensures(handle_endpoint_command, (&map, &command, facts), plan),
    ensures
        command matches EndpointCommand::FreezeMotor { mcu_id, motor, count } ==> if is_among(
            map.pulse@,
            mcu_id,
        ) {
            &&& plan.end is Reply
            &&& plan.actions@.len() == 1
            &&& plan.actions@[0] == (EndpointAction::FreezeMotor { mcu_id, motor, count })
        } else {
            plan.end is Refused && plan.actions@.len() == 0
        },
        command matches EndpointCommand::ReseedMotor { mcu_id, motor, count } ==> if is_among(
            map.pulse@,
            mcu_id,
        ) {
            &&& plan.end is Reply
            &&& plan.actions@.len() == 2
            &&& plan.actions@[0] == (EndpointAction::AbortOutbound { mcu_id })
            &&& plan.actions@[1] == (EndpointAction::ResetMotor { mcu_id, motor, count })
        } else {
            plan.end is Refused && plan.actions@.len() == 0
        },
{
}

/// A command that starts a machine performs nothing itself. The machine is that of the
/// command: its lane and transports, or its mcu and what it changes.
pub proof fn law_machine_is_that_of_its_command(
    map: EndpointMap,
    command: EndpointCommand,
    facts: EndpointFacts,
    plan: EndpointPlan,
)
    requires
        map.wf(),
        call_ensures(handle_endpoint_command, (&map, &command, facts), plan),
    ensures
        command is Handover || command is BuzzRoutes || command is SetFfLead || command
            is SetDynamicsModel ==> plan.actions@.len() == 0,
        command matches EndpointCommand::Handover { key, from, to } ==> if facts.supported
            && facts.current == from && reaches_transport(map, key, from) && reaches_transport(
            map,
            key,
            to,
        ) {
            &&& plan.end is Handover
            &&& plan.end->Handover_0.key == key
            &&& plan.end->Handover_0.to == to
            &&& plan.end->Handover_0.stage == HandoverStage::Quiescence
            &&& (plan.end->Handover_0.outgoing == Side::Pulse <==> from == 0)
            &&& (plan.end->Handover_0.incoming == Side::Pulse <==> to == 0)
        } else {
            plan.end is Refused
        },
        command matches EndpointCommand::SetFfLead { mcu_id, slot, lead_ns } ==> if facts.connected
            && map.ethercat@.contains(mcu_id) {
            &&& plan.end is Feedforward
            &&& plan.end->Feedforward_0.mcu_id == mcu_id
            &&& plan.end->Feedforward_0.kind == (FeedforwardKind::FfLead { slot, lead_ns })
            &&& plan.end->Feedforward_0.ring_executor == facts.ring_executor
            &&& plan.end->Feedforward_0.stage == FeedforwardStage::Grid
        } else {
            plan.end is Refused
        },
        command matches EndpointCommand::SetDynamicsModel { mcu_id, n_slots }
            ==> if facts.connected && map.ethercat@.contains(mcu_id) {
            &&& plan.end is Feedforward
            &&& plan.end->Feedforward_0.mcu_id == mcu_id
            &&& plan.end->Feedforward_0.kind == (FeedforwardKind::DynamicsModel { n_slots })
            &&& plan.end->Feedforward_0.ring_executor == facts.ring_executor
            &&& plan.end->Feedforward_0.stage == FeedforwardStage::Grid
        } else {
            plan.end is Refused
        },
        command is BuzzRoutes ==> plan.end is DeliverRoutes || plan.end is Refused,
{
}

/// A config is seeded wherever it has lanes: an EtherCAT one needs nothing, any other needs
/// an endpoint for each kind of lane it has.
pub open spec fn can_be_seeded(config: SeedConfig, map: EndpointMap) -> bool {
    config.ethercat || (config.pulse_lanes ==> is_among(map.pulse@, config.mcu_id)) && (
    config.phase_lanes ==> is_among(map.phase@, config.mcu_id))
}

/// Every config before this place can be seeded.
pub open spec fn seeding_reaches(configs: Seq<SeedConfig>, map: EndpointMap, place: int) -> bool {
    forall|i: int| 0 <= i < place ==> can_be_seeded(#[trigger] configs[i], map)
}

/// Where an action stands in a seeding: by its config, the pulse lanes before the phase
/// lanes, the counts of either before the reset that adopts them.
pub open spec fn seeding_rank(action: EndpointAction) -> int {
    match action {
        EndpointAction::PulseSeedCounts { config } => 4 * config,
        EndpointAction::ResetPulse { config } => 4 * config + 1,
        EndpointAction::PhaseSeedCounts { config } => 4 * config + 2,
        EndpointAction::ResetPhase { config } => 4 * config + 3,
        _ => -1,
    }
}

/// Whether an action belongs to the seeding of these configs.
pub open spec fn seeds(configs: Seq<SeedConfig>, map: EndpointMap, action: EndpointAction) -> bool {
    match action {
        EndpointAction::PulseSeedCounts { config } => config < configs.len() && seeding_reaches(
            configs,
            map,
            config as int,
        ) && !configs[config as int].ethercat && configs[config as int].pulse_lanes,
        EndpointAction::ResetPulse { config } => config < configs.len() && seeding_reaches(
            configs,
            map,
            config as int,
        ) && !configs[config as int].ethercat && configs[config as int].pulse_lanes && is_among(
            map.pulse@,
            configs[config as int].mcu_id,
        ),
        EndpointAction::PhaseSeedCounts { config } => config < configs.len() && seeding_reaches(
            configs,
            map,
            config as int,
        ) && !configs[config as int].ethercat && configs[config as int].phase_lanes && (
        configs[config as int].pulse_lanes ==> is_among(map.pulse@, configs[config as int].mcu_id)),
        EndpointAction::ResetPhase { config } => config < configs.len() && seeding_reaches(
            configs,
            map,
            config as int,
        ) && !configs[config as int].ethercat && configs[config as int].phase_lanes && (
        configs[config as int].pulse_lanes ==> is_among(map.pulse@, configs[config as int].mcu_id))
            && is_among(map.phase@, configs[config as int].mcu_id),
        _ => false,
    }
}

/// A seed performs the actions that belong to it and no other, each once and in the order
/// of the configs. It is acknowledged exactly where every config can be seeded.
pub proof fn law_seed_covers_every_config_in_order(
    map: EndpointMap,
    configs: Vec<SeedConfig>,
    facts: EndpointFacts,
    plan: EndpointPlan,
)
    requires
        map.wf(),
        call_ensures(
            handle_endpoint_command,
            (&map, &(EndpointCommand::SeedPosition { configs }), facts),
            plan,
        ),
    ensures
        plan.end is Reply || plan.end is Refused,
        plan.end is Reply <==> seeding_reaches(configs@, map, configs@.len() as int),
        forall|action: EndpointAction| #[trigger]
            plan.actions@.contains(action) <==> seeds(configs@, map, action),
        forall|i: int, j: int|
            0 <= i < j < plan.actions@.len() ==> seeding_rank(#[trigger] plan.actions@[i])
                < seeding_rank(#[trigger] plan.actions@[j]),
{
    assert(configs.len() == configs@.len());
    lemma_seeding(configs@, map, configs@.len() as int);
    assert(configs@.take(configs@.len() as int) =~= configs@);
}

proof fn lemma_seeding(configs: Seq<SeedConfig>, map: EndpointMap, count: int)
    requires
        0 <= count <= configs.len() <= usize::MAX,
    ensures
        seed_plan(configs, map, count).1 is None <==> seeding_reaches(configs, map, count),
        forall|action: EndpointAction| #[trigger]
            seed_plan(configs, map, count).0.contains(action) <==> seeds(
                configs.take(count),
                map,
                action,
            ),
        forall|i: int, j: int|
            0 <= i < j < seed_plan(configs, map, count).0.len() ==> seeding_rank(
                #[trigger] seed_plan(configs, map, count).0[i],
            ) < seeding_rank(#[trigger] seed_plan(configs, map, count).0[j]),
        forall|i: int|
            0 <= i < seed_plan(configs, map, count).0.len() ==> seeding_rank(
                #[trigger] seed_plan(configs, map, count).0[i],
            ) < 4 * count,
    decreases count,
{
    let done = seed_plan(configs, map, count).0;
    if count <= 0 {
        assert(configs.take(count).len() == 0);
    } else {
        lemma_seeding(configs, map, count - 1);
        let place = (count - 1) as usize;
        let config = configs[count - 1];
        let (earlier, refusal) = seed_plan(configs, map, count - 1);
        let (own, own_refusal) = seed_config_plan(config, map, place);
        assert(can_be_seeded(config, map) <==> own_refusal is None);
        assert forall|i: int|
            0 <= i < count - 1 implies (#[trigger] configs.take(count)[i]) == configs.take(
            count - 1,
        )[i] by {}
        assert forall|p: int| 0 <= p <= count - 1 implies seeding_reaches(
            configs.take(count),
            map,
            p,
        ) == seeding_reaches(configs.take(count - 1), map, p) && seeding_reaches(
            configs.take(count),
            map,
            p,
        ) == seeding_reaches(configs, map, p) by {
            assert forall|i: int| 0 <= i < p implies configs.take(count)[i] == configs[i]
                && configs.take(count - 1)[i] == configs[i] by {}
            if seeding_reaches(configs.take(count), map, p) {
                assert forall|i: int| 0 <= i < p implies can_be_seeded(#[trigger] configs[i], map)
                    && can_be_seeded(configs.take(count - 1)[i], map) by {
                    assert(can_be_seeded(configs.take(count)[i], map));
                }
            }
            if seeding_reaches(configs, map, p) {
                assert forall|i: int| 0 <= i < p implies can_be_seeded(
                    #[trigger] configs.take(count)[i],
                    map,
                ) by {
                    assert(can_be_seeded(configs[i], map));
                }
            }
            if seeding_reaches(configs.take(count - 1), map, p) {
                assert forall|i: int| 0 <= i < p implies can_be_seeded(#[trigger] configs[i], map) by {
                    assert(can_be_seeded(configs.take(count - 1)[i], map));
                }
            }
        }
        assert(configs.take(count)[count - 1] == config);
        assert(seeding_reaches(configs, map, count) <==> seeding_reaches(configs, map, count - 1)
            && can_be_seeded(config, map));
        if refusal is Some {
            assert(done == earlier);
            assert forall|action: EndpointAction| #[trigger] done.contains(action) <==> seeds(
                configs.take(count),
                map,
                action,
            ) by {
                assert(earlier.contains(action) <==> seeds(configs.take(count - 1), map, action));
            }
        } else {
            assert(done == earlier + own);
            assert forall|action: EndpointAction| #[trigger] done.contains(action) <==> seeds(
                configs.take(count),
                map,
                action,
            ) by {
                assert(earlier.contains(action) <==> seeds(configs.take(count - 1), map, action));
                if earlier.contains(action) {
                    let i = choose|i: int| 0 <= i < earlier.len() && earlier[i] == action;
                    assert(done[i] == action);
                }
                if own.contains(action) {
                    let i = choose|i: int| 0 <= i < own.len() && own[i] == action;
                    assert(done[earlier.len() + i] == action);
                }
                if done.contains(action) {
                    let i = choose|i: int| 0 <= i < done.len() && done[i] == action;
                    if i < earlier.len() {
                        assert(earlier[i] == action);
                    } else {
                        assert(own[i - earlier.len()] == action);
                    }
                }
                lemma_own_seeding(configs.take(count), config, map, place, action);
            }
        }
    }
}

proof fn lemma_own_seeding(
    configs: Seq<SeedConfig>,
    config: SeedConfig,
    map: EndpointMap,
    place: usize,
    action: EndpointAction,
)
    requires
        place < configs.len(),
        configs[place as int] == config,
        seeding_reaches(configs, map, place as int),
    ensures
        seed_config_plan(config, map, place).0.contains(action) <==> seeds(configs, map, action)
            && (action == (EndpointAction::PulseSeedCounts { config: place }) || action == (
        EndpointAction::ResetPulse { config: place }) || action == (
        EndpointAction::PhaseSeedCounts { config: place }) || action == (
        EndpointAction::ResetPhase { config: place })),
{
    let own = seed_config_plan(config, map, place).0;
    if seeds(configs, map, action) && (action == (EndpointAction::PulseSeedCounts {
        config: place,
    })) {
        assert(own[0] == action);
    }
    if seeds(configs, map, action) && (action == (EndpointAction::ResetPulse { config: place })) {
        assert(own[1] == action);
    }
    let skipped: int = if config.pulse_lanes {
        2
    } else {
        0
    };
    if seeds(configs, map, action) && (action == (EndpointAction::PhaseSeedCounts {
        config: place,
    })) {
        assert(own[skipped] == action);
    }
    if seeds(configs, map, action) && (action == (EndpointAction::ResetPhase { config: place })) {
        assert(own[skipped + 1] == action);
    }
}

/// Transports and refusals go by their own names: results that are not zero are refused with the
/// number, and a route that was not delivered tells why.
pub proof fn law_refusals_name_their_result(
    mode: u8,
    name: &'static str,
    key: AxisKey,
    missing: String,
    result: i32,
    what: &str,
    endpoint: Result<(), String>,
    filler: Result<(), String>,
    delivery: Result<(), String>,
    answer: Result<EndpointReply, String>,
)
    requires
        call_ensures(transport_name, (mode,), name),
        call_ensures(missing_binding, (key, mode), missing),
        call_ensures(require_endpoint_ok, (result, what), endpoint),
        call_ensures(require_filler_ok, (result, what), filler),
        call_ensures(routes_delivered, (delivery,), answer),
    ensures
        name@ == if mode == 0 {
            "pulse"@
        } else if mode == 1 {
            "phase"@
        } else {
            "unknown"@
        },
        missing@ == "switch_axis_transport: "@ + lane_text(key) + " has no "@ + name@
            + " binding"@,
        endpoint is Ok <==> result == 0,
        filler is Ok <==> result == 0,
        endpoint is Err ==> endpoint->Err_0@ == what@ + ": endpoint result "@
            + crate::text::signed_decimal(result as int),
        filler is Err ==> filler->Err_0@ == what@ + ": host filler refused it (result "@
            + crate::text::signed_decimal(result as int) + ")"@,
        answer is Ok <==> delivery is Ok,
        delivery matches Err(reason) ==> answer->Err_0@ == "buzz routes delivery failed: "@
            + reason@,
{
}

/// A handover goes on one stage at a time: it reads where the old side stands only once that is
/// at rest, adopts and places exactly what it read, and delivers that; a failure ends it with
/// its reason and leaves it where it was.
pub proof fn law_advanced_handover_carries_what_it_read(
    handover: &mut Handover,
    event: HandoverEvent,
    outcome: Result<(), String>,
)
    requires
        handover_event_fits(old(handover).stage, event),
        call_ensures(Handover::advance, (handover, event), outcome),
    ensures
        outcome is Err <==> event is Failed,
        outcome is Err ==> *final(handover) == *old(handover),
        event matches HandoverEvent::Failed(reason) ==> outcome->Err_0@ == if old(handover).stage is Delivery {
            "handover result delivery failed: "@ + reason@
        } else {
            reason@
        },
        event == HandoverEvent::Quiescent(true) ==> final(handover).stage
            == HandoverStage::ExecutedPosition,
        event == HandoverEvent::Quiescent(false) ==> final(handover).stage == (
        HandoverStage::Delivery { position: None }),
        event matches HandoverEvent::Executed(executed) ==> final(handover).stage == (
        HandoverStage::Adoption { executed }),
        event is Done ==> match old(handover).stage {
            HandoverStage::Adoption { executed } => final(handover).stage == (
            HandoverStage::Placement { executed }),
            HandoverStage::Placement { executed } => final(handover).stage == (
            HandoverStage::Delivery { position: Some(executed) }),
            _ => final(handover).stage == HandoverStage::Finished,
        },
        final(handover).key == old(handover).key,
        final(handover).to == old(handover).to,
        final(handover).outgoing == old(handover).outgoing,
        final(handover).incoming == old(handover).incoming,
{
}

/// A change goes on only after a good answer, the endpoint before the filler; whatever refuses it
/// leaves it where it was.
pub proof fn law_advanced_change_asks_the_endpoint_first(
    change: &mut FeedforwardChange,
    event: FeedforwardEvent,
    outcome: Result<(), String>,
)
    requires
        feedforward_event_fits(old(change).stage, event),
        call_ensures(FeedforwardChange::advance, (change, event), outcome),
    ensures
        outcome is Err ==> *final(change) == *old(change),
        event is Failed ==> outcome is Err,
        event == FeedforwardEvent::Quiescent(false) ==> outcome is Err,
        event == FeedforwardEvent::Quiescent(true) ==> outcome is Ok && final(change).stage == (
        if old(change).kind is DynamicsModel {
            FeedforwardStage::LaneCount
        } else {
            FeedforwardStage::EndpointResult
        }),
        event matches FeedforwardEvent::Result(result) ==> (outcome is Ok <==> result == 0),
        event == FeedforwardEvent::Result(0) ==> final(change).stage == (if old(change).stage
            is EndpointResult {
            FeedforwardStage::FillerResult
        } else {
            FeedforwardStage::Finished
        }),
        event is Done ==> outcome is Ok && final(change).stage is Quiescence,
        event matches FeedforwardEvent::Grid(grid) ==> outcome is Ok ==> final(change).stage == (
        FeedforwardStage::GridAdoption {
            grid_index: grid.grid_index,
            grid_clock: grid.grid_clock,
        }),
        final(change).mcu_id == old(change).mcu_id,
        final(change).kind == old(change).kind,
{
}

} // verus!
