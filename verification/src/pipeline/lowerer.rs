//! The lowering stage: what it emits for each planned move, and the holds it puts
//! around motion so that the filters of the axis chains come to rest.
//!
//! Durations and speeds enter as order keys, integers that compare as the values do;
//! positions and the running time are the caller's.

use vstd::prelude::*;

verus! {

/// The axes that a spatial path moves.
pub const SPATIAL_AXES: usize = 3;

/// How long the axis chains need at rest before motion starts and after it ends.
#[derive(Debug, Clone, Copy, PartialEq, Eq, Structural)]
pub struct RestSupport {
    pub before_motion: i64,
    pub after_motion: i64,
}

/// How the mesh bends a move.
#[derive(Debug, Clone, Copy, PartialEq, Eq, Structural)]
pub enum SurfaceMode {
    /// There is no mesh.
    Flat,
    /// One offset for the whole move, taken where the move stands.
    ConstantAtRest,
    /// One offset for the whole move, taken where its path starts.
    ConstantAtPathStart,
    /// The offset changes along the path.
    Variable,
}

/// How the mesh bends a move. `spread_is_zero` says whether the correction is the same
/// all over the box around the path; it is asked only of a path under a mesh.
pub fn classify_surface<F: FnOnce() -> bool>(
    has_mesh: bool,
    has_path: bool,
    spread_is_zero: F,
) -> (mode: SurfaceMode)
    requires
        has_mesh && has_path ==> call_requires(spread_is_zero, ()),
    ensures
        mode is Flat <==> !has_mesh,
        mode is ConstantAtRest <==> has_mesh && !has_path,
        mode is ConstantAtPathStart ==> has_mesh && has_path && call_ensures(
            spread_is_zero,
            (),
            true,
        ),
        mode is Variable ==> has_mesh && has_path && call_ensures(spread_is_zero, (), false),
{
    if !has_mesh {
        return SurfaceMode::Flat;
    }
    if !has_path {
        return SurfaceMode::ConstantAtRest;
    }
    let flat: bool = spread_is_zero();
    if flat {
        SurfaceMode::ConstantAtPathStart
    } else {
        SurfaceMode::Variable
    }
}

/// What the stage reads of a planned move.
#[derive(Debug)]
pub struct PlannedMove {
    pub source_line: u32,
    /// The axis of each follower.
    pub followers: Vec<usize>,
    /// Whether the move has a path in space.
    pub has_path: bool,
    pub exit_v: i64,
}

/// What one axis of a segment does.
#[derive(Debug, Clone, Copy, PartialEq, Eq, Structural)]
pub enum AxisPlan {
    /// Stands still, at its start position and, where `lifted`, the mesh's offset.
    Hold { lifted: bool },
    /// Follows the move's path and phases.
    Analytic,
}

/// One segment of motion.
#[derive(Debug)]
pub struct SegmentPlan {
    pub axes: Vec<AxisPlan>,
    pub surface: SurfaceMode,
    pub spatial_path: bool,
    pub source_line: u32,
    pub rest_at_end: bool,
}

/// What a control token asks of the stage before it is sent on.
#[derive(Debug, Clone, Copy, PartialEq, Eq, Structural)]
pub enum Control {
    Dwell,
    /// Motion starts anew from a position on `axes` axes.
    Reset { axes: usize },
    SetAxisChains { rest: RestSupport },
    SetMesh { present: bool },
    Dispatch,
}

/// What leaves the stage.
#[derive(Debug)]
pub enum BaseItem {
    /// Every axis stands still for `duration`.
    Hold { duration: i64, source_line: u32 },
    Segment(SegmentPlan),
    Drain,
    Control,
}

/// What reached the stage.
#[derive(Debug, Clone, Copy, PartialEq, Eq, Structural)]
pub enum StageInput {
    Move { source_line: u32 },
    Drain,
    Control(Control),
}

#[derive(Debug, Clone, Copy, PartialEq, Eq, Structural)]
pub struct Lowerer {
    pub rest: RestSupport,
    /// How many axes the odometer counts.
    pub axes: usize,
    pub has_mesh: bool,
    /// The next move is preceded by a hold.
    pub rest_hold_pending: bool,
    pub has_motion_history: bool,
    /// The order key of no time at all.
    pub no_time: i64,
    /// The order key of the highest speed that counts as rest.
    pub rest_limit: i64,
}

/// The larger of two numbers.
pub open spec fn larger(a: int, b: int) -> int {
    if a >= b {
        a
    } else {
        b
    }
}

/// How many axes a segment has: the spatial ones, those the odometer counts, and up to
/// the highest follower's.
pub open spec fn axis_count(followers: Seq<usize>, odometer_axes: int) -> int
    decreases followers.len(),
{
    if followers.len() == 0 {
        larger(odometer_axes, SPATIAL_AXES as int)
    } else {
        larger(axis_count(followers.drop_last(), odometer_axes), followers.last() + 1)
    }
}

/// What axis `axis` of a move does.
pub open spec fn axis_plan(has_path: bool, surface: SurfaceMode, axis: int) -> AxisPlan {
    if axis < SPATIAL_AXES && !has_path {
        AxisPlan::Hold { lifted: axis == 2 && !(surface is Flat) }
    } else {
        AxisPlan::Analytic
    }
}

/// The segment of a move.
pub open spec fn is_segment(
    segment: SegmentPlan,
    m: PlannedMove,
    surface: SurfaceMode,
    odometer_axes: int,
    rest_limit: i64,
) -> bool {
    &&& segment.axes@ == Seq::new(
        axis_count(m.followers@, odometer_axes) as nat,
        |axis: int| axis_plan(m.has_path, surface, axis),
    )
    &&& segment.surface == surface
    &&& segment.spatial_path == m.has_path
    &&& segment.source_line == m.source_line
    &&& segment.rest_at_end == (m.exit_v <= rest_limit)
}

fn count_axes(followers: &Vec<usize>, odometer_axes: usize) -> (count: usize)
    requires
        forall|i: int| 0 <= i < followers@.len() ==> #[trigger] followers@[i] < usize::MAX,
    ensures
        count == axis_count(followers@, odometer_axes as int),
        count >= SPATIAL_AXES,
{
    let mut count: usize = odometer_axes;
    if count < SPATIAL_AXES {
        count = SPATIAL_AXES;
    }
    assert(followers@.take(0) =~= Seq::empty());
    let mut i: usize = 0;
    while i < followers.len()
        invariant
            i <= followers@.len(),
            count == axis_count(followers@.take(i as int), odometer_axes as int),
            count >= SPATIAL_AXES,
            forall|k: int| 0 <= k < followers@.len() ==> #[trigger] followers@[k] < usize::MAX,
        decreases followers@.len() - i,
    {
        assert(followers@.take(i + 1).drop_last() =~= followers@.take(i as int));
        if followers[i] + 1 > count {
            count = followers[i] + 1;
        }
        i += 1;
    }
    assert(followers@.take(i as int) =~= followers@);
    count
}

impl Lowerer {
    /// At rest with nothing emitted yet, so the first move is preceded by a hold.
    pub fn new(rest: RestSupport, axes: usize, no_time: i64, rest_limit: i64) -> (lowerer: Self)
        ensures
            lowerer == (Lowerer {
                rest,
                axes,
                has_mesh: false,
                rest_hold_pending: true,
                has_motion_history: false,
                no_time,
                rest_limit,
            }),
    {
        Lowerer {
            rest,
            axes,
            has_mesh: false,
            rest_hold_pending: true,
            has_motion_history: false,
            no_time,
            rest_limit,
        }
    }

    /// The hold before a move, where one is due.
    pub open spec fn lead_hold(self, source_line: u32) -> Seq<BaseItem> {
        if self.rest_hold_pending && self.rest.before_motion > self.no_time {
            seq![BaseItem::Hold { duration: self.rest.before_motion, source_line }]
        } else {
            Seq::empty()
        }
    }

    /// The hold that lets a motion settle, where there was one since the last.
    pub open spec fn settle_hold(self) -> Seq<BaseItem> {
        if self.rest_hold_pending || !self.has_motion_history || self.rest.after_motion
            <= self.no_time {
            Seq::empty()
        } else {
            seq![BaseItem::Hold { duration: self.rest.after_motion, source_line: 0 }]
        }
    }

    /// The hold that lets both the old and the new chains settle.
    pub open spec fn change_hold(self, next: RestSupport) -> Seq<BaseItem> {
        let settle = if self.rest.after_motion >= next.after_motion {
            self.rest.after_motion
        } else {
            next.after_motion
        };
        if self.has_motion_history && settle > self.no_time {
            seq![BaseItem::Hold { duration: settle, source_line: 0 }]
        } else {
            Seq::empty()
        }
    }

    /// The stage after a control token.
    pub open spec fn after_control(self, control: Control) -> Self {
        match control {
            Control::Dwell | Control::Dispatch => self,
            Control::Reset { axes } => Lowerer {
                axes,
                rest_hold_pending: true,
                has_motion_history: false,
                ..self
            },
            Control::SetAxisChains { rest } => Lowerer { rest, ..self },
            Control::SetMesh { present } => Lowerer { has_mesh: present, ..self },
        }
    }

    /// The hold that goes out ahead of what the input itself gives.
    pub open spec fn hold_ahead(self, input: StageInput) -> Seq<BaseItem> {
        match input {
            StageInput::Move { source_line } => self.lead_hold(source_line),
            StageInput::Drain => self.settle_hold(),
            StageInput::Control(Control::SetAxisChains { rest }) => self.change_hold(rest),
            StageInput::Control(_) => Seq::empty(),
        }
    }

    /// The stage where the hold ahead of an input was refused downstream, so that the
    /// input itself is given up: the hold does not come up again for a move, and a drain
    /// or a change of the chains has not happened.
    pub fn hold_refused(&mut self, input: StageInput)
        requires
            old(self).hold_ahead(input).len() > 0,
        ensures
            *final(self) == match input {
                StageInput::Move { .. } => Lowerer { rest_hold_pending: false, ..*old(self) },
                _ => *old(self),
            },
    {
        match input {
            StageInput::Move { .. } => {
                self.rest_hold_pending = false;
            },
            _ => {},
        }
    }

    /// Takes a planned move: the hold that must come before it, then its segment. The
    /// odometer counts `odometer_axes` axes once it has advanced over the move.
    pub fn emit_move<F: FnOnce() -> bool>(
        &mut self,
        planned: &PlannedMove,
        odometer_axes: usize,
        spread_is_zero: F,
        out: &mut Vec<BaseItem>,
    )
        requires
            forall|i: int|
                0 <= i < planned.followers@.len() ==> #[trigger] planned.followers@[i] < usize::MAX,
            call_requires(spread_is_zero, ()),
        ensures
            *final(self) == (Lowerer {
                rest_hold_pending: false,
                has_motion_history: true,
                axes: odometer_axes,
                ..*old(self)
            }),
            ({
                let lead = old(self).lead_hold(planned.source_line);
                &&& final(out)@.len() == old(out)@.len() + lead.len() + 1
                &&& final(out)@.drop_last() == old(out)@ + lead
                &&& final(out)@.last() matches BaseItem::Segment(segment) && {
                    &&& is_segment(
                        segment,
                        *planned,
                        segment.surface,
                        old(self).axes as int,
                        old(self).rest_limit,
                    )
                    &&& segment.surface is Flat <==> !old(self).has_mesh
                    &&& segment.surface is ConstantAtRest <==> old(self).has_mesh
                        && !planned.has_path
                    &&& segment.surface is ConstantAtPathStart ==> call_ensures(
                        spread_is_zero,
                        (),
                        true,
                    )
                    &&& segment.surface is Variable ==> call_ensures(spread_is_zero, (), false)
                }
            }),
    {
        let ghost before = out@;
        let ghost lead = self.lead_hold(planned.source_line);
        if self.rest_hold_pending && self.rest.before_motion > self.no_time {
            out.push(
                BaseItem::Hold {
                    duration: self.rest.before_motion,
                    source_line: planned.source_line,
                },
            );
        }
        assert(out@ =~= before + lead);
        self.rest_hold_pending = false;
        let surface: SurfaceMode = classify_surface(
            self.has_mesh,
            planned.has_path,
            spread_is_zero,
        );
        let count: usize = count_axes(&planned.followers, self.axes);
        let mut axes: Vec<AxisPlan> = Vec::new();
        let mut axis: usize = 0;
        while axis < count
            invariant
                axis <= count,
                axes@ == Seq::new(
                    axis as nat,
                    |axis: int| axis_plan(planned.has_path, surface, axis),
                ),
            decreases count - axis,
        {
            let under_mesh: bool = match surface {
                SurfaceMode::Flat => false,
                _ => true,
            };
            if axis < SPATIAL_AXES && !planned.has_path {
                axes.push(AxisPlan::Hold { lifted: axis == 2 && under_mesh });
            } else {
                axes.push(AxisPlan::Analytic);
            }
            assert(axes@ =~= Seq::new(
                (axis + 1) as nat,
                |axis: int| axis_plan(planned.has_path, surface, axis),
            ));
            axis += 1;
        }
        self.has_motion_history = true;
        let ghost own_axes = self.axes;
        self.axes = odometer_axes;
        let segment = SegmentPlan {
            axes,
            surface,
            spatial_path: planned.has_path,
            source_line: planned.source_line,
            rest_at_end: planned.exit_v <= self.rest_limit,
        };
        assert(is_segment(segment, *planned, surface, own_axes as int, self.rest_limit));
        out.push(BaseItem::Segment(segment));
        assert(out@.drop_last() =~= before + lead);
    }

    /// Takes a drain: the motion settles, and the next move is preceded by a hold again.
    pub fn drain(&mut self, out: &mut Vec<BaseItem>)
        ensures
            *final(self) == (Lowerer { rest_hold_pending: true, ..*old(self) }),
            final(out)@ == old(out)@ + old(self).settle_hold().push(BaseItem::Drain),
    {
        let ghost before = out@;
        if !(self.rest_hold_pending || !self.has_motion_history || self.rest.after_motion
            <= self.no_time) {
            out.push(BaseItem::Hold { duration: self.rest.after_motion, source_line: 0 });
        }
        assert(out@ =~= before + self.settle_hold());
        let ghost hold = self.settle_hold();
        self.rest_hold_pending = true;
        out.push(BaseItem::Drain);
        assert(out@ =~= before + hold.push(BaseItem::Drain));
    }

    /// Takes a control token. Changing the axis chains first lets the motion settle
    /// under both the old and the new ones.
    pub fn control(&mut self, control: Control, out: &mut Vec<BaseItem>)
        ensures
            *final(self) == old(self).after_control(control),
            final(out)@ == old(out)@ + (match control {
                Control::SetAxisChains { rest } => old(self).change_hold(rest),
                _ => Seq::empty(),
            }).push(BaseItem::Control),
    {
        let ghost before = out@;
        let ghost held = match control {
            Control::SetAxisChains { rest } => self.change_hold(rest),
            _ => Seq::empty(),
        };
        match control {
            Control::Dwell | Control::Dispatch => {},
            Control::Reset { axes } => {
                self.axes = axes;
                self.rest_hold_pending = true;
                self.has_motion_history = false;
            },
            Control::SetAxisChains { rest } => {
                let settle: i64 = if self.rest.after_motion >= rest.after_motion {
                    self.rest.after_motion
                } else {
                    rest.after_motion
                };
                if self.has_motion_history && settle > self.no_time {
                    out.push(BaseItem::Hold { duration: settle, source_line: 0 });
                }
                self.rest = rest;
            },
            Control::SetMesh { present } => {
                self.has_mesh = present;
            },
        }
        assert(out@ =~= before + held);
        out.push(BaseItem::Control);
        assert(out@ =~= before + held.push(BaseItem::Control));
    }
}

// ----- Laws

/// A segment covers every axis that the odometer counts and that a follower moves.
pub proof fn law_segment_covers_every_axis(followers: Seq<usize>, odometer_axes: int, i: int)
    requires
        0 <= i < followers.len(),
    ensures
        axis_count(followers, odometer_axes) > followers[i],
        axis_count(followers, odometer_axes) >= odometer_axes,
        axis_count(followers, odometer_axes) >= SPATIAL_AXES,
    decreases followers.len(),
{
    lemma_axis_count_at_least(followers, odometer_axes);
    if i < followers.len() - 1 {
        law_segment_covers_every_axis(followers.drop_last(), odometer_axes, i);
    }
}

proof fn lemma_axis_count_at_least(followers: Seq<usize>, odometer_axes: int)
    ensures
        axis_count(followers, odometer_axes) >= odometer_axes,
        axis_count(followers, odometer_axes) >= SPATIAL_AXES,
    decreases followers.len(),
{
    if followers.len() > 0 {
        lemma_axis_count_at_least(followers.drop_last(), odometer_axes);
    }
}

/// A second drain right after the first settles nothing again, and the move after a
/// drain is preceded by a hold, as the first one is.
pub proof fn law_drain_settles_once(lowerer: Lowerer, source_line: u32)
    ensures
        ({
            let drained = Lowerer { rest_hold_pending: true, ..lowerer };
            &&& drained.settle_hold().len() == 0
            &&& lowerer.rest.before_motion > lowerer.no_time ==> drained.lead_hold(source_line).len() == 1
        }),
{
}

/// After a reset nothing is left to settle.
pub proof fn law_reset_leaves_nothing_to_settle(lowerer: Lowerer, axes: usize, next: RestSupport)
    ensures
        ({
            let reset = lowerer.after_control(Control::Reset { axes });
            &&& reset.settle_hold().len() == 0
            &&& reset.change_hold(next).len() == 0
        }),
{
}

/// A move's segment is marked as coming to rest exactly where the move's exit speed does not
/// lie above the rest limit; and it is the move's own: its line, its path, and under a mesh
/// the mesh's offset.
pub proof fn law_only_a_move_that_stops_is_marked_at_rest(
    segment: SegmentPlan,
    m: PlannedMove,
    surface: SurfaceMode,
    odometer_axes: int,
    rest_limit: i64,
)
    requires
        is_segment(segment, m, surface, odometer_axes, rest_limit),
    ensures
        m.exit_v > rest_limit ==> !segment.rest_at_end,
        m.exit_v <= rest_limit ==> segment.rest_at_end,
        segment.source_line == m.source_line,
        segment.spatial_path == m.has_path,
        segment.surface == surface,
{
}

/// A segment has the spatial axes, every axis that the odometer counts and every follower's,
/// and no axis beyond those. The spatial axes of a move without a path stand still, the
/// height lifted where there is a mesh; every other axis is driven.
pub proof fn law_axes_stand_still_only_without_a_path(
    segment: SegmentPlan,
    m: PlannedMove,
    surface: SurfaceMode,
    odometer_axes: int,
    rest_limit: i64,
    axis: int,
)
    requires
        is_segment(segment, m, surface, odometer_axes, rest_limit),
        0 <= axis,
    ensures
        axis < segment.axes@.len() <==> {
            ||| axis < 3
            ||| axis < odometer_axes
            ||| exists|i: int| 0 <= i < m.followers@.len() && axis <= #[trigger] m.followers@[i]
        },
        axis < segment.axes@.len() ==> {
            &&& segment.axes@[axis] is Hold <==> axis < 3 && !m.has_path
            &&& segment.axes@[axis] matches AxisPlan::Hold { lifted } ==> (lifted <==> axis == 2
                && surface != SurfaceMode::Flat)
        },
{
    lemma_axis_count_is_reached(m.followers@, odometer_axes, axis);
}

proof fn lemma_axis_count_is_reached(followers: Seq<usize>, odometer_axes: int, axis: int)
    requires
        0 <= axis,
    ensures
        axis < axis_count(followers, odometer_axes) <==> {
            ||| axis < 3
            ||| axis < odometer_axes
            ||| exists|i: int| 0 <= i < followers.len() && axis <= #[trigger] followers[i]
        },
        axis_count(followers, odometer_axes) >= 3,
    decreases followers.len(),
{
    if followers.len() > 0 {
        let fewer = followers.drop_last();
        lemma_axis_count_is_reached(fewer, odometer_axes, axis);
        if exists|i: int| 0 <= i < fewer.len() && axis <= #[trigger] fewer[i] {
            let i = choose|i: int| 0 <= i < fewer.len() && axis <= #[trigger] fewer[i];
            assert(followers[i] == fewer[i]);
        }
        if exists|i: int| 0 <= i < followers.len() && axis <= #[trigger] followers[i] {
            let i = choose|i: int| 0 <= i < followers.len() && axis <= #[trigger] followers[i];
            if i < fewer.len() {
                assert(fewer[i] == followers[i]);
            }
        }
        if axis <= followers.last() {
            assert(axis <= followers[followers.len() - 1]);
        }
    }
}

/// The hold before a move lasts as long as the chains need before motion, and belongs to the
/// move's line. It comes only where the stage is at rest and the chains need any time.
pub proof fn law_hold_before_motion_lasts_as_the_chains_need(lowerer: Lowerer, source_line: u32)
    ensures
        ({
            let hold = lowerer.lead_hold(source_line);
            let due = lowerer.rest_hold_pending && lowerer.rest.before_motion > lowerer.no_time;
            &&& hold.len() <= 1
            &&& hold.len() == 1 <==> due
            &&& due ==> hold[0] == (BaseItem::Hold {
                duration: lowerer.rest.before_motion,
                source_line,
            })
        }),
{
}

/// The hold behind a motion lasts as long as the chains need after motion, and comes once,
/// where there was motion since the last one and the chains need any time.
pub proof fn law_motion_settles_as_long_as_the_chains_need(lowerer: Lowerer)
    ensures
        ({
            let hold = lowerer.settle_hold();
            let due = !lowerer.rest_hold_pending && lowerer.has_motion_history
                && lowerer.rest.after_motion > lowerer.no_time;
            &&& hold.len() <= 1
            &&& hold.len() == 1 <==> due
            &&& due ==> hold[0] == (BaseItem::Hold {
                duration: lowerer.rest.after_motion,
                source_line: 0,
            })
        }),
{
}

/// A change of the chains lets motion settle under the old ones and under the new ones: the
/// hold lasts as long as the one of them that needs longer, and no longer.
pub proof fn law_change_of_chains_settles_under_both(lowerer: Lowerer, next: RestSupport)
    ensures
        ({
            let hold = lowerer.change_hold(next);
            let needed = lowerer.rest.after_motion > lowerer.no_time || next.after_motion
                > lowerer.no_time;
            &&& hold.len() <= 1
            &&& hold.len() == 1 <==> lowerer.has_motion_history && needed
            &&& hold.len() == 1 ==> {
                let duration = hold[0]->Hold_duration;
                &&& hold[0] is Hold
                &&& duration >= lowerer.rest.after_motion
                &&& duration >= next.after_motion
                &&& duration == lowerer.rest.after_motion || duration == next.after_motion
                &&& hold[0]->Hold_source_line == 0
            }
        }),
{
}

/// A control token changes what it names and nothing else: a reset the axes and the motion
/// before it, new chains the rest they need, a mesh whether there is one.
pub proof fn law_control_changes_what_it_names(lowerer: Lowerer, control: Control)
    ensures
        ({
            let after = lowerer.after_control(control);
            &&& after.no_time == lowerer.no_time && after.rest_limit == lowerer.rest_limit
            &&& control is Dwell || control is Dispatch ==> after == lowerer
            &&& control matches Control::SetAxisChains { rest } ==> after.rest == rest
            &&& !(control is SetAxisChains) ==> after.rest == lowerer.rest
            &&& control matches Control::SetMesh { present } ==> after.has_mesh == present
            &&& !(control is SetMesh) ==> after.has_mesh == lowerer.has_mesh
            &&& control matches Control::Reset { axes } ==> after.axes == axes
                && after.rest_hold_pending && !after.has_motion_history
            &&& !(control is Reset) ==> after.axes == lowerer.axes && after.rest_hold_pending
                == lowerer.rest_hold_pending && after.has_motion_history
                == lowerer.has_motion_history
        }),
{
}

/// The hold ahead of an input is the one its kind asks for: before motion ahead of a move,
/// after motion ahead of a drain, under both chains ahead of new ones, none ahead of any
/// other token.
pub proof fn law_hold_ahead_is_of_the_inputs_kind(lowerer: Lowerer, input: StageInput)
    ensures
        ({
            let hold = lowerer.hold_ahead(input);
            &&& hold.len() <= 1
            &&& hold.len() == 1 ==> hold[0] is Hold
            &&& hold.len() == 1 && input is Move ==> hold[0]->Hold_duration
                == lowerer.rest.before_motion && hold[0]->Hold_source_line
                == input->Move_source_line
            &&& hold.len() == 1 && input is Drain ==> hold[0]->Hold_duration
                == lowerer.rest.after_motion
            &&& input matches StageInput::Control(control) ==> (hold.len() == 1
                ==> control is SetAxisChains)
            &&& input matches StageInput::Control(Control::SetAxisChains { rest }) ==> (hold.len()
                == 1 ==> hold[0]->Hold_duration >= rest.after_motion)
        }),
{
}

/// A move leaves the stage as one segment, behind the hold that is due before motion; what
/// had left before stays. The segment tells of the move itself: its line, whether it has a
/// path, and that it ends at rest exactly where it is left no faster than rest. Its axes
/// stand still only where they are spatial and there is no path, and only the third is
/// lifted by a mesh.
pub proof fn law_emitted_segment_tells_of_its_move<F: FnOnce() -> bool>(
    lowerer: &mut Lowerer,
    planned: &PlannedMove,
    odometer_axes: usize,
    spread_is_zero: F,
    out: &mut Vec<BaseItem>,
    axis: int,
)
    requires
        call_ensures(
            Lowerer::emit_move::<F>,
            (lowerer, planned, odometer_axes, spread_is_zero, out),
            (),
        ),
    ensures
        final(out)@.last() is Segment,
        ({
            let segment = final(out)@.last()->Segment_0;
            let held = old(lowerer).rest_hold_pending && old(lowerer).rest.before_motion > old(lowerer).no_time;
            &&& final(out)@.len() == old(out)@.len() + if held {
                2int
            } else {
                1int
            }
            &&& held ==> final(out)@[old(out)@.len() as int] == (BaseItem::Hold {
                duration: old(lowerer).rest.before_motion,
                source_line: planned.source_line,
            })
            &&& segment.source_line == planned.source_line
            &&& segment.spatial_path == planned.has_path
            &&& segment.rest_at_end <==> planned.exit_v <= old(lowerer).rest_limit
            &&& segment.axes@.len() >= 3
            &&& segment.axes@.len() >= old(lowerer).axes
            &&& 0 <= axis < segment.axes@.len() ==> (segment.axes@[axis] is Hold <==> axis < 3
                && !planned.has_path)
            &&& 0 <= axis < segment.axes@.len() && segment.axes@[axis] is Hold ==> (
            segment.axes@[axis]->lifted <==> axis == 2 && old(lowerer).has_mesh)
            &&& 0 <= axis < planned.followers@.len() ==> planned.followers@[axis]
                < segment.axes@.len()
            &&& !old(lowerer).has_mesh ==> segment.surface is Flat
            &&& old(lowerer).has_mesh && !planned.has_path ==> segment.surface is ConstantAtRest
            &&& segment.surface is Variable ==> call_ensures(spread_is_zero, (), false)
            &&& segment.surface is ConstantAtPathStart ==> call_ensures(spread_is_zero, (), true)
        }),
        forall|i: int| 0 <= i < old(out)@.len() ==> #[trigger] final(out)@[i] == old(out)@[i],
        !final(lowerer).rest_hold_pending,
        final(lowerer).has_motion_history,
        final(lowerer).axes == odometer_axes,
        final(lowerer).rest == old(lowerer).rest,
        final(lowerer).has_mesh == old(lowerer).has_mesh,
        final(lowerer).no_time == old(lowerer).no_time,
        final(lowerer).rest_limit == old(lowerer).rest_limit,
{
    let lead = old(lowerer).lead_hold(planned.source_line);
    let all = final(out)@;
    assert(all.drop_last() == old(out)@ + lead);
    assert forall|i: int| 0 <= i < old(out)@.len() implies #[trigger] final(out)@[i] == old(out)@[i] by {
        assert(all.drop_last()[i] == (old(out)@ + lead)[i]);
    }
    if lead.len() > 0 {
        assert(all.drop_last()[old(out)@.len() as int] == lead[0]);
    }
    lemma_every_follower_is_counted(planned.followers@, old(lowerer).axes as int, axis);
}

proof fn lemma_every_follower_is_counted(followers: Seq<usize>, odometer_axes: int, i: int)
    ensures
        axis_count(followers, odometer_axes) >= 3,
        axis_count(followers, odometer_axes) >= odometer_axes,
        0 <= i < followers.len() ==> followers[i] < axis_count(followers, odometer_axes),
    decreases followers.len(),
{
    if followers.len() > 0 {
        lemma_every_follower_is_counted(followers.drop_last(), odometer_axes, i);
    }
}

/// A drain leaves the stage behind the hold that lets a motion settle, and a control token
/// behind the one that a change of the chains needs; a refused hold only takes back the one
/// before a move. What had left before stays.
pub proof fn law_drains_and_controls_leave_last(
    drained: &mut Lowerer,
    drain_out: &mut Vec<BaseItem>,
    controlled: &mut Lowerer,
    control: Control,
    control_out: &mut Vec<BaseItem>,
    refused: &mut Lowerer,
    input: StageInput,
)
    requires
        old(refused).hold_ahead(input).len() > 0,
        call_ensures(Lowerer::drain, (drained, drain_out), ()),
        call_ensures(Lowerer::control, (controlled, control, control_out), ()),
        call_ensures(Lowerer::hold_refused, (refused, input), ()),
    ensures
        final(drain_out)@.last() is Drain,
        final(drain_out)@.len() == old(drain_out)@.len() + if !old(drained).rest_hold_pending
            && old(drained).has_motion_history && old(drained).rest.after_motion > old(drained).no_time {
            2int
        } else {
            1int
        },
        final(drain_out)@.len() == old(drain_out)@.len() + 2 ==> final(drain_out)@[old(drain_out)@.len() as int] == (BaseItem::Hold {
            duration: old(drained).rest.after_motion,
            source_line: 0,
        }),
        forall|i: int|
            0 <= i < old(drain_out)@.len() ==> #[trigger] final(drain_out)@[i] == old(drain_out)@[i],
        final(drained).rest_hold_pending,
        final(drained).has_motion_history == old(drained).has_motion_history,
        final(drained).rest == old(drained).rest,
        final(drained).axes == old(drained).axes,
        final(control_out)@.last() is Control,
        final(control_out)@.len() <= old(control_out)@.len() + 2,
        final(control_out)@.len() == old(control_out)@.len() + 2 ==> control is SetAxisChains
            && old(controlled).has_motion_history,
        forall|i: int|
            0 <= i < old(control_out)@.len() ==> #[trigger] final(control_out)@[i] == old(control_out)@[i],
        control is Dwell || control is Dispatch ==> *final(controlled) == *old(controlled),
        control matches Control::SetMesh { present } ==> final(controlled).has_mesh == present
            && final(controlled).rest == old(controlled).rest,
        control matches Control::SetAxisChains { rest } ==> final(controlled).rest == rest
            && final(controlled).has_mesh == old(controlled).has_mesh,
        control matches Control::Reset { axes } ==> final(controlled).axes == axes && !final(controlled).has_motion_history && final(controlled).rest_hold_pending,
        !(input is Move) ==> *final(refused) == *old(refused),
        input is Move ==> !final(refused).rest_hold_pending && final(refused).rest == old(refused).rest && final(refused).has_motion_history == old(refused).has_motion_history,
{
}

/// Without a mesh every move is flat; a move without a path is bent where it stands; and a
/// path is bent as a whole only where the correction was said to be the same all over it.
pub proof fn law_surface_is_asked_of_a_path_under_a_mesh<F: FnOnce() -> bool>(
    has_mesh: bool,
    has_path: bool,
    spread_is_zero: F,
    mode: SurfaceMode,
)
    requires
        call_ensures(classify_surface::<F>, (has_mesh, has_path, spread_is_zero), mode),
        forall|answer: bool| #[trigger]
            call_ensures(spread_is_zero, (), answer) ==> answer == call_ensures(
                spread_is_zero,
                (),
                true,
            ),
    ensures
        mode == if !has_mesh {
            SurfaceMode::Flat
        } else if !has_path {
            SurfaceMode::ConstantAtRest
        } else if call_ensures(spread_is_zero, (), true) {
            SurfaceMode::ConstantAtPathStart
        } else {
            SurfaceMode::Variable
        },
{
}

} // verus!
