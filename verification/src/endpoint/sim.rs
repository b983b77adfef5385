//! A simulated drive chain: every slot tracks its commanded target with a constant
//! following error, slides by an uncommanded drift, and reports an injectable torque.
//!
//! The drift is the caller's: it hands in how far each slot has slid, in whole counts.

use vstd::prelude::*;

verus! {

/// The drive error a simulated fault reports.
pub const SIM_DRIVE_ERROR: u16 = 0x8611;

/// The jump, in counts, beyond which a position step is logged: 2 m/s at the 250 us
/// test cycle.
pub const SIM_JUMP_LOG_COUNTS: i64 = 1638;

/// The travel of one rotation, in mm.
pub const SIM_ROTATION_DISTANCE_MM: u32 = 40;

#[derive(Debug)]
pub struct SimDrive {
    pub cycle_ns: u64,
    /// Grid-aligned wake time of the current cycle; the grid the endpoint indexes its
    /// setpoint ring with.
    pub wake_ns: u64,
    /// Sleep to `wake_ns` in each cycle. The stub paces itself so its grid tracks wall
    /// time; tests step the grid explicitly and never sleep.
    pub paced: bool,
    pub targets: Vec<i32>,
    pub following_error: Vec<i32>,
    pub drifted_counts: Vec<i32>,
    pub torque_offsets: Vec<i16>,
    pub velocity_offsets: Vec<i32>,
    pub torques: Vec<i16>,
    /// What enabling the drives results in; nonzero simulates a failed walk.
    pub enable_rc: i32,
    /// Latch a drive error after this many commanded target writes, that is after this
    /// many cycles of played motion.
    pub fault_after_writes: Option<u32>,
    pub writes: u32,
    pub error_code: u16,
}

/// What one slot reports.
#[derive(Debug, Clone, Copy, PartialEq, Eq, Structural)]
pub struct SimTelemetry {
    pub target_position: i32,
    pub position_actual: i32,
    pub following_error: i32,
    pub torque_actual: i16,
    pub torque_offset: i16,
    pub velocity_offset: i32,
}

/// `count` copies of a value.
pub open spec fn copies<T>(value: T, count: nat) -> Seq<T> {
    Seq::new(count, |i: int| value)
}

fn filled<T: Copy>(value: T, count: usize) -> (list: Vec<T>)
    ensures
        list@ == copies(value, count as nat),
{
    let mut list: Vec<T> = Vec::new();
    let mut index: usize = 0;
    while index < count
        invariant
            index <= count,
            list@ == copies(value, index as nat),
        decreases count - index,
    {
        list.push(value);
        assert(list@ =~= copies(value, (index + 1) as nat));
        index += 1;
    }
    list
}

impl SimDrive {
    /// Every slot has its entry in every list, but for the following errors, which are
    /// the caller's.
    pub open spec fn wf(&self) -> bool {
        let slots = self.targets@.len();
        &&& self.drifted_counts@.len() == slots
        &&& self.torque_offsets@.len() == slots
        &&& self.velocity_offsets@.len() == slots
        &&& self.torques@.len() == slots
    }

    /// Drives at rest.
    pub open spec fn at_rest(&self, num_slaves: nat) -> bool {
        &&& self.wf()
        &&& self.targets@ == copies(0i32, num_slaves)
        &&& self.following_error@ == copies(0i32, num_slaves)
        &&& self.drifted_counts@ == copies(0i32, num_slaves)
        &&& self.torque_offsets@ == copies(0i16, num_slaves)
        &&& self.velocity_offsets@ == copies(0i32, num_slaves)
        &&& self.torques@ == copies(0i16, num_slaves)
        &&& self.enable_rc == 0
        &&& self.fault_after_writes is None
        &&& self.writes == 0
        &&& self.error_code == 0
    }

    pub fn new(num_slaves: usize) -> (drive: Self)
        ensures
            drive.at_rest(num_slaves as nat),
            drive.cycle_ns == 0,
            drive.wake_ns == 0,
            !drive.paced,
    {
        SimDrive {
            cycle_ns: 0,
            wake_ns: 0,
            paced: false,
            targets: filled(0i32, num_slaves),
            following_error: filled(0i32, num_slaves),
            drifted_counts: filled(0i32, num_slaves),
            torque_offsets: filled(0i16, num_slaves),
            velocity_offsets: filled(0i32, num_slaves),
            torques: filled(0i16, num_slaves),
            enable_rc: 0,
            fault_after_writes: None,
            writes: 0,
            error_code: 0,
        }
    }

    /// Drives that advance a real grid from `now_ns` on, so the endpoint's grid index
    /// tracks wall time the way a synced bus does.
    pub fn paced(num_slaves: usize, cycle_ns: u64, now_ns: u64) -> (drive: Self)
        ensures
            drive.at_rest(num_slaves as nat),
            drive.cycle_ns == cycle_ns,
            drive.wake_ns == now_ns,
            drive.paced,
    {
        let mut drive = Self::new(num_slaves);
        drive.cycle_ns = cycle_ns;
        drive.wake_ns = now_ns;
        drive.paced = true;
        drive
    }

    /// Lags each slot by its count. Counts beyond the last slot are kept and never read; a
    /// slot without a count cannot be read.
    pub fn with_following_error(self, counts: Vec<i32>) -> (drive: Self)
        ensures
            self.wf() ==> drive.wf(),
            drive == (SimDrive { following_error: counts, ..self }),
    {
        let mut drive = self;
        drive.following_error = counts;
        drive
    }

    /// Sets the torques of as many slots as `torques` has, and no others.
    pub fn with_torques(self, torques: Vec<i16>) -> (drive: Self)
        requires
            self.wf(),
        ensures
            drive.wf(),
            drive == (SimDrive { torques: drive.torques, ..self }),
            drive.torques@ == Seq::new(
                self.torques@.len(),
                |i: int|
                    if i < torques@.len() {
                        torques@[i]
                    } else {
                        self.torques@[i]
                    },
            ),
    {
        let mut drive = self;
        let mut index: usize = 0;
        while index < drive.torques.len() && index < torques.len()
            invariant
                index <= drive.torques@.len(),
                index <= torques@.len(),
                drive == (SimDrive { torques: drive.torques, ..self }),
                drive.torques@.len() == self.torques@.len(),
                forall|i: int| 0 <= i < index ==> drive.torques@[i] == torques@[i],
                forall|i: int|
                    index <= i < drive.torques@.len() ==> drive.torques@[i] == self.torques@[i],
            decreases drive.torques@.len() - index,
        {
            drive.torques[index] = torques[index];
            index += 1;
        }
        assert(drive.torques@ =~= Seq::new(
            self.torques@.len(),
            |i: int|
                if i < torques@.len() {
                    torques@[i]
                } else {
                    self.torques@[i]
                },
        ));
        drive
    }

    pub fn with_enable_rc(self, rc: i32) -> (drive: Self)
        ensures
            drive == (SimDrive { enable_rc: rc, ..self }),
    {
        let mut drive = self;
        drive.enable_rc = rc;
        drive
    }

    pub fn with_fault_after_writes(self, writes: Option<u32>) -> (drive: Self)
        ensures
            drive == (SimDrive { fault_after_writes: writes, ..self }),
    {
        let mut drive = self;
        drive.fault_after_writes = writes;
        drive
    }

    /// Injects a measured torque into every slot.
    pub fn inject_torque(&mut self, torque: i16)
        requires
            old(self).wf(),
        ensures
            final(self).wf(),
            *final(self) == (SimDrive { torques: final(self).torques, ..*old(self) }),
            final(self).torques@ == copies(torque, old(self).torques@.len()),
    {
        let slots: usize = self.torques.len();
        self.torques = filled(torque, slots);
    }

    /// One exchange: the drift is adopted and the grid moves on by a cycle. The answer is
    /// the working counter, three for each slot, and how long to sleep before it.
    pub fn cycle(&mut self, drifted_counts: Vec<i32>, now_ns: u64) -> (exchanged: (i32, u64))
        requires
            old(self).wf(),
            drifted_counts@.len() == old(self).targets@.len(),
            old(self).wake_ns + old(self).cycle_ns <= u64::MAX,
            3 * old(self).targets@.len() <= i32::MAX,
        ensures
            final(self).wf(),
            *final(self) == (SimDrive {
                drifted_counts,
                wake_ns: (old(self).wake_ns + old(self).cycle_ns) as u64,
                ..*old(self)
            }),
            exchanged.0 == 3 * old(self).targets@.len(),
            exchanged.1 == if old(self).paced && final(self).wake_ns > now_ns {
                final(self).wake_ns - now_ns
            } else {
                0
            },
    {
        self.drifted_counts = drifted_counts;
        self.wake_ns = self.wake_ns + self.cycle_ns;
        let sleep_ns: u64 = if self.paced {
            self.wake_ns.saturating_sub(now_ns)
        } else {
            0
        };
        let slots: usize = self.targets.len();
        (3 * (slots as i32), sleep_ns)
    }

    /// Commands a slot. The write that the fault is set for latches the drive error.
    pub fn set_target_position(&mut self, slot: usize, counts: i32)
        requires
            old(self).wf(),
            slot < old(self).targets@.len(),
            old(self).writes < u32::MAX,
        ensures
            final(self).wf(),
            final(self).targets@ == old(self).targets@.update(slot as int, counts),
            final(self).writes == old(self).writes + 1,
            final(self).error_code == if old(self).fault_after_writes == Some(
                final(self).writes,
            ) {
                SIM_DRIVE_ERROR
            } else {
                old(self).error_code
            },
            *final(self) == (SimDrive {
                targets: final(self).targets,
                writes: final(self).writes,
                error_code: final(self).error_code,
                ..*old(self)
            }),
    {
        self.targets[slot] = counts;
        self.writes = self.writes + 1;
        if let Some(limit) = self.fault_after_writes {
            if self.writes == limit {
                self.error_code = SIM_DRIVE_ERROR;
            }
        }
    }

    pub fn set_velocity_offset(&mut self, slot: usize, counts_per_s: i32)
        requires
            old(self).wf(),
            slot < old(self).targets@.len(),
        ensures
            final(self).wf(),
            final(self).velocity_offsets@ == old(self).velocity_offsets@.update(
                slot as int,
                counts_per_s,
            ),
            *final(self) == (SimDrive {
                velocity_offsets: final(self).velocity_offsets,
                ..*old(self)
            }),
    {
        self.velocity_offsets[slot] = counts_per_s;
    }

    pub fn set_torque_offset(&mut self, slot: usize, tenths_pct: i16)
        requires
            old(self).wf(),
            slot < old(self).targets@.len(),
        ensures
            final(self).wf(),
            final(self).torque_offsets@ == old(self).torque_offsets@.update(
                slot as int,
                tenths_pct,
            ),
            *final(self) == (SimDrive { torque_offsets: final(self).torque_offsets, ..*old(self) }),
    {
        self.torque_offsets[slot] = tenths_pct;
    }

    /// Where the slot is: its target less the following error, slid by the drift.
    pub open spec fn spec_position(&self, slot: int) -> int {
        self.targets@[slot] - self.following_error@[slot] + self.drifted_counts@[slot]
    }

    /// The slot's position is one a drive can report.
    pub open spec fn position_fits(&self, slot: int) -> bool {
        &&& i32::MIN <= self.targets@[slot] - self.following_error@[slot] <= i32::MAX
        &&& i32::MIN <= self.spec_position(slot) <= i32::MAX
    }

    pub fn position_actual(&self, slot: usize) -> (counts: i32)
        requires
            self.wf(),
            slot < self.targets@.len(),
            slot < self.following_error@.len(),
            self.position_fits(slot as int),
        ensures
            counts == self.spec_position(slot as int),
    {
        self.targets[slot] - self.following_error[slot] + self.drifted_counts[slot]
    }

    /// The latched drive error, reported once and then cleared: the endpoint parks on the
    /// first nonzero read, and a permanently faulted drive would park it again at every
    /// enable.
    pub fn take_error_code(&mut self) -> (code: u16)
        ensures
            code == old(self).error_code,
            *final(self) == (SimDrive { error_code: 0, ..*old(self) }),
    {
        let code: u16 = self.error_code;
        self.error_code = 0;
        code
    }

    pub fn telemetry(&self, slot: usize) -> (telemetry: SimTelemetry)
        requires
            self.wf(),
            slot < self.targets@.len(),
            slot < self.following_error@.len(),
            self.position_fits(slot as int),
        ensures
            telemetry == (SimTelemetry {
                target_position: self.targets@[slot as int],
                position_actual: self.spec_position(slot as int) as i32,
                following_error: self.following_error@[slot as int],
                torque_actual: self.torques@[slot as int],
                torque_offset: self.torque_offsets@[slot as int],
                velocity_offset: self.velocity_offsets@[slot as int],
            }),
    {
        SimTelemetry {
            target_position: self.targets[slot],
            position_actual: self.position_actual(slot),
            following_error: self.following_error[slot],
            torque_actual: self.torques[slot],
            torque_offset: self.torque_offsets[slot],
            velocity_offset: self.velocity_offsets[slot],
        }
    }
}

/// Everything a simulated endpoint needs that is not derivable. The control socket and
/// the live tap are the caller's.
#[derive(Debug)]
pub struct SimConfig<C> {
    /// Axis each slot follows. A lane run must name a slot that follows the axis it
    /// claims, so this is the endpoint's topology.
    pub slave_axes: Vec<u8>,
    pub counts_per_mm: Vec<C>,
    pub cycle_ns: i64,
    /// Cycles between telemetry beats; `u64::MAX` silences them.
    pub telemetry_period: u64,
}

/// What the endpoint counts and remembers from one cycle to the next.
#[derive(Debug, Clone, Copy, PartialEq, Eq, Structural)]
pub struct CycleState {
    pub group_delay_ns: i64,
    pub last_grid_index: u64,
    pub last_grid_clock: u64,
    pub last_sent_retired: u32,
    pub heartbeat_sent: bool,
    pub cycle_index: u64,
    pub prdiv: u32,
    pub ff_saturation: u32,
    pub wkc_consecutive: u32,
    pub latched_drive_err: u16,
    pub late_tolerance_ns: Option<i64>,
    pub timing_armed: bool,
    pub baseline_reanchor_count: u64,
    pub late_frames: u32,
    pub late_max_ns: i64,
    pub skip_count_policed: u64,
    pub late_frames_total: u64,
    pub last_lateness_ns: i64,
    pub last_dispatch_ns: i64,
    pub last_pre_work_ns: i64,
    pub prev_exchange_ns: i64,
    pub last_nivcsw: u64,
}

impl CycleState {
    /// Nothing has been exchanged yet: every count is zero, nothing is armed or
    /// latched, and no frame has been late.
    pub open spec fn fresh() -> CycleState {
        CycleState {
            group_delay_ns: 0,
            last_grid_index: 0,
            last_grid_clock: 0,
            last_sent_retired: 0,
            heartbeat_sent: false,
            cycle_index: 0,
            prdiv: 0,
            ff_saturation: 0,
            wkc_consecutive: 0,
            latched_drive_err: 0,
            late_tolerance_ns: None,
            timing_armed: false,
            baseline_reanchor_count: 0,
            late_frames: 0,
            late_max_ns: i64::MIN,
            skip_count_policed: 0,
            late_frames_total: 0,
            last_lateness_ns: 0,
            last_dispatch_ns: 0,
            last_pre_work_ns: 0,
            prev_exchange_ns: 0,
            last_nivcsw: 0,
        }
    }

    fn start() -> (state: CycleState)
        ensures
            state == CycleState::fresh(),
    {
        CycleState {
            group_delay_ns: 0,
            last_grid_index: 0,
            last_grid_clock: 0,
            last_sent_retired: 0,
            heartbeat_sent: false,
            cycle_index: 0,
            prdiv: 0,
            ff_saturation: 0,
            wkc_consecutive: 0,
            latched_drive_err: 0,
            late_tolerance_ns: None,
            timing_armed: false,
            baseline_reanchor_count: 0,
            late_frames: 0,
            late_max_ns: i64::MIN,
            skip_count_policed: 0,
            late_frames_total: 0,
            last_lateness_ns: 0,
            last_dispatch_ns: 0,
            last_pre_work_ns: 0,
            prev_exchange_ns: 0,
            last_nivcsw: 0,
        }
    }
}

/// The plain state of an endpoint over its drive chain; each list has one entry per
/// slot.
#[derive(Debug)]
pub struct EndpointCtx<C, D> {
    pub drive: D,
    pub num_slaves: usize,
    pub counts_per_mm: Vec<C>,
    pub invert: Vec<bool>,
    pub cmd_counts_per_mm: Vec<C>,
    pub rotation_distance_mm: Vec<u32>,
    pub slave_axes: Vec<u8>,
    pub velocity_ff: Vec<bool>,
    pub torque_clamp_tenths: Vec<i16>,
    pub jump_log_counts: Vec<i64>,
    pub cycle_ns: i64,
    pub telemetry_period: u64,
    pub drive_dirs: Vec<i8>,
    pub run_limits: Vec<(u64, u64)>,
    pub ring_origin: Vec<Option<u64>>,
    pub last_counts: Vec<Option<i32>>,
    pub last_written_offset: Vec<i32>,
    pub report_anchor: Vec<Option<i64>>,
    pub last_streamed_target: Vec<Option<i32>>,
    pub suppressed: Vec<bool>,
    /// The slots the live tap shows: all of them, in order.
    pub tap_slots: Vec<u8>,
    pub capture_slots: Vec<u8>,
    pub cycles: CycleState,
}

impl<C, D> EndpointCtx<C, D> {
    /// The endpoint as it starts: what the configuration gives, the test bench's
    /// rotation distance and jump bound, nothing inverted, fed forward, clamped,
    /// suppressed, anchored or captured, and every slot tapped.
    pub open spec fn starts(self, cfg: SimConfig<C>, drive: D) -> bool {
        let slots = cfg.slave_axes@.len();
        &&& self.drive == drive
        &&& self.num_slaves == slots
        &&& self.slave_axes@ == cfg.slave_axes@
        &&& self.counts_per_mm@ == cfg.counts_per_mm@
        &&& self.cmd_counts_per_mm@ == cfg.counts_per_mm@
        &&& self.cycle_ns == cfg.cycle_ns
        &&& self.telemetry_period == cfg.telemetry_period
        &&& self.rotation_distance_mm@ == copies(SIM_ROTATION_DISTANCE_MM, slots)
        &&& self.jump_log_counts@ == copies(SIM_JUMP_LOG_COUNTS, slots)
        &&& self.invert@ == copies(false, slots)
        &&& self.velocity_ff@ == copies(false, slots)
        &&& self.torque_clamp_tenths@ == copies(0i16, slots)
        &&& self.drive_dirs@ == copies(1i8, slots)
        &&& self.run_limits@ == copies((0u64, 0u64), slots)
        &&& self.ring_origin@ == copies(None::<u64>, slots)
        &&& self.last_counts@ == copies(None::<i32>, slots)
        &&& self.last_written_offset@ == copies(0i32, slots)
        &&& self.report_anchor@ == copies(None::<i64>, slots)
        &&& self.last_streamed_target@ == copies(None::<i32>, slots)
        &&& self.suppressed@ == copies(false, slots)
        &&& self.tap_slots@ == Seq::new((slots % 256) as nat, |i: int| i as u8)
        &&& self.capture_slots@.len() == 0
        &&& self.cycles == CycleState::fresh()
    }
}

fn copied<C: Copy>(list: &Vec<C>) -> (copy: Vec<C>)
    ensures
        copy@ == list@,
{
    let mut copy: Vec<C> = Vec::new();
    let mut index: usize = 0;
    while index < list.len()
        invariant
            index <= list@.len(),
            copy@ == list@.take(index as int),
        decreases list@.len() - index,
    {
        copy.push(list[index]);
        assert(copy@ =~= list@.take(index + 1));
        index += 1;
    }
    assert(list@.take(index as int) =~= list@);
    copy
}

/// The slot numbers the live tap starts with. Slot numbers are bytes, so the count
/// wraps there.
fn tapped_slots(num_slaves: usize) -> (slots: Vec<u8>)
    ensures
        slots@ == Seq::new((num_slaves % 256) as nat, |i: int| i as u8),
{
    let tapped: usize = num_slaves % 256;
    let mut slots: Vec<u8> = Vec::new();
    let mut slot: usize = 0;
    while slot < tapped
        invariant
            slot <= tapped < 256,
            slots@ == Seq::new(slot as nat, |i: int| i as u8),
        decreases tapped - slot,
    {
        slots.push(slot as u8);
        assert(slots@ =~= Seq::new((slot + 1) as nat, |i: int| i as u8));
        slot += 1;
    }
    slots
}

/// The endpoint over a simulated drive chain.
pub fn sim_endpoint<C: Copy>(cfg: SimConfig<C>, drive: SimDrive) -> (ctx: EndpointCtx<C, SimDrive>)
    requires
        cfg.counts_per_mm@.len() == cfg.slave_axes@.len(),
    ensures
        ctx.starts(cfg, drive),
{
    sim_endpoint_with_drive(cfg, drive)
}

/// The endpoint over any drive chain, with one `counts_per_mm` for each slot.
pub fn sim_endpoint_with_drive<C: Copy, D>(cfg: SimConfig<C>, drive: D) -> (ctx: EndpointCtx<C, D>)
    requires
        cfg.counts_per_mm@.len() == cfg.slave_axes@.len(),
    ensures
        ctx.starts(cfg, drive),
{
    let SimConfig { slave_axes, counts_per_mm, cycle_ns, telemetry_period } = cfg;
    let num_slaves: usize = slave_axes.len();
    let cmd_counts_per_mm = copied(&counts_per_mm);
    EndpointCtx {
        drive,
        num_slaves,
        counts_per_mm,
        invert: filled(false, num_slaves),
        cmd_counts_per_mm,
        rotation_distance_mm: filled(SIM_ROTATION_DISTANCE_MM, num_slaves),
        slave_axes,
        velocity_ff: filled(false, num_slaves),
        torque_clamp_tenths: filled(0i16, num_slaves),
        jump_log_counts: filled(SIM_JUMP_LOG_COUNTS, num_slaves),
        cycle_ns,
        telemetry_period,
        drive_dirs: filled(1i8, num_slaves),
        run_limits: filled((0u64, 0u64), num_slaves),
        ring_origin: filled(None, num_slaves),
        last_counts: filled(None, num_slaves),
        last_written_offset: filled(0i32, num_slaves),
        report_anchor: filled(None, num_slaves),
        last_streamed_target: filled(None, num_slaves),
        suppressed: filled(false, num_slaves),
        tap_slots: tapped_slots(num_slaves),
        capture_slots: Vec::new(),
        cycles: CycleState::start(),
    }
}

/// A drive stands behind its target by the following error, and slides with the drift.
pub proof fn law_position_is_behind_the_target(drive: SimDrive, slot: usize, counts: i32)
    requires
        drive.wf(),
        slot < drive.targets@.len(),
        slot < drive.following_error@.len(),
        drive.position_fits(slot as int),
        call_ensures(SimDrive::position_actual, (&drive, slot), counts),
    ensures
        counts + drive.following_error@[slot as int] == drive.targets@[slot as int]
            + drive.drifted_counts@[slot as int],
{
}

/// What a slot reports is its own: its target, position, lag and offsets.
pub proof fn law_telemetry_is_of_its_slot(drive: SimDrive, slot: usize, telemetry: SimTelemetry)
    requires
        drive.wf(),
        slot < drive.targets@.len(),
        slot < drive.following_error@.len(),
        drive.position_fits(slot as int),
        call_ensures(SimDrive::telemetry, (&drive, slot), telemetry),
    ensures
        telemetry.target_position == drive.targets@[slot as int],
        telemetry.position_actual + telemetry.following_error == telemetry.target_position
            + drive.drifted_counts@[slot as int],
        telemetry.following_error == drive.following_error@[slot as int],
        telemetry.torque_actual == drive.torques@[slot as int],
        telemetry.torque_offset == drive.torque_offsets@[slot as int],
        telemetry.velocity_offset == drive.velocity_offsets@[slot as int],
{
}

/// New drives all stand at zero, with no torque, offset or error, and fail nowhere.
pub proof fn law_new_drives_stand_at_zero(num_slaves: usize, drive: SimDrive, slot: int)
    requires
        call_ensures(SimDrive::new, (num_slaves,), drive),
    ensures
        drive.targets@.len() == num_slaves,
        drive.following_error@.len() == num_slaves,
        drive.drifted_counts@.len() == num_slaves,
        drive.torques@.len() == num_slaves,
        drive.torque_offsets@.len() == num_slaves,
        drive.velocity_offsets@.len() == num_slaves,
        0 <= slot < num_slaves ==> {
            &&& drive.targets@[slot] == 0
            &&& drive.following_error@[slot] == 0
            &&& drive.drifted_counts@[slot] == 0
            &&& drive.torques@[slot] == 0
            &&& drive.torque_offsets@[slot] == 0
            &&& drive.velocity_offsets@[slot] == 0
        },
        drive.enable_rc == 0 && drive.writes == 0 && drive.error_code == 0,
        drive.fault_after_writes is None,
        drive.cycle_ns == 0 && drive.wake_ns == 0 && !drive.paced,
{
}

/// The simulated fault reports drive error 0x8611.
pub proof fn law_simulated_fault_has_its_error()
    ensures
        SIM_DRIVE_ERROR == 0x8611,
{
}

/// An endpoint starts with what it was configured with and one entry for each slot in every
/// list: 40 mm to a rotation, jumps logged beyond 1638 counts, every slot turning forwards
/// and tapped, and nothing inverted, fed forward, clamped, limited, anchored, suppressed or
/// captured.
pub proof fn law_endpoint_starts_as_configured<C: Copy>(
    cfg: SimConfig<C>,
    drive: SimDrive,
    ctx: EndpointCtx<C, SimDrive>,
    slot: int,
)
    requires
        cfg.counts_per_mm@.len() == cfg.slave_axes@.len(),
        call_ensures(sim_endpoint::<C>, (cfg, drive), ctx),
    ensures
        ctx.drive == drive,
        ctx.num_slaves == cfg.slave_axes@.len(),
        ctx.slave_axes@ == cfg.slave_axes@,
        ctx.counts_per_mm@ == cfg.counts_per_mm@,
        ctx.cmd_counts_per_mm@ == cfg.counts_per_mm@,
        ctx.cycle_ns == cfg.cycle_ns,
        ctx.telemetry_period == cfg.telemetry_period,
        ctx.tap_slots@.len() == ctx.num_slaves % 256,
        ctx.capture_slots@.len() == 0,
        0 <= slot < ctx.tap_slots@.len() ==> ctx.tap_slots@[slot] == slot,
        0 <= slot < ctx.num_slaves ==> {
            &&& ctx.rotation_distance_mm@[slot] == 40
            &&& ctx.jump_log_counts@[slot] == 1638
            &&& ctx.drive_dirs@[slot] == 1
            &&& !ctx.invert@[slot] && !ctx.velocity_ff@[slot] && !ctx.suppressed@[slot]
            &&& ctx.torque_clamp_tenths@[slot] == 0 && ctx.last_written_offset@[slot] == 0
            &&& ctx.run_limits@[slot] == (0u64, 0u64)
            &&& ctx.ring_origin@[slot] is None && ctx.last_counts@[slot] is None
            &&& ctx.report_anchor@[slot] is None && ctx.last_streamed_target@[slot] is None
        },
        ctx.rotation_distance_mm@.len() == ctx.num_slaves && ctx.jump_log_counts@.len()
            == ctx.num_slaves && ctx.drive_dirs@.len() == ctx.num_slaves && ctx.invert@.len()
            == ctx.num_slaves && ctx.velocity_ff@.len() == ctx.num_slaves && ctx.suppressed@.len()
            == ctx.num_slaves,
        ctx.cycles.cycle_index == 0 && !ctx.cycles.timing_armed && !ctx.cycles.heartbeat_sent
            && ctx.cycles.latched_drive_err == 0 && ctx.cycles.late_tolerance_ns is None,
        ctx.cycles.late_max_ns == i64::MIN,
{
}

/// A drive starts at rest on every slot, without a fault; a paced one starts on its grid.
pub proof fn law_drive_starts_at_rest(
    num_slaves: usize,
    cycle_ns: u64,
    now_ns: u64,
    stepped: SimDrive,
    paced: SimDrive,
    slot: int,
)
    requires
        call_ensures(SimDrive::new, (num_slaves,), stepped),
        call_ensures(SimDrive::paced, (num_slaves, cycle_ns, now_ns), paced),
        0 <= slot < num_slaves,
    ensures
        stepped.targets@.len() == num_slaves && paced.targets@.len() == num_slaves,
        stepped.targets@[slot] == 0 && paced.targets@[slot] == 0,
        stepped.torques@[slot] == 0 && paced.torques@[slot] == 0,
        stepped.following_error@[slot] == 0 && paced.following_error@[slot] == 0,
        stepped.drifted_counts@[slot] == 0 && paced.drifted_counts@[slot] == 0,
        stepped.error_code == 0 && paced.error_code == 0,
        !stepped.paced && stepped.wake_ns == 0,
        paced.paced && paced.wake_ns == now_ns && paced.cycle_ns == cycle_ns,
{
}

/// A cycle wakes one cycle later on the grid, and sleeps until then where it is paced and that
/// lies ahead; every slot answers, and the commands stay.
pub proof fn law_cycle_steps_the_grid(
    drive: &mut SimDrive,
    drifted_counts: Vec<i32>,
    now_ns: u64,
    exchanged: (i32, u64),
)
    requires
        old(drive).wake_ns + old(drive).cycle_ns <= u64::MAX,
        3 * old(drive).targets@.len() <= i32::MAX,
        call_ensures(SimDrive::cycle, (drive, drifted_counts, now_ns), exchanged),
    ensures
        final(drive).wake_ns == old(drive).wake_ns + old(drive).cycle_ns,
        final(drive).targets@ == old(drive).targets@,
        final(drive).drifted_counts@ == drifted_counts@,
        final(drive).torques@ == old(drive).torques@,
        final(drive).writes == old(drive).writes,
        exchanged.0 == 3 * old(drive).targets@.len(),
        exchanged.1 > 0 <==> old(drive).paced && old(drive).wake_ns + old(drive).cycle_ns > now_ns,
        exchanged.1 > 0 ==> now_ns + exchanged.1 == old(drive).wake_ns + old(drive).cycle_ns,
{
}

/// A written target is the slot's own and is counted; the write that the fault is due after
/// raises it. The offsets go to their own slot and are no writes; an injected torque shows on
/// every slot. An error is handed out once.
pub proof fn law_writes_reach_their_own_slot(
    drive: &mut SimDrive,
    slot: usize,
    counts: i32,
    hastened: &mut SimDrive,
    counts_per_s: i32,
    pushed: &mut SimDrive,
    tenths_pct: i16,
    injected: &mut SimDrive,
    asked: &mut SimDrive,
    code: u16,
    other: int,
)
    requires
        slot < old(drive).targets@.len(),
        old(hastened).wf() && slot < old(hastened).targets@.len(),
        old(pushed).wf() && slot < old(pushed).targets@.len(),
        0 <= other && other != slot,
        call_ensures(SimDrive::set_target_position, (drive, slot, counts), ()),
        call_ensures(SimDrive::set_velocity_offset, (hastened, slot, counts_per_s), ()),
        call_ensures(SimDrive::set_torque_offset, (pushed, slot, tenths_pct), ()),
        call_ensures(SimDrive::inject_torque, (injected, tenths_pct), ()),
        call_ensures(SimDrive::take_error_code, (asked,), code),
    ensures
        final(drive).targets@.len() == old(drive).targets@.len(),
        final(drive).targets@[slot as int] == counts,
        other < old(drive).targets@.len() ==> final(drive).targets@[other] == old(drive).targets@[other],
        final(drive).writes == old(drive).writes + 1,
        old(drive).fault_after_writes matches Some(due) ==> due == old(drive).writes + 1 ==> final(drive).error_code == 0x8611,
        old(drive).fault_after_writes != Some((old(drive).writes + 1) as u32) ==> final(drive).error_code == old(drive).error_code,
        final(hastened).velocity_offsets@[slot as int] == counts_per_s,
        other < old(hastened).velocity_offsets@.len() ==> final(hastened).velocity_offsets@[other]
            == old(hastened).velocity_offsets@[other],
        final(hastened).writes == old(hastened).writes,
        final(hastened).targets@ == old(hastened).targets@,
        final(pushed).torque_offsets@[slot as int] == tenths_pct,
        other < old(pushed).torque_offsets@.len() ==> final(pushed).torque_offsets@[other] == old(pushed).torque_offsets@[other],
        final(pushed).torques@ == old(pushed).torques@,
        other < old(injected).torques@.len() ==> final(injected).torques@[other] == tenths_pct,
        final(injected).torques@.len() == old(injected).torques@.len(),
        final(injected).torque_offsets@ == old(injected).torque_offsets@,
        code == old(asked).error_code,
        final(asked).error_code == 0,
        final(asked).writes == old(asked).writes,
{
}

/// A configured drive differs in what was configured alone; torques are taken over slot by
/// slot, as far as they are given.
pub proof fn law_configuration_changes_what_it_names(
    drive: SimDrive,
    counts: Vec<i32>,
    lagging: SimDrive,
    torques: Vec<i16>,
    loaded: SimDrive,
    rc: i32,
    refusing: SimDrive,
    writes: Option<u32>,
    faulting: SimDrive,
    slot: int,
)
    requires
        drive.wf(),
        call_ensures(SimDrive::with_following_error, (drive, counts), lagging),
        call_ensures(SimDrive::with_torques, (drive, torques), loaded),
        call_ensures(SimDrive::with_enable_rc, (drive, rc), refusing),
        call_ensures(SimDrive::with_fault_after_writes, (drive, writes), faulting),
        0 <= slot < drive.torques@.len(),
    ensures
        lagging.following_error@ == counts@ && lagging.targets@ == drive.targets@
            && lagging.torques@ == drive.torques@,
        loaded.torques@.len() == drive.torques@.len(),
        slot < torques@.len() ==> loaded.torques@[slot] == torques@[slot],
        slot >= torques@.len() ==> loaded.torques@[slot] == drive.torques@[slot],
        loaded.targets@ == drive.targets@,
        refusing.enable_rc == rc && refusing.fault_after_writes == drive.fault_after_writes,
        faulting.fault_after_writes == writes && faulting.enable_rc == drive.enable_rc,
        refusing.targets@ == drive.targets@ && faulting.targets@ == drive.targets@,
{
}

} // verus!
