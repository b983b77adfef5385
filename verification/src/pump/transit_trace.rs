//! A bounded trace of the frames sent to the mcus, kept for fault reports.

use std::collections::VecDeque;
use vstd::prelude::*;

verus! {

/// The most frames the trace remembers.
pub const TRACE_CAPACITY: usize = 4096;

/// The frames a fault report carries.
pub const FAULT_TRACE_RECORDS: u64 = 64;

/// The result that stands for a frame the transport itself lost.
pub const TRANSPORT_ERROR_RESULT: i32 = -0x8000_0000;

/// A slot of the reported results that is still free.
pub const FREE_SLOT: i32 = 0x7fff_ffff;

/// One frame on its way to an mcu. Times are nanoseconds since the trace began.
#[derive(Clone, Copy, Debug, PartialEq, Eq, Structural)]
pub struct TransitTraceRecord {
    pub sequence: u64,
    pub mcu_id: u32,
    pub axis: u8,
    pub piece_count: u32,
    pub room: u32,
    pub guard_recorded_ns: u64,
    pub guard_mcu_clock: u64,
    pub send_started_ns: u64,
    pub send_elapsed_ns: u64,
    pub host_front_start_time: u64,
    pub result: i32,
}

/// What a fault report says.
#[derive(Debug)]
pub struct FaultSnapshot {
    pub trigger: &'static str,
    pub fault_result: i32,
    pub records: Vec<TransitTraceRecord>,
}

/// The logical state of a trace.
#[verifier::ext_equal]
pub struct TraceView {
    pub next_sequence: u64,
    pub records: Seq<TransitTraceRecord>,
    pub reported: Seq<i32>,
}

/// The last `limit` elements of `records`, or all of them where there are fewer.
pub open spec fn last_records(
    records: Seq<TransitTraceRecord>,
    limit: int,
) -> Seq<TransitTraceRecord> {
    if limit >= records.len() {
        records
    } else {
        records.skip(records.len() - limit)
    }
}

/// `slot` is the first free one.
pub open spec fn first_free(reported: Seq<i32>, slot: int) -> bool {
    &&& 0 <= slot < reported.len()
    &&& reported[slot] == FREE_SLOT
    &&& forall|i: int| 0 <= i < slot ==> reported[i] != FREE_SLOT
}

impl TraceView {
    pub open spec fn empty() -> TraceView {
        TraceView {
            next_sequence: 0,
            records: Seq::empty(),
            reported: Seq::new(16, |i: int| FREE_SLOT),
        }
    }

    /// The state once `record` is appended under the next sequence number.
    pub open spec fn recorded(self, record: TransitTraceRecord) -> TraceView {
        let numbered = TransitTraceRecord { sequence: self.next_sequence, ..record };
        TraceView {
            next_sequence: if self.next_sequence == u64::MAX {
                0
            } else {
                (self.next_sequence + 1) as u64
            },
            records: if self.records.len() == TRACE_CAPACITY {
                self.records.skip(1).push(numbered)
            } else {
                self.records.push(numbered)
            },
            ..self
        }
    }

    /// `result` is new and there is a slot to remember it by.
    pub open spec fn reports(self, result: i32) -> bool {
        !self.reported.contains(result) && self.reported.contains(FREE_SLOT)
    }
}

#[derive(Debug)]
pub struct TransitTrace {
    next_sequence: u64,
    records: VecDeque<TransitTraceRecord>,
    reported: [i32; 16],
}

impl View for TransitTrace {
    type V = TraceView;

    closed spec fn view(&self) -> TraceView {
        TraceView {
            next_sequence: self.next_sequence,
            records: self.records@,
            reported: self.reported@,
        }
    }
}

pub fn transport_error_result() -> (result: i32)
    ensures
        result == TRANSPORT_ERROR_RESULT,
{
    TRANSPORT_ERROR_RESULT
}

impl TransitTrace {
    /// The trace never outgrows its capacity.
    pub open spec fn wf(&self) -> bool {
        self@.records.len() <= TRACE_CAPACITY && self@.reported.len() == 16
    }

    pub fn new() -> (trace: Self)
        ensures
            trace.wf(),
            trace@ == TraceView::empty(),
    {
        let trace = TransitTrace {
            next_sequence: 0,
            records: VecDeque::new(),
            reported: [FREE_SLOT; 16],
        };
        assert(trace@.reported =~= TraceView::empty().reported);
        trace
    }

    /// Appends a frame, forgetting the oldest once the trace is full.
    pub fn record(&mut self, record: TransitTraceRecord)
        requires
            old(self).wf(),
        ensures
            final(self).wf(),
            final(self)@ == old(self)@.recorded(record),
    {
        let mut numbered = record;
        numbered.sequence = self.next_sequence;
        self.next_sequence = self.next_sequence.wrapping_add(1);
        if self.records.len() == TRACE_CAPACITY {
            self.records.pop_front();
            assert(self.records@ =~= old(self)@.records.skip(1));
        }
        self.records.push_back(numbered);
    }

    /// The last `limit` frames, oldest first.
    pub fn snapshot_last(&self, limit: u64) -> (records: Vec<TransitTraceRecord>)
        ensures
            records@ == last_records(self@.records, limit as int),
    {
        let length: usize = self.records.len();
        let start: usize = if limit >= length as u64 {
            0
        } else {
            length - limit as usize
        };
        let mut records: Vec<TransitTraceRecord> = Vec::new();
        let mut index: usize = start;
        while index < length
            invariant
                start <= index <= length,
                length == self.records@.len(),
                records@ == self.records@.subrange(start as int, index as int),
            decreases length - index,
        {
            records.push(self.records[index]);
            assert(records@ =~= self.records@.subrange(start as int, index + 1));
            index += 1;
        }
        assert(records@ =~= last_records(self@.records, limit as int));
        records
    }

    /// The report of a fault with this result: what to log of it.
    pub fn emit_fault_snapshot(
        &self,
        trigger: &'static str,
        result: i32,
    ) -> (snapshot: FaultSnapshot)
        ensures
            snapshot.trigger@ == trigger@,
            snapshot.fault_result == result,
            snapshot.records@ == last_records(self@.records, FAULT_TRACE_RECORDS as int),
    {
        FaultSnapshot { trigger, fault_result: result, records: self.snapshot_last(FAULT_TRACE_RECORDS) }
    }

    /// The report of a fault whose result was not reported before. Results are
    /// remembered until the slots run out; after that nothing more is reported.
    pub fn emit_result_fault_snapshot(
        &mut self,
        trigger: &'static str,
        result: i32,
    ) -> (snapshot: Option<FaultSnapshot>)
        requires
            old(self).wf(),
        ensures
            final(self).wf(),
            snapshot is Some <==> old(self)@.reports(result),
            snapshot matches Some(report) ==> {
                &&& report.trigger@ == trigger@
                &&& report.fault_result == result
                &&& report.records@ == last_records(
                    old(self)@.records,
                    FAULT_TRACE_RECORDS as int,
                )
            },
            !old(self)@.reports(result) ==> final(self)@ == old(self)@,
            forall|slot: int|
                old(self)@.reports(result) && first_free(old(self)@.reported, slot)
                    ==> final(self)@ == (TraceView {
                    reported: #[trigger] old(self)@.reported.update(slot, result),
                    ..old(self)@
                }),
    {
        let mut free: usize = 16;
        let mut index: usize = 0;
        while index < 16
            invariant
                index <= 16,
                free <= 16,
                self@ == old(self)@,
                old(self).wf(),
                self.reported@.len() == 16,
                forall|i: int| 0 <= i < index ==> self.reported@[i] != result,
                free == 16 ==> forall|i: int| 0 <= i < index ==> self.reported@[i] != FREE_SLOT,
                free < 16 ==> first_free(self.reported@, free as int) && free < index,
            decreases 16 - index,
        {
            let seen: i32 = self.reported[index];
            if seen == result {
                assert(self@.reported[index as int] == result);
                assert(self@.reported.contains(result));
                return None;
            }
            if seen == FREE_SLOT && free == 16 {
                free = index;
            }
            index += 1;
        }
        if free == 16 {
            assert(!self@.reported.contains(FREE_SLOT));
            return None;
        }
        assert(self@.reported[free as int] == FREE_SLOT);
        assert(self@.reported.contains(FREE_SLOT));
        self.reported[free] = result;
        assert(self@.reported =~= old(self)@.reported.update(free as int, result));
        Some(self.emit_fault_snapshot(trigger, result))
    }
}

/// A result is reported at most once: as soon as it is, it is remembered.
pub proof fn law_result_is_reported_once(state: TraceView, result: i32, slot: int)
    requires
        state.reports(result),
        first_free(state.reported, slot),
    ensures
        !(TraceView { reported: state.reported.update(slot, result), ..state }).reports(result),
{
    let after = state.reported.update(slot, result);
    assert(after[slot] == result);
    assert(after.contains(result));
}

/// The trace holds the most recent frames: a recorded frame is the last one, and
/// the frames before it keep their order.
pub proof fn law_trace_keeps_the_most_recent(state: TraceView, record: TransitTraceRecord)
    requires
        state.records.len() <= TRACE_CAPACITY,
    ensures
        state.recorded(record).records.len() <= TRACE_CAPACITY,
        state.recorded(record).records.last() == (TransitTraceRecord {
            sequence: state.next_sequence,
            ..record
        }),
        state.recorded(record).records.drop_last() == last_records(
            state.records,
            TRACE_CAPACITY - 1,
        ),
{
    assert(state.recorded(record).records.drop_last() =~= last_records(
        state.records,
        TRACE_CAPACITY - 1,
    ));
}

/// A snapshot holds the last frames, as many as asked for or as there are, oldest first.
pub proof fn law_snapshot_is_the_end_of_the_trace(
    trace: TransitTrace,
    limit: u64,
    records: Vec<TransitTraceRecord>,
)
    requires
        call_ensures(TransitTrace::snapshot_last, (&trace, limit), records),
    ensures
        records@.len() <= limit,
        records@.len() <= trace@.records.len(),
        records@.len() == limit || records@.len() == trace@.records.len(),
        forall|i: int|
            0 <= i < records@.len() ==> #[trigger] records@[i] == trace@.records[trace@.records.len()
                - records@.len() + i],
{
}

/// A fault report holds the last 64 frames, and its own trigger and result.
pub proof fn law_report_holds_the_last_frames(
    trace: TransitTrace,
    trigger: &'static str,
    result: i32,
    snapshot: FaultSnapshot,
)
    requires
        call_ensures(TransitTrace::emit_fault_snapshot, (&trace, trigger, result), snapshot),
    ensures
        snapshot.trigger@ == trigger@,
        snapshot.fault_result == result,
        snapshot.records@.len() <= 64,
        snapshot.records@.len() == 64 || snapshot.records@.len() == trace@.records.len(),
        forall|i: int|
            0 <= i < snapshot.records@.len() ==> #[trigger] snapshot.records@[i]
                == trace@.records[trace@.records.len() - snapshot.records@.len() + i],
{
}

/// A frame is appended under the next number, which goes round at the counter's width.
/// Up to 4096 frames all others stay where they are; then the oldest leaves.
pub proof fn law_recorded_frame_is_numbered_and_last(
    state: TraceView,
    record: TransitTraceRecord,
    i: int,
)
    requires
        state.records.len() <= 4096,
    ensures
        state.recorded(record).records.last().sequence == state.next_sequence,
        (TransitTraceRecord { sequence: record.sequence, ..state.recorded(record).records.last() })
            == record,
        state.recorded(record).next_sequence == (state.next_sequence + 1)
            % 0x1_0000_0000_0000_0000,
        state.recorded(record).reported == state.reported,
        state.records.len() < 4096 ==> state.recorded(record).records.len() == state.records.len()
            + 1 && (0 <= i < state.records.len() ==> state.recorded(record).records[i]
            == state.records[i]),
        state.records.len() == 4096 ==> state.recorded(record).records.len() == 4096 && (0 <= i
            < 4095 ==> state.recorded(record).records[i] == state.records[i + 1]),
{
}

/// A result is reported exactly while it is not among the remembered ones and a slot is
/// still free; a new trace has all sixteen slots free and no frames, and numbers from zero.
pub proof fn law_unseen_results_are_reported_while_there_is_room(
    state: TraceView,
    result: i32,
    fresh: TransitTrace,
)
    requires
        call_ensures(TransitTrace::new, (), fresh),
    ensures
        state.reports(result) <==> (forall|i: int|
            0 <= i < state.reported.len() ==> state.reported[i] != result) && (exists|i: int|
            0 <= i < state.reported.len() && state.reported[i] == i32::MAX),
        fresh@.reported.len() == 16,
        forall|i: int| 0 <= i < 16 ==> fresh@.reported[i] == i32::MAX,
        fresh@.records.len() == 0,
        fresh@.next_sequence == 0,
{
    if state.reports(result) {
        let i = choose|i: int| 0 <= i < state.reported.len() && state.reported[i] == FREE_SLOT;
        assert(state.reported[i] == i32::MAX);
        assert forall|j: int| 0 <= j < state.reported.len() implies state.reported[j] != result by {
            if state.reported[j] == result {
                assert(state.reported.contains(result));
            }
        }
    }
    if exists|i: int| 0 <= i < state.reported.len() && state.reported[i] == i32::MAX {
        let i = choose|i: int| 0 <= i < state.reported.len() && state.reported[i] == i32::MAX;
        assert(state.reported[i] == FREE_SLOT);
        assert(state.reported.contains(FREE_SLOT));
    }
}

/// A frame that the transport lost is told by the least result there is.
pub proof fn law_lost_frame_has_the_least_result(result: i32, other: i32)
    requires
        call_ensures(transport_error_result, (), result),
    ensures
        result <= other,
{
}

/// A recorded frame is the last of the trace, under the next number and else as it was. The
/// frames before it stay, but for the oldest one where 4096 are held already.
pub proof fn law_recording_appends_the_frame(
    trace: &mut TransitTrace,
    record: TransitTraceRecord,
)
    requires
        old(trace).wf(),
        call_ensures(TransitTrace::record, (trace, record), ()),
    ensures
        final(trace)@.records.len() > 0,
        final(trace)@.records.last() == (TransitTraceRecord {
            sequence: old(trace)@.next_sequence,
            ..record
        }),
        old(trace)@.next_sequence < u64::MAX ==> final(trace)@.next_sequence == old(trace)@.next_sequence + 1,
        final(trace)@.reported == old(trace)@.reported,
        old(trace)@.records.len() < 4096 ==> final(trace)@.records.drop_last() == old(trace)@.records,
        old(trace)@.records.len() == 4096 ==> final(trace)@.records.drop_last() == old(trace)@.records.drop_first(),
{
    let before = old(trace)@.records;
    let numbered = TransitTraceRecord { sequence: old(trace)@.next_sequence, ..record };
    assert(before.push(numbered).drop_last() =~= before);
    assert(before.skip(1).push(numbered).drop_last() =~= before.skip(1));
    if before.len() > 0 {
        assert(before.skip(1) =~= before.drop_first());
    }
}

/// A result is reported with its trigger the first time it is seen, while there is room, and
/// never again; nothing is reported twice.
pub proof fn law_result_snapshot_is_told_once(
    trace: &mut TransitTrace,
    trigger: &'static str,
    result: i32,
    snapshot: Option<FaultSnapshot>,
    slot: int,
)
    requires
        old(trace).wf(),
        call_ensures(
            TransitTrace::emit_result_fault_snapshot,
            (trace, trigger, result),
            snapshot,
        ),
    ensures
        old(trace)@.reported.contains(result) ==> snapshot is None,
        snapshot matches Some(report) ==> report.fault_result == result && report.trigger@
            == trigger@,
        snapshot is None ==> final(trace)@ == old(trace)@,
        snapshot is Some && first_free(old(trace)@.reported, slot) ==> final(trace)@.reported.contains(result) && final(trace)@.records == old(trace)@.records,
{
    if snapshot is Some && first_free(old(trace)@.reported, slot) {
        assert(final(trace)@.reported == old(trace)@.reported.update(slot, result));
        assert(final(trace)@.reported[slot] == result);
    }
}

} // verus!
