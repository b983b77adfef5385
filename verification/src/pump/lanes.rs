//! Per-lane queues and the credit two endpoints of one lane report.
//!
//! A lane is driven by up to two transports. Each keeps its own odometers, so a
//! transport that stands idle cannot take back what the other one has played.

use crate::pump::execution_credit::{Cut, ExecutionCredit, Progress};
use crate::text::{append_decimal, join};
use std::collections::VecDeque;
use vstd::prelude::*;
use vstd::string::*;

verus! {

/// One motor lane of one mcu.
#[derive(Debug, Clone, Copy, PartialEq, Eq, Hash, Structural)]
pub struct AxisKey {
    pub mcu_id: u32,
    pub axis: u8,
}

/// The transport that played a span back.
#[derive(Debug, Clone, Copy, PartialEq, Eq, Structural)]
pub enum RetiredBy {
    Pulse,
    Phase,
}

impl RetiredBy {
    /// The credit source this transport reports as.
    pub open spec fn spec_source(self) -> usize {
        match self {
            RetiredBy::Pulse => 0,
            RetiredBy::Phase => 1,
        }
    }

    pub fn source(self) -> (source: usize)
        ensures
            source == self.spec_source(),
    {
        match self {
            RetiredBy::Pulse => 0,
            RetiredBy::Phase => 1,
        }
    }
}

/// One transport's odometers, as `(consumed, retired)`, around a discard.
#[derive(Debug, Clone, Copy, PartialEq, Eq)]
pub struct CutCredit {
    pub key: AxisKey,
    pub by: RetiredBy,
    pub before: (u32, u32),
    pub after: (u32, u32),
}

impl CutCredit {
    /// The receipt this makes for its lane's credit.
    pub open spec fn spec_receipt(self) -> Cut {
        Cut {
            source: self.by.spec_source(),
            before: Progress { consumed: self.before.0, retired: self.before.1 },
            after: Progress { consumed: self.after.0, retired: self.after.1 },
        }
    }

    pub fn receipt(&self) -> (cut: Cut)
        ensures
            cut == self.spec_receipt(),
    {
        Cut {
            source: self.by.source(),
            before: Progress { consumed: self.before.0, retired: self.before.1 },
            after: Progress { consumed: self.after.0, retired: self.after.1 },
        }
    }
}

/// Absolute odometers of some lanes of one mcu. An endpoint that does not count
/// consumption apart from playback leaves `consumed_counts` out.
#[derive(Debug)]
pub struct HeartbeatMsg {
    pub mcu_id: u32,
    pub axes: Vec<u8>,
    pub consumed_counts: Option<Vec<u32>>,
    pub retired_counts: Vec<u32>,
    pub retired_by: RetiredBy,
}

impl HeartbeatMsg {
    /// How many lanes the message reports in full.
    pub open spec fn reported(self) -> int {
        let paired = if self.axes@.len() <= self.retired_counts@.len() {
            self.axes@.len() as int
        } else {
            self.retired_counts@.len() as int
        };
        match self.consumed_counts {
            Some(consumed) if consumed@.len() < paired => consumed@.len() as int,
            _ => paired,
        }
    }

    pub open spec fn key_at(self, i: int) -> AxisKey {
        AxisKey { mcu_id: self.mcu_id, axis: self.axes@[i] }
    }

    pub open spec fn progress_at(self, i: int) -> Progress {
        Progress {
            consumed: match self.consumed_counts {
                Some(consumed) => consumed@[i],
                None => self.retired_counts@[i],
            },
            retired: self.retired_counts@[i],
        }
    }
}

/// Spans waiting for one lane, and the credit for those already sent.
#[derive(Debug)]
pub struct AxisQueue<S> {
    pub spans: VecDeque<S>,
    pub credit: ExecutionCredit<2>,
    pub ring_depth: u32,
}

impl<S> AxisQueue<S> {
    pub fn new(ring_depth: u32) -> (queue: Self)
        ensures
            queue.spans@ == Seq::<S>::empty(),
            queue.credit@ == crate::pump::execution_credit::CreditView::initial(2),
            queue.ring_depth == ring_depth,
    {
        AxisQueue { spans: VecDeque::new(), credit: ExecutionCredit::new(), ring_depth }
    }

    /// The slots of the lane's ring that hold no unconsumed span.
    pub open spec fn spec_room(self) -> int {
        if self.credit@.awaiting_consumption() <= self.ring_depth {
            self.ring_depth - self.credit@.awaiting_consumption()
        } else {
            0
        }
    }

    pub fn room(&self) -> (room: u32)
        ensures
            room == self.spec_room(),
    {
        self.ring_depth.saturating_sub(self.credit.awaiting_consumption())
    }

    /// Nothing waits and nothing sent is still to be played.
    pub open spec fn spec_idle(self) -> bool {
        self.spans@.len() == 0 && self.credit@.outstanding() == 0
    }

    pub fn is_idle(&self) -> (idle: bool)
        ensures
            idle == self.spec_idle(),
    {
        self.spans.len() == 0 && self.credit.outstanding() == 0
    }
}

/// One lane of the pump.
#[derive(Debug)]
pub struct Lane<S> {
    pub key: AxisKey,
    pub queue: AxisQueue<S>,
    pub halted: bool,
}

/// The logical state of one lane.
#[verifier::ext_equal]
pub struct LaneView<S> {
    pub key: AxisKey,
    pub spans: Seq<S>,
    pub credit: crate::pump::execution_credit::CreditView,
    pub ring_depth: u32,
    pub halted: bool,
}

impl<S> View for Lane<S> {
    type V = LaneView<S>;

    open spec fn view(&self) -> LaneView<S> {
        LaneView {
            key: self.key,
            spans: self.queue.spans@,
            credit: self.queue.credit@,
            ring_depth: self.queue.ring_depth,
            halted: self.halted,
        }
    }
}

impl<S> LaneView<S> {
    /// The lane after one transport's report.
    pub open spec fn observed(self, by: RetiredBy, progress: Progress) -> LaneView<S> {
        LaneView { credit: self.credit.observed(by.spec_source() as int, progress), ..self }
    }

    /// The lane after its queue is discarded against the receipts among `cuts`
    /// that name it.
    pub open spec fn discarded(self, cuts: Seq<CutCredit>) -> LaneView<S> {
        LaneView {
            spans: Seq::empty(),
            credit: self.credit.interrupted(receipts_for(self.key, cuts)),
            ..self
        }
    }

    pub open spec fn idle(self) -> bool {
        self.spans.len() == 0 && self.credit.outstanding() == 0
    }
}

/// The receipts of `cuts` that name `key`, in order.
pub open spec fn receipts_for(key: AxisKey, cuts: Seq<CutCredit>) -> Seq<Cut> {
    cuts.filter(|cut: CutCredit| cut.key == key).map_values(|cut: CutCredit| cut.spec_receipt())
}

/// The views of a sequence of lanes.
pub open spec fn lane_views<S>(lanes: Seq<Lane<S>>) -> Seq<LaneView<S>> {
    lanes.map_values(|lane: Lane<S>| lane@)
}

/// The lanes after the first `count` reports of a heartbeat.
pub open spec fn after_reports<S>(
    lanes: Seq<LaneView<S>>,
    msg: HeartbeatMsg,
    count: int,
) -> Seq<LaneView<S>>
    decreases count,
{
    if count <= 0 {
        lanes
    } else {
        after_reports(lanes, msg, count - 1).map_values(
            |lane: LaneView<S>|
                if lane.key == msg.key_at(count - 1) {
                    lane.observed(msg.retired_by, msg.progress_at(count - 1))
                } else {
                    lane
                },
        )
    }
}

/// The lanes after those in `keys` are discarded, and halted when `halt` is set.
pub open spec fn after_discard<S>(
    lanes: Seq<LaneView<S>>,
    keys: Seq<AxisKey>,
    cuts: Seq<CutCredit>,
    halt: bool,
) -> Seq<LaneView<S>> {
    lanes.map_values(
        |lane: LaneView<S>|
            if keys.contains(lane.key) {
                LaneView { halted: lane.halted || halt, ..lane.discarded(cuts) }
            } else {
                lane
            },
    )
}

/// The lanes after those in `keys` may send again.
pub open spec fn after_resume<S>(lanes: Seq<LaneView<S>>, keys: Seq<AxisKey>) -> Seq<LaneView<S>> {
    lanes.map_values(
        |lane: LaneView<S>|
            if keys.contains(lane.key) {
                LaneView { halted: false, ..lane }
            } else {
                lane
            },
    )
}

/// What the drain ledger shows of one lane.
#[derive(Debug, Clone, Copy, PartialEq, Eq, Structural)]
pub struct LaneStatus {
    pub key: AxisKey,
    pub pending: usize,
    pub pushed: u32,
    pub retired: u32,
    pub outstanding: u32,
}

impl LaneStatus {
    pub open spec fn drained(self) -> bool {
        self.pending == 0 && self.outstanding == 0
    }

    /// The lane's part of a drain report.
    pub open spec fn text(self) -> Seq<char> {
        "mcu"@ + crate::text::decimal(self.key.mcu_id as nat) + " axis"@ + crate::text::decimal(
            self.key.axis as nat,
        ) + ": pending "@ + crate::text::decimal(self.pending as nat) + " pushed "@
            + crate::text::decimal(self.pushed as nat) + " retired "@ + crate::text::decimal(
            self.retired as nat,
        )
    }

    pub fn line(&self) -> (line: String)
        ensures
            line@ == self.text(),
    {
        let mut line = "mcu".to_owned();
        append_decimal(&mut line, self.key.mcu_id as u64);
        line.append(" axis");
        append_decimal(&mut line, self.key.axis as u64);
        line.append(": pending ");
        append_decimal(&mut line, self.pending as u64);
        line.append(" pushed ");
        append_decimal(&mut line, self.pushed as u64);
        line.append(" retired ");
        append_decimal(&mut line, self.retired as u64);
        line
    }
}

/// `status` shows `lane`.
pub open spec fn shows<S>(status: LaneStatus, lane: LaneView<S>) -> bool {
    &&& status.key == lane.key
    &&& status.pending == lane.spans.len()
    &&& status.pushed == lane.credit.totals.pushed
    &&& status.retired == lane.credit.totals.retired
    &&& status.outstanding == lane.credit.outstanding()
}

/// The last published state of every lane.
#[derive(Debug)]
pub struct DrainLedger {
    pub lanes: Vec<LaneStatus>,
}

/// Every published lane has drained.
pub open spec fn all_drained(lanes: Seq<LaneStatus>) -> bool {
    forall|i: int| 0 <= i < lanes.len() ==> (#[trigger] lanes[i]).drained()
}

/// The lanes that have not drained, in order.
pub open spec fn lagging(lanes: Seq<LaneStatus>) -> Seq<LaneStatus> {
    lanes.filter(|lane: LaneStatus| !lane.drained())
}

impl DrainLedger {
    pub fn new() -> (ledger: Self)
        ensures
            ledger.lanes@ == Seq::<LaneStatus>::empty(),
    {
        DrainLedger { lanes: Vec::new() }
    }

    pub fn drained(&self) -> (drained: bool)
        ensures
            drained == all_drained(self.lanes@),
    {
        let mut index: usize = 0;
        while index < self.lanes.len()
            invariant
                index <= self.lanes@.len(),
                forall|i: int| 0 <= i < index ==> (#[trigger] self.lanes@[i]).drained(),
            decreases self.lanes@.len() - index,
        {
            let lane = self.lanes[index];
            if lane.pending != 0 || lane.outstanding != 0 {
                assert(!self.lanes@[index as int].drained());
                return false;
            }
            index += 1;
        }
        true
    }

    /// One line for every lane that has not drained.
    pub fn lagging_axes(&self) -> (lines: Vec<String>)
        ensures
            crate::text::texts(lines@) == lagging(self.lanes@).map_values(
                |lane: LaneStatus| lane.text(),
            ),
    {
        let mut lines: Vec<String> = Vec::new();
        let mut index: usize = 0;
        let ghost lags = |lane: LaneStatus| !lane.drained();
        let ghost as_text = |lane: LaneStatus| lane.text();
        assert(self.lanes@.take(0).filter(lags) =~= Seq::empty());
        while index < self.lanes.len()
            invariant
                index <= self.lanes@.len(),
                lags == (|lane: LaneStatus| !lane.drained()),
                as_text == (|lane: LaneStatus| lane.text()),
                crate::text::texts(lines@) == self.lanes@.take(index as int).filter(
                    lags,
                ).map_values(as_text),
            decreases self.lanes@.len() - index,
        {
            let lane = self.lanes[index];
            let ghost listed = crate::text::texts(lines@);
            assert(self.lanes@.take(index + 1) =~= self.lanes@.take(index as int).push(lane));
            proof {
                self.lanes@.take(index as int).lemma_filter_push(lane, lags);
            }
            if lane.pending != 0 || lane.outstanding != 0 {
                let line = lane.line();
                assert(line@ == as_text(lane));
                lines.push(line);
                assert(crate::text::texts(lines@) =~= listed.push(as_text(lane)));
                assert(self.lanes@.take(index as int).filter(lags).push(lane).map_values(as_text)
                    =~= listed.push(as_text(lane)));
            }
            index += 1;
        }
        assert(self.lanes@.take(index as int) =~= self.lanes@);
        lines
    }

    /// What a wait for the lanes to drain is answered once its time is up.
    pub fn wait_outcome(&self) -> (outcome: Result<(), String>)
        ensures
            outcome is Ok <==> all_drained(self.lanes@),
            outcome matches Err(line) ==> line@ == "motion has not drained: "@
                + crate::text::joined(
                lagging(self.lanes@).map_values(|lane: LaneStatus| lane.text()),
                ", "@,
            ),
    {
        if self.drained() {
            return Ok(());
        }
        let mut line = "motion has not drained: ".to_owned();
        let lines = self.lagging_axes();
        let list = join(&lines, ", ");
        line.append(list.as_str());
        Err(line)
    }
}

/// The lanes of every mcu and what the last publication showed of them.
#[derive(Debug)]
pub struct Pump<S> {
    pub lanes: Vec<Lane<S>>,
    pub ledger: DrainLedger,
}

fn contains_key(keys: &[AxisKey], key: AxisKey) -> (found: bool)
    ensures
        found == keys@.contains(key),
{
    let mut index: usize = 0;
    while index < keys.len()
        invariant
            index <= keys@.len(),
            forall|i: int| 0 <= i < index ==> keys@[i] != key,
        decreases keys@.len() - index,
    {
        if keys[index] == key {
            return true;
        }
        index += 1;
    }
    false
}

fn collect_receipts(key: AxisKey, cuts: &[CutCredit]) -> (receipts: Vec<Cut>)
    ensures
        receipts@ == receipts_for(key, cuts@),
        crate::pump::execution_credit::cuts_in_range(receipts@, 2),
{
    let mut receipts: Vec<Cut> = Vec::new();
    let mut index: usize = 0;
    let ghost named = |cut: CutCredit| cut.key == key;
    let ghost as_cut = |cut: CutCredit| cut.spec_receipt();
    assert(cuts@.take(0).filter(named) =~= Seq::empty());
    while index < cuts.len()
        invariant
            index <= cuts@.len(),
            named == (|cut: CutCredit| cut.key == key),
            as_cut == (|cut: CutCredit| cut.spec_receipt()),
            receipts@ == cuts@.take(index as int).filter(named).map_values(as_cut),
            crate::pump::execution_credit::cuts_in_range(receipts@, 2),
        decreases cuts@.len() - index,
    {
        let cut = cuts[index];
        let ghost sofar = cuts@.take(index as int).filter(named);
        assert(cuts@.take(index + 1) =~= cuts@.take(index as int).push(cut));
        proof {
            cuts@.take(index as int).lemma_filter_push(cut, named);
        }
        if cut.key == key {
            receipts.push(cut.receipt());
            assert(receipts@ =~= sofar.push(cut).map_values(as_cut));
        }
        index += 1;
    }
    assert(cuts@.take(index as int) =~= cuts@);
    receipts
}

impl<S> Pump<S> {
    pub open spec fn view(&self) -> Seq<LaneView<S>> {
        lane_views(self.lanes@)
    }

    /// Credits every lane the message reports; lanes it does not name, or that the
    /// pump does not have, are left alone.
    pub fn heartbeat(&mut self, msg: &HeartbeatMsg)
        ensures
            final(self)@ == after_reports(old(self)@, *msg, msg.reported()),
            final(self).ledger == old(self).ledger,
    {
        let mut reported: usize = msg.axes.len();
        if msg.retired_counts.len() < reported {
            reported = msg.retired_counts.len();
        }
        if let Some(consumed) = &msg.consumed_counts {
            if consumed.len() < reported {
                reported = consumed.len();
            }
        }
        let mut index: usize = 0;
        while index < reported
            invariant
                index <= reported,
                reported == msg.reported(),
                reported <= msg.axes@.len(),
                reported <= msg.retired_counts@.len(),
                msg.consumed_counts matches Some(consumed) ==> reported <= consumed@.len(),
                self@ == after_reports(old(self)@, *msg, index as int),
                self.ledger == old(self).ledger,
            decreases reported - index,
        {
            let key = AxisKey { mcu_id: msg.mcu_id, axis: msg.axes[index] };
            let retired: u32 = msg.retired_counts[index];
            let consumed: u32 = match &msg.consumed_counts {
                Some(consumed) => consumed[index],
                None => retired,
            };
            self.report(key, msg.retired_by, Progress { consumed, retired });
            assert(self@ =~= after_reports(old(self)@, *msg, index + 1));
            index += 1;
        }
    }

    fn report(&mut self, key: AxisKey, by: RetiredBy, progress: Progress)
        ensures
            final(self)@ == old(self)@.map_values(
                |lane: LaneView<S>|
                    if lane.key == key {
                        lane.observed(by, progress)
                    } else {
                        lane
                    },
            ),
            final(self).ledger == old(self).ledger,
    {
        let ghost credited = |lane: LaneView<S>|
            if lane.key == key {
                lane.observed(by, progress)
            } else {
                lane
            };
        let mut index: usize = 0;
        while index < self.lanes.len()
            invariant
                index <= self.lanes@.len(),
                self.ledger == old(self).ledger,
                self.lanes@.len() == old(self).lanes@.len(),
                credited == (|lane: LaneView<S>|
                    if lane.key == key {
                        lane.observed(by, progress)
                    } else {
                        lane
                    }),
                forall|i: int| 0 <= i < index ==> #[trigger] self@[i] == credited(old(self)@[i]),
                forall|i: int|
                    index <= i < self.lanes@.len() ==> #[trigger] self@[i] == old(self)@[i],
            decreases self.lanes@.len() - index,
        {
            let ghost before = self@;
            if self.lanes[index].key == key {
                self.lanes[index].queue.credit.observe(by.source(), progress);
            }
            assert(self@[index as int] == credited(before[index as int]));
            assert(forall|i: int|
                0 <= i < self.lanes@.len() && i != index ==> #[trigger] self@[i] == before[i]);
            index += 1;
        }
        assert(self@ =~= old(self)@.map_values(credited));
    }

    /// Stops the lanes in `keys` and discards their queues against the receipts the
    /// endpoints returned. Naming a lane twice discards it once.
    pub fn halt(&mut self, keys: &[AxisKey], cuts: &[CutCredit])
        ensures
            final(self)@ == after_discard(old(self)@, keys@, cuts@, true),
            final(self).ledger == old(self).ledger,
    {
        self.discard(keys, cuts, true);
    }

    /// Discards the queues of the lanes in `keys` without stopping them.
    pub fn flush(&mut self, keys: &[AxisKey], cuts: &[CutCredit])
        ensures
            final(self)@ == after_discard(old(self)@, keys@, cuts@, false),
            final(self).ledger == old(self).ledger,
    {
        self.discard(keys, cuts, false);
    }

    fn discard(&mut self, keys: &[AxisKey], cuts: &[CutCredit], halt: bool)
        ensures
            final(self)@ == after_discard(old(self)@, keys@, cuts@, halt),
            final(self).ledger == old(self).ledger,
    {
        let ghost target = after_discard(old(self)@, keys@, cuts@, halt);
        let mut index: usize = 0;
        while index < self.lanes.len()
            invariant
                index <= self.lanes@.len(),
                self.ledger == old(self).ledger,
                self.lanes@.len() == old(self).lanes@.len(),
                target == after_discard(old(self)@, keys@, cuts@, halt),
                forall|i: int| 0 <= i < index ==> #[trigger] self@[i] == target[i],
                forall|i: int|
                    index <= i < self.lanes@.len() ==> #[trigger] self@[i] == old(self)@[i],
            decreases self.lanes@.len() - index,
        {
            let ghost before = self@;
            let key = self.lanes[index].key;
            if contains_key(keys, key) {
                let receipts = collect_receipts(key, cuts);
                let halted = self.lanes[index].halted || halt;
                self.lanes[index].queue.spans = VecDeque::new();
                self.lanes[index].queue.credit.interrupt(receipts.as_slice());
                self.lanes[index].halted = halted;
            }
            assert(before[index as int] == old(self)@[index as int]);
            assert(self@[index as int] == target[index as int]);
            assert(forall|i: int|
                0 <= i < self.lanes@.len() && i != index ==> #[trigger] self@[i] == before[i]);
            index += 1;
        }
        assert(self@ =~= target);
    }

    /// Lets the lanes in `keys` send again.
    pub fn resume(&mut self, keys: &[AxisKey])
        ensures
            final(self)@ == after_resume(old(self)@, keys@),
            final(self).ledger == old(self).ledger,
    {
        let ghost target = after_resume(old(self)@, keys@);
        let mut index: usize = 0;
        while index < self.lanes.len()
            invariant
                index <= self.lanes@.len(),
                self.ledger == old(self).ledger,
                self.lanes@.len() == old(self).lanes@.len(),
                target == after_resume(old(self)@, keys@),
                forall|i: int| 0 <= i < index ==> #[trigger] self@[i] == target[i],
                forall|i: int|
                    index <= i < self.lanes@.len() ==> #[trigger] self@[i] == old(self)@[i],
            decreases self.lanes@.len() - index,
        {
            let ghost before = self@;
            let key = self.lanes[index].key;
            if contains_key(keys, key) {
                self.lanes[index].halted = false;
            }
            assert(before[index as int] == old(self)@[index as int]);
            assert(self@[index as int] == target[index as int]);
            assert(forall|i: int|
                0 <= i < self.lanes@.len() && i != index ==> #[trigger] self@[i] == before[i]);
            index += 1;
        }
        assert(self@ =~= target);
    }

    /// Publishes every lane's state to the drain ledger.
    pub fn publish_ledger(&mut self)
        ensures
            final(self)@ == old(self)@,
            final(self).ledger.lanes@.len() == old(self)@.len(),
            forall|i: int|
                0 <= i < old(self)@.len() ==> shows(
                    #[trigger] final(self).ledger.lanes@[i],
                    old(self)@[i],
                ),
    {
        let mut published: Vec<LaneStatus> = Vec::new();
        let mut index: usize = 0;
        while index < self.lanes.len()
            invariant
                index <= self.lanes@.len(),
                published@.len() == index,
                forall|i: int| 0 <= i < index ==> shows(#[trigger] published@[i], self@[i]),
            decreases self.lanes@.len() - index,
        {
            let totals = self.lanes[index].queue.credit.snapshot();
            published.push(
                LaneStatus {
                    key: self.lanes[index].key,
                    pending: self.lanes[index].queue.spans.len(),
                    pushed: totals.pushed,
                    retired: totals.retired,
                    outstanding: self.lanes[index].queue.credit.outstanding(),
                },
            );
            index += 1;
        }
        self.ledger.lanes = published;
    }

    /// The queue of the first lane with this key.
    pub fn queue(&self, key: AxisKey) -> (queue: Option<&AxisQueue<S>>)
        ensures
            queue is None <==> (forall|i: int|
                0 <= i < self.lanes@.len() ==> (#[trigger] self.lanes@[i]).key != key),
            queue matches Some(found) ==> exists|i: int|
                {
                    &&& 0 <= i < self.lanes@.len()
                    &&& (#[trigger] self.lanes@[i]).key == key
                    &&& self.lanes@[i].queue == *found
                    &&& forall|j: int| 0 <= j < i ==> (#[trigger] self.lanes@[j]).key != key
                },
    {
        let mut index: usize = 0;
        while index < self.lanes.len()
            invariant
                index <= self.lanes@.len(),
                forall|i: int| 0 <= i < index ==> (#[trigger] self.lanes@[i]).key != key,
            decreases self.lanes@.len() - index,
        {
            if self.lanes[index].key == key {
                assert(self.lanes@[index as int].key == key);
                return Some(&self.lanes[index].queue);
            }
            index += 1;
        }
        None
    }
}

/// A discarded lane has drained, whatever the receipts say.
pub proof fn law_discarded_lanes_have_drained<S>(
    lanes: Seq<LaneView<S>>,
    keys: Seq<AxisKey>,
    cuts: Seq<CutCredit>,
    halt: bool,
    i: int,
)
    requires
        0 <= i < lanes.len(),
        keys.contains(lanes[i].key),
    ensures
        after_discard(lanes, keys, cuts, halt)[i].idle(),
        after_discard(lanes, keys, cuts, halt)[i].halted == (lanes[i].halted || halt),
{
    crate::pump::execution_credit::law_interruption_closes_out_all_work(
        lanes[i].credit,
        receipts_for(lanes[i].key, cuts),
    );
}

/// Naming a lane twice discards it once: only which lanes are named counts.
pub proof fn law_repeated_keys_discard_once<S>(
    lanes: Seq<LaneView<S>>,
    keys: Seq<AxisKey>,
    again: Seq<AxisKey>,
    cuts: Seq<CutCredit>,
    halt: bool,
)
    requires
        forall|key: AxisKey| keys.contains(key) == again.contains(key),
    ensures
        after_discard(lanes, keys, cuts, halt) == after_discard(lanes, again, cuts, halt),
{
    assert(after_discard(lanes, keys, cuts, halt) =~= after_discard(lanes, again, cuts, halt));
}

/// A transport that repeats the odometers it already reported changes nothing,
/// however far the lane's other transport has come since.
pub proof fn law_idle_transport_cannot_take_credit_back<S>(
    lane: LaneView<S>,
    idle: RetiredBy,
    frozen: Progress,
    active: RetiredBy,
    progress: Progress,
)
    requires
        lane.credit.sources.len() == 2,
        idle != active,
        lane.credit.sources[idle.spec_source() as int].progress == frozen,
    ensures
        lane.observed(active, progress).observed(idle, frozen) == lane.observed(active, progress),
{
    let credited = lane.observed(active, progress);
    assert(credited.observed(idle, frozen).credit.sources =~= credited.credit.sources);
}

/// A lane the keys do not name keeps its queue, its credit and its halt.
pub proof fn law_other_lanes_are_untouched<S>(
    lanes: Seq<LaneView<S>>,
    keys: Seq<AxisKey>,
    cuts: Seq<CutCredit>,
    halt: bool,
    i: int,
)
    requires
        0 <= i < lanes.len(),
        !keys.contains(lanes[i].key),
    ensures
        after_discard(lanes, keys, cuts, halt)[i] == lanes[i],
        after_resume(lanes, keys)[i] == lanes[i],
{
}

/// The two transports report as two sources, and a receipt keeps its counts apart: consumed
/// first and executed second, before and after the discard.
pub proof fn law_receipt_keeps_its_counts_apart(cut: CutCredit)
    ensures
        RetiredBy::Pulse.spec_source() == 0,
        RetiredBy::Phase.spec_source() == 1,
        cut.spec_receipt().source == cut.by.spec_source(),
        cut.spec_receipt().before.consumed == cut.before.0,
        cut.spec_receipt().before.retired == cut.before.1,
        cut.spec_receipt().after.consumed == cut.after.0,
        cut.spec_receipt().after.retired == cut.after.1,
{
}

/// A heartbeat reports only the lanes for which it has every count, of its own mcu: each with
/// its executed count, and with the same count as consumed where it counts none apart.
pub proof fn law_heartbeat_reports_its_full_pairs(msg: HeartbeatMsg, i: int)
    ensures
        msg.reported() <= msg.axes@.len(),
        msg.reported() <= msg.retired_counts@.len(),
        msg.consumed_counts matches Some(consumed) ==> msg.reported() <= consumed@.len(),
        msg.reported() == msg.axes@.len() || msg.reported() == msg.retired_counts@.len() || (
        msg.consumed_counts is Some && msg.reported() == msg.consumed_counts->0@.len()),
        0 <= i < msg.reported() ==> {
            &&& msg.key_at(i).mcu_id == msg.mcu_id
            &&& msg.key_at(i).axis == msg.axes@[i]
            &&& msg.progress_at(i).retired == msg.retired_counts@[i]
            &&& msg.consumed_counts is None ==> msg.progress_at(i).consumed
                == msg.retired_counts@[i]
            &&& msg.consumed_counts matches Some(consumed) ==> msg.progress_at(i).consumed
                == consumed@[i]
        },
{
}

/// A lane that a heartbeat does not name keeps all it has.
pub proof fn law_unreported_lane_is_left_alone<S>(
    lanes: Seq<LaneView<S>>,
    msg: HeartbeatMsg,
    count: int,
    lane: int,
)
    requires
        0 <= lane < lanes.len(),
        forall|i: int|
            0 <= i < count ==> !(lanes[lane].key.mcu_id == msg.mcu_id && lanes[lane].key.axis
                == #[trigger] msg.axes@[i]),
    ensures
        after_reports(lanes, msg, count).len() == lanes.len(),
        after_reports(lanes, msg, count)[lane] == lanes[lane],
    decreases count,
{
    if count > 0 {
        law_unreported_lane_is_left_alone(lanes, msg, count - 1, lane);
        assert(msg.key_at(count - 1).axis == msg.axes@[count - 1]);
    }
}

/// A lane that a heartbeat names once is credited with that one report, by the transport the
/// message comes from, and keeps its queue, its depth and its halt.
pub proof fn law_reported_lane_is_credited_once<S>(
    lanes: Seq<LaneView<S>>,
    msg: HeartbeatMsg,
    count: int,
    lane: int,
    at: int,
)
    requires
        0 <= lane < lanes.len(),
        0 <= at < count,
        lanes[lane].key.mcu_id == msg.mcu_id,
        forall|i: int|
            0 <= i < count ==> (lanes[lane].key.axis == #[trigger] msg.axes@[i] <==> i == at),
    ensures
        ({
            let after = after_reports(lanes, msg, count)[lane];
            let source = if msg.retired_by is Pulse {
                0int
            } else {
                1int
            };
            &&& after.credit == lanes[lane].credit.observed(source, msg.progress_at(at))
            &&& after.key == lanes[lane].key
            &&& after.spans == lanes[lane].spans
            &&& after.ring_depth == lanes[lane].ring_depth
            &&& after.halted == lanes[lane].halted
        }),
        after_reports(lanes, msg, count).len() == lanes.len(),
    decreases count,
{
    if at == count - 1 {
        law_unreported_lane_is_left_alone(lanes, msg, count - 1, lane);
        assert(msg.axes@[at] == lanes[lane].key.axis);
    } else {
        assert(lanes[lane].key.axis != msg.axes@[count - 1]);
        law_reported_lane_is_credited_once(lanes, msg, count - 1, lane, at);
    }
}

/// A discarded lane keeps its key and its depth, loses every waiting span, and is settled
/// against exactly the receipts that name it, in the order they came.
pub proof fn law_discard_takes_the_lanes_own_receipts<S>(
    lanes: Seq<LaneView<S>>,
    keys: Seq<AxisKey>,
    cuts: Seq<CutCredit>,
    halt: bool,
    i: int,
)
    requires
        0 <= i < lanes.len(),
        keys.contains(lanes[i].key),
    ensures
        ({
            let after = after_discard(lanes, keys, cuts, halt)[i];
            &&& after.key == lanes[i].key
            &&& after.ring_depth == lanes[i].ring_depth
            &&& after.spans.len() == 0
            &&& after.credit == lanes[i].credit.interrupted(receipts_for(lanes[i].key, cuts))
        }),
        ({
            let after = after_resume(lanes, keys)[i];
            &&& !after.halted
            &&& after.key == lanes[i].key
            &&& after.spans == lanes[i].spans
            &&& after.credit == lanes[i].credit
            &&& after.ring_depth == lanes[i].ring_depth
        }),
        after_discard(lanes, keys, cuts, halt).len() == lanes.len(),
        after_resume(lanes, keys).len() == lanes.len(),
{
}

/// A receipt that names the lane is taken behind those before it, and one that does not is
/// passed over.
pub proof fn law_receipts_name_their_lane(key: AxisKey, cuts: Seq<CutCredit>, cut: CutCredit)
    ensures
        receipts_for(key, Seq::<CutCredit>::empty()).len() == 0,
        cut.key == key ==> receipts_for(key, cuts.push(cut)) == receipts_for(key, cuts).push(
            cut.spec_receipt(),
        ),
        cut.key != key ==> receipts_for(key, cuts.push(cut)) == receipts_for(key, cuts),
{
    let named = |cut: CutCredit| cut.key == key;
    cuts.lemma_filter_push(cut, named);
    assert(Seq::<CutCredit>::empty().filter(named) =~= Seq::empty());
    if cut.key == key {
        assert(receipts_for(key, cuts.push(cut)) =~= receipts_for(key, cuts).push(
            cut.spec_receipt(),
        ));
    }
}

/// A lane has room for what its ring holds less what awaits consumption, and for nothing once
/// that much awaits. It is idle only with nothing waiting and nothing outstanding.
pub proof fn law_room_is_what_the_ring_still_holds<S>(
    queue: AxisQueue<S>,
    room: u32,
    idle: bool,
)
    requires
        call_ensures(AxisQueue::<S>::room, (&queue,), room),
        call_ensures(AxisQueue::<S>::is_idle, (&queue,), idle),
    ensures
        queue.credit@.awaiting_consumption() <= queue.ring_depth ==> room
            + queue.credit@.awaiting_consumption() == queue.ring_depth,
        queue.credit@.awaiting_consumption() > queue.ring_depth ==> room == 0,
        queue.spans@.len() > 0 ==> !idle,
        queue.credit@.outstanding() > 0 ==> !idle,
        queue.spans@.len() == 0 && queue.credit@.outstanding() == 0 ==> idle,
{
}

/// What is published of a lane is the lane's own, and it counts as drained exactly where the
/// lane is idle.
pub proof fn law_published_lane_drains_with_its_lane<S>(status: LaneStatus, lane: LaneView<S>)
    requires
        shows(status, lane),
    ensures
        status.key == lane.key,
        status.pending == lane.spans.len(),
        status.pushed == lane.credit.totals.pushed,
        status.retired == lane.credit.totals.retired,
        status.outstanding == lane.credit.outstanding(),
        status.drained() <==> status.pending == 0 && status.outstanding == 0,
        status.drained() <==> lane.idle(),
{
}

/// Motion has drained only where nothing is pending and nothing outstanding on any lane, and
/// the lanes that lag are exactly the others.
pub proof fn law_lagging_lanes_have_work_left(lanes: Seq<LaneStatus>, lane: LaneStatus)
    ensures
        lagging(lanes).contains(lane) <==> lanes.contains(lane) && (lane.pending > 0
            || lane.outstanding > 0),
        all_drained(lanes) && lanes.contains(lane) ==> lane.pending == 0 && lane.outstanding == 0,
        !all_drained(lanes) ==> exists|other: LaneStatus|
            #[trigger] lanes.contains(other) && (other.pending > 0 || other.outstanding > 0),
{
    broadcast use {
        Seq::lemma_filter_pred,
        Seq::lemma_filter_contains,
        Seq::lemma_filter_contains_rev,
    };

    let lags = |lane: LaneStatus| !lane.drained();
    if lanes.contains(lane) {
        let i = choose|i: int| 0 <= i < lanes.len() && lanes[i] == lane;
        if lags(lanes[i]) {
            assert(lanes.filter(lags).contains(lanes[i]));
        }
        if all_drained(lanes) {
            assert(lanes[i].drained());
        }
    }
    if lagging(lanes).contains(lane) {
        let kept = lanes.filter(lags);
        let i = choose|i: int| 0 <= i < kept.len() && kept[i] == lane;
        assert(lags(kept[i]));
    }
    if !all_drained(lanes) {
        let i = choose|i: int| 0 <= i < lanes.len() && !(#[trigger] lanes[i]).drained();
        assert(lanes.contains(lanes[i]));
    }
}

/// A halt stops the lanes it names and leaves nothing on them; a flush leaves nothing on them and
/// stops none; a resume lets them go on. The other lanes keep everything.
pub proof fn law_halts_flushes_and_resumes_are_of_their_lanes<S>(
    halted: &mut Pump<S>,
    flushed: &mut Pump<S>,
    resumed: &mut Pump<S>,
    keys: &[AxisKey],
    cuts: &[CutCredit],
    i: int,
)
    requires
        call_ensures(Pump::<S>::halt, (halted, keys, cuts), ()),
        call_ensures(Pump::<S>::flush, (flushed, keys, cuts), ()),
        call_ensures(Pump::<S>::resume, (resumed, keys), ()),
    ensures
        final(halted)@.len() == old(halted)@.len(),
        0 <= i < old(halted)@.len() && keys@.contains(old(halted)@[i].key) ==> {
            &&& final(halted)@[i].halted
            &&& final(halted)@[i].spans.len() == 0
            &&& final(halted)@[i].credit.outstanding() == 0
            &&& final(halted)@[i].key == old(halted)@[i].key
            &&& final(halted)@[i].ring_depth == old(halted)@[i].ring_depth
        },
        0 <= i < old(halted)@.len() && !keys@.contains(old(halted)@[i].key) ==> final(halted)@[i]
            == old(halted)@[i],
        final(flushed)@.len() == old(flushed)@.len(),
        0 <= i < old(flushed)@.len() && keys@.contains(old(flushed)@[i].key) ==> {
            &&& final(flushed)@[i].halted == old(flushed)@[i].halted
            &&& final(flushed)@[i].spans.len() == 0
            &&& final(flushed)@[i].credit.outstanding() == 0
        },
        0 <= i < old(flushed)@.len() && !keys@.contains(old(flushed)@[i].key) ==> final(flushed)@[i] == old(flushed)@[i],
        final(resumed)@.len() == old(resumed)@.len(),
        0 <= i < old(resumed)@.len() && keys@.contains(old(resumed)@[i].key) ==> {
            &&& !final(resumed)@[i].halted
            &&& final(resumed)@[i].spans == old(resumed)@[i].spans
            &&& final(resumed)@[i].credit == old(resumed)@[i].credit
        },
        0 <= i < old(resumed)@.len() && !keys@.contains(old(resumed)@[i].key) ==> final(resumed)@[i] == old(resumed)@[i],
{
    if 0 <= i < old(halted)@.len() && keys@.contains(old(halted)@[i].key) {
        law_discarded_lanes_have_drained(old(halted)@, keys@, cuts@, true, i);
    }
    if 0 <= i < old(flushed)@.len() && keys@.contains(old(flushed)@[i].key) {
        law_discarded_lanes_have_drained(old(flushed)@, keys@, cuts@, false, i);
    }
}

/// A heartbeat credits each lane it reports once with what it tells, and no other lane; the
/// lanes that wait keep their spans and stay halted or not.
pub proof fn law_heartbeat_credits_the_lanes_it_names<S>(
    pump: &mut Pump<S>,
    msg: &HeartbeatMsg,
    lane: int,
    at: int,
)
    requires
        call_ensures(Pump::<S>::heartbeat, (pump, msg), ()),
        0 <= lane < old(pump)@.len(),
        old(pump)@[lane].credit.sources.len() == 2,
    ensures
        final(pump)@.len() == old(pump)@.len(),
        final(pump).ledger == old(pump).ledger,
        (forall|i: int|
            0 <= i < msg.reported() ==> !(old(pump)@[lane].key.mcu_id == msg.mcu_id && old(pump)@[lane].key.axis == #[trigger] msg.axes@[i])) ==> final(pump)@[lane] == old(pump)@[lane],
        0 <= at < msg.reported() && old(pump)@[lane].key.mcu_id == msg.mcu_id && (forall|i: int|
            0 <= i < msg.reported() ==> (old(pump)@[lane].key.axis == #[trigger] msg.axes@[i]
                <==> i == at)) ==> {
            &&& final(pump)@[lane].spans == old(pump)@[lane].spans
            &&& final(pump)@[lane].halted == old(pump)@[lane].halted
            &&& final(pump)@[lane].credit.totals.pushed == old(pump)@[lane].credit.totals.pushed
        },
{
    let before = old(pump)@;
    lemma_reports_keep_the_lanes(before, *msg, msg.reported());
    if forall|i: int|
        0 <= i < msg.reported() ==> !(before[lane].key.mcu_id == msg.mcu_id
            && before[lane].key.axis == #[trigger] msg.axes@[i]) {
        law_unreported_lane_is_left_alone(before, *msg, msg.reported(), lane);
    }
    if 0 <= at < msg.reported() && before[lane].key.mcu_id == msg.mcu_id && (forall|i: int|
        0 <= i < msg.reported() ==> (before[lane].key.axis == #[trigger] msg.axes@[i] <==> i
            == at)) {
        law_reported_lane_is_credited_once(before, *msg, msg.reported(), lane, at);
    }
}

proof fn lemma_reports_keep_the_lanes<S>(lanes: Seq<LaneView<S>>, msg: HeartbeatMsg, count: int)
    ensures
        after_reports(lanes, msg, count).len() == lanes.len(),
    decreases count,
{
    if count > 0 {
        lemma_reports_keep_the_lanes(lanes, msg, count - 1);
    }
}

/// The ledger shows every lane as it stands when it is published, and changes none; a lane is
/// found by its key, the first of its name.
pub proof fn law_published_ledger_shows_every_lane<S>(
    published: &mut Pump<S>,
    asked: &Pump<S>,
    key: AxisKey,
    found: Option<&AxisQueue<S>>,
    i: int,
)
    requires
        call_ensures(Pump::<S>::publish_ledger, (published,), ()),
        call_ensures(Pump::<S>::queue, (asked, key), found),
    ensures
        final(published)@ == old(published)@,
        final(published).ledger.lanes@.len() == old(published)@.len(),
        0 <= i < old(published)@.len() ==> {
            let status = final(published).ledger.lanes@[i];
            let lane = old(published)@[i];
            &&& status.key == lane.key
            &&& status.pending == lane.spans.len()
            &&& status.pushed == lane.credit.totals.pushed
            &&& status.retired == lane.credit.totals.retired
            &&& status.outstanding == lane.credit.outstanding()
        },
        0 <= i < asked.lanes@.len() && asked.lanes@[i].key == key && (forall|j: int|
            0 <= j < i ==> (#[trigger] asked.lanes@[j]).key != key) ==> (found matches Some(queue)
            ==> *queue == asked.lanes@[i].queue),
        found is Some ==> exists|j: int|
            0 <= j < asked.lanes@.len() && (#[trigger] asked.lanes@[j]).key == key,
{
}

/// A wait for the lanes is answered by what the ledger shows of them: it has ended exactly where
/// no lane has work left, and else every lane that has is named.
pub proof fn law_wait_ends_when_every_lane_has_drained(
    ledger: DrainLedger,
    drained: bool,
    lines: Vec<String>,
    outcome: Result<(), String>,
    i: int,
)
    requires
        call_ensures(DrainLedger::drained, (&ledger,), drained),
        call_ensures(DrainLedger::lagging_axes, (&ledger,), lines),
        call_ensures(DrainLedger::wait_outcome, (&ledger,), outcome),
    ensures
        drained <==> outcome is Ok,
        0 <= i < ledger.lanes@.len() && (ledger.lanes@[i].pending > 0
            || ledger.lanes@[i].outstanding > 0) ==> !drained && lines@.len() > 0,
        drained ==> lines@.len() == 0,
        lines@.len() <= ledger.lanes@.len(),
{
    let lags = |lane: LaneStatus| !lane.drained();
    let list = ledger.lanes@;
    assert(crate::text::texts(lines@).len() == lines@.len());
    assert(lines@.len() == lagging(list).len());
    broadcast use Seq::lemma_filter_len;

    if 0 <= i < list.len() && (list[i].pending > 0 || list[i].outstanding > 0) {
        assert(!list[i].drained());
        list.lemma_filter_contains(lags, i);
        assert(lagging(list).len() > 0);
    }
    if drained && lagging(list).len() > 0 {
        let first = lagging(list)[0];
        assert(lagging(list).contains(first));
        law_lagging_lanes_have_work_left(list, first);
    }
}

/// A cut's receipt names the transport it came from, with its counts in their order; and a
/// lane's line tells its own counts.
pub proof fn law_receipt_is_of_its_transport(
    cut: CutCredit,
    receipt: Cut,
    by: RetiredBy,
    source: usize,
    status: LaneStatus,
    line: String,
)
    requires
        call_ensures(CutCredit::receipt, (&cut,), receipt),
        call_ensures(RetiredBy::source, (by,), source),
        call_ensures(LaneStatus::line, (&status,), line),
    ensures
        source == if by is Pulse {
            0usize
        } else {
            1usize
        },
        receipt.source == if cut.by is Pulse {
            0usize
        } else {
            1usize
        },
        (receipt.before.consumed, receipt.before.retired) == cut.before,
        (receipt.after.consumed, receipt.after.retired) == cut.after,
        line@ == "mcu"@ + crate::text::decimal(status.key.mcu_id as nat) + " axis"@
            + crate::text::decimal(status.key.axis as nat) + ": pending "@ + crate::text::decimal(
            status.pending as nat,
        ) + " pushed "@ + crate::text::decimal(status.pushed as nat) + " retired "@
            + crate::text::decimal(status.retired as nat),
{
}

} // verus!
