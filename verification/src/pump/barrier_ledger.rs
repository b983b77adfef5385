//! Barrier receipts, shared by every mcu transport sink.
//!
//! A barrier is a numbered receipt the mcu returns once it has consumed
//! everything queued ahead of it. Sequence numbers wrap, so ordering is
//! modular: `barrier_seq_after` reads a difference as signed, and
//! `barrier_seq_covers` treats an ack as covering every earlier receipt because
//! the mcu acks in queue order.
//!
//! The seed is taken from the clock so a host restart cannot have its fresh
//! receipts covered by the acks the mcu still holds from the previous run.

use crate::sorted::insert_in_order;
use crate::text::{append_decimal, join};
use std::collections::{HashMap, VecDeque};
use std::time::SystemTime;
use vstd::prelude::*;
use vstd::std_specs::hash::group_hash_axioms;
use vstd::string::*;

verus! {

broadcast use group_hash_axioms;

#[derive(Clone, Copy, PartialEq, Eq, Debug, Hash, Structural)]
pub struct BarrierId {
    pub oid: u32,
    pub seq: u32,
}

/// A receipt handed to the mcu and the mcu clock at which it left.
#[derive(Clone, Copy, PartialEq, Eq, Debug, Structural)]
pub struct SentBarrier {
    pub id: BarrierId,
    pub sent_clock: u64,
}

/// One oid's receipts: the next number to issue and the acked high-water mark.
#[derive(Clone, Copy, PartialEq, Eq, Debug, Structural)]
pub struct ReceiptSequence {
    pub next: u32,
    pub acked: Option<u32>,
}

#[derive(Debug, Clone, Copy, PartialEq, Eq, Structural)]
pub enum AckFault {
    Unknown,
    Unissued { issued: u32 },
    Regressed { high_water: u32 },
    OutOfOrder { expected: u32 },
}

/// The distance from `reference` forward to `candidate`, modulo `2^32`.
pub open spec fn seq_distance(candidate: u32, reference: u32) -> int {
    if candidate >= reference {
        candidate - reference
    } else {
        candidate - reference + 0x1_0000_0000
    }
}

/// `candidate` is ahead of `reference` by less than half the range.
pub open spec fn seq_after(candidate: u32, reference: u32) -> bool {
    0 < seq_distance(candidate, reference) < 0x8000_0000
}

/// An ack of `high_water` answers for `seq` too.
pub open spec fn seq_covers(high_water: u32, seq: u32) -> bool {
    high_water == seq || seq_after(high_water, seq)
}

/// The sequence number that follows `seq`.
pub open spec fn seq_next(seq: u32) -> u32 {
    if seq == u32::MAX {
        0
    } else {
        (seq + 1) as u32
    }
}

/// The clock reading of this machine, as `std::time::SystemTime` has it.
#[verifier::external_type_specification]
#[verifier::external_body]
pub struct ExSystemTime(SystemTime);

/// `std::time::SystemTime::now` reads the clock. Nothing is claimed of the
/// reading: it rests on the machine and the moment of the call.
pub assume_specification[ SystemTime::now ]() -> (now: SystemTime)
;

/// `std::time::SystemTime::duration_since` against the Unix epoch, in whole
/// nanoseconds: `Ok` holds how far `now` is past the epoch, `Err` how far it is
/// before it. The distance rests on the clock, so nothing is claimed of it.
#[verifier::external_body]
fn epoch_offset_nanos(now: &SystemTime) -> (offset: Result<u128, u128>)
{
    match now.duration_since(std::time::UNIX_EPOCH) {
        Ok(elapsed) => Ok(elapsed.as_nanos()),
        Err(ahead) => Err(ahead.duration().as_nanos()),
    }
}

/// The seed made of a clock distance: its low 32 bits with the lowest bit set.
pub open spec fn seed_of(nanos: u128) -> int {
    let low = nanos % 0x1_0000_0000;
    if low % 2 == 1 {
        low as int
    } else {
        low + 1
    }
}

/// `nanos` is how far a reading of the clock, taken by `SystemTime::now`, was found to
/// lie from the Unix epoch, on either side of it.
pub closed spec fn clock_distance(nanos: u128) -> bool {
    exists|now: SystemTime, offset: Result<u128, u128>|
        {
            &&& #[trigger] call_ensures(SystemTime::now, (), now)
            &&& #[trigger] call_ensures(epoch_offset_nanos, (&now,), offset)
            &&& nanos == match offset {
                Ok(after) => after,
                Err(before) => before,
            }
        }
}

/// `seed` was taken from the clock.
pub open spec fn clock_seed(seed: u32) -> bool {
    exists|nanos: u128| #[trigger] clock_distance(nanos) && seed == seed_of(nanos)
}

/// The seed for a given clock distance.
pub fn barrier_seq_seed_from_nanos(nanos: u128) -> (seed: u32)
    ensures
        seed % 2 == 1,
        seed == seed_of(nanos),
{
    let low: u32 = (nanos % 0x1_0000_0000) as u32;
    assert((low | 1) % 2 == 1) by (bit_vector);
    assert(low % 2 == 1 ==> (low | 1) == low) by (bit_vector);
    assert(low % 2 == 0 ==> (low | 1) == low + 1) by (bit_vector);
    low | 1
}

/// A seed for this process, taken from a reading of the clock. It is odd on every
/// machine and at every moment.
pub fn barrier_seq_seed() -> (seed: u32)
    ensures
        seed % 2 == 1,
        clock_seed(seed),
{
    let now = SystemTime::now();
    let offset = epoch_offset_nanos(&now);
    let nanos: u128 = match offset {
        Ok(nanos) => nanos,
        Err(nanos) => nanos,
    };
    assert(call_ensures(epoch_offset_nanos, (&now,), offset));
    assert(clock_distance(nanos));
    barrier_seq_seed_from_nanos(nanos)
}

pub fn barrier_seq_after(candidate: u32, reference: u32) -> (after: bool)
    ensures
        after == seq_after(candidate, reference),
{
    let distance: u32 = candidate.wrapping_sub(reference);
    distance != 0 && distance < 0x8000_0000
}

pub fn barrier_seq_before(candidate: u32, reference: u32) -> (before: bool)
    ensures
        before == seq_after(reference, candidate),
{
    barrier_seq_after(reference, candidate)
}

pub fn barrier_seq_covers(high_water: u32, seq: u32) -> (covers: bool)
    ensures
        covers == seq_covers(high_water, seq),
{
    high_water == seq || barrier_seq_after(high_water, seq)
}

/// The logical state of a ledger.
#[verifier::ext_equal]
pub struct LedgerView {
    pub seed: u32,
    pub lanes: Map<u32, ReceiptSequence>,
    pub sent: Seq<SentBarrier>,
}

impl LedgerView {
    pub open spec fn empty(seed: u32) -> LedgerView {
        LedgerView { seed, lanes: Map::empty(), sent: Seq::empty() }
    }

    /// The lane of `oid`, as it stands before its first receipt if it has none.
    pub open spec fn lane(self, oid: u32) -> ReceiptSequence {
        if self.lanes.contains_key(oid) {
            self.lanes[oid]
        } else {
            ReceiptSequence { next: self.seed, acked: None }
        }
    }

    /// The state once one more receipt is issued on `oid`.
    pub open spec fn issued(self, oid: u32) -> LedgerView {
        LedgerView {
            lanes: self.lanes.insert(
                oid,
                ReceiptSequence { next: seq_next(self.lane(oid).next), ..self.lane(oid) },
            ),
            ..self
        }
    }

    pub open spec fn is_acked(self, id: BarrierId) -> bool {
        match self.lane(id.oid).acked {
            Some(high_water) => seq_covers(high_water, id.seq),
            None => false,
        }
    }

    /// The state with `oid`'s high-water mark at `seq`.
    pub open spec fn marked(self, oid: u32, seq: u32) -> LedgerView {
        LedgerView {
            lanes: self.lanes.insert(
                oid,
                ReceiptSequence { acked: Some(seq), ..self.lanes[oid] },
            ),
            ..self
        }
    }

    /// The state with only the sent receipts that `keep` holds of.
    pub open spec fn keeping(self, keep: spec_fn(SentBarrier) -> bool) -> LedgerView {
        LedgerView { sent: self.sent.filter(keep), ..self }
    }

    /// The state without the sent receipts that are acked.
    pub open spec fn pruned(self) -> LedgerView {
        self.keeping(|entry: SentBarrier| !self.is_acked(entry.id))
    }

    /// What an unordered ack of `seq` on `oid` is answered.
    pub open spec fn ack_outcome(self, oid: u32, seq: u32) -> Result<(), AckFault> {
        if !self.lanes.contains_key(oid) {
            Err(AckFault::Unknown)
        } else if !seq_after(self.lanes[oid].next, seq) {
            Err(AckFault::Unissued { issued: self.lanes[oid].next })
        } else {
            match self.lanes[oid].acked {
                Some(high_water) if !seq_after(seq, high_water) => Err(
                    AckFault::Regressed { high_water },
                ),
                _ => Ok(()),
            }
        }
    }

    /// The state after an unordered ack.
    pub open spec fn after_ack(self, oid: u32, seq: u32) -> LedgerView {
        match self.ack_outcome(oid, seq) {
            Ok(_) => self.marked(oid, seq).keeping(
                |entry: SentBarrier| !(entry.id.oid == oid && seq_covers(seq, entry.id.seq)),
            ),
            Err(_) => self,
        }
    }

    /// The one receipt an ordered ack on `oid` may name next.
    pub open spec fn expected_ack(self, oid: u32) -> u32 {
        match self.lanes[oid].acked {
            Some(high_water) => seq_next(high_water),
            None => self.seed,
        }
    }

    /// What an ordered ack of `seq` on `oid` is answered.
    pub open spec fn ordered_ack_outcome(self, oid: u32, seq: u32) -> Result<bool, AckFault> {
        if !self.lanes.contains_key(oid) {
            Err(AckFault::Unknown)
        } else if seq_after(self.expected_ack(oid), seq) {
            Ok(false)
        } else if !seq_after(self.lanes[oid].next, seq) {
            Err(AckFault::Unissued { issued: self.lanes[oid].next })
        } else if seq != self.expected_ack(oid) {
            Err(AckFault::OutOfOrder { expected: self.expected_ack(oid) })
        } else {
            Ok(true)
        }
    }

    /// The state after an ordered ack.
    pub open spec fn after_ordered_ack(self, oid: u32, seq: u32) -> LedgerView {
        if self.ordered_ack_outcome(oid, seq) == Ok::<bool, AckFault>(true) {
            self.marked(oid, seq).pruned()
        } else {
            self
        }
    }

    /// The state after `id` is given up: its lane's mark moves up to it, never back.
    pub open spec fn cancelled(self, id: BarrierId) -> LedgerView {
        match self.lanes[id.oid].acked {
            Some(high_water) if !seq_after(id.seq, high_water) => self,
            _ => self.marked(id.oid, id.seq),
        }
    }

    /// The place of the first sent entry for `id`, if there is one.
    pub open spec fn first_sent(self, id: BarrierId, index: int) -> bool {
        &&& 0 <= index < self.sent.len()
        &&& self.sent[index].id == id
        &&& forall|i: int| 0 <= i < index ==> (#[trigger] self.sent[i]).id != id
    }

    pub open spec fn has_entry(self, id: BarrierId) -> bool {
        exists|i: int| 0 <= i < self.sent.len() && (#[trigger] self.sent[i]).id == id
    }

    /// The oids that have an ack.
    pub open spec fn acked_oids(self) -> Set<u32> {
        self.lanes.dom().filter(|oid: u32| self.lanes[oid].acked is Some)
    }
}

/// The receipt has been owed for longer than `deadline_ticks` at `now`.
pub open spec fn is_overdue(entry: SentBarrier, now: u64, deadline_ticks: u64) -> bool {
    entry.sent_clock + deadline_ticks < now
}

/// One lane's part of the ledger line.
pub open spec fn acked_text(oid: u32, seq: u32) -> Seq<char> {
    "oid "@ + crate::text::decimal(oid as nat) + " acked "@ + crate::text::decimal(seq as nat)
}

/// The ledger line over the oids in `oids`, in that order.
pub open spec fn ledger_text(state: LedgerView, oids: Seq<u32>) -> Seq<char> {
    if oids.len() == 0 {
        "no barrier acks recorded"@
    } else {
        crate::text::joined(
            oids.map_values(|oid: u32| acked_text(oid, state.lanes[oid].acked->0)),
            ", "@,
        )
    }
}

/// Issue, track and retire barrier receipts for one mcu's lanes.
#[derive(Debug)]
pub struct BarrierLedger {
    seed: u32,
    sequences: HashMap<u32, ReceiptSequence>,
    sent: VecDeque<SentBarrier>,
}

impl View for BarrierLedger {
    type V = LedgerView;

    closed spec fn view(&self) -> LedgerView {
        LedgerView { seed: self.seed, lanes: self.sequences@, sent: self.sent@ }
    }
}

impl Default for BarrierLedger {
    fn default() -> (ledger: Self)
        ensures
            ledger@ == LedgerView::empty(ledger@.seed),
            ledger@.seed % 2 == 1,
            clock_seed(ledger@.seed),
    {
        Self::new()
    }
}

impl BarrierLedger {
    pub fn new() -> (ledger: Self)
        ensures
            ledger@ == LedgerView::empty(ledger@.seed),
            ledger@.seed % 2 == 1,
            clock_seed(ledger@.seed),
    {
        Self::with_seed(barrier_seq_seed())
    }

    pub fn with_seed(seed: u32) -> (ledger: Self)
        ensures
            ledger@ == LedgerView::empty(seed),
    {
        Self { seed, sequences: HashMap::new(), sent: VecDeque::new() }
    }

    pub fn with_capacity(lanes: usize) -> (ledger: Self)
        ensures
            ledger@ == LedgerView::empty(ledger@.seed),
            ledger@.seed % 2 == 1,
            clock_seed(ledger@.seed),
    {
        let mut ledger = Self::new();
        ledger.sequences.reserve(lanes);
        ledger
    }

    fn lane_of(&self, oid: u32) -> (lane: Option<ReceiptSequence>)
        ensures
            lane == (if self@.lanes.contains_key(oid) {
                Some(self@.lanes[oid])
            } else {
                None
            }),
    {
        match self.sequences.get(&oid) {
            Some(lane) => Some(*lane),
            None => None,
        }
    }

    pub fn issue(&mut self, oid: u32) -> (id: BarrierId)
        ensures
            id == (BarrierId { oid, seq: old(self)@.lane(oid).next }),
            final(self)@ == old(self)@.issued(oid),
    {
        let lane = match self.lane_of(oid) {
            Some(lane) => lane,
            None => ReceiptSequence { next: self.seed, acked: None },
        };
        let seq: u32 = lane.next;
        self.sequences.insert(
            oid,
            ReceiptSequence { next: seq.wrapping_add(1), acked: lane.acked },
        );
        BarrierId { oid, seq }
    }

    pub fn is_acked(&self, id: BarrierId) -> (acked: bool)
        ensures
            acked == self@.is_acked(id),
    {
        match self.lane_of(id.oid) {
            Some(lane) => match lane.acked {
                Some(high_water) => barrier_seq_covers(high_water, id.seq),
                None => false,
            },
            None => false,
        }
    }

    /// Adopt an ack from the mcu. A receipt the host never issued, or one that
    /// walks the high-water mark backwards, means the two sides disagree about
    /// the stream, and the caller escalates.
    pub fn record_ack(&mut self, oid: u32, seq: u32) -> (outcome: Result<(), AckFault>)
        ensures
            outcome == old(self)@.ack_outcome(oid, seq),
            final(self)@ == old(self)@.after_ack(oid, seq),
    {
        let lane = match self.lane_of(oid) {
            Some(lane) => lane,
            None => return Err(AckFault::Unknown),
        };
        let issued: u32 = lane.next;
        if !barrier_seq_before(seq, issued) {
            return Err(AckFault::Unissued { issued });
        }
        if let Some(high_water) = lane.acked {
            if !barrier_seq_after(seq, high_water) {
                return Err(AckFault::Regressed { high_water });
            }
        }
        self.sequences.insert(oid, ReceiptSequence { next: issued, acked: Some(seq) });
        let ghost keep = |entry: SentBarrier|
            !(entry.id.oid == oid && seq_covers(seq, entry.id.seq));
        let mut kept: VecDeque<SentBarrier> = VecDeque::new();
        let mut index: usize = 0;
        assert(self.sent@.take(0).filter(keep) =~= Seq::empty());
        while index < self.sent.len()
            invariant
                index <= self.sent@.len(),
                keep == (|entry: SentBarrier|
                    !(entry.id.oid == oid && seq_covers(seq, entry.id.seq))),
                kept@ == self.sent@.take(index as int).filter(keep),
            decreases self.sent@.len() - index,
        {
            let entry = self.sent[index];
            assert(self.sent@.take(index + 1) =~= self.sent@.take(index as int).push(entry));
            proof {
                self.sent@.take(index as int).lemma_filter_push(entry, keep);
            }
            if !barrier_seq_covers(seq, entry.id.seq) || entry.id.oid != oid {
                kept.push_back(entry);
            }
            index += 1;
        }
        assert(self.sent@.take(index as int) =~= self.sent@);
        self.sent = kept;
        Ok(())
    }

    pub fn record_ordered_ack(&mut self, oid: u32, seq: u32) -> (outcome: Result<bool, AckFault>)
        ensures
            outcome == old(self)@.ordered_ack_outcome(oid, seq),
            final(self)@ == old(self)@.after_ordered_ack(oid, seq),
    {
        let lane = match self.lane_of(oid) {
            Some(lane) => lane,
            None => return Err(AckFault::Unknown),
        };
        let issued: u32 = lane.next;
        let expected: u32 = match lane.acked {
            Some(high_water) => high_water.wrapping_add(1),
            None => self.seed,
        };
        if barrier_seq_before(seq, expected) {
            return Ok(false);
        }
        if !barrier_seq_before(seq, issued) {
            return Err(AckFault::Unissued { issued });
        }
        if seq != expected {
            return Err(AckFault::OutOfOrder { expected });
        }
        self.sequences.insert(oid, ReceiptSequence { next: issued, acked: Some(seq) });
        self.prune_acked();
        Ok(true)
    }

    /// Gives up an issued receipt: late acks of it are then replays.
    pub fn cancel(&mut self, id: BarrierId)
        requires
            old(self)@.lanes.contains_key(id.oid),
        ensures
            final(self)@ == old(self)@.cancelled(id),
    {
        if let Some(lane) = self.lane_of(id.oid) {
            let advances = match lane.acked {
                Some(high_water) => barrier_seq_after(id.seq, high_water),
                None => true,
            };
            if advances {
                self.sequences.insert(
                    id.oid,
                    ReceiptSequence { next: lane.next, acked: Some(id.seq) },
                );
            }
        }
    }

    pub fn forget_sent(&mut self, oid: u32)
        ensures
            final(self)@ == old(self)@.keeping(|entry: SentBarrier| entry.id.oid != oid),
    {
        let ghost keep = |entry: SentBarrier| entry.id.oid != oid;
        let mut kept: VecDeque<SentBarrier> = VecDeque::new();
        let mut index: usize = 0;
        assert(self.sent@.take(0).filter(keep) =~= Seq::empty());
        while index < self.sent.len()
            invariant
                index <= self.sent@.len(),
                keep == (|entry: SentBarrier| entry.id.oid != oid),
                kept@ == self.sent@.take(index as int).filter(keep),
            decreases self.sent@.len() - index,
        {
            let entry = self.sent[index];
            assert(self.sent@.take(index + 1) =~= self.sent@.take(index as int).push(entry));
            proof {
                self.sent@.take(index as int).lemma_filter_push(entry, keep);
            }
            if entry.id.oid != oid {
                kept.push_back(entry);
            }
            index += 1;
        }
        assert(self.sent@.take(index as int) =~= self.sent@);
        self.sent = kept;
    }

    pub fn clear_sent(&mut self)
        ensures
            final(self)@ == (LedgerView { sent: Seq::empty(), ..old(self)@ }),
    {
        self.sent.clear();
    }

    pub fn has_sent(&self) -> (any: bool)
        ensures
            any == (self@.sent.len() > 0),
    {
        self.sent.len() != 0
    }

    pub fn sent_clock_of(&self, id: BarrierId) -> (clock: Option<u64>)
        ensures
            clock is Some <==> self@.has_entry(id),
            forall|i: int| self@.first_sent(id, i) ==> clock == Some(self@.sent[i].sent_clock),
    {
        let mut index: usize = 0;
        while index < self.sent.len()
            invariant
                index <= self.sent@.len(),
                forall|i: int| 0 <= i < index ==> (#[trigger] self.sent@[i]).id != id,
            decreases self.sent@.len() - index,
        {
            let entry = self.sent[index];
            if entry.id == id {
                assert(self@.sent[index as int].id == id);
                return Some(entry.sent_clock);
            }
            index += 1;
        }
        None
    }

    pub fn note_sent(&mut self, id: BarrierId, sent_clock: u64)
        ensures
            final(self)@ == (LedgerView {
                sent: old(self)@.sent.push(SentBarrier { id, sent_clock }),
                ..old(self)@
            }),
    {
        self.sent.push_back(SentBarrier { id, sent_clock });
    }

    pub fn prune_acked(&mut self)
        ensures
            final(self)@ == old(self)@.pruned(),
    {
        let ghost before = self@;
        let ghost keep = |entry: SentBarrier| !before.is_acked(entry.id);
        let mut kept: VecDeque<SentBarrier> = VecDeque::new();
        let mut index: usize = 0;
        assert(self.sent@.take(0).filter(keep) =~= Seq::empty());
        while index < self.sent.len()
            invariant
                index <= self.sent@.len(),
                self@ == before,
                keep == (|entry: SentBarrier| !before.is_acked(entry.id)),
                kept@ == self.sent@.take(index as int).filter(keep),
            decreases self.sent@.len() - index,
        {
            let entry = self.sent[index];
            assert(self.sent@.take(index + 1) =~= self.sent@.take(index as int).push(entry));
            proof {
                self.sent@.take(index as int).lemma_filter_push(entry, keep);
            }
            if !self.is_acked(entry.id) {
                kept.push_back(entry);
            }
            index += 1;
        }
        assert(self.sent@.take(index as int) =~= self.sent@);
        self.sent = kept;
    }

    /// Receipts the mcu has owed for longer than `deadline_ticks`, measured on
    /// the mcu clock: a barrier that never comes back parks its lane forever,
    /// so the caller escalates instead of waiting.
    pub fn overdue(&self, now: u64, deadline_ticks: u64) -> (late: Vec<(BarrierId, u64)>)
        ensures
            late@ == self@.sent.filter(
                |entry: SentBarrier| is_overdue(entry, now, deadline_ticks),
            ).map_values(|entry: SentBarrier| (entry.id, entry.sent_clock)),
    {
        let ghost is_late = |entry: SentBarrier| is_overdue(entry, now, deadline_ticks);
        let ghost pair = |entry: SentBarrier| (entry.id, entry.sent_clock);
        let mut late: Vec<(BarrierId, u64)> = Vec::new();
        let mut index: usize = 0;
        assert(self.sent@.take(0).filter(is_late) =~= Seq::empty());
        while index < self.sent.len()
            invariant
                index <= self.sent@.len(),
                is_late == (|entry: SentBarrier| is_overdue(entry, now, deadline_ticks)),
                pair == (|entry: SentBarrier| (entry.id, entry.sent_clock)),
                late@ == self.sent@.take(index as int).filter(is_late).map_values(pair),
            decreases self.sent@.len() - index,
        {
            let entry = self.sent[index];
            assert(self.sent@.take(index + 1) =~= self.sent@.take(index as int).push(entry));
            proof {
                self.sent@.take(index as int).lemma_filter_push(entry, is_late);
            }
            if entry.sent_clock.saturating_add(deadline_ticks) < now {
                late.push((entry.id, entry.sent_clock));
            }
            assert(late@ =~= self.sent@.take(index + 1).filter(is_late).map_values(pair));
            index += 1;
        }
        assert(self.sent@.take(index as int) =~= self.sent@);
        late
    }

    fn acked_oids(&self) -> (oids: Vec<u32>)
        ensures
            crate::sorted::lists_in_order(oids@, self@.acked_oids()),
    {
        let mut oids: Vec<u32> = Vec::new();
        for oid in keys: self.sequences.keys()
            invariant
                crate::sorted::strictly_increasing(oids@),
                keys.seq().unref().to_set() == self@.lanes.dom(),
                forall|x: u32| oids@.contains(x) <==> self@.acked_oids().contains(x) && exists|
                    i: int,
                | 0 <= i < keys.index() && *(#[trigger] keys.seq()[i]) == x,
        {
            let ghost place = keys.index();
            assert(keys.seq().unref()[place] == *oid);
            assert(keys.seq().unref().contains(*oid));
            assert(self@.lanes.dom().contains(*oid));
            if let Some(lane) = self.lane_of(*oid) {
                if lane.acked.is_some() {
                    insert_in_order(&mut oids, *oid);
                }
            }
        }
        oids
    }

    /// A line for diagnostics: the high-water mark of every acked oid.
    pub fn ledger_line(&self) -> (line: String)
        ensures
            exists|oids: Seq<u32>|
                #[trigger] crate::sorted::lists_in_order(oids, self@.acked_oids()) && line@
                    == ledger_text(self@, oids),
    {
        let oids = self.acked_oids();
        if oids.len() == 0 {
            return "no barrier acks recorded".to_owned();
        }
        let mut parts: Vec<String> = Vec::new();
        let mut index: usize = 0;
        let ghost of_oid = |oid: u32| acked_text(oid, self@.lanes[oid].acked->0);
        while index < oids.len()
            invariant
                index <= oids@.len(),
                crate::sorted::lists_in_order(oids@, self@.acked_oids()),
                of_oid == (|oid: u32| acked_text(oid, self@.lanes[oid].acked->0)),
                crate::text::texts(parts@) == oids@.take(index as int).map_values(of_oid),
            decreases oids@.len() - index,
        {
            let oid: u32 = oids[index];
            assert(oids@.contains(oid));
            let mut part = "oid ".to_owned();
            append_decimal(&mut part, oid as u64);
            part.append(" acked ");
            if let Some(lane) = self.lane_of(oid) {
                if let Some(seq) = lane.acked {
                    append_decimal(&mut part, seq as u64);
                }
            }
            assert(part@ =~= of_oid(oid));
            let ghost listed = crate::text::texts(parts@);
            parts.push(part);
            assert(crate::text::texts(parts@) =~= listed.push(of_oid(oid)));
            assert(oids@.take(index + 1).map_values(of_oid) =~= listed.push(of_oid(oid)));
            index += 1;
        }
        assert(oids@.take(index as int) =~= oids@);
        join(&parts, ", ")
    }
}

/// No number is after itself, and no two numbers are each after the other.
pub proof fn law_modular_order_is_strict(a: u32, b: u32)
    ensures
        !seq_after(a, a),
        !(seq_after(a, b) && seq_after(b, a)),
        seq_after(a, b) || seq_after(b, a) || a == b || seq_distance(a, b) == 0x8000_0000,
{
}

/// The order survives the wrap: the next number is always after its predecessor.
pub proof fn law_next_number_is_after(seq: u32)
    ensures
        seq_after(seq_next(seq), seq),
        seq_covers(seq_next(seq), seq),
{
}

/// Issuing on one oid hands out consecutive numbers, starting at the seed, and
/// leaves every other oid alone.
pub proof fn law_receipts_are_consecutive_per_oid(state: LedgerView, oid: u32, other: u32)
    requires
        other != oid,
    ensures
        !state.lanes.contains_key(oid) ==> state.lane(oid).next == state.seed,
        state.issued(oid).lane(oid).next == seq_next(state.lane(oid).next),
        state.issued(oid).lane(other) == state.lane(other),
        state.issued(oid).sent == state.sent,
{
}

/// An adopted ack answers for every earlier receipt of its oid and clears
/// exactly those from what is owed; it is never adopted twice.
pub proof fn law_ack_covers_earlier_receipts(state: LedgerView, oid: u32, seq: u32, earlier: u32)
    requires
        state.ack_outcome(oid, seq) is Ok,
        seq_covers(seq, earlier),
    ensures
        state.after_ack(oid, seq).is_acked(BarrierId { oid, seq: earlier }),
        !state.after_ack(oid, seq).has_entry(BarrierId { oid, seq: earlier }),
        state.after_ack(oid, seq).ack_outcome(oid, seq) == Err::<(), AckFault>(
            AckFault::Regressed { high_water: seq },
        ),
{
    let after = state.after_ack(oid, seq);
    let keep = |entry: SentBarrier| !(entry.id.oid == oid && seq_covers(seq, entry.id.seq));
    assert forall|i: int| 0 <= i < after.sent.len() implies (#[trigger] after.sent[i]).id
        != (BarrierId { oid, seq: earlier }) by {
        state.sent.lemma_filter_pred(keep, i);
    }
}

/// An ack never touches another oid: neither its mark nor its sent receipts.
pub proof fn law_ack_leaves_other_oids_alone(state: LedgerView, oid: u32, seq: u32, other: u32)
    requires
        other != oid,
    ensures
        state.after_ack(oid, seq).lane(other) == state.lane(other),
        forall|i: int|
            0 <= i < state.sent.len() && (#[trigger] state.sent[i]).id.oid == other
                ==> state.after_ack(oid, seq).sent.contains(state.sent[i]),
{
    let keep = |entry: SentBarrier| !(entry.id.oid == oid && seq_covers(seq, entry.id.seq));
    assert forall|i: int|
        0 <= i < state.sent.len() && (#[trigger] state.sent[i]).id.oid == other implies state.after_ack(
        oid,
        seq,
    ).sent.contains(state.sent[i]) by {
        state.sent.lemma_filter_contains(keep, i);
    }
}

/// A rejected ack changes nothing, ordered or not.
pub proof fn law_rejected_ack_changes_nothing(state: LedgerView, oid: u32, seq: u32)
    ensures
        state.ack_outcome(oid, seq) is Err ==> state.after_ack(oid, seq) == state,
        state.ordered_ack_outcome(oid, seq) != Ok::<bool, AckFault>(true)
            ==> state.after_ordered_ack(oid, seq) == state,
{
}

/// An ordered ack moves the mark by exactly one receipt, and repeating it is a
/// replay that is ignored.
pub proof fn law_ordered_acks_advance_one_by_one(state: LedgerView, oid: u32, seq: u32)
    requires
        state.ordered_ack_outcome(oid, seq) == Ok::<bool, AckFault>(true),
    ensures
        seq == state.expected_ack(oid),
        state.after_ordered_ack(oid, seq).expected_ack(oid) == seq_next(seq),
        state.after_ordered_ack(oid, seq).is_acked(BarrierId { oid, seq }),
        state.after_ordered_ack(oid, seq).ordered_ack_outcome(oid, seq) == Ok::<bool, AckFault>(
            false,
        ),
{
}

/// An ordered ack that skips a receipt is refused and covers nothing.
pub proof fn law_ordered_acks_never_skip(state: LedgerView, oid: u32, seq: u32)
    requires
        state.lanes.contains_key(oid),
        seq_after(seq, state.expected_ack(oid)),
        seq_after(state.lanes[oid].next, seq),
    ensures
        state.ordered_ack_outcome(oid, seq) == Err::<bool, AckFault>(
            AckFault::OutOfOrder { expected: state.expected_ack(oid) },
        ),
        state.after_ordered_ack(oid, seq) == state,
{
}

/// Cancelling covers the receipt, keeps what was sent and never reuses a number.
/// Two numbers exactly half the range apart are ordered neither way, and there
/// the mark stays where it was.
pub proof fn law_cancellation_covers_without_reuse(state: LedgerView, id: BarrierId)
    requires
        state.lanes.contains_key(id.oid),
        state.lanes[id.oid].acked matches Some(high_water) ==> seq_distance(id.seq, high_water)
            != 0x8000_0000,
    ensures
        state.cancelled(id).is_acked(id),
        state.cancelled(id).sent == state.sent,
        state.cancelled(id).lane(id.oid).next == state.lane(id.oid).next,
{
}

/// Pruning is exact: what stays is owed, and nothing owed is dropped.
pub proof fn law_pruning_keeps_exactly_the_owed(state: LedgerView)
    ensures
        forall|i: int|
            0 <= i < state.pruned().sent.len() ==> !state.is_acked(
                (#[trigger] state.pruned().sent[i]).id,
            ),
        forall|i: int|
            0 <= i < state.sent.len() && !state.is_acked((#[trigger] state.sent[i]).id)
                ==> state.pruned().sent.contains(state.sent[i]),
        state.pruned().lanes == state.lanes,
{
    let keep = |entry: SentBarrier| !state.is_acked(entry.id);
    assert forall|i: int| 0 <= i < state.pruned().sent.len() implies !state.is_acked(
        (#[trigger] state.pruned().sent[i]).id,
    ) by {
        state.sent.lemma_filter_pred(keep, i);
    }
    assert forall|i: int|
        0 <= i < state.sent.len() && !state.is_acked((#[trigger] state.sent[i]).id) implies state.pruned().sent.contains(
    state.sent[i]) by {
        state.sent.lemma_filter_contains(keep, i);
    }
}

/// A number is after another where it lies less than half the range ahead of it, whatever
/// the wrap; covering adds only the number itself, and the next number is one ahead.
pub proof fn law_order_is_by_distance_modulo_the_range(a: u32, b: u32)
    ensures
        seq_after(a, b) <==> 0 < (a - b) % 0x1_0000_0000 < 0x8000_0000,
        seq_covers(a, b) <==> (a - b) % 0x1_0000_0000 < 0x8000_0000,
        seq_next(a) == (a + 1) % 0x1_0000_0000,
{
}

/// A seed keeps every bit of the clock's low word but the lowest, which is set.
pub proof fn law_seed_is_the_low_word_made_odd(nanos: u128, seed: u32)
    requires
        call_ensures(barrier_seq_seed_from_nanos, (nanos,), seed),
    ensures
        seed % 2 == 1,
        seed / 2 == (nanos % 0x1_0000_0000) / 2,
{
}

/// An ack is adopted exactly where its oid has receipts, the acked one was issued, and it
/// lies beyond the mark, if there is one. Else it is refused for the first of these that
/// fails, and the refusal names what it was held against.
pub proof fn law_only_issued_and_newer_acks_are_adopted(state: LedgerView, oid: u32, seq: u32)
    ensures
        ({
            let outcome = state.ack_outcome(oid, seq);
            let lane = state.lanes[oid];
            let ahead_of_issue = (lane.next - seq) % 0x1_0000_0000;
            let ahead_of_mark = (seq - lane.acked->0) % 0x1_0000_0000;
            let issued = 0 < ahead_of_issue < 0x8000_0000;
            let newer = lane.acked is None || 0 < ahead_of_mark < 0x8000_0000;
            &&& !state.lanes.contains_key(oid) ==> outcome == Err::<(), AckFault>(AckFault::Unknown)
            &&& state.lanes.contains_key(oid) ==> {
                &&& outcome is Ok <==> issued && newer
                &&& !issued ==> outcome == Err::<(), AckFault>(
                    AckFault::Unissued { issued: lane.next },
                )
                &&& issued && !newer ==> outcome == Err::<(), AckFault>(
                    AckFault::Regressed { high_water: lane.acked->0 },
                )
            }
        }),
{
}

/// An adopted ack stands as its oid's mark and answers for nothing beyond it: receipts after
/// it stay owed, and what is sent of them is kept.
pub proof fn law_ack_leaves_later_receipts_owed(
    state: LedgerView,
    oid: u32,
    seq: u32,
    later: SentBarrier,
)
    requires
        state.ack_outcome(oid, seq) is Ok,
        later.id.oid == oid,
        0 < (later.id.seq - seq) % 0x1_0000_0000 < 0x8000_0000,
    ensures
        state.after_ack(oid, seq).lanes[oid].acked == Some(seq),
        state.after_ack(oid, seq).lanes[oid].next == state.lanes[oid].next,
        state.after_ack(oid, seq).seed == state.seed,
        !state.after_ack(oid, seq).is_acked(later.id),
        state.sent.contains(later) ==> state.after_ack(oid, seq).sent.contains(later),
{
    let keep = |entry: SentBarrier| !(entry.id.oid == oid && seq_covers(seq, entry.id.seq));
    if state.sent.contains(later) {
        let i = choose|i: int| 0 <= i < state.sent.len() && state.sent[i] == later;
        assert(keep(state.sent[i]));
        state.sent.lemma_filter_contains(keep, i);
    }
}

/// In order, the one receipt that may be acked is the one after the mark, or the seed before
/// any. One before it is a replay and ignored; one that was never issued, or comes too early,
/// is refused.
pub proof fn law_ordered_ack_is_the_one_after_the_mark(state: LedgerView, oid: u32, seq: u32)
    requires
        state.lanes.contains_key(oid),
    ensures
        ({
            let outcome = state.ordered_ack_outcome(oid, seq);
            let expected = match state.lanes[oid].acked {
                Some(mark) => (mark + 1) % 0x1_0000_0000,
                None => state.seed as int,
            };
            let replay = 0 < (expected - seq) % 0x1_0000_0000 < 0x8000_0000;
            let issued = 0 < (state.lanes[oid].next - seq) % 0x1_0000_0000 < 0x8000_0000;
            &&& state.expected_ack(oid) == expected
            &&& outcome == Ok::<bool, AckFault>(true) <==> seq == expected && issued
            &&& outcome == Ok::<bool, AckFault>(false) <==> replay
            &&& !replay && !issued ==> outcome == Err::<bool, AckFault>(
                AckFault::Unissued { issued: state.lanes[oid].next },
            )
        }),
{
}

/// Only an oid with receipts is acked in order, and an adopted one is its oid's mark; no other
/// oid's mark moves.
pub proof fn law_ordered_ack_marks_its_own_oid(state: LedgerView, oid: u32, seq: u32, other: u32)
    requires
        other != oid,
    ensures
        !state.lanes.contains_key(oid) ==> state.ordered_ack_outcome(oid, seq) == Err::<
            bool,
            AckFault,
        >(AckFault::Unknown),
        state.ordered_ack_outcome(oid, seq) == Ok::<bool, AckFault>(true) ==> {
            &&& state.after_ordered_ack(oid, seq).lanes[oid].acked == Some(seq)
            &&& state.after_ordered_ack(oid, seq).lanes[oid].next == state.lanes[oid].next
        },
        state.after_ordered_ack(oid, seq).lane(other) == state.lane(other),
{
}

/// A receipt is acked exactly where its oid has a mark and the mark is the receipt or lies
/// less than half the range beyond it.
pub proof fn law_mark_answers_for_what_lies_behind_it(state: LedgerView, id: BarrierId)
    ensures
        !state.lanes.contains_key(id.oid) ==> !state.is_acked(id),
        state.lanes.contains_key(id.oid) && state.lanes[id.oid].acked is None ==> !state.is_acked(
            id,
        ),
        state.lanes.contains_key(id.oid) && state.lanes[id.oid].acked is Some ==> (state.is_acked(
            id,
        ) <==> (state.lanes[id.oid].acked->0 - id.seq) % 0x1_0000_0000 < 0x8000_0000),
{
}

/// Cancelling moves the mark of the receipt's oid up to it and never back, and no other
/// oid's.
pub proof fn law_cancellation_never_moves_the_mark_back(
    state: LedgerView,
    id: BarrierId,
    other: u32,
)
    requires
        state.lanes.contains_key(id.oid),
        other != id.oid,
    ensures
        ({
            let after = state.cancelled(id);
            let before = state.lanes[id.oid].acked;
            &&& before is None ==> after.lanes[id.oid].acked == Some(id.seq)
            &&& before is Some && 0 < (id.seq - before->0) % 0x1_0000_0000 < 0x8000_0000
                ==> after.lanes[id.oid].acked == Some(id.seq)
            &&& before is Some && !(0 < (id.seq - before->0) % 0x1_0000_0000 < 0x8000_0000)
                ==> after.lanes[id.oid].acked == before
            &&& after.lane(other) == state.lane(other)
        }),
{
}

/// A receipt is overdue exactly where more ticks than the deadline have passed since it left.
pub proof fn law_overdue_is_longer_than_the_deadline(
    entry: SentBarrier,
    now: u64,
    deadline_ticks: u64,
)
    ensures
        is_overdue(entry, now, deadline_ticks) <==> now - entry.sent_clock > deadline_ticks,
{
}

/// The clock of a sent receipt is that of its first entry.
pub proof fn law_sent_clock_is_of_the_first_entry(
    state: LedgerView,
    id: BarrierId,
    index: int,
    earlier: int,
)
    requires
        state.first_sent(id, index),
    ensures
        state.sent[index].id == id,
        state.has_entry(id),
        0 <= earlier < index ==> state.sent[earlier].id != id,
{
}

/// Fresh from its seed a ledger has issued nothing, and the first receipt of any oid is the
/// seed, the next one after it.
pub proof fn law_first_receipt_is_the_seed(seed: u32, oid: u32)
    ensures
        LedgerView::empty(seed).seed == seed,
        LedgerView::empty(seed).sent.len() == 0,
        LedgerView::empty(seed).lane(oid).next == seed,
        LedgerView::empty(seed).lane(oid).acked is None,
        LedgerView::empty(seed).issued(oid).lane(oid).next == (seed + 1) % 0x1_0000_0000,
        LedgerView::empty(seed).issued(oid).lane(oid).acked is None,
{
}

/// The line names exactly the oids that have an ack.
pub proof fn law_line_names_the_acked_oids(state: LedgerView, oid: u32)
    ensures
        state.acked_oids().contains(oid) <==> state.lanes.contains_key(oid)
            && state.lanes[oid].acked is Some,
{
}

/// Numbers are ordered by the shorter way round, and a mark answers for its own number and for
/// those behind it.
pub proof fn law_receipts_are_told_apart_by_their_distance(
    candidate: u32,
    reference: u32,
    after: bool,
    before: bool,
    covers: bool,
)
    requires
        call_ensures(barrier_seq_after, (candidate, reference), after),
        call_ensures(barrier_seq_before, (candidate, reference), before),
        call_ensures(barrier_seq_covers, (candidate, reference), covers),
    ensures
        after <==> 0 < (candidate - reference) % 0x1_0000_0000 < 0x8000_0000,
        before <==> 0 < (reference - candidate) % 0x1_0000_0000 < 0x8000_0000,
        covers <==> (candidate - reference) % 0x1_0000_0000 < 0x8000_0000,
        !(after && before),
{
    law_order_is_by_distance_modulo_the_range(candidate, reference);
    law_order_is_by_distance_modulo_the_range(reference, candidate);
}

/// A ledger starts with its seed, without a lane and with nothing sent; the seed it takes
/// itself is odd.
pub proof fn law_ledger_starts_empty(
    seed: u32,
    seeded: BarrierLedger,
    fresh: BarrierLedger,
    lanes: usize,
    roomy: BarrierLedger,
    drawn: u32,
    oid: u32,
)
    requires
        call_ensures(BarrierLedger::with_seed, (seed,), seeded),
        call_ensures(BarrierLedger::new, (), fresh),
        call_ensures(BarrierLedger::with_capacity, (lanes,), roomy),
        call_ensures(barrier_seq_seed, (), drawn),
    ensures
        seeded@.seed == seed,
        seeded@.sent.len() == 0 && fresh@.sent.len() == 0 && roomy@.sent.len() == 0,
        !seeded@.lanes.contains_key(oid),
        !fresh@.lanes.contains_key(oid),
        !roomy@.lanes.contains_key(oid),
        fresh@.seed % 2 == 1 && roomy@.seed % 2 == 1 && drawn % 2 == 1,
{
}

/// The number that is issued is the one after the last, the seed at first; other oids keep
/// theirs, and what was sent and acked stays.
pub proof fn law_issued_numbers_follow_each_other(
    ledger: &mut BarrierLedger,
    oid: u32,
    id: BarrierId,
    other: u32,
)
    requires
        call_ensures(BarrierLedger::issue, (ledger, oid), id),
        other != oid,
    ensures
        id.oid == oid,
        !old(ledger)@.lanes.contains_key(oid) ==> id.seq == old(ledger)@.seed,
        old(ledger)@.lanes.contains_key(oid) ==> id.seq == old(ledger)@.lanes[oid].next,
        final(ledger)@.lanes.contains_key(oid),
        final(ledger)@.lanes[oid].next == (id.seq + 1) % 0x1_0000_0000,
        old(ledger)@.lanes.contains_key(oid) ==> final(ledger)@.lanes[oid].acked == old(ledger)@.lanes[oid].acked,
        final(ledger)@.lanes.contains_key(other) <==> old(ledger)@.lanes.contains_key(other),
        old(ledger)@.lanes.contains_key(other) ==> final(ledger)@.lanes[other] == old(ledger)@.lanes[other],
        final(ledger)@.sent == old(ledger)@.sent,
        final(ledger)@.seed == old(ledger)@.seed,
{
}

/// An ack is adopted exactly where its number was issued and lies beyond the mark; the mark is
/// then there. Any other ack is told as a fault and changes nothing.
pub proof fn law_adopted_ack_moves_the_mark(
    ledger: &mut BarrierLedger,
    oid: u32,
    seq: u32,
    outcome: Result<(), AckFault>,
)
    requires
        call_ensures(BarrierLedger::record_ack, (ledger, oid, seq), outcome),
    ensures
        outcome is Ok <==> old(ledger)@.lanes.contains_key(oid) && 0 < (old(ledger)@.lanes[oid].next - seq) % 0x1_0000_0000 < 0x8000_0000 && (old(ledger)@.lanes[oid].acked matches Some(mark) ==> 0 < (seq - mark) % 0x1_0000_0000 < 0x8000_0000),
        outcome is Ok ==> final(ledger)@.lanes[oid].acked == Some(seq),
        outcome is Err ==> final(ledger)@ == old(ledger)@,
        !old(ledger)@.lanes.contains_key(oid) ==> outcome == Err::<(), AckFault>(
            AckFault::Unknown,
        ),
{
    if old(ledger)@.lanes.contains_key(oid) {
        law_order_is_by_distance_modulo_the_range(old(ledger)@.lanes[oid].next, seq);
        if let Some(mark) = old(ledger)@.lanes[oid].acked {
            law_order_is_by_distance_modulo_the_range(seq, mark);
        }
    }
}

/// A barrier counts as acked exactly where the mark of its oid answers for it; what is noted as
/// sent goes last, what is forgotten is of its oid, and what is cleared is everything.
pub proof fn law_sent_barriers_are_kept_in_order(
    asked: BarrierLedger,
    id: BarrierId,
    acked: bool,
    any: bool,
    noted: &mut BarrierLedger,
    sent_clock: u64,
    forgotten: &mut BarrierLedger,
    oid: u32,
    cleared: &mut BarrierLedger,
    entry: SentBarrier,
)
    requires
        call_ensures(BarrierLedger::is_acked, (&asked, id), acked),
        call_ensures(BarrierLedger::has_sent, (&asked,), any),
        call_ensures(BarrierLedger::note_sent, (noted, id, sent_clock), ()),
        call_ensures(BarrierLedger::forget_sent, (forgotten, oid), ()),
        call_ensures(BarrierLedger::clear_sent, (cleared,), ()),
    ensures
        acked <==> asked@.lanes.contains_key(id.oid) && asked@.lanes[id.oid].acked is Some && (
        asked@.lanes[id.oid].acked->0 - id.seq) % 0x1_0000_0000 < 0x8000_0000,
        any <==> asked@.sent.len() > 0,
        final(noted)@.sent.len() == old(noted)@.sent.len() + 1,
        final(noted)@.sent.last().id == id && final(noted)@.sent.last().sent_clock == sent_clock,
        final(noted)@.sent.drop_last() == old(noted)@.sent,
        final(noted)@.lanes == old(noted)@.lanes,
        final(forgotten)@.sent.contains(entry) <==> old(forgotten)@.sent.contains(entry)
            && entry.id.oid != oid,
        final(forgotten)@.lanes == old(forgotten)@.lanes,
        final(cleared)@.sent.len() == 0,
        final(cleared)@.lanes == old(cleared)@.lanes,
{
    if asked@.lanes.contains_key(id.oid) && asked@.lanes[id.oid].acked is Some {
        law_order_is_by_distance_modulo_the_range(asked@.lanes[id.oid].acked->0, id.seq);
    }
    assert(final(noted)@.sent.drop_last() =~= old(noted)@.sent);
    let keep = |kept: SentBarrier| kept.id.oid != oid;
    let before = old(forgotten)@.sent;
    if before.contains(entry) && entry.id.oid != oid {
        before.lemma_filter_contains(keep, before.index_of(entry));
    }
    if before.filter(keep).contains(entry) {
        before.lemma_filter_contains_rev(keep, entry);
    }
}

/// Pruning keeps exactly what is still owed, and changes no mark; overdue is what was sent
/// longer ago than the deadline.
pub proof fn law_pruned_ledger_holds_what_is_owed(
    pruned: &mut BarrierLedger,
    asked: BarrierLedger,
    now: u64,
    deadline_ticks: u64,
    late: Vec<(BarrierId, u64)>,
    entry: SentBarrier,
)
    requires
        call_ensures(BarrierLedger::prune_acked, (pruned,), ()),
        call_ensures(BarrierLedger::overdue, (&asked, now, deadline_ticks), late),
    ensures
        final(pruned)@.lanes == old(pruned)@.lanes,
        final(pruned)@.sent.contains(entry) <==> old(pruned)@.sent.contains(entry) && !old(pruned)@.is_acked(entry.id),
        late@.contains((entry.id, entry.sent_clock)) <==> asked@.sent.contains(entry) && now
            > entry.sent_clock + deadline_ticks,
{
    let keep = |kept: SentBarrier| !old(pruned)@.is_acked(kept.id);
    let before = old(pruned)@.sent;
    assert(final(pruned)@.sent == before.filter(keep));
    if before.contains(entry) && keep(entry) {
        before.lemma_filter_contains(keep, before.index_of(entry));
    }
    if before.filter(keep).contains(entry) {
        before.lemma_filter_contains_rev(keep, entry);
    }
    let is_late = |kept: SentBarrier| is_overdue(kept, now, deadline_ticks);
    let pair = |kept: SentBarrier| (kept.id, kept.sent_clock);
    let owed = asked@.sent.filter(is_late);
    assert(late@ == owed.map_values(pair));
    law_overdue_is_longer_than_the_deadline(entry, now, deadline_ticks);
    if asked@.sent.contains(entry) && is_late(entry) {
        asked@.sent.lemma_filter_contains(is_late, asked@.sent.index_of(entry));
        let at = owed.index_of(entry);
        assert(owed[at] == entry);
        assert(late@[at] == (entry.id, entry.sent_clock));
    }
    if late@.contains((entry.id, entry.sent_clock)) {
        let at = late@.index_of((entry.id, entry.sent_clock));
        assert(late@[at] == pair(owed[at]));
        assert(owed[at] == entry);
        assert(owed.contains(owed[at]));
        asked@.sent.lemma_filter_contains_rev(is_late, entry);
    }
}

/// Cancelling a barrier marks its own oid alone, and never takes the mark back.
pub proof fn law_cancelled_barrier_marks_its_oid(
    ledger: &mut BarrierLedger,
    id: BarrierId,
    other: u32,
)
    requires
        old(ledger)@.lanes.contains_key(id.oid),
        call_ensures(BarrierLedger::cancel, (ledger, id), ()),
        other != id.oid,
    ensures
        final(ledger)@.lanes[id.oid].acked is Some,
        final(ledger)@.lanes[id.oid].acked == Some(id.seq) || final(ledger)@.lanes[id.oid].acked
            == old(ledger)@.lanes[id.oid].acked,
        old(ledger)@.lanes[id.oid].acked is None ==> final(ledger)@.lanes[id.oid].acked == Some(
            id.seq,
        ),
        final(ledger)@.lanes[id.oid].next == old(ledger)@.lanes[id.oid].next,
        final(ledger)@.lanes.contains_key(other) <==> old(ledger)@.lanes.contains_key(other),
        old(ledger)@.lanes.contains_key(other) ==> final(ledger)@.lanes[other] == old(ledger)@.lanes[other],
        final(ledger)@.sent == old(ledger)@.sent,
{
}

} // verus!
