//! Accounting for accepted work across independently reporting execution sources.
//!
//! Consumption releases input storage; retirement confirms execution. Interruption
//! abandons unfinished work without counting it as executed. All counts use the
//! same caller-defined work unit and wrap modulo `2^32`.
//!
//! This component owns no queue, clock, transport, or execution policy. The caller
//! commits acceptance after its backend accepts work and supplies absolute source
//! reports and interruption receipts.

use vstd::array::array_fill_for_copy_types;
use vstd::prelude::*;

verus! {

/// Absolute consumed and executed odometers for one source.
#[derive(Debug, Clone, Copy, PartialEq, Eq, Structural)]
pub struct Progress {
    pub consumed: u32,
    pub retired: u32,
}

impl Default for Progress {
    fn default() -> (progress: Self)
        ensures
            progress == (Progress { consumed: 0, retired: 0 }),
    {
        Progress { consumed: 0, retired: 0 }
    }
}

/// Source odometers immediately before and after discarding interrupted work.
///
/// The `after - before` jump is not credited as consumed or executed work.
/// Each receipt must be supplied exactly once.
#[derive(Debug, Clone, Copy, PartialEq, Eq, Structural)]
pub struct Cut {
    pub source: usize,
    pub before: Progress,
    pub after: Progress,
}

/// Logical totals, independent of source odometer jumps.
///
/// `pushed` counts accepted work; `retired` counts executed work.
/// `abandoned` counts accepted work discarded without execution, with
/// `abandoned_unconsumed` tracking the portion discarded before consumption.
#[derive(Debug, Clone, Copy, PartialEq, Eq, Structural)]
pub struct Snapshot {
    pub pushed: u32,
    pub consumed: u32,
    pub retired: u32,
    pub abandoned_unconsumed: u32,
    pub abandoned: u32,
}

impl Default for Snapshot {
    fn default() -> (snapshot: Self)
        ensures
            snapshot == (Snapshot {
                pushed: 0,
                consumed: 0,
                retired: 0,
                abandoned_unconsumed: 0,
                abandoned: 0,
            }),
    {
        Snapshot { pushed: 0, consumed: 0, retired: 0, abandoned_unconsumed: 0, abandoned: 0 }
    }
}

/// What one source has reported so far, and whether it was ever cut.
#[derive(Debug, Clone, Copy, PartialEq, Eq, Structural)]
pub struct SourceCredit {
    pub progress: Progress,
    pub has_cut: bool,
}

/// The sum of two counts, modulo `2^32`.
pub open spec fn wrap_sum(a: u32, b: u32) -> u32 {
    if a + b < 0x1_0000_0000 {
        (a + b) as u32
    } else {
        (a + b - 0x1_0000_0000) as u32
    }
}

/// The distance from `b` forward to `a`, modulo `2^32`.
pub open spec fn wrap_diff(a: u32, b: u32) -> u32 {
    if a >= b {
        (a - b) as u32
    } else {
        (a - b + 0x1_0000_0000) as u32
    }
}

/// The largest advance a source that was cut may report in one step.
pub open spec fn half_range() -> int {
    0x7fff_ffff
}

/// Whether a report that moves an odometer from `from` to `to` counts: always
/// before the source's first cut, and afterwards only as a forward step.
pub open spec fn credible(has_cut: bool, from: u32, to: u32) -> bool {
    !has_cut || wrap_diff(to, from) <= half_range()
}

/// One odometer after a report: the reported value when credible, else unchanged.
pub open spec fn odometer_after(has_cut: bool, from: u32, to: u32) -> u32 {
    if credible(has_cut, from, to) {
        to
    } else {
        from
    }
}

/// One logical total after a report: it moves exactly as far as the odometer.
pub open spec fn total_after(total: u32, has_cut: bool, from: u32, to: u32) -> u32 {
    wrap_sum(total, wrap_diff(odometer_after(has_cut, from, to), from))
}

/// The logical state of the accounting.
#[verifier::ext_equal]
pub struct CreditView {
    pub totals: Snapshot,
    pub sources: Seq<SourceCredit>,
}

impl CreditView {
    pub open spec fn initial(sources: nat) -> CreditView {
        CreditView {
            totals: Snapshot {
                pushed: 0,
                consumed: 0,
                retired: 0,
                abandoned_unconsumed: 0,
                abandoned: 0,
            },
            sources: Seq::new(
                sources,
                |i: int|
                    SourceCredit {
                        progress: Progress { consumed: 0, retired: 0 },
                        has_cut: false,
                    },
            ),
        }
    }

    /// The state after `count` more units are accepted.
    pub open spec fn accepted(self, count: u32) -> CreditView {
        CreditView {
            totals: Snapshot {
                pushed: wrap_sum(self.totals.pushed, count),
                ..self.totals
            },
            ..self
        }
    }

    /// The state after `source` reports `progress`.
    pub open spec fn observed(self, source: int, progress: Progress) -> CreditView {
        let credit = self.sources[source];
        CreditView {
            totals: Snapshot {
                consumed: total_after(
                    self.totals.consumed,
                    credit.has_cut,
                    credit.progress.consumed,
                    progress.consumed,
                ),
                retired: total_after(
                    self.totals.retired,
                    credit.has_cut,
                    credit.progress.retired,
                    progress.retired,
                ),
                ..self.totals
            },
            sources: self.sources.update(
                source,
                SourceCredit {
                    progress: Progress {
                        consumed: odometer_after(
                            credit.has_cut,
                            credit.progress.consumed,
                            progress.consumed,
                        ),
                        retired: odometer_after(
                            credit.has_cut,
                            credit.progress.retired,
                            progress.retired,
                        ),
                    },
                    has_cut: credit.has_cut,
                },
            ),
        }
    }

    /// The state after one receipt: its `before` report is observed, then the
    /// baselines jump by `after - before` while the totals stay put.
    pub open spec fn reconciled(self, cut: Cut) -> CreditView {
        let seen = self.observed(cut.source as int, cut.before);
        let credit = seen.sources[cut.source as int];
        CreditView {
            sources: seen.sources.update(
                cut.source as int,
                SourceCredit {
                    progress: Progress {
                        consumed: wrap_sum(
                            credit.progress.consumed,
                            wrap_diff(cut.after.consumed, cut.before.consumed),
                        ),
                        retired: wrap_sum(
                            credit.progress.retired,
                            wrap_diff(cut.after.retired, cut.before.retired),
                        ),
                    },
                    has_cut: true,
                },
            ),
            ..seen
        }
    }

    /// The state after every receipt of one interruption, in order.
    pub open spec fn reconciled_all(self, cuts: Seq<Cut>) -> CreditView
        decreases cuts.len(),
    {
        if cuts.len() == 0 {
            self
        } else {
            self.reconciled_all(cuts.drop_last()).reconciled(cuts.last())
        }
    }

    /// Accepted work neither executed nor abandoned.
    pub open spec fn outstanding(self) -> u32 {
        wrap_diff(wrap_diff(self.totals.pushed, self.totals.retired), self.totals.abandoned)
    }

    /// Accepted work still awaiting consumption, excluding abandoned input.
    pub open spec fn awaiting_consumption(self) -> u32 {
        wrap_diff(
            wrap_diff(self.totals.pushed, self.totals.consumed),
            self.totals.abandoned_unconsumed,
        )
    }

    /// The state once all outstanding work is given up.
    pub open spec fn closed_out(self) -> CreditView {
        CreditView {
            totals: Snapshot {
                abandoned: wrap_sum(self.totals.abandoned, self.outstanding()),
                abandoned_unconsumed: wrap_diff(self.totals.pushed, self.totals.consumed),
                ..self.totals
            },
            ..self
        }
    }

    /// The state after one whole interruption.
    pub open spec fn interrupted(self, cuts: Seq<Cut>) -> CreditView {
        self.reconciled_all(cuts).closed_out()
    }
}

/// Every receipt names one of `sources` sources.
pub open spec fn cuts_in_range(cuts: Seq<Cut>, sources: int) -> bool {
    forall|i: int| 0 <= i < cuts.len() ==> (#[trigger] cuts[i]).source < sources
}

/// Allocation-free accounting with private state and a fixed number of sources.
#[derive(Debug)]
pub struct ExecutionCredit<const SOURCES: usize> {
    totals: Snapshot,
    sources: [SourceCredit; SOURCES],
}

impl<const SOURCES: usize> View for ExecutionCredit<SOURCES> {
    type V = CreditView;

    closed spec fn view(&self) -> CreditView {
        CreditView { totals: self.totals, sources: self.sources@ }
    }
}

/// The accounting always has an entry for each of its sources, however it came about.
pub proof fn law_every_source_is_counted<const SOURCES: usize>(credit: &ExecutionCredit<SOURCES>)
    ensures
        credit@.sources.len() == SOURCES,
{
}

impl<const SOURCES: usize> Default for ExecutionCredit<SOURCES> {
    fn default() -> (credit: Self)
        ensures
            credit@ == CreditView::initial(SOURCES as nat),
    {
        Self::new()
    }
}

impl<const SOURCES: usize> ExecutionCredit<SOURCES> {
    pub fn new() -> (credit: Self)
        ensures
            credit@ == CreditView::initial(SOURCES as nat),
    {
        let source = SourceCredit {
            progress: Progress { consumed: 0, retired: 0 },
            has_cut: false,
        };
        let credit = Self {
            totals: Snapshot {
                pushed: 0,
                consumed: 0,
                retired: 0,
                abandoned_unconsumed: 0,
                abandoned: 0,
            },
            sources: array_fill_for_copy_types(source),
        };
        assert(credit@.sources =~= CreditView::initial(SOURCES as nat).sources);
        credit
    }

    /// Returns a copy of the current logical totals.
    pub fn snapshot(&self) -> (totals: Snapshot)
        ensures
            totals == self@.totals,
    {
        self.totals
    }

    /// Previews the accepted head without committing acceptance.
    pub fn accepted_head(&self, additional: u32) -> (head: u32)
        ensures
            head == self@.accepted(additional).totals.pushed,
    {
        self.totals.pushed.wrapping_add(additional)
    }

    /// Commits accepted work and returns the new accepted head.
    pub fn accept(&mut self, count: u32) -> (head: u32)
        ensures
            final(self)@ == old(self)@.accepted(count),
            head == final(self)@.totals.pushed,
    {
        self.totals.pushed = self.accepted_head(count);
        self.totals.pushed
    }

    /// Incorporates an absolute report from `source`.
    ///
    /// Before a source's first cut, modular regressions remain observable.
    /// Afterwards, each odometer independently ignores deltas above `u32::MAX / 2`
    /// as stale reports; legitimate advances must fit within that half-range.
    pub fn observe(&mut self, source: usize, progress: Progress)
        requires
            source < SOURCES,
        ensures
            final(self)@ == old(self)@.observed(source as int, progress),
    {
        let mut credit = self.sources[source];
        let consumed_delta: u32 = progress.consumed.wrapping_sub(credit.progress.consumed);
        if !credit.has_cut || consumed_delta <= u32::MAX / 2 {
            self.totals.consumed = self.totals.consumed.wrapping_add(consumed_delta);
            credit.progress.consumed = progress.consumed;
        }
        let retired_delta: u32 = progress.retired.wrapping_sub(credit.progress.retired);
        if !credit.has_cut || retired_delta <= u32::MAX / 2 {
            self.totals.retired = self.totals.retired.wrapping_add(retired_delta);
            credit.progress.retired = progress.retired;
        }
        self.sources[source] = credit;
        assert(self@.sources =~= old(self)@.observed(source as int, progress).sources);
    }

    /// Reconciles every receipt for one interruption, then abandons all outstanding
    /// work and returns the newly abandoned count.
    ///
    /// The caller must already have stopped/discarded the interrupted work and must
    /// supply all receipts together, including those from different sources.
    /// An empty receipt set abandons work without changing source baselines.
    /// Cut jumps advance baselines rather than replacing newer observed reports.
    pub fn interrupt(&mut self, cuts: &[Cut]) -> (abandoned: u32)
        requires
            cuts_in_range(cuts@, SOURCES as int),
        ensures
            abandoned == old(self)@.reconciled_all(cuts@).outstanding(),
            final(self)@ == old(self)@.interrupted(cuts@),
    {
        let mut index: usize = 0;
        while index < cuts.len()
            invariant
                index <= cuts@.len(),
                cuts_in_range(cuts@, SOURCES as int),
                self@ == old(self)@.reconciled_all(cuts@.take(index as int)),
            decreases cuts@.len() - index,
        {
            self.reconcile(cuts[index]);
            assert(cuts@.take(index + 1).drop_last() =~= cuts@.take(index as int));
            index += 1;
        }
        assert(cuts@.take(index as int) =~= cuts@);
        let abandoned: u32 = self.outstanding();
        self.totals.abandoned = self.totals.abandoned.wrapping_add(abandoned);
        self.totals.abandoned_unconsumed = self.totals.pushed.wrapping_sub(self.totals.consumed);
        abandoned
    }

    fn reconcile(&mut self, cut: Cut)
        requires
            cut.source < SOURCES,
        ensures
            final(self)@ == old(self)@.reconciled(cut),
    {
        self.observe(cut.source, cut.before);
        let mut credit = self.sources[cut.source];
        credit.progress.consumed = credit.progress.consumed.wrapping_add(
            cut.after.consumed.wrapping_sub(cut.before.consumed),
        );
        credit.progress.retired = credit.progress.retired.wrapping_add(
            cut.after.retired.wrapping_sub(cut.before.retired),
        );
        credit.has_cut = true;
        self.sources[cut.source] = credit;
        assert(self@.sources =~= old(self)@.reconciled(cut).sources);
    }

    /// Accepted work still awaiting consumption, excluding abandoned input.
    pub fn awaiting_consumption(&self) -> (count: u32)
        ensures
            count == self@.awaiting_consumption(),
    {
        self.totals.pushed.wrapping_sub(self.totals.consumed).wrapping_sub(
            self.totals.abandoned_unconsumed,
        )
    }

    /// Accepted work neither executed nor abandoned.
    pub fn outstanding(&self) -> (count: u32)
        ensures
            count == self@.outstanding(),
    {
        self.totals.pushed.wrapping_sub(self.totals.retired).wrapping_sub(self.totals.abandoned)
    }
}

/// Accepted work is always either executed, abandoned or outstanding.
pub proof fn law_accepted_work_is_conserved(state: CreditView)
    ensures
        state.totals.pushed == wrap_sum(
            wrap_sum(state.totals.retired, state.totals.abandoned),
            state.outstanding(),
        ),
{
}

/// Accepting `count` units raises the outstanding work and the work awaiting
/// consumption by exactly `count`.
pub proof fn law_acceptance_adds_outstanding_work(state: CreditView, count: u32)
    ensures
        state.accepted(count).outstanding() == wrap_sum(state.outstanding(), count),
        state.accepted(count).awaiting_consumption() == wrap_sum(
            state.awaiting_consumption(),
            count,
        ),
{
}

/// Repeating a report gives no further credit.
pub proof fn law_repeated_report_gives_no_credit(state: CreditView, source: int, progress: Progress)
    requires
        0 <= source < state.sources.len(),
    ensures
        state.observed(source, progress).observed(source, progress) == state.observed(
            source,
            progress,
        ),
{
    let once = state.observed(source, progress);
    assert(once.observed(source, progress).sources =~= once.sources);
}

/// Reports from two different sources give the same state in either order.
pub proof fn law_sources_are_independent(
    state: CreditView,
    a: int,
    a_progress: Progress,
    b: int,
    b_progress: Progress,
)
    requires
        0 <= a < state.sources.len(),
        0 <= b < state.sources.len(),
        a != b,
    ensures
        state.observed(a, a_progress).observed(b, b_progress) == state.observed(
            b,
            b_progress,
        ).observed(a, a_progress),
{
    let ab = state.observed(a, a_progress).observed(b, b_progress);
    let ba = state.observed(b, b_progress).observed(a, a_progress);
    assert(ab.sources =~= ba.sources);
    assert(ab.totals == ba.totals);
}

/// The jump of a receipt credits nothing: the totals move only as far as the
/// report the receipt carries from before the cut.
pub proof fn law_cut_jump_is_not_credited(state: CreditView, cut: Cut)
    ensures
        state.reconciled(cut).totals == state.observed(cut.source as int, cut.before).totals,
{
}

/// Once a source was cut, a report from behind its baseline changes nothing.
pub proof fn law_stale_report_is_ignored(state: CreditView, source: int, progress: Progress)
    requires
        0 <= source < state.sources.len(),
        state.sources[source].has_cut,
        wrap_diff(progress.consumed, state.sources[source].progress.consumed) > half_range(),
        wrap_diff(progress.retired, state.sources[source].progress.retired) > half_range(),
    ensures
        state.observed(source, progress) == state,
{
    assert(state.observed(source, progress).sources =~= state.sources);
}

/// Reconciling receipts never changes how much work was accepted or abandoned.
pub proof fn law_receipts_keep_acceptance(state: CreditView, cuts: Seq<Cut>)
    ensures
        state.reconciled_all(cuts).totals.pushed == state.totals.pushed,
        state.reconciled_all(cuts).totals.abandoned == state.totals.abandoned,
        state.reconciled_all(cuts).totals.abandoned_unconsumed
            == state.totals.abandoned_unconsumed,
    decreases cuts.len(),
{
    if cuts.len() > 0 {
        law_receipts_keep_acceptance(state, cuts.drop_last());
    }
}

/// An interruption leaves nothing outstanding and nothing awaiting consumption,
/// and executes nothing beyond what its receipts report.
pub proof fn law_interruption_closes_out_all_work(state: CreditView, cuts: Seq<Cut>)
    ensures
        state.interrupted(cuts).outstanding() == 0,
        state.interrupted(cuts).awaiting_consumption() == 0,
        state.interrupted(cuts).totals.retired == state.reconciled_all(cuts).totals.retired,
        state.interrupted(cuts).totals.consumed == state.reconciled_all(cuts).totals.consumed,
        state.interrupted(cuts).totals.abandoned == wrap_sum(
            state.totals.abandoned,
            state.reconciled_all(cuts).outstanding(),
        ),
{
    law_receipts_keep_acceptance(state, cuts);
}

/// A second interruption without receipts abandons nothing and changes nothing.
pub proof fn law_abandonment_happens_once(state: CreditView, cuts: Seq<Cut>)
    ensures
        state.interrupted(cuts).reconciled_all(Seq::<Cut>::empty()).outstanding() == 0,
        state.interrupted(cuts).interrupted(Seq::<Cut>::empty()) == state.interrupted(cuts),
{
    law_interruption_closes_out_all_work(state, cuts);
}

/// After an interruption only newly accepted work is outstanding.
pub proof fn law_resumed_work_excludes_abandoned_work(
    state: CreditView,
    cuts: Seq<Cut>,
    count: u32,
)
    ensures
        state.interrupted(cuts).accepted(count).outstanding() == count,
        state.interrupted(cuts).accepted(count).awaiting_consumption() == count,
{
    law_interruption_closes_out_all_work(state, cuts);
    law_acceptance_adds_outstanding_work(state.interrupted(cuts), count);
}

/// When the receipt's report was credible, the report the source makes right
/// after the cut brings no credit.
pub proof fn law_report_at_the_cut_gives_no_credit(state: CreditView, cut: Cut)
    requires
        cut.source < state.sources.len(),
        credible(
            state.sources[cut.source as int].has_cut,
            state.sources[cut.source as int].progress.consumed,
            cut.before.consumed,
        ),
        credible(
            state.sources[cut.source as int].has_cut,
            state.sources[cut.source as int].progress.retired,
            cut.before.retired,
        ),
    ensures
        state.reconciled(cut).observed(cut.source as int, cut.after) == state.reconciled(cut),
{
    let settled = state.reconciled(cut);
    let baseline = settled.sources[cut.source as int].progress;
    assert(baseline.consumed == cut.after.consumed);
    assert(baseline.retired == cut.after.retired);
    assert(settled.observed(cut.source as int, cut.after).sources =~= settled.sources);
}

/// Counts wrap modulo `2^32`: sums and distances are those of the integers, reduced.
pub proof fn law_counts_wrap_modulo_their_range(a: u32, b: u32)
    ensures
        wrap_sum(a, b) == (a + b) % 0x1_0000_0000,
        wrap_diff(a, b) == (a - b) % 0x1_0000_0000,
        wrap_sum(wrap_diff(a, b), b) == a,
{
}

/// A report moves its source's odometers to what it says and credits exactly the distance
/// they moved, each odometer to its own total. A source that was cut credits an odometer only
/// where it moved forward, by no more than half the range, and else leaves it and its total
/// alone. No other source, and nothing accepted or abandoned, changes.
pub proof fn law_report_credits_how_far_it_moved(
    state: CreditView,
    source: int,
    progress: Progress,
    other: int,
)
    requires
        0 <= source < state.sources.len(),
        0 <= other < state.sources.len(),
        other != source,
    ensures
        ({
            let before = state.sources[source];
            let after = state.observed(source, progress);
            let consumed_by = (progress.consumed - before.progress.consumed) % 0x1_0000_0000;
            let retired_by = (progress.retired - before.progress.retired) % 0x1_0000_0000;
            &&& !before.has_cut || consumed_by <= 0x7fff_ffff ==> {
                &&& after.sources[source].progress.consumed == progress.consumed
                &&& after.totals.consumed == (state.totals.consumed + consumed_by) % 0x1_0000_0000
            }
            &&& before.has_cut && consumed_by > 0x7fff_ffff ==> {
                &&& after.sources[source].progress.consumed == before.progress.consumed
                &&& after.totals.consumed == state.totals.consumed
            }
            &&& !before.has_cut || retired_by <= 0x7fff_ffff ==> {
                &&& after.sources[source].progress.retired == progress.retired
                &&& after.totals.retired == (state.totals.retired + retired_by) % 0x1_0000_0000
            }
            &&& before.has_cut && retired_by > 0x7fff_ffff ==> {
                &&& after.sources[source].progress.retired == before.progress.retired
                &&& after.totals.retired == state.totals.retired
            }
            &&& after.sources[source].has_cut == before.has_cut
            &&& after.sources[other] == state.sources[other]
            &&& after.sources.len() == state.sources.len()
            &&& after.totals.pushed == state.totals.pushed
            &&& after.totals.abandoned == state.totals.abandoned
            &&& after.totals.abandoned_unconsumed == state.totals.abandoned_unconsumed
        }),
{
}

/// A receipt marks its source as cut and moves its odometers on by the receipt's jump, from
/// wherever the report before the cut left them; no other source moves.
pub proof fn law_cut_moves_its_own_baseline(state: CreditView, cut: Cut, other: int)
    requires
        cut.source < state.sources.len(),
        0 <= other < state.sources.len(),
        other != cut.source,
    ensures
        ({
            let source = cut.source as int;
            let seen = state.observed(source, cut.before).sources[source].progress;
            let after = state.reconciled(cut);
            &&& after.sources[source].has_cut
            &&& after.sources[source].progress.consumed == (seen.consumed + cut.after.consumed
                - cut.before.consumed) % 0x1_0000_0000
            &&& after.sources[source].progress.retired == (seen.retired + cut.after.retired
                - cut.before.retired) % 0x1_0000_0000
            &&& after.sources[other] == state.sources[other]
        }),
{
}

/// What is outstanding was accepted and neither executed nor abandoned; what awaits
/// consumption was accepted and neither consumed nor abandoned before that. Accepting counts
/// nothing as executed, consumed or abandoned.
pub proof fn law_outstanding_work_is_what_is_left(state: CreditView, count: u32)
    ensures
        state.outstanding() == (state.totals.pushed - state.totals.retired
            - state.totals.abandoned) % 0x1_0000_0000,
        state.awaiting_consumption() == (state.totals.pushed - state.totals.consumed
            - state.totals.abandoned_unconsumed) % 0x1_0000_0000,
        state.accepted(count).totals.pushed == (state.totals.pushed + count) % 0x1_0000_0000,
        state.accepted(count).totals.retired == state.totals.retired,
        state.accepted(count).totals.consumed == state.totals.consumed,
        state.accepted(count).totals.abandoned == state.totals.abandoned,
        state.accepted(count).totals.abandoned_unconsumed == state.totals.abandoned_unconsumed,
        state.accepted(count).sources == state.sources,
{
}

/// Fresh accounting has nothing accepted, executed or abandoned, and no source was cut.
pub proof fn law_fresh_accounting_is_empty(sources: nat, source: int)
    requires
        0 <= source < sources,
    ensures
        ({
            let fresh = CreditView::initial(sources);
            &&& fresh.sources.len() == sources
            &&& fresh.outstanding() == 0 && fresh.awaiting_consumption() == 0
            &&& fresh.totals.pushed == 0 && fresh.totals.retired == 0 && fresh.totals.consumed == 0
            &&& fresh.sources[source].progress.consumed == 0
            &&& fresh.sources[source].progress.retired == 0
            &&& !fresh.sources[source].has_cut
        }),
{
}

/// An interruption is its receipts one after the other: none changes the sources, and each
/// further one is reconciled on top of those before it.
pub proof fn law_receipts_are_reconciled_in_turn(state: CreditView, cuts: Seq<Cut>, cut: Cut)
    ensures
        state.reconciled_all(Seq::<Cut>::empty()) == state,
        state.reconciled_all(cuts.push(cut)) == state.reconciled_all(cuts).reconciled(cut),
        state.interrupted(cuts).sources == state.reconciled_all(cuts).sources,
{
    assert(cuts.push(cut).drop_last() =~= cuts);
}

/// Accepted work moves the head by its count and nothing else; the head that a count would give
/// is told without moving it. What is outstanding is what was accepted and neither executed nor
/// abandoned.
pub proof fn law_accepted_head_moves_by_its_count<const SOURCES: usize>(
    credit: &mut ExecutionCredit<SOURCES>,
    count: u32,
    head: u32,
    asked: ExecutionCredit<SOURCES>,
    told: u32,
    totals: Snapshot,
    outstanding: u32,
    awaiting: u32,
)
    requires
        call_ensures(ExecutionCredit::<SOURCES>::accept, (credit, count), head),
        call_ensures(ExecutionCredit::<SOURCES>::accepted_head, (&asked, count), told),
        call_ensures(ExecutionCredit::<SOURCES>::snapshot, (&asked,), totals),
        call_ensures(ExecutionCredit::<SOURCES>::outstanding, (&asked,), outstanding),
        call_ensures(ExecutionCredit::<SOURCES>::awaiting_consumption, (&asked,), awaiting),
    ensures
        head == (old(credit)@.totals.pushed + count) % 0x1_0000_0000,
        final(credit)@.totals.pushed == head,
        final(credit)@.totals.retired == old(credit)@.totals.retired,
        final(credit)@.totals.consumed == old(credit)@.totals.consumed,
        final(credit)@.totals.abandoned == old(credit)@.totals.abandoned,
        final(credit)@.totals.abandoned_unconsumed == old(credit)@.totals.abandoned_unconsumed,
        final(credit)@.sources == old(credit)@.sources,
        told == (asked@.totals.pushed + count) % 0x1_0000_0000,
        totals == asked@.totals,
        (outstanding + totals.retired + totals.abandoned) % 0x1_0000_0000 == totals.pushed,
        (awaiting + totals.consumed + totals.abandoned_unconsumed) % 0x1_0000_0000
            == totals.pushed,
{
}

/// A report moves its own source's odometers, and each total by as much as its odometer moved.
pub proof fn law_observed_report_moves_its_source<const SOURCES: usize>(
    credit: &mut ExecutionCredit<SOURCES>,
    source: usize,
    progress: Progress,
    other: int,
)
    requires
        source < SOURCES,
        call_ensures(ExecutionCredit::<SOURCES>::observe, (credit, source, progress), ()),
        0 <= other < SOURCES,
        other != source,
    ensures
        !old(credit)@.sources[source as int].has_cut ==> {
            &&& final(credit)@.sources[source as int].progress == progress
            &&& (final(credit)@.totals.retired - old(credit)@.totals.retired - progress.retired
                + old(credit)@.sources[source as int].progress.retired) % 0x1_0000_0000 == 0
            &&& (final(credit)@.totals.consumed - old(credit)@.totals.consumed - progress.consumed
                + old(credit)@.sources[source as int].progress.consumed) % 0x1_0000_0000 == 0
        },
        final(credit)@.sources[other] == old(credit)@.sources[other],
        final(credit)@.sources[source as int].has_cut == old(credit)@.sources[source as int].has_cut,
        final(credit)@.totals.pushed == old(credit)@.totals.pushed,
        final(credit)@.totals.abandoned == old(credit)@.totals.abandoned,
{
    law_every_source_is_counted(old(credit));
    law_report_credits_how_far_it_moved(old(credit)@, source as int, progress, other);
}

/// An interruption gives up all that its receipts leave outstanding, and tells how much that
/// is.
pub proof fn law_interruption_tells_what_it_gives_up<const SOURCES: usize>(
    credit: &mut ExecutionCredit<SOURCES>,
    cuts: &[Cut],
    abandoned: u32,
    after: u32,
)
    requires
        call_ensures(ExecutionCredit::<SOURCES>::interrupt, (credit, cuts), abandoned),
    ensures
        final(credit)@.outstanding() == 0,
        final(credit)@.awaiting_consumption() == 0,
        final(credit)@.totals.pushed == old(credit)@.totals.pushed,
        final(credit)@.totals.abandoned == (old(credit)@.totals.abandoned + abandoned)
            % 0x1_0000_0000,
        (abandoned + final(credit)@.totals.retired + old(credit)@.totals.abandoned)
            % 0x1_0000_0000 == old(credit)@.totals.pushed,
        cuts@.len() == 0 ==> final(credit)@.sources == old(credit)@.sources,
        cuts@.len() == 0 ==> abandoned == old(credit)@.outstanding(),
{
    law_interruption_closes_out_all_work(old(credit)@, cuts@);
    law_receipts_keep_acceptance(old(credit)@, cuts@);
}

} // verus!
