//! The planner's window: moves gather in it, a plan is made once enough have arrived,
//! and the prefix that later moves cannot change is committed downstream.

use vstd::prelude::*;

verus! {

/// Cost governor, not a lookahead bound: velocity planning is about linear in the
/// window, so planning anew on every arriving move would be quadratic. A new plan fires
/// once this many moves have arrived since the last one.
pub const REPLAN_BATCH_MOVES: usize = 64;

/// When the input runs momentarily dry the planner commits what it can, so that a
/// rate-matched feed keeps the committed runway topped up. Requiring this many arrivals
/// since the last plan bounds the rate of plans when the feed trickles in.
pub const QUIET_PLAN_MIN_MOVES: usize = 32;

// ----- Seams

/// Seam `i` stops: the two moves that meet there cannot run through.
pub open spec fn stops_at<M, F: Fn(&M, &M) -> bool>(
    moves: Seq<M>,
    requires_stop: F,
    i: int,
    answer: bool,
) -> bool {
    call_ensures(requires_stop, (&moves[i - 1], &moves[i]), answer)
}

/// Which seams of the window stop. The entry never does.
pub fn stop_flags<M, F: Fn(&M, &M) -> bool>(moves: &Vec<M>, requires_stop: F) -> (stop_before: Vec<
    bool,
>)
    requires
        forall|a: &M, b: &M| call_requires(requires_stop, (a, b)),
    ensures
        stop_before@.len() == moves@.len(),
        moves@.len() > 0 ==> !stop_before@[0],
        forall|i: int|
            0 < i < moves@.len() ==> stops_at(moves@, requires_stop, i, #[trigger] stop_before@[i]),
{
    let mut stop_before: Vec<bool> = Vec::new();
    let mut i: usize = 0;
    while i < moves.len()
        invariant
            i <= moves@.len(),
            stop_before@.len() == i,
            forall|a: &M, b: &M| call_requires(requires_stop, (a, b)),
            i > 0 ==> !stop_before@[0],
            forall|k: int|
                0 < k < i ==> stops_at(moves@, requires_stop, k, #[trigger] stop_before@[k]),
        decreases moves@.len() - i,
    {
        if i > 0 {
            let stop: bool = requires_stop(&moves[i - 1], &moves[i]);
            stop_before.push(stop);
        } else {
            stop_before.push(false);
        }
        i += 1;
    }
    stop_before
}

/// The highest clean seam in `1..=last`, or 0 where there is none.
pub open spec fn is_furthest_clean(clean: Seq<bool>, last: int, chosen: int) -> bool {
    &&& 0 <= chosen
    &&& chosen == 0 || (chosen <= last && clean[chosen])
    &&& forall|i: int| chosen < i <= last ==> !#[trigger] clean[i]
}

/// How many moves of the window can be committed: up to the furthest clean seam that is
/// inside the finality barrier and clear of the brake-to-rest setback. A seam is clean
/// where the move entered is a line, or where the plan stops.
pub fn committable_seam(clean: &Vec<bool>, barrier: usize, horizon: usize) -> (chosen: usize)
    requires
        barrier < clean@.len() || horizon < clean@.len(),
    ensures
        is_furthest_clean(
            clean@,
            if barrier <= horizon {
                barrier as int
            } else {
                horizon as int
            },
            chosen as int,
        ),
{
    let last: usize = if barrier <= horizon {
        barrier
    } else {
        horizon
    };
    let mut chosen: usize = last;
    while chosen > 0 && !clean[chosen]
        invariant
            chosen <= last < clean@.len(),
            forall|i: int| chosen < i <= last ==> !#[trigger] clean@[i],
        decreases chosen,
    {
        chosen -= 1;
    }
    chosen
}

/// Committing stays inside the barrier and the horizon, and picks one seam.
pub proof fn law_commit_stays_inside(clean: Seq<bool>, last: int, a: int, b: int)
    requires
        0 <= last,
        is_furthest_clean(clean, last, a),
        is_furthest_clean(clean, last, b),
    ensures
        a <= last,
        a == b,
{
}

// ----- The window

/// What reaches the planner. A reset is a control token that discards the window.
#[derive(Debug)]
pub enum StreamInput<M, C> {
    Move(M),
    Drain,
    Reset(C),
    Control(C),
}

/// What leaves the planner.
#[derive(Debug)]
pub enum PlannedItem<M, V, C> {
    Move { geometry: M, velocity: V },
    Drain,
    Control(C),
}

/// Which part of the window a plan is to reconstruct.
#[derive(Debug, Clone, Copy, PartialEq, Eq, Structural)]
pub enum Selection {
    /// Up to the seam that [`committable_seam`] picks.
    Committable,
    /// All of it, down to rest.
    All,
}

/// The reconstructed prefix of a plan, and the speed at which the move after it is
/// entered.
#[derive(Debug)]
pub struct PlannedPrefix<V> {
    pub velocities: Vec<V>,
    pub boundary: i64,
}

pub struct Planner<M> {
    pub moves: Vec<M>,
    /// The order key of the speed at which the window is entered.
    pub entry_v: i64,
    pub moves_since_plan: usize,
    pub max_buffer_moves: usize,
    /// The order key of standing still.
    pub rest: i64,
}

/// The items that commit the first moves of a window, each with its velocity.
pub open spec fn committed<M, V, C>(moves: Seq<M>, velocities: Seq<V>) -> Seq<
    PlannedItem<M, V, C>,
> {
    Seq::new(
        velocities.len(),
        |i: int| PlannedItem::Move { geometry: moves[i], velocity: velocities[i] },
    )
}

/// A planning function answers for a window.
pub open spec fn plans<M, V, P: Fn(&Vec<M>, i64, Selection) -> PlannedPrefix<V>>(
    plan: P,
    planner: Planner<M>,
    selection: Selection,
    prefix: PlannedPrefix<V>,
) -> bool {
    call_ensures(plan, (&planner.moves, planner.entry_v, selection), prefix)
}

/// A planning function never reconstructs more moves than there are, and all of them
/// when asked to.
pub open spec fn plans_within<M, V, P: Fn(&Vec<M>, i64, Selection) -> PlannedPrefix<V>>(
    plan: P,
) -> bool {
    &&& forall|moves: &Vec<M>, entry: i64, selection: Selection|
        call_requires(plan, (moves, entry, selection))
    &&& forall|moves: &Vec<M>, entry: i64, selection: Selection, prefix: PlannedPrefix<V>|
        #[trigger] call_ensures(plan, (moves, entry, selection), prefix) ==> {
            &&& prefix.velocities@.len() <= moves@.len()
            &&& selection is All ==> prefix.velocities@.len() == moves@.len()
        }
}

/// `after` is `before` with a reconstructed prefix committed. A prefix of no moves
/// leaves the window and its entry as they were.
pub open spec fn after_commit<M, V>(
    before: Planner<M>,
    after: Planner<M>,
    prefix: PlannedPrefix<V>,
) -> bool {
    &&& after.moves@ == before.moves@.skip(prefix.velocities@.len() as int)
    &&& after.entry_v == if prefix.velocities@.len() > 0 {
        prefix.boundary
    } else {
        before.entry_v
    }
    &&& after.moves_since_plan == 0
    &&& after.max_buffer_moves == before.max_buffer_moves
    &&& after.rest == before.rest
}

/// The window is planned for `selection`, and what was reconstructed is committed.
pub open spec fn plan_committed<M, V, C, P: Fn(&Vec<M>, i64, Selection) -> PlannedPrefix<V>>(
    before: Planner<M>,
    after: Planner<M>,
    plan: P,
    selection: Selection,
    out: Seq<PlannedItem<M, V, C>>,
) -> bool {
    exists|prefix: PlannedPrefix<V>|
        {
            &&& #[trigger] plans(plan, before, selection, prefix)
            &&& after_commit(before, after, prefix)
            &&& out == committed::<M, V, C>(before.moves@, prefix.velocities@)
        }
}

/// The window is drained to rest: an empty one as it is, any other by a plan of all of
/// it.
pub open spec fn drained<M, V, C, P: Fn(&Vec<M>, i64, Selection) -> PlannedPrefix<V>>(
    before: Planner<M>,
    after: Planner<M>,
    plan: P,
    out: Seq<PlannedItem<M, V, C>>,
) -> bool {
    if before.moves@.len() == 0 {
        &&& after == (Planner { moves_since_plan: 0, ..before })
        &&& out == Seq::<PlannedItem<M, V, C>>::empty()
    } else {
        plan_committed(before, after, plan, Selection::All, out)
    }
}

impl<M> Planner<M> {
    /// No batch is left unplanned.
    pub open spec fn wf(self) -> bool {
        self.moves_since_plan < REPLAN_BATCH_MOVES
    }

    /// An empty window, entered at rest.
    pub fn new(max_buffer_moves: usize, rest: i64) -> (planner: Self)
        ensures
            planner.wf(),
            planner.moves@ == Seq::<M>::empty(),
            planner.entry_v == rest,
            planner.moves_since_plan == 0,
            planner.max_buffer_moves == max_buffer_moves,
            planner.rest == rest,
    {
        Planner { moves: Vec::new(), entry_v: rest, moves_since_plan: 0, max_buffer_moves, rest }
    }

    /// Commits a reconstructed prefix.
    fn commit<V, C>(&mut self, prefix: PlannedPrefix<V>, out: &mut Vec<PlannedItem<M, V, C>>)
        requires
            prefix.velocities@.len() <= old(self).moves@.len(),
        ensures
            after_commit(*old(self), *final(self), prefix),
            final(out)@ == old(out)@ + committed::<M, V, C>(
                old(self).moves@,
                prefix.velocities@,
            ),
    {
        self.moves_since_plan = 0;
        let count: usize = prefix.velocities.len();
        if count > 0 {
            self.entry_v = prefix.boundary;
        }
        let ghost all = self.moves@;
        let ghost items = committed::<M, V, C>(all, prefix.velocities@);
        let ghost before = out@;
        let mut tail: Vec<M> = self.moves.split_off(count);
        std::mem::swap(&mut tail, &mut self.moves);
        let mut geometry: Vec<M> = tail;
        let mut velocities: Vec<V> = prefix.velocities;
        let mut backwards: Vec<PlannedItem<M, V, C>> = Vec::new();
        while velocities.len() > 0
            invariant
                velocities@ == prefix.velocities@.take(velocities@.len() as int),
                geometry@ == all.take(velocities@.len() as int),
                count == prefix.velocities@.len() <= all.len(),
                items == committed::<M, V, C>(all, prefix.velocities@),
                velocities@.len() + backwards@.len() == count,
                forall|i: int|
                    0 <= i < backwards@.len() ==> #[trigger] backwards@[i] == items[count - 1 - i],
            decreases velocities@.len(),
        {
            let ghost held = velocities@.len();
            let v: Option<V> = velocities.pop();
            let m: Option<M> = geometry.pop();
            assert(velocities@ =~= prefix.velocities@.take(held - 1));
            assert(geometry@ =~= all.take(held - 1));
            if let (Some(velocity), Some(geometry)) = (v, m) {
                assert(items[held - 1] == PlannedItem::<M, V, C>::Move { geometry, velocity });
                backwards.push(PlannedItem::Move { geometry, velocity });
            }
        }
        let ghost turned = backwards@;
        while backwards.len() > 0
            invariant
                backwards@.len() <= count,
                backwards@ == turned.take(backwards@.len() as int),
                turned.len() == count == items.len(),
                forall|i: int| 0 <= i < count ==> #[trigger] turned[i] == items[count - 1 - i],
                out@ == before + items.take(count - backwards@.len()),
            decreases backwards@.len(),
        {
            let ghost held = backwards@.len();
            let item: Option<PlannedItem<M, V, C>> = backwards.pop();
            assert(backwards@ =~= turned.take(held - 1));
            if let Some(item) = item {
                assert(item == turned[held - 1]);
                out.push(item);
                assert(items.take(count - held + 1) =~= items.take(count - held).push(item));
                assert(out@ =~= before + items.take(count - held + 1));
            }
        }
        assert(items.take(count as int) =~= items);
    }

    /// Plans the whole window to terminal rest and commits all of it.
    fn drain_to_rest<V, C, P>(&mut self, plan: &P, out: &mut Vec<PlannedItem<M, V, C>>) where
        P: Fn(&Vec<M>, i64, Selection) -> PlannedPrefix<V>,

        requires
            plans_within::<M, V, P>(*plan),
        ensures
            exists|items: Seq<PlannedItem<M, V, C>>|
                {
                    &&& #[trigger] drained(*old(self), *final(self), *plan, items)
                    &&& final(out)@ == old(out)@ + items
                },
    {
        let ghost before = *self;
        let ghost out_before = out@;
        if self.moves.len() == 0 {
            self.moves_since_plan = 0;
            let ghost none = Seq::<PlannedItem<M, V, C>>::empty();
            assert(out@ =~= out_before + none);
            assert(drained(before, *self, *plan, none));
            return;
        }
        let prefix: PlannedPrefix<V> = (*plan)(&self.moves, self.entry_v, Selection::All);
        let ghost planned = prefix;
        let ghost items = committed::<M, V, C>(before.moves@, planned.velocities@);
        assert(plans(*plan, before, Selection::All, planned));
        self.commit(prefix, out);
        assert(plan_committed(before, *self, *plan, Selection::All, items));
        assert(drained(before, *self, *plan, items));
    }

    /// Commits the prefix that later moves cannot change.
    fn emit_committable<V, C, P>(&mut self, plan: &P, out: &mut Vec<PlannedItem<M, V, C>>) where
        P: Fn(&Vec<M>, i64, Selection) -> PlannedPrefix<V>,

        requires
            plans_within::<M, V, P>(*plan),
        ensures
            exists|items: Seq<PlannedItem<M, V, C>>|
                {
                    &&& #[trigger] plan_committed(
                        *old(self),
                        *final(self),
                        *plan,
                        Selection::Committable,
                        items,
                    )
                    &&& final(out)@ == old(out)@ + items
                },
    {
        let ghost before = *self;
        let prefix: PlannedPrefix<V> = (*plan)(&self.moves, self.entry_v, Selection::Committable);
        let ghost planned = prefix;
        let ghost items = committed::<M, V, C>(before.moves@, planned.velocities@);
        assert(plans(*plan, before, Selection::Committable, planned));
        self.commit(prefix, out);
        assert(plan_committed(before, *self, *plan, Selection::Committable, items));
    }
}

/// The window holds `m` after its other moves, and has counted it.
pub open spec fn joined<M>(before: Planner<M>, after: Planner<M>, m: M) -> bool {
    &&& after.moves@ == before.moves@.push(m)
    &&& after.moves_since_plan == before.moves_since_plan + 1
    &&& after.entry_v == before.entry_v
    &&& after.max_buffer_moves == before.max_buffer_moves
    &&& after.rest == before.rest
}

/// A plan is due: a batch has arrived since the last one, or the window is full.
pub open spec fn plan_is_due<M>(planner: Planner<M>) -> bool {
    planner.moves_since_plan >= REPLAN_BATCH_MOVES || window_is_full(planner)
}

/// The window holds as many moves as it may, or more.
pub open spec fn window_is_full<M>(planner: Planner<M>) -> bool {
    planner.moves@.len() >= planner.max_buffer_moves
}

/// A window that holds `m` is planned if that is due.
pub open spec fn absorbed<M, V, C, P: Fn(&Vec<M>, i64, Selection) -> PlannedPrefix<V>>(
    before: Planner<M>,
    after: Planner<M>,
    m: M,
    plan: P,
    out: Seq<PlannedItem<M, V, C>>,
) -> bool {
    exists|full: Planner<M>| #[trigger] joined(before, full, m) && settled(full, after, plan, out)
}

/// What becomes of a window that has just taken a move.
pub open spec fn settled<M, V, C, P: Fn(&Vec<M>, i64, Selection) -> PlannedPrefix<V>>(
    full: Planner<M>,
    after: Planner<M>,
    plan: P,
    out: Seq<PlannedItem<M, V, C>>,
) -> bool {
    if !plan_is_due(full) {
        after == full && out == Seq::<PlannedItem<M, V, C>>::empty()
    } else {
        plan_committed(full, after, plan, Selection::Committable, out)
    }
}

/// What the planner makes of an input.
pub open spec fn fed<M, V, C, P: Fn(&Vec<M>, i64, Selection) -> PlannedPrefix<V>>(
    before: Planner<M>,
    after: Planner<M>,
    item: StreamInput<M, C>,
    plan: P,
    out: Seq<PlannedItem<M, V, C>>,
) -> bool {
    match item {
        StreamInput::Move(m) => absorbed(before, after, m, plan, out),
        StreamInput::Drain => finished(before, after, plan, out),
        StreamInput::Reset(control) => {
            &&& after.moves@ == Seq::<M>::empty()
            &&& after.entry_v == before.rest
            &&& after.moves_since_plan == 0
            &&& after.max_buffer_moves == before.max_buffer_moves
            &&& after.rest == before.rest
            &&& out == seq![PlannedItem::<M, V, C>::Control(control)]
        },
        StreamInput::Control(control) => {
            &&& after == before
            &&& out == seq![PlannedItem::<M, V, C>::Control(control)]
        },
    }
}

/// The window is drained to rest and a drain token sent after it.
pub open spec fn finished<M, V, C, P: Fn(&Vec<M>, i64, Selection) -> PlannedPrefix<V>>(
    before: Planner<M>,
    after: Planner<M>,
    plan: P,
    out: Seq<PlannedItem<M, V, C>>,
) -> bool {
    exists|rest: Seq<PlannedItem<M, V, C>>|
        {
            &&& #[trigger] drained(before, after, plan, rest)
            &&& out == rest.push(PlannedItem::Drain)
        }
}

impl<M> Planner<M> {
    /// Takes one input. What it sends on is added to `out` in order; a caller whose
    /// receiver has closed drops what is left of it. `plan` makes a velocity plan of the
    /// window for the selection it is given.
    ///
    /// The answer says that a move left the window full, with no seam to commit at: once
    /// all of `out` has been taken, the caller calls [`Planner::finish`], which drains the
    /// window to rest so that memory stays bounded. Where an item of `out` was refused it
    /// does not, and the window keeps what it holds.
    ///
    /// Every token but a reset is meaningless, or hides a velocity discontinuity, while
    /// moves are still being looked ahead, so a drain must precede it.
    pub fn feed<V, C, P>(
        &mut self,
        item: StreamInput<M, C>,
        plan: P,
        out: &mut Vec<PlannedItem<M, V, C>>,
    ) -> (drain_due: bool) where P: Fn(&Vec<M>, i64, Selection) -> PlannedPrefix<V>
        requires
            plans_within::<M, V, P>(plan),
            item is Control ==> old(self).moves@.len() == 0,
            old(self).wf(),
        ensures
            final(self).wf(),
            exists|items: Seq<PlannedItem<M, V, C>>|
                {
                    &&& #[trigger] fed(*old(self), *final(self), item, plan, items)
                    &&& final(out)@ == old(out)@ + items
                },
            drain_due == (item is Move && window_is_full(*final(self))),
    {
        let ghost before = *self;
        let ghost out_before = out@;
        match item {
            StreamInput::Move(m) => {
                let full: bool = self.absorb(m, &plan, out);
                let ghost items = choose|items: Seq<PlannedItem<M, V, C>>|
                    {
                        &&& #[trigger] absorbed(before, *self, m, plan, items)
                        &&& out@ == out_before + items
                    };
                assert(fed(before, *self, item, plan, items));
                full
            },
            StreamInput::Drain => {
                self.finish(&plan, out);
                let ghost items = choose|items: Seq<PlannedItem<M, V, C>>|
                    {
                        &&& #[trigger] finished(before, *self, plan, items)
                        &&& out@ == out_before + items
                    };
                assert(fed(before, *self, item, plan, items));
                false
            },
            StreamInput::Reset(control) => {
                self.moves = Vec::new();
                self.entry_v = self.rest;
                self.moves_since_plan = 0;
                out.push(PlannedItem::Control(control));
                let ghost items = seq![PlannedItem::<M, V, C>::Control(control)];
                assert(out@ =~= out_before + items);
                assert(fed(before, *self, item, plan, items));
                false
            },
            StreamInput::Control(control) => {
                out.push(PlannedItem::Control(control));
                let ghost items = seq![PlannedItem::<M, V, C>::Control(control)];
                assert(out@ =~= out_before + items);
                assert(fed(before, *self, item, plan, items));
                false
            },
        }
    }

    /// Takes a move into the window, plans it if that is due, and says whether the window
    /// is full even so.
    fn absorb<V, C, P>(
        &mut self,
        m: M,
        plan: &P,
        out: &mut Vec<PlannedItem<M, V, C>>,
    ) -> (full: bool) where P: Fn(&Vec<M>, i64, Selection) -> PlannedPrefix<V>
        requires
            plans_within::<M, V, P>(*plan),
            old(self).wf(),
        ensures
            final(self).wf(),
            exists|items: Seq<PlannedItem<M, V, C>>|
                {
                    &&& #[trigger] absorbed(*old(self), *final(self), m, *plan, items)
                    &&& final(out)@ == old(out)@ + items
                },
            full == window_is_full(*final(self)),
    {
        let ghost before = *self;
        let ghost out_before = out@;
        self.moves.push(m);
        self.moves_since_plan += 1;
        let ghost full = *self;
        assert(joined(before, full, m));
        if self.moves_since_plan < REPLAN_BATCH_MOVES && self.moves.len() < self.max_buffer_moves {
            let ghost none = Seq::<PlannedItem<M, V, C>>::empty();
            assert(out@ =~= out_before + none);
            assert(settled(full, *self, *plan, none));
            assert(absorbed(before, *self, m, *plan, none));
            return false;
        }
        self.emit_committable(plan, out);
        let ghost items = choose|items: Seq<PlannedItem<M, V, C>>|
            {
                &&& #[trigger] plan_committed(full, *self, *plan, Selection::Committable, items)
                &&& out@ == out_before + items
            };
        assert(settled(full, *self, *plan, items));
        assert(absorbed(before, *self, m, *plan, items));
        self.moves.len() >= self.max_buffer_moves
    }

    /// The input is closed, a drain is asked for, or the window is full: brakes the window to rest, commits
    /// all of it, and sends the drain token.
    pub fn finish<V, C, P>(&mut self, plan: &P, out: &mut Vec<PlannedItem<M, V, C>>) where
        P: Fn(&Vec<M>, i64, Selection) -> PlannedPrefix<V>,

        requires
            plans_within::<M, V, P>(*plan),
        ensures
            final(self).wf(),
            exists|items: Seq<PlannedItem<M, V, C>>|
                {
                    &&& #[trigger] finished(*old(self), *final(self), *plan, items)
                    &&& final(out)@ == old(out)@ + items
                },
    {
        let ghost before = *self;
        let ghost out_before = out@;
        self.drain_to_rest(plan, out);
        let ghost rest = choose|rest: Seq<PlannedItem<M, V, C>>|
            {
                &&& #[trigger] drained(before, *self, *plan, rest)
                &&& out@ == out_before + rest
            };
        out.push(PlannedItem::Drain);
        let ghost items = rest.push(PlannedItem::Drain);
        assert(out@ =~= out_before + items);
        assert(finished(before, *self, *plan, items));
    }

    /// The input ran momentarily dry: commits what it can, if enough moves have arrived
    /// since the last plan.
    pub fn idle<V, C, P>(&mut self, plan: &P, out: &mut Vec<PlannedItem<M, V, C>>) where
        P: Fn(&Vec<M>, i64, Selection) -> PlannedPrefix<V>,

        requires
            plans_within::<M, V, P>(*plan),
            old(self).wf(),
        ensures
            final(self).wf(),
            old(self).moves_since_plan < QUIET_PLAN_MIN_MOVES ==> {
                &&& *final(self) == *old(self)
                &&& final(out)@ == old(out)@
            },
            old(self).moves_since_plan >= QUIET_PLAN_MIN_MOVES ==> exists|
                items: Seq<PlannedItem<M, V, C>>,
            |
                {
                    &&& #[trigger] plan_committed(
                        *old(self),
                        *final(self),
                        *plan,
                        Selection::Committable,
                        items,
                    )
                    &&& final(out)@ == old(out)@ + items
                },
    {
        if self.moves_since_plan < QUIET_PLAN_MIN_MOVES {
            return;
        }
        self.emit_committable(plan, out);
    }
}

// ----- Laws

/// The moves among planned items, in order.
pub open spec fn geometries<M, V, C>(items: Seq<PlannedItem<M, V, C>>) -> Seq<M>
    decreases items.len(),
{
    if items.len() == 0 {
        Seq::empty()
    } else {
        match items.last() {
            PlannedItem::Move { geometry, .. } => geometries(items.drop_last()).push(geometry),
            _ => geometries(items.drop_last()),
        }
    }
}

proof fn lemma_geometries_join<M, V, C>(
    a: Seq<PlannedItem<M, V, C>>,
    b: Seq<PlannedItem<M, V, C>>,
)
    ensures
        geometries(a + b) == geometries(a) + geometries(b),
    decreases b.len(),
{
    if b.len() == 0 {
        assert(a + b =~= a);
        assert(geometries(a) + geometries(b) =~= geometries(a));
    } else {
        lemma_geometries_join(a, b.drop_last());
        assert((a + b).drop_last() =~= a + b.drop_last());
        assert((a + b).last() == b.last());
        assert(geometries(a + b) =~= geometries(a) + geometries(b));
    }
}

proof fn lemma_geometries_committed<M, V, C>(moves: Seq<M>, velocities: Seq<V>)
    requires
        velocities.len() <= moves.len(),
    ensures
        geometries(committed::<M, V, C>(moves, velocities)) == moves.take(velocities.len() as int),
    decreases velocities.len(),
{
    let items = committed::<M, V, C>(moves, velocities);
    if velocities.len() == 0 {
        assert(geometries(items) =~= moves.take(0));
    } else {
        lemma_geometries_committed::<M, V, C>(moves, velocities.drop_last());
        assert(items.drop_last() =~= committed::<M, V, C>(moves, velocities.drop_last()));
        assert(moves.take(velocities.len() as int) =~= moves.take(velocities.len() - 1).push(
            moves[velocities.len() - 1],
        ));
    }
}

/// Planning a window loses no move, adds none and keeps their order.
pub proof fn law_commit_keeps_every_move<
    M,
    V,
    C,
    P: Fn(&Vec<M>, i64, Selection) -> PlannedPrefix<V>,
>(
    before: Planner<M>,
    after: Planner<M>,
    plan: P,
    selection: Selection,
    out: Seq<PlannedItem<M, V, C>>,
)
    requires
        plans_within::<M, V, P>(plan),
        plan_committed(before, after, plan, selection, out),
    ensures
        geometries(out) + after.moves@ == before.moves@,
        selection is All ==> after.moves@.len() == 0,
        after.max_buffer_moves == before.max_buffer_moves,
{
    let prefix = choose|prefix: PlannedPrefix<V>|
        {
            &&& #[trigger] plans(plan, before, selection, prefix)
            &&& after_commit(before, after, prefix)
            &&& out == committed::<M, V, C>(before.moves@, prefix.velocities@)
        };
    assert(call_ensures(plan, (&before.moves, before.entry_v, selection), prefix));
    lemma_geometries_committed::<M, V, C>(before.moves@, prefix.velocities@);
    assert(before.moves@.take(prefix.velocities@.len() as int) + before.moves@.skip(
        prefix.velocities@.len() as int,
    ) =~= before.moves@);
}

/// Draining sends every move on and leaves the window empty.
pub proof fn law_drain_empties_the_window<
    M,
    V,
    C,
    P: Fn(&Vec<M>, i64, Selection) -> PlannedPrefix<V>,
>(before: Planner<M>, after: Planner<M>, plan: P, out: Seq<PlannedItem<M, V, C>>)
    requires
        plans_within::<M, V, P>(plan),
        drained(before, after, plan, out),
    ensures
        geometries(out) == before.moves@,
        after.moves@.len() == 0,
        after.max_buffer_moves == before.max_buffer_moves,
{
    if before.moves@.len() > 0 {
        law_commit_keeps_every_move(before, after, plan, Selection::All, out);
        assert(geometries(out) + after.moves@ =~= geometries(out));
    } else {
        assert(geometries(out) =~= before.moves@);
    }
}

/// A move fed to the planner is sent on or kept in the window, behind all that came
/// before it.
pub proof fn law_fed_move_is_kept_in_order<
    M,
    V,
    C,
    P: Fn(&Vec<M>, i64, Selection) -> PlannedPrefix<V>,
>(before: Planner<M>, after: Planner<M>, m: M, plan: P, out: Seq<PlannedItem<M, V, C>>)
    requires
        plans_within::<M, V, P>(plan),
        fed(before, after, StreamInput::Move(m), plan, out),
    ensures
        geometries(out) + after.moves@ == before.moves@.push(m),
        after.max_buffer_moves == before.max_buffer_moves,
{
    let full = choose|full: Planner<M>|
        #[trigger] joined(before, full, m) && settled(full, after, plan, out);
    if plan_is_due(full) {
        law_commit_keeps_every_move(full, after, plan, Selection::Committable, out);
    } else {
        assert(geometries(out) + after.moves@ =~= full.moves@);
    }
}

/// A window that a move leaves full is drained: every move that came before the drain
/// token has been sent on in order, and the window is empty. So between two inputs that
/// were taken downstream it holds fewer moves than its bound.
pub proof fn law_full_window_is_drained<
    M,
    V,
    C,
    P: Fn(&Vec<M>, i64, Selection) -> PlannedPrefix<V>,
>(
    before: Planner<M>,
    fed_to: Planner<M>,
    after: Planner<M>,
    m: M,
    plan: P,
    out: Seq<PlannedItem<M, V, C>>,
    drain: Seq<PlannedItem<M, V, C>>,
)
    requires
        plans_within::<M, V, P>(plan),
        fed(before, fed_to, StreamInput::Move(m), plan, out),
        if window_is_full(fed_to) {
            finished(fed_to, after, plan, drain)
        } else {
            after == fed_to && drain == Seq::<PlannedItem<M, V, C>>::empty()
        },
    ensures
        geometries(out + drain) + after.moves@ == before.moves@.push(m),
        before.max_buffer_moves > 0 ==> after.moves@.len() < before.max_buffer_moves,
        window_is_full(fed_to) ==> after.moves@.len() == 0 && drain.last() is Drain,
{
    law_fed_move_is_kept_in_order(before, fed_to, m, plan, out);
    lemma_geometries_join(out, drain);
    if window_is_full(fed_to) {
        let rest = choose|rest: Seq<PlannedItem<M, V, C>>|
            {
                &&& #[trigger] drained(fed_to, after, plan, rest)
                &&& drain == rest.push(PlannedItem::Drain)
            };
        law_drain_empties_the_window(fed_to, after, plan, rest);
        assert(drain.drop_last() =~= rest);
        assert(geometries(drain) == geometries(rest));
        assert(geometries(out + drain) + after.moves@ =~= geometries(out) + fed_to.moves@);
    } else {
        assert(geometries(out + drain) =~= geometries(out));
    }
}

/// What a commit sends on is each move of the window with its own velocity: item `i` is
/// move `i` of the window, driven as the plan's velocity `i` says, and the plan is one that
/// was made of this window at its entry speed. What is left of the window is entered at the
/// plan's boundary.
pub proof fn law_committed_moves_keep_their_velocities<
    M,
    V,
    C,
    P: Fn(&Vec<M>, i64, Selection) -> PlannedPrefix<V>,
>(
    before: Planner<M>,
    after: Planner<M>,
    plan: P,
    selection: Selection,
    out: Seq<PlannedItem<M, V, C>>,
)
    requires
        plan_committed(before, after, plan, selection, out),
    ensures
        exists|prefix: PlannedPrefix<V>|
            {
                &&& #[trigger] call_ensures(
                    plan,
                    (&before.moves, before.entry_v, selection),
                    prefix,
                )
                &&& out.len() == prefix.velocities@.len()
                &&& forall|i: int|
                    0 <= i < out.len() ==> #[trigger] out[i] == (PlannedItem::<M, V, C>::Move {
                        geometry: before.moves@[i],
                        velocity: prefix.velocities@[i],
                    })
                &&& after.moves@ == before.moves@.skip(out.len() as int)
                &&& out.len() > 0 ==> after.entry_v == prefix.boundary
                &&& out.len() == 0 ==> after.entry_v == before.entry_v
                &&& after.moves_since_plan == 0
                &&& after.rest == before.rest
                &&& after.max_buffer_moves == before.max_buffer_moves
            },
{
    let prefix = choose|prefix: PlannedPrefix<V>|
        {
            &&& #[trigger] plans(plan, before, selection, prefix)
            &&& after_commit(before, after, prefix)
            &&& out == committed::<M, V, C>(before.moves@, prefix.velocities@)
        };
    assert(call_ensures(plan, (&before.moves, before.entry_v, selection), prefix));
}

/// A move waits in the window until a batch of 64 has arrived or the window is full; then
/// the window with that move in it is planned for what can be committed, and the moves that
/// go out carry the velocities of that plan, in order.
pub proof fn law_window_is_planned_in_batches<
    M,
    V,
    C,
    P: Fn(&Vec<M>, i64, Selection) -> PlannedPrefix<V>,
>(before: Planner<M>, after: Planner<M>, m: M, plan: P, out: Seq<PlannedItem<M, V, C>>)
    requires
        fed(before, after, StreamInput::Move(m), plan, out),
    ensures
        before.moves_since_plan + 1 < 64 && before.moves@.len() + 1 < before.max_buffer_moves ==> {
            &&& out.len() == 0
            &&& after.moves@ == before.moves@.push(m)
            &&& after.moves_since_plan == before.moves_since_plan + 1
            &&& after.entry_v == before.entry_v
        },
        before.moves_since_plan + 1 >= 64 || before.moves@.len() + 1 >= before.max_buffer_moves
            ==> exists|window: Vec<M>, prefix: PlannedPrefix<V>|
            {
                &&& window@ == before.moves@.push(m)
                &&& #[trigger] call_ensures(
                    plan,
                    (&window, before.entry_v, Selection::Committable),
                    prefix,
                )
                &&& out.len() == prefix.velocities@.len()
                &&& forall|i: int|
                    0 <= i < out.len() ==> #[trigger] out[i] == (PlannedItem::<M, V, C>::Move {
                        geometry: window@[i],
                        velocity: prefix.velocities@[i],
                    })
                &&& after.moves@ == window@.skip(out.len() as int)
                &&& after.moves_since_plan == 0
                &&& out.len() > 0 ==> after.entry_v == prefix.boundary
                &&& out.len() == 0 ==> after.entry_v == before.entry_v
                &&& after.max_buffer_moves == before.max_buffer_moves
                &&& after.rest == before.rest
            },
{
    let full = choose|full: Planner<M>|
        #[trigger] joined(before, full, m) && settled(full, after, plan, out);
    if plan_is_due(full) {
        law_committed_moves_keep_their_velocities(full, after, plan, Selection::Committable, out);
        let prefix = choose|prefix: PlannedPrefix<V>|
            {
                &&& #[trigger] call_ensures(
                    plan,
                    (&full.moves, full.entry_v, Selection::Committable),
                    prefix,
                )
                &&& out.len() == prefix.velocities@.len()
                &&& forall|i: int|
                    0 <= i < out.len() ==> #[trigger] out[i] == (PlannedItem::<M, V, C>::Move {
                        geometry: full.moves@[i],
                        velocity: prefix.velocities@[i],
                    })
                &&& after.moves@ == full.moves@.skip(out.len() as int)
                &&& after.moves_since_plan == 0
                &&& out.len() > 0 ==> after.entry_v == prefix.boundary
                &&& out.len() == 0 ==> after.entry_v == full.entry_v
                &&& after.max_buffer_moves == full.max_buffer_moves
                &&& after.rest == full.rest
            };
        assert(call_ensures(plan, (&full.moves, before.entry_v, Selection::Committable), prefix));
    }
}

/// A drain sends every move of the window on, each with its own velocity of one plan of the
/// whole window, and then its token. An empty window sends the token alone and plans nothing.
pub proof fn law_drain_sends_all_and_then_its_token<
    M,
    V,
    C,
    P: Fn(&Vec<M>, i64, Selection) -> PlannedPrefix<V>,
>(before: Planner<M>, after: Planner<M>, plan: P, out: Seq<PlannedItem<M, V, C>>)
    requires
        plans_within::<M, V, P>(plan),
        fed(before, after, StreamInput::Drain, plan, out),
    ensures
        out.len() == before.moves@.len() + 1,
        out.last() is Drain,
        after.moves@.len() == 0,
        after.moves_since_plan == 0,
        before.moves@.len() == 0 ==> after.entry_v == before.entry_v,
        before.moves@.len() > 0 ==> exists|prefix: PlannedPrefix<V>|
            {
                &&& #[trigger] call_ensures(
                    plan,
                    (&before.moves, before.entry_v, Selection::All),
                    prefix,
                )
                &&& prefix.velocities@.len() == before.moves@.len()
                &&& forall|i: int|
                    0 <= i < before.moves@.len() ==> #[trigger] out[i] == (PlannedItem::<M, V, C>::Move {
                        geometry: before.moves@[i],
                        velocity: prefix.velocities@[i],
                    })
                &&& after.entry_v == prefix.boundary
            },
{
    let rest = choose|rest: Seq<PlannedItem<M, V, C>>|
        {
            &&& #[trigger] drained(before, after, plan, rest)
            &&& out == rest.push(PlannedItem::Drain)
        };
    if before.moves@.len() > 0 {
        law_committed_moves_keep_their_velocities(before, after, plan, Selection::All, rest);
        let prefix = choose|prefix: PlannedPrefix<V>|
            {
                &&& #[trigger] call_ensures(
                    plan,
                    (&before.moves, before.entry_v, Selection::All),
                    prefix,
                )
                &&& rest.len() == prefix.velocities@.len()
                &&& forall|i: int|
                    0 <= i < rest.len() ==> #[trigger] rest[i] == (PlannedItem::<M, V, C>::Move {
                        geometry: before.moves@[i],
                        velocity: prefix.velocities@[i],
                    })
                &&& after.moves@ == before.moves@.skip(rest.len() as int)
                &&& rest.len() > 0 ==> after.entry_v == prefix.boundary
                &&& after.moves_since_plan == 0
            };
        assert(prefix.velocities@.len() == before.moves@.len());
        assert forall|i: int| 0 <= i < before.moves@.len() implies #[trigger] out[i] == (
        PlannedItem::<M, V, C>::Move {
            geometry: before.moves@[i],
            velocity: prefix.velocities@[i],
        }) by {
            assert(out[i] == rest[i]);
        }
    }
}

/// A token goes on alone. A reset empties the window, which is then entered at rest; any
/// other token leaves it as it was.
pub proof fn law_reset_discards_the_window<
    M,
    V,
    C,
    P: Fn(&Vec<M>, i64, Selection) -> PlannedPrefix<V>,
>(before: Planner<M>, after: Planner<M>, control: C, plan: P, out: Seq<PlannedItem<M, V, C>>)
    ensures
        fed(before, after, StreamInput::Reset(control), plan, out) ==> {
            &&& out.len() == 1 && out[0] == PlannedItem::<M, V, C>::Control(control)
            &&& after.moves@.len() == 0
            &&& after.entry_v == before.rest
            &&& after.moves_since_plan == 0
        },
        fed(before, after, StreamInput::Control(control), plan, out) ==> {
            &&& out.len() == 1 && out[0] == PlannedItem::<M, V, C>::Control(control)
            &&& after == before
        },
{
}

/// What can be committed ends at a clean seam inside the barrier and the horizon, or is
/// nothing; and no clean seam inside both lies beyond it.
pub proof fn law_commit_ends_at_the_furthest_clean_seam(
    clean: Vec<bool>,
    barrier: usize,
    horizon: usize,
    chosen: usize,
    i: int,
)
    requires
        call_ensures(committable_seam, (&clean, barrier, horizon), chosen),
    ensures
        chosen <= barrier,
        chosen <= horizon,
        chosen > 0 ==> clean@[chosen as int],
        chosen < i <= barrier && i <= horizon ==> !clean@[i],
{
}

/// A seam is flagged as a stop exactly as the moves before and after it were answered for,
/// in that order; the entry never is.
pub proof fn law_stop_is_asked_of_the_moves_that_meet<M, F: Fn(&M, &M) -> bool>(
    moves: Vec<M>,
    requires_stop: F,
    stop_before: Vec<bool>,
    i: int,
)
    requires
        call_ensures(stop_flags::<M, F>, (&moves, requires_stop), stop_before),
        0 <= i < moves@.len(),
    ensures
        stop_before@.len() == moves@.len(),
        !stop_before@[0],
        i > 0 ==> call_ensures(requires_stop, (&moves@[i - 1], &moves@[i]), stop_before@[i]),
{
    if i > 0 {
        assert(stops_at(moves@, requires_stop, i, stop_before@[i]));
    }
}

/// A plan is due after 64 moves, and while the input is quiet after half as many.
pub proof fn law_quiet_plan_takes_half_a_batch()
    ensures
        REPLAN_BATCH_MOVES == 64,
        QUIET_PLAN_MIN_MOVES * 2 == REPLAN_BATCH_MOVES,
{
}

/// A window is full where it holds as many moves as its bound.
pub proof fn law_window_is_full_at_its_bound<M>(planner: Planner<M>)
    ensures
        window_is_full(planner) <==> planner.moves@.len() >= planner.max_buffer_moves,
{
}

/// What is fed to the planner goes out behind what was there, and nothing that was there
/// changes. No move is lost or doubled: those that went out and those that are left are the
/// ones before, and the one that was fed, in order. A drain is due exactly where a move left
/// the window full.
pub proof fn law_feeding_loses_no_move<
    M,
    V,
    C,
    P: Fn(&Vec<M>, i64, Selection) -> PlannedPrefix<V>,
>(
    planner: &mut Planner<M>,
    item: StreamInput<M, C>,
    plan: P,
    out: &mut Vec<PlannedItem<M, V, C>>,
    drain_due: bool,
)
    requires
        plans_within::<M, V, P>(plan),
        old(planner).wf(),
        call_ensures(Planner::<M>::feed::<V, C, P>, (planner, item, plan, out), drain_due),
    ensures
        final(out)@.len() >= old(out)@.len(),
        final(out)@.take(old(out)@.len() as int) == old(out)@,
        ({
            let sent = final(out)@.skip(old(out)@.len() as int);
            &&& item matches StreamInput::Move(m) ==> geometries(sent) + final(planner).moves@
                == old(planner).moves@.push(m)
            &&& item is Drain ==> geometries(sent) == old(planner).moves@ && final(planner).moves@.len() == 0 && sent.last() is Drain
            &&& item matches StreamInput::Reset(control) ==> sent == seq![
                PlannedItem::<M, V, C>::Control(control),
            ] && final(planner).moves@.len() == 0 && final(planner).entry_v == old(planner).rest
            &&& item matches StreamInput::Control(control) ==> sent == seq![
                PlannedItem::<M, V, C>::Control(control),
            ] && *final(planner) == *old(planner)
        }),
        drain_due <==> item is Move && final(planner).moves@.len() >= final(planner).max_buffer_moves,
{
    let items = choose|items: Seq<PlannedItem<M, V, C>>|
        {
            &&& #[trigger] fed(*old(planner), *final(planner), item, plan, items)
            &&& final(out)@ == old(out)@ + items
        };
    let sent = final(out)@.skip(old(out)@.len() as int);
    assert(sent =~= items);
    assert(final(out)@.take(old(out)@.len() as int) =~= old(out)@);
    match item {
        StreamInput::Move(m) => {
            law_fed_move_is_kept_in_order(*old(planner), *final(planner), m, plan, items);
        },
        StreamInput::Drain => {
            let rest = choose|rest: Seq<PlannedItem<M, V, C>>|
                {
                    &&& #[trigger] drained(*old(planner), *final(planner), plan, rest)
                    &&& items == rest.push(PlannedItem::Drain)
                };
            law_drain_empties_the_window(*old(planner), *final(planner), plan, rest);
            assert(items.drop_last() =~= rest);
            assert(geometries(items) == geometries(rest));
        },
        _ => {},
    }
}

/// A finished window is empty: all of it went out in order, and the drain token behind it.
pub proof fn law_finishing_sends_the_whole_window<
    M,
    V,
    C,
    P: Fn(&Vec<M>, i64, Selection) -> PlannedPrefix<V>,
>(planner: &mut Planner<M>, plan: P, out: &mut Vec<PlannedItem<M, V, C>>)
    requires
        plans_within::<M, V, P>(plan),
        call_ensures(Planner::<M>::finish::<V, C, P>, (planner, &plan, out), ()),
    ensures
        ({
            let sent = final(out)@.skip(old(out)@.len() as int);
            &&& final(out)@ == old(out)@ + sent
            &&& geometries(sent) == old(planner).moves@
            &&& sent.len() == old(planner).moves@.len() + 1
            &&& sent.last() is Drain
        }),
        final(planner).moves@.len() == 0,
{
    let items = choose|items: Seq<PlannedItem<M, V, C>>|
        {
            &&& #[trigger] finished(*old(planner), *final(planner), plan, items)
            &&& final(out)@ == old(out)@ + items
        };
    assert(final(out)@.skip(old(out)@.len() as int) =~= items);
    assert(fed(*old(planner), *final(planner), StreamInput::<M, C>::Drain, plan, items));
    law_drain_sends_all_and_then_its_token(*old(planner), *final(planner), plan, items);
    let rest = choose|rest: Seq<PlannedItem<M, V, C>>|
        {
            &&& #[trigger] drained(*old(planner), *final(planner), plan, rest)
            &&& items == rest.push(PlannedItem::Drain)
        };
    law_drain_empties_the_window(*old(planner), *final(planner), plan, rest);
    assert(items.drop_last() =~= rest);
    assert(geometries(items) == geometries(rest));
}

/// A quiet input changes nothing before 32 moves have arrived since the last plan. From then
/// on what can be committed goes out, and the rest stays in order behind it.
pub proof fn law_quiet_input_commits_what_it_can<
    M,
    V,
    C,
    P: Fn(&Vec<M>, i64, Selection) -> PlannedPrefix<V>,
>(planner: &mut Planner<M>, plan: P, out: &mut Vec<PlannedItem<M, V, C>>)
    requires
        plans_within::<M, V, P>(plan),
        old(planner).wf(),
        call_ensures(Planner::<M>::idle::<V, C, P>, (planner, &plan, out), ()),
    ensures
        old(planner).moves_since_plan < 32 ==> *final(planner) == *old(planner) && final(out)@
            == old(out)@,
        old(planner).moves_since_plan >= 32 ==> {
            let sent = final(out)@.skip(old(out)@.len() as int);
            &&& final(out)@ == old(out)@ + sent
            &&& geometries(sent) + final(planner).moves@ == old(planner).moves@
            &&& final(planner).moves_since_plan == 0
        },
{
    if old(planner).moves_since_plan >= 32 {
        let items = choose|items: Seq<PlannedItem<M, V, C>>|
            {
                &&& #[trigger] plan_committed(
                    *old(planner),
                    *final(planner),
                    plan,
                    Selection::Committable,
                    items,
                )
                &&& final(out)@ == old(out)@ + items
            };
        assert(final(out)@.skip(old(out)@.len() as int) =~= items);
        law_commit_keeps_every_move(
            *old(planner),
            *final(planner),
            plan,
            Selection::Committable,
            items,
        );
        law_committed_moves_keep_their_velocities(
            *old(planner),
            *final(planner),
            plan,
            Selection::Committable,
            items,
        );
    }
}

/// Each move that goes out while the input is quiet is driven as one plan of the window for
/// what can be committed says, at the window's entry speed.
pub proof fn law_quiet_moves_are_driven_as_planned<
    M,
    V,
    C,
    P: Fn(&Vec<M>, i64, Selection) -> PlannedPrefix<V>,
>(planner: &mut Planner<M>, plan: P, out: &mut Vec<PlannedItem<M, V, C>>)
    requires
        old(planner).moves_since_plan >= 32,
        call_ensures(Planner::<M>::idle::<V, C, P>, (planner, &plan, out), ()),
    ensures
        exists|prefix: PlannedPrefix<V>|
            {
                &&& #[trigger] call_ensures(
                    plan,
                    (&old(planner).moves, old(planner).entry_v, Selection::Committable),
                    prefix,
                )
                &&& final(out)@.len() == old(out)@.len() + prefix.velocities@.len()
                &&& forall|i: int|
                    0 <= i < prefix.velocities@.len() ==> #[trigger] final(out)@[old(out)@.len()
                        + i] == (PlannedItem::<M, V, C>::Move {
                        geometry: old(planner).moves@[i],
                        velocity: prefix.velocities@[i],
                    })
                &&& prefix.velocities@.len() > 0 ==> final(planner).entry_v == prefix.boundary
                &&& prefix.velocities@.len() == 0 ==> final(planner).entry_v == old(planner).entry_v
            },
{
    let items = choose|items: Seq<PlannedItem<M, V, C>>|
        {
            &&& #[trigger] plan_committed(
                *old(planner),
                *final(planner),
                plan,
                Selection::Committable,
                items,
            )
            &&& final(out)@ == old(out)@ + items
        };
    let prefix = choose|prefix: PlannedPrefix<V>|
        {
            &&& #[trigger] plans(plan, *old(planner), Selection::Committable, prefix)
            &&& after_commit(*old(planner), *final(planner), prefix)
            &&& items == committed::<M, V, C>(old(planner).moves@, prefix.velocities@)
        };
    assert(call_ensures(
        plan,
        (&old(planner).moves, old(planner).entry_v, Selection::Committable),
        prefix,
    ));
    assert forall|i: int| 0 <= i < prefix.velocities@.len() implies #[trigger] final(out)@[old(out)@.len() + i] == (PlannedItem::<M, V, C>::Move {
        geometry: old(planner).moves@[i],
        velocity: prefix.velocities@[i],
    }) by {
        assert(final(out)@[old(out)@.len() + i] == items[i]);
    }
}

/// Each move that a finished window sends out is driven as one plan of the whole window says.
pub proof fn law_finished_moves_are_driven_as_planned<
    M,
    V,
    C,
    P: Fn(&Vec<M>, i64, Selection) -> PlannedPrefix<V>,
>(planner: &mut Planner<M>, plan: P, out: &mut Vec<PlannedItem<M, V, C>>)
    requires
        plans_within::<M, V, P>(plan),
        old(planner).moves@.len() > 0,
        call_ensures(Planner::<M>::finish::<V, C, P>, (planner, &plan, out), ()),
    ensures
        exists|prefix: PlannedPrefix<V>|
            {
                &&& #[trigger] call_ensures(
                    plan,
                    (&old(planner).moves, old(planner).entry_v, Selection::All),
                    prefix,
                )
                &&& forall|i: int|
                    0 <= i < old(planner).moves@.len() ==> #[trigger] final(out)@[old(out)@.len()
                        + i] == (PlannedItem::<M, V, C>::Move {
                        geometry: old(planner).moves@[i],
                        velocity: prefix.velocities@[i],
                    })
                &&& final(planner).entry_v == prefix.boundary
            },
{
    let items = choose|items: Seq<PlannedItem<M, V, C>>|
        {
            &&& #[trigger] finished(*old(planner), *final(planner), plan, items)
            &&& final(out)@ == old(out)@ + items
        };
    assert(fed(*old(planner), *final(planner), StreamInput::<M, C>::Drain, plan, items));
    law_drain_sends_all_and_then_its_token(*old(planner), *final(planner), plan, items);
    let prefix = choose|prefix: PlannedPrefix<V>|
        {
            &&& #[trigger] call_ensures(
                plan,
                (&old(planner).moves, old(planner).entry_v, Selection::All),
                prefix,
            )
            &&& prefix.velocities@.len() == old(planner).moves@.len()
            &&& forall|i: int|
                0 <= i < old(planner).moves@.len() ==> #[trigger] items[i] == (PlannedItem::<
                    M,
                    V,
                    C,
                >::Move { geometry: old(planner).moves@[i], velocity: prefix.velocities@[i] })
            &&& final(planner).entry_v == prefix.boundary
        };
    assert(call_ensures(
        plan,
        (&old(planner).moves, old(planner).entry_v, Selection::All),
        prefix,
    ));
    assert forall|i: int| 0 <= i < old(planner).moves@.len() implies #[trigger] final(out)@[old(out)@.len() + i] == (PlannedItem::<M, V, C>::Move {
        geometry: old(planner).moves@[i],
        velocity: prefix.velocities@[i],
    }) by {
        assert(final(out)@[old(out)@.len() + i] == items[i]);
    }
}

/// Each move that goes out when one is fed is driven as a plan of the window with that move in
/// it says; and the window's bound and its rest stay.
pub proof fn law_fed_moves_are_driven_as_planned<
    M,
    V,
    C,
    P: Fn(&Vec<M>, i64, Selection) -> PlannedPrefix<V>,
>(
    planner: &mut Planner<M>,
    m: M,
    plan: P,
    out: &mut Vec<PlannedItem<M, V, C>>,
    drain_due: bool,
)
    requires
        call_ensures(
            Planner::<M>::feed::<V, C, P>,
            (planner, StreamInput::Move(m), plan, out),
            drain_due,
        ),
        final(out)@.len() > old(out)@.len(),
    ensures
        old(planner).moves_since_plan + 1 >= 64 || old(planner).moves@.len() + 1 >= old(planner).max_buffer_moves,
        exists|window: Vec<M>, prefix: PlannedPrefix<V>|
            {
                &&& window@ == old(planner).moves@.push(m)
                &&& #[trigger] call_ensures(
                    plan,
                    (&window, old(planner).entry_v, Selection::Committable),
                    prefix,
                )
                &&& final(out)@.len() == old(out)@.len() + prefix.velocities@.len()
                &&& forall|i: int|
                    0 <= i < prefix.velocities@.len() ==> #[trigger] final(out)@[old(out)@.len()
                        + i] == (PlannedItem::<M, V, C>::Move {
                        geometry: window@[i],
                        velocity: prefix.velocities@[i],
                    })
                &&& final(planner).entry_v == prefix.boundary
            },
        final(planner).max_buffer_moves == old(planner).max_buffer_moves,
        final(planner).rest == old(planner).rest,
{
    let items = choose|items: Seq<PlannedItem<M, V, C>>|
        {
            &&& #[trigger] fed(
                *old(planner),
                *final(planner),
                StreamInput::<M, C>::Move(m),
                plan,
                items,
            )
            &&& final(out)@ == old(out)@ + items
        };
    law_window_is_planned_in_batches(*old(planner), *final(planner), m, plan, items);
    let (window, prefix) = choose|window: Vec<M>, prefix: PlannedPrefix<V>|
        {
            &&& window@ == old(planner).moves@.push(m)
            &&& #[trigger] call_ensures(
                plan,
                (&window, old(planner).entry_v, Selection::Committable),
                prefix,
            )
            &&& items.len() == prefix.velocities@.len()
            &&& forall|i: int|
                0 <= i < items.len() ==> #[trigger] items[i] == (PlannedItem::<M, V, C>::Move {
                    geometry: window@[i],
                    velocity: prefix.velocities@[i],
                })
            &&& final(planner).moves@ == window@.skip(items.len() as int)
            &&& final(planner).moves_since_plan == 0
            &&& items.len() > 0 ==> final(planner).entry_v == prefix.boundary
            &&& items.len() == 0 ==> final(planner).entry_v == old(planner).entry_v
            &&& final(planner).max_buffer_moves == old(planner).max_buffer_moves
            &&& final(planner).rest == old(planner).rest
        };
    assert(call_ensures(
        plan,
        (&window, old(planner).entry_v, Selection::Committable),
        prefix,
    ));
    assert forall|i: int| 0 <= i < prefix.velocities@.len() implies #[trigger] final(out)@[old(out)@.len() + i] == (PlannedItem::<M, V, C>::Move {
        geometry: window@[i],
        velocity: prefix.velocities@[i],
    }) by {
        assert(final(out)@[old(out)@.len() + i] == items[i]);
    }
}

} // verus!
