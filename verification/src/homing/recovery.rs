//! Recovering from an aborted homing run. Each step is taken only once the one before
//! it succeeded; where one fails the position is lost and the caller must say so.

use vstd::prelude::*;

verus! {

/// Where a recovery stands: what it waits to hear.
#[derive(Debug)]
pub enum Recovery<P> {
    /// Flush the run's lanes, disarm its drip and wait for a barrier.
    Flushing,
    /// Wait until no partial work is pending.
    AwaitingPartialWork,
    /// Let every frozen stepper go.
    ClearingMasks,
    /// Work out where the machine stopped.
    Reconciling,
    /// Wait until all motion has drained.
    Draining { rest: P },
    /// Open the stream again at the position.
    Reopening { rest: P },
    /// The machine is known to be at this position.
    Recovered { rest: P },
    /// The position is unknown.
    Lost,
}

/// The recovery after a step that only succeeds or fails.
pub open spec fn after_step<P>(recovery: Recovery<P>, succeeded: bool) -> Recovery<P> {
    if !succeeded {
        Recovery::Lost
    } else {
        match recovery {
            Recovery::Flushing => Recovery::AwaitingPartialWork,
            Recovery::AwaitingPartialWork => Recovery::ClearingMasks,
            Recovery::ClearingMasks => Recovery::Reconciling,
            Recovery::Draining { rest } => Recovery::Reopening { rest },
            Recovery::Reopening { rest } => Recovery::Recovered { rest },
            other => other,
        }
    }
}

/// The recovery waits for a step that only succeeds or fails.
pub open spec fn awaits_step<P>(recovery: Recovery<P>) -> bool {
    recovery is Flushing || recovery is AwaitingPartialWork || recovery is ClearingMasks
        || recovery is Draining || recovery is Reopening
}

impl<P> Recovery<P> {
    pub fn start() -> (recovery: Self)
        ensures
            recovery is Flushing,
    {
        Recovery::Flushing
    }

    /// Takes in how the last step went.
    pub fn step(self, succeeded: bool) -> (next: Self)
        requires
            awaits_step(self),
        ensures
            next == after_step(self, succeeded),
    {
        if !succeeded {
            return Recovery::Lost;
        }
        match self {
            Recovery::Flushing => Recovery::AwaitingPartialWork,
            Recovery::AwaitingPartialWork => Recovery::ClearingMasks,
            Recovery::ClearingMasks => Recovery::Reconciling,
            Recovery::Draining { rest } => Recovery::Reopening { rest },
            Recovery::Reopening { rest } => Recovery::Recovered { rest },
            other => other,
        }
    }

    /// Takes in where the machine stopped, where that could be worked out.
    pub fn reconciled(self, rest: Option<P>) -> (next: Self)
        requires
            self is Reconciling,
        ensures
            next == match rest {
                Some(rest) => Recovery::Draining { rest },
                None => Recovery::Lost,
            },
    {
        match rest {
            Some(rest) => Recovery::Draining { rest },
            None => Recovery::Lost,
        }
    }

    /// The position the machine is known to be at, once it is.
    pub fn position(self) -> (position: Option<P>)
        ensures
            position == match self {
                Recovery::Recovered { rest } => Some(rest),
                _ => None,
            },
    {
        match self {
            Recovery::Recovered { rest } => Some(rest),
            _ => None,
        }
    }
}

/// Whether every mcu let its steppers go: one that did not may still hold one frozen.
pub fn all_cleared(outcomes: &[bool]) -> (cleared: bool)
    ensures
        cleared <==> forall|i: int| 0 <= i < outcomes@.len() ==> outcomes@[i],
        cleared <==> !outcomes@.contains(false),
{
    let mut cleared = true;
    let mut index: usize = 0;
    while index < outcomes.len()
        invariant
            index <= outcomes@.len(),
            cleared <==> forall|i: int| 0 <= i < index ==> outcomes@[i],
        decreases outcomes@.len() - index,
    {
        if !outcomes[index] {
            cleared = false;
        }
        index += 1;
    }
    cleared
}

/// The recovery after a run of steps, each of which only succeeds or fails.
pub open spec fn after_steps<P>(recovery: Recovery<P>, outcomes: Seq<bool>) -> Recovery<P>
    decreases outcomes.len(),
{
    if outcomes.len() == 0 {
        recovery
    } else {
        after_step(after_steps(recovery, outcomes.drop_last()), outcomes.last())
    }
}

/// One failed step loses the position for good, whatever step it is and whatever
/// follows it.
pub proof fn law_failed_step_loses_the_position<P>(recovery: Recovery<P>, outcomes: Seq<bool>)
    requires
        outcomes.contains(false),
    ensures
        after_steps(recovery, outcomes) is Lost,
    decreases outcomes.len(),
{
    if outcomes.last() {
        let i = choose|i: int| 0 <= i < outcomes.len() && outcomes[i] == false;
        assert(outcomes.drop_last()[i] == false);
        law_failed_step_loses_the_position(recovery, outcomes.drop_last());
    }
}

/// A position is recovered through every step, in order: three before the machine's
/// rest is worked out, and two after it. The position is the one that was worked out.
pub proof fn law_recovery_takes_every_step<P>(rest: P)
    ensures
        after_steps(Recovery::<P>::Flushing, seq![true]) is AwaitingPartialWork,
        after_steps(Recovery::<P>::Flushing, seq![true, true]) is ClearingMasks,
        after_steps(Recovery::<P>::Flushing, seq![true, true, true]) is Reconciling,
        after_steps(Recovery::Draining { rest }, seq![true]) == (Recovery::Reopening { rest }),
        after_steps(Recovery::Draining { rest }, seq![true, true]) == (Recovery::Recovered {
            rest,
        }),
{
    reveal_with_fuel(after_steps, 5);
    assert(seq![true, true, true].drop_last() =~= seq![true, true]);
    assert(seq![true, true].drop_last() =~= seq![true]);
    assert(seq![true].drop_last() =~= Seq::<bool>::empty());
}

/// A machine is known to be somewhere only at the end of a recovery, and there it is where it
/// was worked out to have stopped; without that the position is lost.
pub proof fn law_known_position_is_the_one_worked_out<P>(
    reconciling: Recovery<P>,
    worked_out: Option<P>,
    next: Recovery<P>,
    last: Recovery<P>,
    position: Option<P>,
)
    requires
        call_ensures(Recovery::<P>::reconciled, (reconciling, worked_out), next),
        call_ensures(Recovery::<P>::position, (last,), position),
    ensures
        worked_out is None ==> next is Lost,
        worked_out matches Some(rest) ==> next == (Recovery::Draining { rest }),
        position is Some <==> last is Recovered,
        last matches Recovery::Recovered { rest } ==> position == Some(rest),
{
}

/// No step is skipped: each one that succeeds leads to the one after it, and nothing but the
/// reopening leads to a known position.
pub proof fn law_no_step_of_a_recovery_is_skipped<P>(
    recovery: Recovery<P>,
    succeeded: bool,
    next: Recovery<P>,
)
    requires
        call_ensures(Recovery::<P>::step, (recovery, succeeded), next),
        !(recovery is Recovered),
    ensures
        next is Recovered ==> recovery is Reopening && succeeded,
        next is Reopening ==> recovery is Draining && succeeded,
        next is ClearingMasks ==> recovery is AwaitingPartialWork && succeeded,
        next is AwaitingPartialWork ==> recovery is Flushing && succeeded,
        !succeeded ==> next is Lost,
        recovery matches Recovery::Reopening { rest } ==> (succeeded ==> next == (
        Recovery::Recovered { rest })),
{
}

/// The steppers count as let go exactly where every mcu let its own go.
pub proof fn law_one_held_stepper_is_not_cleared(outcomes: &[bool], cleared: bool, i: int)
    requires
        call_ensures(all_cleared, (outcomes,), cleared),
    ensures
        0 <= i < outcomes@.len() && !outcomes@[i] ==> !cleared,
        !cleared ==> outcomes@.contains(false),
{
    if 0 <= i < outcomes@.len() && !outcomes@[i] {
        assert(outcomes@.contains(false));
    }
}

} // verus!
