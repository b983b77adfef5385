//! What an endstop trip does to a homing run.
//!
//! A trip of one of several endstops freezes the motor bound to it and lets the run
//! go on. The last one ends the run: the motors are stopped, the position they came
//! to rest at is worked out, and the streams are opened again. The calls to the
//! mcus, the pump and the motion history are the caller's; the handler takes what
//! each came to and says what is next.

use crate::homing::state::{
    HomingLifecycle, HomingRun, LifecycleView, PhaseView, RemoteFreeze, RunView, Trip, TripMember,
};
use vstd::prelude::*;

verus! {

/// How a trip matches the endstops a run still waits for.
#[derive(Debug, Clone, Copy, PartialEq, Eq, Structural)]
pub enum TripMatch {
    Unmatched,
    Partial(Option<RemoteFreeze>),
    Final(Option<RemoteFreeze>),
}

/// `index` is the first endstop of the run that the trip is of.
pub open spec fn first_member(
    members: Seq<TripMember>,
    event_mcu: u32,
    endstop_id: u8,
    index: int,
) -> bool {
    &&& 0 <= index < members.len()
    &&& members[index].endstop_mcu == event_mcu
    &&& members[index].endstop_id == endstop_id
    &&& forall|i: int|
        0 <= i < index ==> !((#[trigger] members[i]).endstop_mcu == event_mcu
            && members[i].endstop_id == endstop_id)
}

pub open spec fn is_member(
    members: Seq<TripMember>,
    event_mcu: u32,
    endstop_id: u8,
) -> bool {
    exists|i: int|
        0 <= i < members.len() && (#[trigger] members[i]).endstop_mcu == event_mcu
            && members[i].endstop_id == endstop_id
}

/// The endstops left once the one at `index` has tripped; the last one takes its place.
pub open spec fn without_member(
    members: Seq<TripMember>,
    index: int,
) -> Seq<TripMember> {
    members.update(index, members.last()).drop_last()
}

/// Matches a trip against the endstops the run waits for. Every endstop but the last
/// is struck off as it trips.
pub fn match_trip<P>(run: &mut HomingRun<P>, event_mcu: u32, endstop_id: u8) -> (matched: TripMatch)
    ensures
        final(run)@ == (RunView {
            remaining_trips: final(run)@.remaining_trips,
            ..old(run)@
        }),
        matched == TripMatch::Unmatched <==> !is_member(
            old(run)@.remaining_trips,
            event_mcu,
            endstop_id,
        ),
        !is_member(old(run)@.remaining_trips, event_mcu, endstop_id) ==> final(run)@ == old(run)@,
        forall|index: int| #[trigger]
            first_member(old(run)@.remaining_trips, event_mcu, endstop_id, index) ==> {
                let member = old(run)@.remaining_trips[index];
                if old(run)@.remaining_trips.len() > 1 {
                    &&& matched == TripMatch::Partial(member.remote_freeze)
                    &&& final(run)@.remaining_trips == without_member(
                        old(run)@.remaining_trips,
                        index,
                    )
                } else {
                    &&& matched == TripMatch::Final(member.remote_freeze)
                    &&& final(run)@ == old(run)@
                }
            },
{
    let mut index: usize = 0;
    while index < run.remaining_trips.len()
        invariant
            index <= run.remaining_trips@.len(),
            *run == *old(run),
            forall|i: int|
                0 <= i < index ==> !((#[trigger] run.remaining_trips@[i]).endstop_mcu == event_mcu
                    && run.remaining_trips@[i].endstop_id == endstop_id),
        decreases run.remaining_trips@.len() - index,
    {
        let member = run.remaining_trips[index];
        if member.endstop_mcu == event_mcu && member.endstop_id == endstop_id {
            assert(first_member(run@.remaining_trips, event_mcu, endstop_id, index as int));
            assert(run@.remaining_trips[index as int].endstop_mcu == event_mcu);
            assert forall|other: int| #[trigger]
                first_member(old(run)@.remaining_trips, event_mcu, endstop_id, other) implies other
                == index by {
                let found = old(run)@.remaining_trips[index as int];
                assert(found.endstop_mcu == event_mcu && found.endstop_id == endstop_id);
            }
            if run.remaining_trips.len() > 1 {
                let taken = run.remaining_trips.swap_remove(index);
                assert(run@.remaining_trips =~= without_member(
                    old(run)@.remaining_trips,
                    index as int,
                ));
                return TripMatch::Partial(taken.remote_freeze);
            }
            return TripMatch::Final(member.remote_freeze);
        }
        index += 1;
    }
    TripMatch::Unmatched
}

/// What the caller does about a trip.
#[derive(Debug)]
pub enum TripStart<P> {
    /// The trip is no run's, is kept for a run being registered, or only struck an
    /// endstop off.
    Nothing,
    /// Freeze the motor on its own mcu, cut its stream, then retire the partial work.
    FreezeRemotely { cohort: u64, freeze: RemoteFreeze },
    /// The endstop's mcu froze the motor itself: cut its stream, then retire the
    /// partial work.
    CutStream { cohort: u64, freeze: RemoteFreeze },
    /// The last endstop tripped: the run is the caller's to end.
    End { run: HomingRun<P>, last_freeze: Option<RemoteFreeze> },
}

/// The lifecycle after a trip is taken in, and what is done about it.
pub open spec fn trip_taken<P>(
    before: LifecycleView<P>,
    trip: Trip,
    after: LifecycleView<P>,
    start: TripStart<P>,
) -> bool {
    match before.phase {
        PhaseView::Active(run) => {
            if !is_member(run.remaining_trips, trip.0, trip.1) {
                start == TripStart::<P>::Nothing && after == before
            } else {
                exists|index: int| #[trigger]
                    first_member(run.remaining_trips, trip.0, trip.1, index) && {
                        let freeze = run.remaining_trips[index].remote_freeze;
                        if run.remaining_trips.len() == 1 {
                            &&& after == before.taken()
                            &&& start matches TripStart::End { run: taken, last_freeze: bound }
                                && taken@ == run && bound == freeze
                        } else {
                            let left = LifecycleView {
                                phase: PhaseView::Active(
                                    RunView {
                                        remaining_trips: without_member(
                                            run.remaining_trips,
                                            index,
                                        ),
                                        ..run
                                    },
                                ),
                                ..before
                            };
                            match freeze {
                                None => start == TripStart::<P>::Nothing && after == left,
                                Some(bound) => {
                                    &&& after == (LifecycleView {
                                        pending_suppresses: before.pending_suppresses + 1,
                                        ..left
                                    })
                                    &&& start == if bound.motor_mcu != trip.0 {
                                        TripStart::<P>::FreezeRemotely {
                                            cohort: run.cohort,
                                            freeze: bound,
                                        }
                                    } else {
                                        TripStart::<P>::CutStream {
                                            cohort: run.cohort,
                                            freeze: bound,
                                        }
                                    }
                                },
                            }
                        }
                    }
            }
        },
        _ => {
            &&& start == TripStart::<P>::Nothing
            &&& after == if before.buffers_trips() {
                LifecycleView {
                    pending_trips: before.pending_trips.push(trip),
                    ..before
                }
            } else {
                before
            }
        },
    }
}

/// Takes one trip in: who ends the run, or which motor's stream is cut.
pub fn dispatch_endstop_trip<P>(
    lifecycle: &mut HomingLifecycle<P>,
    event_mcu: u32,
    endstop_id: u8,
    trip_clock: u64,
) -> (start: TripStart<P>)
    requires
        old(lifecycle).pending_suppresses < usize::MAX,
    ensures
        trip_taken(
            old(lifecycle)@,
            (event_mcu, endstop_id, trip_clock),
            final(lifecycle)@,
            start,
        ),
{
    let ghost before = lifecycle@;
    let (matched, cohort): (TripMatch, u64) = match lifecycle.trip_run(
        (event_mcu, endstop_id, trip_clock),
    ) {
        Some(run) => {
            let matched = match_trip(run, event_mcu, endstop_id);
            (matched, run.cohort)
        },
        None => {
            return TripStart::Nothing;
        },
    };
    proof {
        let members = before.phase->Active_0.remaining_trips;
        if is_member(members, event_mcu, endstop_id) {
            lemma_some_member_is_first(members, event_mcu, endstop_id);
        }
    }
    match matched {
        TripMatch::Unmatched => TripStart::Nothing,
        TripMatch::Partial(None) => TripStart::Nothing,
        TripMatch::Partial(Some(freeze)) => {
            lifecycle.pending_suppresses = lifecycle.pending_suppresses + 1;
            if freeze.motor_mcu != event_mcu {
                TripStart::FreezeRemotely { cohort, freeze }
            } else {
                TripStart::CutStream { cohort, freeze }
            }
        },
        TripMatch::Final(freeze) => {
            let any = |run: &HomingRun<P>| -> (accepted: bool)
                ensures
                    accepted,
                { true };
            match lifecycle.take_terminal(any) {
                Some(run) => TripStart::End { run, last_freeze: freeze },
                None => TripStart::Nothing,
            }
        },
    }
}

proof fn lemma_some_member_is_first(
    members: Seq<TripMember>,
    event_mcu: u32,
    endstop_id: u8,
)
    requires
        is_member(members, event_mcu, endstop_id),
    ensures
        exists|index: int| #[trigger] first_member(members, event_mcu, endstop_id, index),
{
    let some = choose|i: int|
        0 <= i < members.len() && (#[trigger] members[i]).endstop_mcu == event_mcu
            && members[i].endstop_id == endstop_id;
    lemma_first_at_or_before(members, event_mcu, endstop_id, some);
}

proof fn lemma_first_at_or_before(
    members: Seq<TripMember>,
    event_mcu: u32,
    endstop_id: u8,
    some: int,
)
    requires
        0 <= some < members.len(),
        members[some].endstop_mcu == event_mcu,
        members[some].endstop_id == endstop_id,
    ensures
        exists|index: int| #[trigger] first_member(members, event_mcu, endstop_id, index),
    decreases some,
{
    if first_member(members, event_mcu, endstop_id, some) {
    } else {
        let earlier = choose|i: int|
            0 <= i < some && (#[trigger] members[i]).endstop_mcu == event_mcu
                && members[i].endstop_id == endstop_id;
        lemma_first_at_or_before(members, event_mcu, endstop_id, earlier);
    }
}

/// The trip is of this endstop.
pub open spec fn trips_endstop(member: TripMember, trip: Trip) -> bool {
    member.endstop_mcu == trip.0 && member.endstop_id == trip.1
}

/// A trip of an endstop that an active run does not wait for changes nothing, and asks for
/// nothing.
pub proof fn law_trip_of_another_endstop_is_ignored<P>(
    before: LifecycleView<P>,
    trip: Trip,
    after: LifecycleView<P>,
    start: TripStart<P>,
)
    requires
        trip_taken(before, trip, after, start),
        before.phase is Active,
        forall|i: int|
            0 <= i < before.phase->Active_0.remaining_trips.len() ==> !trips_endstop(
                #[trigger] before.phase->Active_0.remaining_trips[i],
                trip,
            ),
    ensures
        after == before,
        start is Nothing,
{
    let members = before.phase->Active_0.remaining_trips;
    if is_member(members, trip.0, trip.1) {
        let i = choose|i: int|
            0 <= i < members.len() && (#[trigger] members[i]).endstop_mcu == trip.0
                && members[i].endstop_id == trip.1;
        assert(trips_endstop(members[i], trip));
    }
}

/// The trip of the one endstop that is left ends the run: the caller is handed that run and
/// the motor bound to that endstop, and the run completes from then on.
pub proof fn law_last_trip_ends_the_run<P>(
    before: LifecycleView<P>,
    trip: Trip,
    after: LifecycleView<P>,
    start: TripStart<P>,
    run: RunView<P>,
)
    requires
        trip_taken(before, trip, after, start),
        before.phase == PhaseView::Active(run),
        run.remaining_trips.len() == 1,
        trips_endstop(run.remaining_trips[0], trip),
    ensures
        start is End,
        start->run@ == run,
        start->last_freeze == run.remaining_trips[0].remote_freeze,
        after.phase == PhaseView::<P>::Completing(run.cohort, run.axis_key.mcu_id),
        after.pending_suppresses == before.pending_suppresses,
        after.failure == before.failure,
{
    assert(run.remaining_trips[0].endstop_mcu == trip.0);
}

/// A trip of one endstop among several strikes that endstop off and lets the run go on. The
/// motor bound to it, where there is one, is frozen on its own mcu unless that mcu reported
/// the trip; its stream is cut in either case, and that is one more piece of partial work. An
/// endstop without a motor owes nothing.
pub proof fn law_trip_among_several_freezes_its_own_motor<P>(
    before: LifecycleView<P>,
    trip: Trip,
    after: LifecycleView<P>,
    start: TripStart<P>,
    run: RunView<P>,
    some: int,
)
    requires
        trip_taken(before, trip, after, start),
        before.phase == PhaseView::Active(run),
        run.remaining_trips.len() > 1,
        0 <= some < run.remaining_trips.len(),
        trips_endstop(run.remaining_trips[some], trip),
    ensures
        after.phase is Active,
        ({
            let left = after.phase->Active_0;
            exists|index: int|
                {
                    let member = run.remaining_trips[index];
                    &&& 0 <= index <= some
                    &&& trips_endstop(#[trigger] run.remaining_trips[index], trip)
                    &&& left.remaining_trips.len() == run.remaining_trips.len() - 1
                    &&& forall|i: int|
                        0 <= i < run.remaining_trips.len() && i != index
                            ==> left.remaining_trips.contains(#[trigger] run.remaining_trips[i])
                    &&& member.remote_freeze is None ==> start is Nothing
                        && after.pending_suppresses == before.pending_suppresses
                    &&& member.remote_freeze matches Some(freeze) ==> {
                        &&& after.pending_suppresses == before.pending_suppresses + 1
                        &&& freeze.motor_mcu != trip.0 ==> start is FreezeRemotely
                            && start->FreezeRemotely_cohort == run.cohort
                            && start->FreezeRemotely_freeze == freeze
                        &&& freeze.motor_mcu == trip.0 ==> start is CutStream
                            && start->CutStream_cohort == run.cohort && start->CutStream_freeze
                            == freeze
                    }
                }
        }),
        after.phase->Active_0.cohort == run.cohort,
        after.phase->Active_0.axis_key == run.axis_key,
        after.phase->Active_0.all_axis_keys == run.all_axis_keys,
        after.phase->Active_0.window_start_host == run.window_start_host,
        after.phase->Active_0.start_pos == run.start_pos,
        after.failure == before.failure,
        after.drip_active == before.drip_active,
{
    let members = run.remaining_trips;
    assert(members[some].endstop_mcu == trip.0);
    let index = choose|index: int| #[trigger]
        first_member(members, trip.0, trip.1, index) && {
            let freeze = members[index].remote_freeze;
            let left = LifecycleView {
                phase: PhaseView::Active(
                    RunView { remaining_trips: without_member(members, index), ..run },
                ),
                ..before
            };
            match freeze {
                None => start == TripStart::<P>::Nothing && after == left,
                Some(bound) => {
                    &&& after == (LifecycleView {
                        pending_suppresses: before.pending_suppresses + 1,
                        ..left
                    })
                    &&& start == if bound.motor_mcu != trip.0 {
                        TripStart::<P>::FreezeRemotely { cohort: run.cohort, freeze: bound }
                    } else {
                        TripStart::<P>::CutStream { cohort: run.cohort, freeze: bound }
                    }
                },
            }
        };
    assert(trips_endstop(members[index], trip));
    let left = without_member(members, index);
    assert forall|i: int| 0 <= i < members.len() && i != index implies left.contains(
        #[trigger] members[i],
    ) by {
        if i == members.len() - 1 {
            assert(left[index] == members[i]);
        } else {
            assert(left[i] == members[i]);
        }
    }
}

/// Before there is a run the trip is kept behind those already kept; once the run was taken
/// it is dropped. Neither asks for anything.
pub proof fn law_trip_without_a_run_waits_or_is_dropped<P>(
    before: LifecycleView<P>,
    trip: Trip,
    after: LifecycleView<P>,
    start: TripStart<P>,
)
    requires
        trip_taken(before, trip, after, start),
        !(before.phase is Active),
    ensures
        start is Nothing,
        after.phase == before.phase,
        before.phase is Idle || before.phase is Registering ==> after.pending_trips.len()
            == before.pending_trips.len() + 1 && after.pending_trips.last() == trip
            && after.pending_trips.drop_last() == before.pending_trips,
        !(before.phase is Idle || before.phase is Registering) ==> after == before,
{
    if before.phase is Idle || before.phase is Registering {
        assert(after.pending_trips.drop_last() =~= before.pending_trips);
    }
}

/// Taking a trip in is told by the lifecycle before and after it, and by what it asks for.
pub proof fn law_dispatched_trip_is_taken_in<P>(
    lifecycle: &mut HomingLifecycle<P>,
    event_mcu: u32,
    endstop_id: u8,
    trip_clock: u64,
    start: TripStart<P>,
)
    requires
        old(lifecycle).pending_suppresses < usize::MAX,
        call_ensures(
            dispatch_endstop_trip::<P>,
            (lifecycle, event_mcu, endstop_id, trip_clock),
            start,
        ),
    ensures
        start is End ==> old(lifecycle)@.phase is Active && final(lifecycle)@.phase is Completing
            && start->run@ == old(lifecycle)@.phase->Active_0,
        start is FreezeRemotely || start is CutStream ==> old(lifecycle)@.phase is Active && final(lifecycle)@.phase is Active && final(lifecycle)@.pending_suppresses
            == old(lifecycle)@.pending_suppresses + 1,
        start is FreezeRemotely ==> start->FreezeRemotely_freeze.motor_mcu != event_mcu
            && start->FreezeRemotely_cohort == old(lifecycle)@.phase->Active_0.cohort,
        start is CutStream ==> start->CutStream_freeze.motor_mcu == event_mcu
            && start->CutStream_cohort == old(lifecycle)@.phase->Active_0.cohort,
        start is Nothing ==> final(lifecycle)@.pending_suppresses
            == old(lifecycle)@.pending_suppresses,
        !(old(lifecycle)@.phase is Active) ==> start is Nothing && final(lifecycle)@.phase
            == old(lifecycle)@.phase,
        final(lifecycle)@.failure == old(lifecycle)@.failure,
        final(lifecycle)@.recent_arms == old(lifecycle)@.recent_arms,
        final(lifecycle)@.consumer_cancelled == old(lifecycle)@.consumer_cancelled,
        old(lifecycle)@.phase is Active ==> final(lifecycle)@.pending_trips
            == old(lifecycle)@.pending_trips,
{
}

/// A trip matches exactly where the run waits for its endstop. It is the last one exactly
/// where no other endstop is waited for, and what is matched is the motor bound to the
/// first such endstop. That one is waited for no more; the last takes its place, and the
/// others keep theirs.
pub proof fn law_trip_matches_the_endstop_waited_for<P>(
    run: &mut HomingRun<P>,
    event_mcu: u32,
    endstop_id: u8,
    matched: TripMatch,
    index: int,
)
    requires
        call_ensures(match_trip::<P>, (run, event_mcu, endstop_id), matched),
        0 <= index < old(run).remaining_trips@.len(),
        old(run).remaining_trips@[index].endstop_mcu == event_mcu,
        old(run).remaining_trips@[index].endstop_id == endstop_id,
        forall|i: int|
            0 <= i < index ==> (#[trigger] old(run).remaining_trips@[i]).endstop_mcu != event_mcu
                || old(run).remaining_trips@[i].endstop_id != endstop_id,
    ensures
        old(run).remaining_trips@.len() == 1 ==> matched == TripMatch::Final(
            old(run).remaining_trips@[index].remote_freeze,
        ) && final(run).remaining_trips@ == old(run).remaining_trips@,
        old(run).remaining_trips@.len() > 1 ==> matched == TripMatch::Partial(
            old(run).remaining_trips@[index].remote_freeze,
        ) && final(run).remaining_trips@.len() == old(run).remaining_trips@.len() - 1,
        old(run).remaining_trips@.len() > 1 ==> forall|i: int|
            0 <= i < final(run).remaining_trips@.len() ==> #[trigger] final(run).remaining_trips@[i]
                == old(run).remaining_trips@[if i == index {
                old(run).remaining_trips@.len() - 1
            } else {
                i
            }],
        final(run).cohort == old(run).cohort,
        final(run).axis_key == old(run).axis_key,
        final(run).all_axis_keys@ == old(run).all_axis_keys@,
        final(run).start_pos == old(run).start_pos,
        final(run).window_start_host == old(run).window_start_host,
{
    assert(old(run)@.remaining_trips == old(run).remaining_trips@);
    assert(first_member(old(run)@.remaining_trips, event_mcu, endstop_id, index));
    assert(final(run)@.cohort == old(run)@.cohort);
    assert(old(run)@.remaining_trips[index].endstop_mcu == event_mcu);
}

/// A trip that the run does not wait for leaves it as it was.
pub proof fn law_unmatched_trip_leaves_the_run<P>(
    run: &mut HomingRun<P>,
    event_mcu: u32,
    endstop_id: u8,
    matched: TripMatch,
)
    requires
        call_ensures(match_trip::<P>, (run, event_mcu, endstop_id), matched),
        forall|i: int|
            0 <= i < old(run).remaining_trips@.len() ==> (#[trigger] old(run).remaining_trips@[i]).endstop_mcu != event_mcu || old(run).remaining_trips@[i].endstop_id
                != endstop_id,
    ensures
        matched is Unmatched,
        final(run)@ == old(run)@,
{
    assert(old(run)@.remaining_trips == old(run).remaining_trips@);
}

} // verus!
