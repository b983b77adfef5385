//! Easing the ends of a reconstructed arc into its neighbor lines.
//!
//! Both ends are tried first, then the head alone, then the tail alone, each with the
//! planned lead angle and with it halved up to three times; the first attempt that
//! solves is adopted. Solving an attempt is floating point and is the caller's.

use crate::geometry::error::GeometryError;
use vstd::prelude::*;

verus! {

/// How often the planned lead angle is tried: in full, and halved one to three times.
pub const SHRINKS: usize = 4;

/// One easing configuration: which ends are eased, and how often their lead angles are
/// halved.
#[derive(Debug, Clone, Copy, PartialEq, Eq, Structural)]
pub struct Attempt {
    pub use_head: bool,
    pub use_tail: bool,
    pub halvings: usize,
}

/// A planned end: whether its lead angle is too small to ease at each shrink.
pub type Vanishes = [bool; 4];

/// The end does not lend an attempt an angle to ease by.
pub open spec fn spent(used: bool, end: Option<Vanishes>, halvings: int) -> bool {
    match end {
        Some(vanishes) => used ==> vanishes[halvings],
        None => true,
    }
}

/// The attempts with one choice of ends, from `halvings` on: they stop where neither end
/// has an angle left.
pub open spec fn shrinking(
    head: Option<Vanishes>,
    tail: Option<Vanishes>,
    use_head: bool,
    use_tail: bool,
    halvings: int,
) -> Seq<Attempt>
    decreases SHRINKS - halvings,
{
    if halvings >= SHRINKS || (spent(use_head, head, halvings) && spent(use_tail, tail, halvings)) {
        Seq::empty()
    } else {
        seq![Attempt { use_head, use_tail, halvings: halvings as usize }] + shrinking(
            head,
            tail,
            use_head,
            use_tail,
            halvings + 1,
        )
    }
}

/// The attempts with one choice of ends. Both ends are tried only where both are
/// planned.
pub open spec fn with_ends(
    head: Option<Vanishes>,
    tail: Option<Vanishes>,
    use_head: bool,
    use_tail: bool,
) -> Seq<Attempt> {
    if use_head && use_tail && (head is None || tail is None) {
        Seq::empty()
    } else {
        shrinking(head, tail, use_head, use_tail, 0)
    }
}

/// Every attempt, in the order in which it is made.
pub open spec fn attempts(head: Option<Vanishes>, tail: Option<Vanishes>) -> Seq<Attempt> {
    with_ends(head, tail, true, true) + with_ends(head, tail, true, false) + with_ends(
        head,
        tail,
        false,
        true,
    )
}

fn is_spent(used: bool, end: &Option<Vanishes>, halvings: usize) -> (answer: bool)
    requires
        halvings < SHRINKS,
    ensures
        answer == spent(used, *end, halvings as int),
{
    match end {
        Some(vanishes) => !used || vanishes[halvings],
        None => true,
    }
}

fn append_with_ends(
    list: &mut Vec<Attempt>,
    head: &Option<Vanishes>,
    tail: &Option<Vanishes>,
    use_head: bool,
    use_tail: bool,
)
    ensures
        final(list)@ == old(list)@ + with_ends(*head, *tail, use_head, use_tail),
{
    if use_head && use_tail && (head.is_none() || tail.is_none()) {
        assert(list@ =~= old(list)@ + Seq::<Attempt>::empty());
        return;
    }
    let ghost all = shrinking(*head, *tail, use_head, use_tail, 0);
    let mut halvings: usize = 0;
    assert(list@ + all =~= old(list)@ + all);
    while halvings < SHRINKS && !(is_spent(use_head, head, halvings) && is_spent(
        use_tail,
        tail,
        halvings,
    ))
        invariant
            halvings <= SHRINKS,
            all == shrinking(*head, *tail, use_head, use_tail, 0),
            list@ + shrinking(*head, *tail, use_head, use_tail, halvings as int) == old(list)@ + all,
        decreases SHRINKS - halvings,
    {
        let ghost rest = shrinking(*head, *tail, use_head, use_tail, halvings + 1);
        let ghost before = list@;
        let attempt = Attempt { use_head, use_tail, halvings };
        list.push(attempt);
        assert(before + (seq![attempt] + rest) =~= list@ + rest);
        halvings += 1;
    }
    assert(list@ =~= list@ + Seq::<Attempt>::empty());
}

/// Every attempt, in the order in which it is made.
pub fn planned_attempts(head: &Option<Vanishes>, tail: &Option<Vanishes>) -> (list: Vec<Attempt>)
    ensures
        list@ == attempts(*head, *tail),
{
    let mut list: Vec<Attempt> = Vec::new();
    append_with_ends(&mut list, head, tail, true, true);
    append_with_ends(&mut list, head, tail, true, false);
    append_with_ends(&mut list, head, tail, false, true);
    assert(list@ =~= attempts(*head, *tail));
    list
}

/// No attempt before `count` solved.
pub open spec fn none_solved<T, F: Fn(Attempt) -> Result<Option<T>, GeometryError>>(
    solve: F,
    list: Seq<Attempt>,
    count: int,
) -> bool {
    forall|i: int| 0 <= i < count ==> call_ensures(solve, (#[trigger] list[i],), Ok(None::<T>))
}

/// The first attempt that does not come to nothing came to `outcome`.
pub open spec fn decided<T, F: Fn(Attempt) -> Result<Option<T>, GeometryError>>(
    solve: F,
    list: Seq<Attempt>,
    outcome: Result<Option<T>, GeometryError>,
) -> bool {
    exists|i: int|
        {
            &&& 0 <= i < list.len()
            &&& call_ensures(solve, (#[trigger] list[i],), outcome)
            &&& none_solved(solve, list, i)
        }
}

/// The first attempt that solves, if one does; an attempt that fails ends the search.
pub fn search_ease<T, F: Fn(Attempt) -> Result<Option<T>, GeometryError>>(
    head: &Option<Vanishes>,
    tail: &Option<Vanishes>,
    solve: F,
) -> (result: Result<Option<T>, GeometryError>)
    requires
        forall|attempt: Attempt| call_requires(solve, (attempt,)),
    ensures
        match result {
            Ok(None) => none_solved(
                solve,
                attempts(*head, *tail),
                attempts(*head, *tail).len() as int,
            ),
            decision => decided(solve, attempts(*head, *tail), decision),
        },
{
    let list: Vec<Attempt> = planned_attempts(head, tail);
    let mut i: usize = 0;
    while i < list.len()
        invariant
            i <= list@.len(),
            list@ == attempts(*head, *tail),
            forall|attempt: Attempt| call_requires(solve, (attempt,)),
            none_solved(solve, list@, i as int),
        decreases list@.len() - i,
    {
        let attempt: Attempt = list[i];
        let outcome: Result<Option<T>, GeometryError> = solve(attempt);
        assert(call_ensures(solve, (list@[i as int],), outcome));
        match outcome {
            Ok(None) => {},
            decision => {
                return decision;
            },
        }
        i += 1;
    }
    Ok(None)
}

// ----- Adopting a fit

/// A spiral that eases one end, with the length it trims off the neighbor line.
#[derive(Debug)]
pub struct SpiralFit<S> {
    pub spiral: S,
    pub trim: i64,
}

/// A solved attempt: the spirals of the eased ends and the arc left between them.
#[derive(Debug)]
pub struct EaseFit<A, S> {
    pub head: Option<SpiralFit<S>>,
    pub tail: Option<SpiralFit<S>>,
    pub arc: A,
}

/// What a run of facets was reconstructed to: an arc, the spirals before and after it,
/// what they trim off the neighbor lines, and the demands of the followers on each part.
#[derive(Debug)]
pub struct EasedRun<A, S, D> {
    pub arc: A,
    pub up: Vec<S>,
    pub down: Vec<S>,
    pub head_line_trim: i64,
    pub tail_line_trim: i64,
    pub up_followers: D,
    pub followers: D,
    pub down_followers: D,
}

/// A fit failed at the line where its run starts.
#[derive(Debug, Clone, Copy, PartialEq)]
pub struct FitError {
    pub line_no: u32,
    pub source: GeometryError,
}

/// The head of a run after a fit: its spiral and trim where the head is eased.
pub open spec fn head_adopted<A, S, D>(
    before: EasedRun<A, S, D>,
    after: EasedRun<A, S, D>,
    fit: EaseFit<A, S>,
) -> bool {
    match fit.head {
        Some(end) => after.up@ == seq![end.spiral] && after.head_line_trim == end.trim,
        None => after.up == before.up && after.head_line_trim == before.head_line_trim,
    }
}

/// `after` is `before` with a fit adopted, and `result` what is said of it.
pub open spec fn adopted<A, S, D, R, C>(
    before: EasedRun<A, S, D>,
    after: EasedRun<A, S, D>,
    fit: EaseFit<A, S>,
    line_no: u32,
    reverse: R,
    followers: C,
    result: Result<(), FitError>,
) -> bool where R: Fn(&S) -> Option<S>, C: Fn(bool, bool) -> (D, D, D) {
    &&& after.arc == fit.arc
    &&& head_adopted(before, after, fit)
    &&& match result {
        Ok(()) => {
            &&& match fit.tail {
                Some(end) => {
                    &&& after.tail_line_trim == end.trim
                    &&& after.down@.len() == 1
                    &&& call_ensures(reverse, (&end.spiral,), Some(after.down@[0]))
                },
                None => {
                    &&& after.tail_line_trim == before.tail_line_trim
                    &&& after.down == before.down
                },
            }
            &&& call_ensures(
                followers,
                (fit.head is Some, fit.tail is Some),
                (after.up_followers, after.followers, after.down_followers),
            )
        },
        Err(error) => {
            &&& fit.tail matches Some(end) && call_ensures(reverse, (&end.spiral,), None::<S>)
            &&& error.line_no == line_no
            &&& error.source is DegenerateClothoid
            &&& error.source->DegenerateClothoid_reason@ == "tail spiral reverse failed"@
            &&& after.down == before.down
            &&& after.tail_line_trim == before.tail_line_trim
            &&& after.up_followers == before.up_followers
            &&& after.followers == before.followers
            &&& after.down_followers == before.down_followers
        },
    }
}

/// Adopts a fit: the arc, and each eased end with its spiral and trim. A tail spiral was
/// solved towards the arc, so it is reversed; where that fails the followers stay as
/// they were. `followers` gives the demands before, on and after the arc for the ends
/// that are eased.
pub fn adopt_ease<A, S, D, R, C>(
    run: &mut EasedRun<A, S, D>,
    fit: EaseFit<A, S>,
    line_no: u32,
    reverse: R,
    followers: C,
) -> (result: Result<(), FitError>) where
    R: Fn(&S) -> Option<S>,
    C: Fn(bool, bool) -> (D, D, D),

    requires
        forall|spiral: &S| call_requires(reverse, (spiral,)),
        forall|h: bool, t: bool| call_requires(followers, (h, t)),
    ensures
        adopted(*old(run), *final(run), fit, line_no, reverse, followers, result),
{
    let head_eased: bool = fit.head.is_some();
    let tail_eased: bool = fit.tail.is_some();
    run.arc = fit.arc;
    if let Some(end) = fit.head {
        run.head_line_trim = end.trim;
        let mut up: Vec<S> = Vec::new();
        up.push(end.spiral);
        assert(up@ =~= seq![end.spiral]);
        run.up = up;
    }
    if let Some(end) = fit.tail {
        let turned: Option<S> = reverse(&end.spiral);
        let Some(reversed) = turned else {
            return Err(
                FitError {
                    line_no,
                    source: GeometryError::DegenerateClothoid {
                        reason: "tail spiral reverse failed",
                    },
                },
            );
        };
        run.tail_line_trim = end.trim;
        let mut down: Vec<S> = Vec::new();
        down.push(reversed);
        run.down = down;
    }
    let (up_followers, arc_followers, down_followers) = followers(head_eased, tail_eased);
    run.up_followers = up_followers;
    run.followers = arc_followers;
    run.down_followers = down_followers;
    Ok(())
}

/// Eases a run by the first attempt that solves. A run with no such attempt stays as it
/// was.
pub fn ease_run<A, S, D, F, R, C>(
    run: &mut EasedRun<A, S, D>,
    head: &Option<Vanishes>,
    tail: &Option<Vanishes>,
    line_no: u32,
    solve: F,
    reverse: R,
    followers: C,
) -> (result: Result<(), FitError>) where
    F: Fn(Attempt) -> Result<Option<EaseFit<A, S>>, GeometryError>,
    R: Fn(&S) -> Option<S>,
    C: Fn(bool, bool) -> (D, D, D),

    requires
        forall|attempt: Attempt| call_requires(solve, (attempt,)),
        forall|spiral: &S| call_requires(reverse, (spiral,)),
        forall|h: bool, t: bool| call_requires(followers, (h, t)),
    ensures
        ({
            let list = attempts(*head, *tail);
            ||| {
                &&& none_solved(solve, list, list.len() as int)
                &&& result is Ok
                &&& *final(run) == *old(run)
            }
            ||| exists|fit: EaseFit<A, S>|
                {
                    &&& #[trigger] decided(solve, list, Ok(Some(fit)))
                    &&& adopted(*old(run), *final(run), fit, line_no, reverse, followers, result)
                }
            ||| exists|source: GeometryError|
                {
                    &&& #[trigger] decided(solve, list, Err(source))
                    &&& result == Err::<(), FitError>(FitError { line_no, source })
                    &&& *final(run) == *old(run)
                }
        }),
{
    match search_ease(head, tail, solve) {
        Ok(None) => Ok(()),
        Ok(Some(fit)) => adopt_ease(run, fit, line_no, reverse, followers),
        Err(source) => Err(FitError { line_no, source }),
    }
}

/// Every attempt eases an end whose lead angle has not vanished, and only planned ends
/// are eased together.
pub proof fn law_attempts_have_an_angle(head: Option<Vanishes>, tail: Option<Vanishes>, i: int)
    requires
        0 <= i < attempts(head, tail).len(),
    ensures
        ({
            let attempt = attempts(head, tail)[i];
            &&& attempt.halvings < SHRINKS
            &&& {
                ||| attempt.use_head && head is Some && !head->0[attempt.halvings as int]
                ||| attempt.use_tail && tail is Some && !tail->0[attempt.halvings as int]
            }
            &&& attempt.use_head && attempt.use_tail ==> head is Some && tail is Some
        }),
{
    let both = with_ends(head, tail, true, true);
    let first = with_ends(head, tail, true, false);
    if i < both.len() {
        lemma_shrinking(head, tail, true, true, 0, i);
    } else if i < both.len() + first.len() {
        lemma_shrinking(head, tail, true, false, 0, i - both.len());
    } else {
        lemma_shrinking(head, tail, false, true, 0, i - both.len() - first.len());
    }
}

proof fn lemma_shrinking(
    head: Option<Vanishes>,
    tail: Option<Vanishes>,
    use_head: bool,
    use_tail: bool,
    halvings: int,
    i: int,
)
    requires
        0 <= halvings <= SHRINKS,
        0 <= i < shrinking(head, tail, use_head, use_tail, halvings).len(),
    ensures
        ({
            let attempt = shrinking(head, tail, use_head, use_tail, halvings)[i];
            &&& attempt.use_head == use_head
            &&& attempt.use_tail == use_tail
            &&& attempt.halvings < SHRINKS
            &&& !(spent(use_head, head, attempt.halvings as int) && spent(
                use_tail,
                tail,
                attempt.halvings as int,
            ))
        }),
    decreases SHRINKS - halvings,
{
    if i > 0 {
        lemma_shrinking(head, tail, use_head, use_tail, halvings + 1, i - 1);
    }
}

/// With nothing planned nothing is attempted.
pub proof fn law_unplanned_ends_are_left_alone()
    ensures
        attempts(None, None).len() == 0,
{
}

/// The end is used and has an angle left after that many halvings.
pub open spec fn has_angle(used: bool, end: Option<Vanishes>, halvings: int) -> bool {
    used && end is Some && !end->0[halvings]
}

/// Whether an attempt is made: it eases an end, both only where both are planned, and at
/// none of its halvings so far have all its ends run out of angle.
pub open spec fn is_made(head: Option<Vanishes>, tail: Option<Vanishes>, attempt: Attempt) -> bool {
    &&& attempt.halvings < 4
    &&& attempt.use_head || attempt.use_tail
    &&& attempt.use_head && attempt.use_tail ==> head is Some && tail is Some
    &&& forall|halvings: int|
        0 <= halvings <= attempt.halvings ==> has_angle(attempt.use_head, head, halvings)
            || #[trigger] has_angle(attempt.use_tail, tail, halvings)
}

/// When an attempt is made: both ends before the head alone before the tail alone, and of
/// each the full angle first.
pub open spec fn attempt_rank(attempt: Attempt) -> int {
    attempt.halvings + if attempt.use_head && attempt.use_tail {
        0int
    } else if attempt.use_head {
        4
    } else {
        8
    }
}

proof fn lemma_shrinking_list(
    head: Option<Vanishes>,
    tail: Option<Vanishes>,
    use_head: bool,
    use_tail: bool,
    halvings: int,
)
    requires
        0 <= halvings <= SHRINKS,
    ensures
        ({
            let list = shrinking(head, tail, use_head, use_tail, halvings);
            &&& halvings + list.len() <= SHRINKS
            &&& forall|i: int|
                0 <= i < list.len() ==> #[trigger] list[i] == (Attempt {
                    use_head,
                    use_tail,
                    halvings: (halvings + i) as usize,
                })
            &&& forall|k: int|
                halvings <= k < halvings + list.len() ==> has_angle(use_head, head, k)
                    || #[trigger] has_angle(use_tail, tail, k)
            &&& halvings + list.len() < SHRINKS ==> !has_angle(
                use_head,
                head,
                halvings + list.len(),
            ) && !has_angle(use_tail, tail, halvings + list.len())
        }),
    decreases SHRINKS - halvings,
{
    let list = shrinking(head, tail, use_head, use_tail, halvings);
    if halvings < SHRINKS {
        lemma_shrinking_list(head, tail, use_head, use_tail, halvings + 1);
        let rest = shrinking(head, tail, use_head, use_tail, halvings + 1);
        if !(spent(use_head, head, halvings) && spent(use_tail, tail, halvings)) {
            assert forall|i: int| 0 <= i < list.len() implies #[trigger] list[i] == (Attempt {
                use_head,
                use_tail,
                halvings: (halvings + i) as usize,
            }) by {
                if i > 0 {
                    assert(list[i] == rest[i - 1]);
                }
            }
        }
    }
}

proof fn lemma_with_ends(
    head: Option<Vanishes>,
    tail: Option<Vanishes>,
    use_head: bool,
    use_tail: bool,
)
    requires
        use_head || use_tail,
    ensures
        ({
            let list = with_ends(head, tail, use_head, use_tail);
            &&& forall|i: int|
                0 <= i < list.len() ==> {
                    &&& #[trigger] list[i] == (Attempt { use_head, use_tail, halvings: i as usize })
                    &&& is_made(head, tail, list[i])
                    &&& i < 4
                }
            &&& forall|attempt: Attempt| #[trigger]
                is_made(head, tail, attempt) && attempt.use_head == use_head && attempt.use_tail
                    == use_tail ==> attempt.halvings < list.len() && list[attempt.halvings as int]
                    == attempt
        }),
{
    let list = with_ends(head, tail, use_head, use_tail);
    lemma_shrinking_list(head, tail, use_head, use_tail, 0);
    assert forall|i: int| 0 <= i < list.len() implies is_made(head, tail, #[trigger] list[i]) by {
        assert(list[i] == (Attempt { use_head, use_tail, halvings: i as usize }));
    }
    assert forall|attempt: Attempt| #[trigger]
        is_made(head, tail, attempt) && attempt.use_head == use_head && attempt.use_tail
            == use_tail implies attempt.halvings < list.len() && list[attempt.halvings as int]
        == attempt by {
        if attempt.halvings >= list.len() {
            let k = list.len() as int;
            assert(!has_angle(use_tail, tail, k));
        }
    }
}

/// Exactly the attempts that are to be made are planned, each once, in their order.
pub proof fn law_attempts_are_planned_in_order(
    head: Option<Vanishes>,
    tail: Option<Vanishes>,
    list: Vec<Attempt>,
)
    requires
        call_ensures(planned_attempts, (&head, &tail), list),
    ensures
        forall|i: int| 0 <= i < list@.len() ==> is_made(head, tail, #[trigger] list@[i]),
        forall|attempt: Attempt| #[trigger]
            is_made(head, tail, attempt) ==> list@.contains(attempt),
        forall|i: int, j: int|
            0 <= i < j < list@.len() ==> attempt_rank(#[trigger] list@[i]) < attempt_rank(
                #[trigger] list@[j],
            ),
{
    let both = with_ends(head, tail, true, true);
    let first = with_ends(head, tail, true, false);
    let last = with_ends(head, tail, false, true);
    lemma_with_ends(head, tail, true, true);
    lemma_with_ends(head, tail, true, false);
    lemma_with_ends(head, tail, false, true);
    let all = list@;
    assert(all == both + first + last);
    assert forall|i: int| 0 <= i < all.len() implies ({
        &&& i < both.len() ==> #[trigger] all[i] == both[i]
        &&& both.len() <= i < both.len() + first.len() ==> all[i] == first[i - both.len()]
        &&& both.len() + first.len() <= i ==> all[i] == last[i - both.len() - first.len()]
    }) by {}
    assert forall|attempt: Attempt| #[trigger] is_made(head, tail, attempt) implies all.contains(
        attempt,
    ) by {
        let at: int = attempt.halvings as int;
        if attempt.use_head && attempt.use_tail {
            assert(all[at] == attempt);
        } else if attempt.use_head {
            assert(all[both.len() + at] == attempt);
        } else {
            assert(all[both.len() + first.len() + at] == attempt);
        }
    }
}

/// The search ends with the first planned attempt that does not come to nothing, and what
/// that came to; where all come to nothing, so does it.
pub proof fn law_search_ends_at_the_first_decision<
    T,
    F: Fn(Attempt) -> Result<Option<T>, GeometryError>,
>(
    head: Option<Vanishes>,
    tail: Option<Vanishes>,
    solve: F,
    result: Result<Option<T>, GeometryError>,
)
    requires
        forall|attempt: Attempt| call_requires(solve, (attempt,)),
        call_ensures(search_ease::<T, F>, (&head, &tail, solve), result),
    ensures
        ({
            let list = attempts(head, tail);
            ||| {
                &&& result == Ok::<Option<T>, GeometryError>(None)
                &&& forall|i: int|
                    0 <= i < list.len() ==> call_ensures(
                        solve,
                        (#[trigger] list[i],),
                        Ok(None::<T>),
                    )
            }
            ||| {
                &&& result != Ok::<Option<T>, GeometryError>(None)
                &&& exists|i: int|
                    {
                        &&& 0 <= i < list.len()
                        &&& call_ensures(solve, (#[trigger] list[i],), result)
                        &&& forall|j: int|
                            0 <= j < i ==> call_ensures(
                                solve,
                                (#[trigger] list[j],),
                                Ok(None::<T>),
                            )
                    }
            }
        }),
{
    let list = attempts(head, tail);
    match result {
        Ok(None) => {
            assert(none_solved(solve, list, list.len() as int));
        },
        decision => {
            assert(decided(solve, list, result));
            let i = choose|i: int|
                {
                    &&& 0 <= i < list.len()
                    &&& call_ensures(solve, (#[trigger] list[i],), result)
                    &&& none_solved(solve, list, i)
                };
            assert(call_ensures(solve, (list[i],), result));
        },
    }
}

/// An adopted fit gives the run its arc, the head its spiral and trim where the head is
/// eased, and the tail its spiral turned round and its trim where the tail is eased. The
/// followers are those of the ends that are eased.
pub proof fn law_run_takes_on_the_fit<A, S, D, R, C>(
    before: EasedRun<A, S, D>,
    after: EasedRun<A, S, D>,
    fit: EaseFit<A, S>,
    line_no: u32,
    reverse: R,
    followers: C,
    result: Result<(), FitError>,
) where R: Fn(&S) -> Option<S>, C: Fn(bool, bool) -> (D, D, D)
    requires
        adopted(before, after, fit, line_no, reverse, followers, result),
    ensures
        after.arc == fit.arc,
        fit.head is Some ==> after.up@.len() == 1 && after.up@[0] == fit.head->0.spiral
            && after.head_line_trim == fit.head->0.trim,
        fit.head is None ==> after.up == before.up && after.head_line_trim == before.head_line_trim,
        result is Ok && fit.tail is Some ==> after.down@.len() == 1 && after.tail_line_trim
            == fit.tail->0.trim && call_ensures(
            reverse,
            (&fit.tail->0.spiral,),
            Some(after.down@[0]),
        ),
        fit.tail is None ==> result is Ok && after.down == before.down && after.tail_line_trim
            == before.tail_line_trim,
        result is Ok ==> call_ensures(
            followers,
            (fit.head is Some, fit.tail is Some),
            (after.up_followers, after.followers, after.down_followers),
        ),
        result is Err ==> result->Err_0.line_no == line_no && call_ensures(
            reverse,
            (&fit.tail->0.spiral,),
            None::<S>,
        ) && after.down == before.down && after.tail_line_trim == before.tail_line_trim
            && after.followers == before.followers,
{
}

/// An eased run takes on what the first attempt that is decided gives: its arc, its spirals and
/// its trims; where none is solved, or one fails, it stays as it was, and a failure is told with
/// the line it is on.
pub proof fn law_eased_run_takes_on_the_first_solution<A, S, D, F, R, C>(
    run: &mut EasedRun<A, S, D>,
    head: Option<Vanishes>,
    tail: Option<Vanishes>,
    line_no: u32,
    solve: F,
    reverse: R,
    followers: C,
    result: Result<(), FitError>,
) where
    F: Fn(Attempt) -> Result<Option<EaseFit<A, S>>, GeometryError>,
    R: Fn(&S) -> Option<S>,
    C: Fn(bool, bool) -> (D, D, D),

    requires
        call_ensures(
            ease_run::<A, S, D, F, R, C>,
            (run, &head, &tail, line_no, solve, reverse, followers),
            result,
        ),
    ensures
        result matches Err(error) ==> error.line_no == line_no,
        *final(run) == *old(run) || exists|fit: EaseFit<A, S>|
            {
                &&& #[trigger] decided(solve, attempts(head, tail), Ok(Some(fit)))
                &&& final(run).arc == fit.arc
                &&& fit.head is Some ==> final(run).up@.len() == 1 && final(run).up@[0]
                    == fit.head->0.spiral && final(run).head_line_trim == fit.head->0.trim
                &&& fit.head is None ==> final(run).up == old(run).up && final(run).head_line_trim
                    == old(run).head_line_trim
                &&& result is Ok && fit.tail is Some ==> final(run).tail_line_trim
                    == fit.tail->0.trim
                &&& fit.tail is None ==> final(run).down == old(run).down && final(run).tail_line_trim == old(run).tail_line_trim
            },
{
    let list = attempts(head, tail);
    if exists|fit: EaseFit<A, S>|
        {
            &&& #[trigger] decided(solve, list, Ok(Some(fit)))
            &&& adopted(*old(run), *final(run), fit, line_no, reverse, followers, result)
        } {
        let fit = choose|fit: EaseFit<A, S>|
            {
                &&& #[trigger] decided(solve, list, Ok(Some(fit)))
                &&& adopted(*old(run), *final(run), fit, line_no, reverse, followers, result)
            };
        law_run_takes_on_the_fit(
            *old(run),
            *final(run),
            fit,
            line_no,
            reverse,
            followers,
            result,
        );
        assert(decided(solve, attempts(head, tail), Ok(Some(fit))));
    }
}

/// An adopted fit is the run's own from then on.
pub proof fn law_adopted_fit_is_the_runs_own<A, S, D, R, C>(
    run: &mut EasedRun<A, S, D>,
    fit: EaseFit<A, S>,
    line_no: u32,
    reverse: R,
    followers: C,
    result: Result<(), FitError>,
) where R: Fn(&S) -> Option<S>, C: Fn(bool, bool) -> (D, D, D)
    requires
        call_ensures(
            adopt_ease::<A, S, D, R, C>,
            (run, fit, line_no, reverse, followers),
            result,
        ),
    ensures
        final(run).arc == fit.arc,
        fit.head is Some ==> final(run).up@.len() == 1 && final(run).up@[0]
            == fit.head->0.spiral && final(run).head_line_trim == fit.head->0.trim,
        fit.head is None ==> final(run).up == old(run).up,
        fit.tail is None ==> result is Ok && final(run).down == old(run).down,
        result is Ok && fit.tail is Some ==> final(run).tail_line_trim == fit.tail->0.trim
            && call_ensures(reverse, (&fit.tail->0.spiral,), Some(final(run).down@[0])),
        result is Err ==> final(run).followers == old(run).followers && final(run).down == old(run).down,
        result matches Err(error) ==> error.line_no == line_no,
{
    law_run_takes_on_the_fit(*old(run), *final(run), fit, line_no, reverse, followers, result);
}

} // verus!
