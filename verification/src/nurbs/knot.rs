//! Knot vectors.

use crate::nurbs::ConstructError;
use vstd::prelude::*;

verus! {

/// The knots never decrease.
pub open spec fn monotone(knots: Seq<i64>) -> bool {
    forall|i: int, j: int| 0 <= i <= j < knots.len() ==> knots[i] <= knots[j]
}

/// Whether the knots never decrease.
pub fn is_monotone(knots: &Vec<i64>) -> (answer: bool)
    ensures
        answer == monotone(knots@),
{
    let n: usize = knots.len();
    let mut i: usize = 1;
    while i < n
        invariant
            1 <= i,
            n == knots@.len(),
            n > 0 ==> i <= n,
            n > 0 ==> forall|a: int, b: int| 0 <= a <= b < i ==> knots@[a] <= knots@[b],
        decreases n - i,
    {
        if knots[i] < knots[i - 1] {
            return false;
        }
        i += 1;
    }
    true
}

#[derive(Debug)]
pub struct KnotVector {
    pub knots: Vec<i64>,
}

impl KnotVector {
    pub open spec fn wf(self) -> bool {
        self.knots@.len() >= 2 && monotone(self.knots@)
    }

    /// Takes at least two knots that never decrease.
    pub fn try_new(knots: Vec<i64>) -> (result: Result<Self, ConstructError>)
        ensures
            match result {
                Ok(vector) => vector.knots@ == knots@ && vector.wf(),
                Err(ConstructError::KnotCountMismatch { expected, got }) => {
                    &&& expected == 2
                    &&& got == knots@.len() < 2
                },
                Err(ConstructError::KnotsNotMonotone) => knots@.len() >= 2 && !monotone(knots@),
            },
    {
        let got: usize = knots.len();
        if got < 2 {
            return Err(ConstructError::KnotCountMismatch { expected: 2, got });
        }
        if !is_monotone(&knots) {
            return Err(ConstructError::KnotsNotMonotone);
        }
        Ok(KnotVector { knots })
    }

    pub fn as_slice(&self) -> (slice: &[i64])
        ensures
            slice@ == self.knots@,
    {
        self.knots.as_slice()
    }
}

/// The span of `u`: the last one from the end of the curve on, the first one up to its
/// start, and between them the one whose knots enclose `u`.
pub open spec fn is_span(knots: Seq<i64>, p: int, n: int, u: i64, span: int) -> bool {
    if u >= knots[n] {
        span == n - 1
    } else if u <= knots[p] {
        span == p
    } else {
        p <= span < n && knots[span] <= u < knots[span + 1]
    }
}

/// The span of `u` in the knots of a curve of degree `p` with `n` control points.
pub fn find_knot_span(knots: &[i64], p: usize, n: usize, u: i64) -> (span: usize)
    requires
        p < n,
        knots@.len() == n + p + 1,
        monotone(knots@),
    ensures
        is_span(knots@, p as int, n as int, u, span as int),
        p <= span < n,
{
    if u >= knots[n] {
        return n - 1;
    }
    if u <= knots[p] {
        return p;
    }
    let mut low: usize = p;
    let mut high: usize = n;
    let mut mid: usize = low + (high - low) / 2;
    while u < knots[mid] || u >= knots[mid + 1]
        invariant
            p <= low < high <= n,
            mid == low + (high - low) / 2,
            knots@.len() == n + p + 1,
            monotone(knots@),
            knots@[low as int] <= u < knots@[high as int],
        decreases high - low,
    {
        if u < knots[mid] {
            high = mid;
        } else {
            low = mid;
        }
        mid = low + (high - low) / 2;
    }
    mid
}

/// A value inside the curve has one span.
pub proof fn law_span_is_unique(knots: Seq<i64>, p: int, n: int, u: i64, a: int, b: int)
    requires
        0 <= p < n,
        knots.len() == n + p + 1,
        monotone(knots),
        is_span(knots, p, n, u, a),
        is_span(knots, p, n, u, b),
    ensures
        a == b,
{
    if a < b {
        assert(knots[a + 1] <= knots[b]);
    }
    if b < a {
        assert(knots[b + 1] <= knots[a]);
    }
}

// ----- Refinement

/// How often a knot occurs.
pub open spec fn multiplicity(knots: Seq<i64>, u: i64) -> nat
    decreases knots.len(),
{
    if knots.len() == 0 {
        0
    } else {
        multiplicity(knots.drop_last(), u) + if knots.last() == u {
            1nat
        } else {
            0nat
        }
    }
}

/// The knots between the first `p + 1` and the last `p + 1`.
pub open spec fn interior(knots: Seq<i64>, p: int) -> Seq<i64> {
    if 2 * p + 2 < knots.len() {
        knots.subrange(p + 1, knots.len() - p - 1)
    } else {
        Seq::empty()
    }
}

/// How many copies of an interior knot that occurs `s` times full multiplicity lacks.
pub open spec fn deficit(p: int, s: nat) -> nat {
    if 0 < s < p {
        (p - s) as nat
    } else {
        0
    }
}

/// `x` lists, in order, the copies that every interior knot lacks of multiplicity `p`.
pub open spec fn is_refinement(knots: Seq<i64>, p: int, x: Seq<i64>) -> bool {
    &&& monotone(x)
    &&& forall|u: i64| #[trigger] multiplicity(x, u) == deficit(p, multiplicity(interior(knots, p), u))
}

proof fn lemma_multiplicity_push(knots: Seq<i64>, u: i64)
    ensures
        forall|w: i64| #[trigger] multiplicity(knots.push(u), w) == multiplicity(knots, w)
            + if w == u {
            1nat
        } else {
            0nat
        },
{
    assert(knots.push(u).drop_last() =~= knots);
}

proof fn lemma_absent(knots: Seq<i64>, u: i64)
    requires
        forall|i: int| 0 <= i < knots.len() ==> #[trigger] knots[i] != u,
    ensures
        multiplicity(knots, u) == 0,
    decreases knots.len(),
{
    if knots.len() > 0 {
        lemma_absent(knots.drop_last(), u);
    }
}

/// The copies that every interior knot lacks of multiplicity `p`, in order.
pub fn build_refinement_vector(knots: &Vec<i64>, p: usize) -> (x: Vec<i64>)
    requires
        monotone(knots@),
        knots@.len() >= p + 1,
        forall|u: i64| #[trigger] multiplicity(interior(knots@, p as int), u) <= p + 1,
    ensures
        is_refinement(knots@, p as int, x@),
{
    let mut x: Vec<i64> = Vec::new();
    let length: usize = knots.len();
    let start: usize = p + 1;
    let end: usize = length - start;
    let ghost inner = interior(knots@, p as int);
    if end <= start {
        assert forall|u: i64| #[trigger] multiplicity(x@, u) == deficit(
            p as int,
            multiplicity(inner, u),
        ) by {}
        return x;
    }
    let mut i: usize = start;
    assert(inner.take(0) =~= Seq::empty());
    while i < end
        invariant
            start == p + 1,
            start <= i <= end,
            end == knots@.len() - start,
            inner == interior(knots@, p as int),
            inner == knots@.subrange(start as int, end as int),
            monotone(knots@),
            monotone(x@),
            i < end ==> forall|k: int| start <= k < i ==> #[trigger] knots@[k] < knots@[i as int],
            x@.len() > 0 ==> i > start,
            forall|k: int| 0 <= k < x@.len() ==> #[trigger] x@[k] <= knots@[i - 1],
            forall|u: i64| #[trigger] multiplicity(x@, u) == deficit(
                p as int,
                multiplicity(inner.take(i - start), u),
            ),
        decreases end - i,
    {
        let u: i64 = knots[i];
        let ghost done = inner.take(i - start);
        let ghost before = x@;
        proof {
            assert forall|k: int| 0 <= k < done.len() implies #[trigger] done[k] != u by {
                assert(done[k] == knots@[start + k]);
            }
            lemma_absent(done, u);
        }
        let mut s: usize = 0;
        assert(inner.take(i + s - start) =~= done);
        while i + s < end && knots[i + s] == u
            invariant
                start <= i,
                i + s <= end <= knots@.len(),
                inner == knots@.subrange(start as int, end as int),
                done == inner.take(i - start),
                forall|k: int| i <= k < i + s ==> #[trigger] knots@[k] == u,
                forall|w: i64| #[trigger] multiplicity(inner.take(i + s - start), w)
                    == multiplicity(done, w) + if w == u {
                    s as nat
                } else {
                    0nat
                },
            decreases end - i - s,
        {
            proof {
                let so_far = inner.take(i + s - start);
                assert(inner.take(i + s + 1 - start) =~= so_far.push(u));
                lemma_multiplicity_push(so_far, u);
            }
            s += 1;
        }
        let missing: usize = if s < p {
            p - s
        } else {
            0
        };
        let mut added: usize = 0;
        while added < missing
            invariant
                added <= missing,
                start <= i < knots@.len(),
                u == knots@[i as int],
                monotone(knots@),
                monotone(x@),
                before.len() > 0 ==> i > start,
                forall|k: int| 0 <= k < before.len() ==> #[trigger] before[k] <= knots@[i - 1],
                x@.len() == before.len() + added,
                forall|k: int| 0 <= k < before.len() ==> #[trigger] x@[k] == before[k],
                forall|k: int| before.len() <= k < x@.len() ==> #[trigger] x@[k] == u,
                forall|w: i64| #[trigger] multiplicity(x@, w) == multiplicity(before, w) + if w == u {
                    added as nat
                } else {
                    0nat
                },
            decreases missing - added,
        {
            proof {
                lemma_multiplicity_push(x@, u);
                assert forall|k: int| 0 <= k < x@.len() implies #[trigger] x@[k] <= u by {
                    if k < before.len() {
                        assert(before[k] <= knots@[i - 1]);
                    }
                }
            }
            x.push(u);
            added += 1;
        }
        proof {
            assert forall|k: int| 0 <= k < x@.len() implies #[trigger] x@[k] <= knots@[i + s - 1] by {
                if k < before.len() {
                    assert(before[k] <= knots@[i - 1]);
                    assert(knots@[i - 1] <= knots@[i + s - 1]);
                } else {
                    assert(knots@[i + s - 1] == u);
                }
            }
            if i + s < end {
                assert(knots@[i + s] != u);
                assert forall|k: int| start <= k < i + s implies #[trigger] knots@[k] < knots@[
                    i + s] by {
                    if k < i {
                        assert(knots@[k] < knots@[i as int]);
                    }
                }
            }
            assert forall|w: i64| #[trigger] multiplicity(x@, w) == deficit(
                p as int,
                multiplicity(inner.take(i + s - start), w),
            ) by {
                assert(multiplicity(before, w) == deficit(p as int, multiplicity(done, w)));
            }
        }
        i += s;
    }
    assert(inner.take(i - start) =~= inner);
    x
}

/// Two ordered lists merged into one.
pub fn merge_knots(knots: &Vec<i64>, x: &Vec<i64>) -> (merged: Vec<i64>)
    requires
        monotone(knots@),
        monotone(x@),
    ensures
        monotone(merged@),
        merged@.len() == knots@.len() + x@.len(),
        forall|u: i64| #[trigger] multiplicity(merged@, u) == multiplicity(knots@, u)
            + multiplicity(x@, u),
{
    let mut merged: Vec<i64> = Vec::new();
    let mut i: usize = 0;
    let mut j: usize = 0;
    assert(knots@.take(0) =~= Seq::empty());
    assert(x@.take(0) =~= Seq::empty());
    while i < knots.len() || j < x.len()
        invariant
            i <= knots@.len(),
            j <= x@.len(),
            monotone(knots@),
            monotone(x@),
            monotone(merged@),
            merged@.len() == i + j,
            forall|k: int|
                0 <= k < merged@.len() ==> {
                    &&& i < knots@.len() ==> #[trigger] merged@[k] <= knots@[i as int]
                    &&& j < x@.len() ==> merged@[k] <= x@[j as int]
                },
            forall|u: i64| #[trigger] multiplicity(merged@, u) == multiplicity(
                knots@.take(i as int),
                u,
            ) + multiplicity(x@.take(j as int), u),
        decreases knots@.len() - i + x@.len() - j,
    {
        let ghost before = merged@;
        if j >= x.len() || (i < knots.len() && knots[i] <= x[j]) {
            let u: i64 = knots[i];
            proof {
                lemma_multiplicity_push(before, u);
                assert(knots@.take(i + 1) =~= knots@.take(i as int).push(u));
                lemma_multiplicity_push(knots@.take(i as int), u);
            }
            merged.push(u);
            i += 1;
        } else {
            let u: i64 = x[j];
            proof {
                lemma_multiplicity_push(before, u);
                assert(x@.take(j + 1) =~= x@.take(j as int).push(u));
                lemma_multiplicity_push(x@.take(j as int), u);
            }
            merged.push(u);
            j += 1;
        }
    }
    assert(knots@.take(i as int) =~= knots@);
    assert(x@.take(j as int) =~= x@);
    merged
}

/// Refinement raises every interior knot to multiplicity `p`, leaves one that has it
/// already as it is, and adds no knot that was not there.
pub proof fn law_refinement_fills_every_interior_knot(
    knots: Seq<i64>,
    p: int,
    x: Seq<i64>,
    u: i64,
)
    requires
        is_refinement(knots, p, x),
    ensures
        ({
            let s = multiplicity(interior(knots, p), u);
            &&& s > 0 ==> s + multiplicity(x, u) == if s < p {
                p
            } else {
                s as int
            }
            &&& s == 0 ==> multiplicity(x, u) == 0
        }),
{
}

/// Where no interior knot lacks a copy, there is nothing to refine.
pub proof fn law_full_multiplicity_needs_no_refinement(knots: Seq<i64>, p: int, x: Seq<i64>)
    requires
        is_refinement(knots, p, x),
        forall|u: i64| #[trigger] deficit(p, multiplicity(interior(knots, p), u)) == 0,
    ensures
        x.len() == 0,
{
    if x.len() > 0 {
        assert(multiplicity(x, x.last()) == deficit(p, multiplicity(interior(knots, p), x.last())));
    }
}

/// Knots never decrease exactly where none is below its left neighbour.
pub proof fn law_monotone_is_neighbour_by_neighbour(knots: Vec<i64>, answer: bool)
    requires
        call_ensures(is_monotone, (&knots,), answer),
    ensures
        answer <==> forall|i: int, j: int|
            0 <= i && j == i + 1 && j < knots@.len() ==> #[trigger] knots@[i]
                <= #[trigger] knots@[j],
{
    if forall|i: int, j: int|
        0 <= i && j == i + 1 && j < knots@.len() ==> #[trigger] knots@[i] <= #[trigger] knots@[j] {
        assert forall|i: int, j: int| 0 <= i <= j < knots@.len() implies knots@[i] <= knots@[j] by {
            lemma_neighbours_reach(knots@, i, j);
        }
    }
}

proof fn lemma_neighbours_reach(knots: Seq<i64>, i: int, j: int)
    requires
        0 <= i <= j < knots.len(),
        forall|a: int, b: int|
            0 <= a && b == a + 1 && b < knots.len() ==> #[trigger] knots[a] <= #[trigger] knots[b],
    ensures
        knots[i] <= knots[j],
    decreases j - i,
{
    if i < j {
        lemma_neighbours_reach(knots, i, j - 1);
        assert(knots[j - 1] <= knots[j]);
    }
}

/// Inside the curve the knots of the span enclose the value; at and beyond its ends the
/// span is the first or the last.
pub proof fn law_span_encloses_its_value(knots: &[i64], p: usize, n: usize, u: i64, span: usize)
    requires
        p < n,
        knots@.len() == n + p + 1,
        monotone(knots@),
        call_ensures(find_knot_span, (knots, p, n, u), span),
    ensures
        p <= span < n,
        knots@[p as int] < u < knots@[n as int] ==> knots@[span as int] <= u < knots@[span + 1],
        u >= knots@[n as int] ==> span == n - 1,
        u <= knots@[p as int] && u < knots@[n as int] ==> span == p,
{
}

/// How often a knot occurs adds up over two lists, and a knot occurs once in the list of it
/// alone.
pub proof fn law_multiplicity_counts(a: Seq<i64>, b: Seq<i64>, u: i64, w: i64)
    ensures
        multiplicity(Seq::empty(), u) == 0,
        multiplicity(seq![w], u) == if w == u {
            1nat
        } else {
            0nat
        },
        multiplicity(a + b, u) == multiplicity(a, u) + multiplicity(b, u),
    decreases b.len(),
{
    assert(seq![w].drop_last() =~= Seq::empty());
    assert(multiplicity(seq![w].drop_last(), u) == 0);
    if b.len() > 0 {
        law_multiplicity_counts(a, b.drop_last(), u, w);
        assert((a + b).drop_last() =~= a + b.drop_last());
    } else {
        assert(a + b =~= a);
    }
}

/// The interior leaves out as many knots at each end as the degree and one more.
pub proof fn law_interior_is_between_the_ends(knots: Seq<i64>, p: int, i: int)
    requires
        p >= 0,
    ensures
        knots.len() <= 2 * (p + 1) ==> interior(knots, p).len() == 0,
        knots.len() > 2 * (p + 1) ==> interior(knots, p).len() == knots.len() - 2 * (p + 1),
        0 <= i < interior(knots, p).len() ==> interior(knots, p)[i] == knots[p + 1 + i],
{
}

/// Merging keeps every knot of both lists as often as it occurs in them, in order; and the
/// refinement of a list holds, in order, what its interior knots lack.
pub proof fn law_merged_knots_are_those_of_both(
    knots: &Vec<i64>,
    x: &Vec<i64>,
    merged: Vec<i64>,
    p: usize,
    lacking: Vec<i64>,
    u: i64,
)
    requires
        call_ensures(merge_knots, (knots, x), merged),
        call_ensures(build_refinement_vector, (knots, p), lacking),
    ensures
        merged@.len() == knots@.len() + x@.len(),
        multiplicity(merged@, u) == multiplicity(knots@, u) + multiplicity(x@, u),
        forall|i: int, j: int|
            0 <= i <= j < merged@.len() ==> #[trigger] merged@[i] <= #[trigger] merged@[j],
        ({
            let held = multiplicity(interior(knots@, p as int), u);
            &&& 0 < held < p ==> multiplicity(lacking@, u) + held == p
            &&& held == 0 || held >= p ==> multiplicity(lacking@, u) == 0
        }),
        forall|i: int, j: int|
            0 <= i <= j < lacking@.len() ==> #[trigger] lacking@[i] <= #[trigger] lacking@[j],
{
}

} // verus!
