//! The shape of spline curves and of their derivatives.

use crate::nurbs::knot::is_monotone;
use crate::nurbs::ConstructError;
use vstd::prelude::*;

verus! {

/// A curve: knots that never decrease, and control points, one more of which would take
/// one more knot.
#[derive(Debug)]
pub struct ScalarNurbs<C> {
    pub degree: u8,
    pub knots: Vec<i64>,
    pub control_points: Vec<C>,
}

/// A curve in `N` dimensions.
#[derive(Debug)]
pub struct VectorNurbs<C, const N: usize> {
    pub degree: u8,
    pub knots: Vec<i64>,
    pub control_points: Vec<[C; N]>,
}

/// The counts of knots and control points fit the degree, and the knots never decrease.
pub open spec fn fits(degree: u8, knots: Seq<i64>, count: nat) -> bool {
    &&& knots.len() == count + degree + 1
    &&& crate::nurbs::knot::monotone(knots)
}

/// The spans of the knots that control point `i` of the derivative is taken over.
pub open spec fn has_extent(degree: u8, knots: Seq<i64>, i: int) -> bool {
    knots[i + degree + 1] > knots[i + 1]
}

/// Control point `i` of the derivative: the slope between two control points of the
/// curve over the knots they share, or nothing where those coincide.
pub open spec fn is_slope<P, F: Fn(u8, &P, &P, i64, i64) -> P>(
    degree: u8,
    knots: Seq<i64>,
    points: Seq<P>,
    slope: F,
    zero: P,
    i: int,
    out: P,
) -> bool {
    if has_extent(degree, knots, i) {
        call_ensures(
            slope,
            (degree, &points[i], &points[i + 1], knots[i + 1], knots[i + degree + 1]),
            out,
        )
    } else {
        out == zero
    }
}

/// The knots of a curve without the first and the last.
fn inner_knots(knots: &Vec<i64>) -> (inner: Vec<i64>)
    requires
        knots@.len() >= 2,
    ensures
        inner@ == knots@.subrange(1, knots@.len() - 1),
{
    let end: usize = knots.len() - 1;
    let mut inner: Vec<i64> = Vec::new();
    let mut i: usize = 1;
    while i < end
        invariant
            1 <= i <= end,
            end == knots@.len() - 1,
            inner@ == knots@.subrange(1, i as int),
        decreases end - i,
    {
        inner.push(knots[i]);
        i += 1;
        assert(inner@ =~= knots@.subrange(1, i as int));
    }
    inner
}

/// The control points of the derivative.
fn slopes<P: Copy, F: Fn(u8, &P, &P, i64, i64) -> P>(
    degree: u8,
    knots: &Vec<i64>,
    points: &Vec<P>,
    slope: F,
    zero: P,
) -> (out: Vec<P>)
    requires
        degree >= 1,
        points@.len() >= 1,
        fits(degree, knots@, points@.len()),
        forall|p: u8, a: &P, b: &P, lo: i64, hi: i64| call_requires(slope, (p, a, b, lo, hi)),
    ensures
        out@.len() == points@.len() - 1,
        forall|i: int|
            0 <= i < out@.len() ==> is_slope(
                degree,
                knots@,
                points@,
                slope,
                zero,
                i,
                #[trigger] out@[i],
            ),
{
    let knot_count: usize = knots.len();
    let count: usize = points.len() - 1;
    let mut out: Vec<P> = Vec::new();
    let mut i: usize = 0;
    while i < count
        invariant
            i <= count,
            count == points@.len() - 1,
            knot_count == knots@.len(),
            fits(degree, knots@, points@.len()),
            forall|p: u8, a: &P, b: &P, lo: i64, hi: i64| call_requires(slope, (p, a, b, lo, hi)),
            out@.len() == i,
            forall|k: int|
                0 <= k < i ==> is_slope(
                    degree,
                    knots@,
                    points@,
                    slope,
                    zero,
                    k,
                    #[trigger] out@[k],
                ),
        decreases count - i,
    {
        assert(i + degree + 1 < knot_count);
        let lo: i64 = knots[i + 1];
        let hi: i64 = knots[i + degree as usize + 1];
        if hi > lo {
            let q: P = slope(degree, &points[i], &points[i + 1], lo, hi);
            out.push(q);
        } else {
            out.push(zero);
        }
        i += 1;
    }
    out
}

impl<C> ScalarNurbs<C> {
    pub open spec fn wf(self) -> bool {
        fits(self.degree, self.knots@, self.control_points@.len())
    }

    /// Takes as many knots as the degree and the control points ask for, which never
    /// decrease.
    pub fn try_new(degree: u8, knots: Vec<i64>, control_points: Vec<C>) -> (result: Result<
        Self,
        ConstructError,
    >)
        requires
            control_points@.len() + degree + 1 <= usize::MAX,
        ensures
            match result {
                Ok(curve) => {
                    &&& curve.wf()
                    &&& curve == (ScalarNurbs { degree, knots, control_points })
                },
                Err(ConstructError::KnotCountMismatch { expected, got }) => {
                    &&& expected == control_points@.len() + degree + 1
                    &&& got == knots@.len()
                    &&& got != expected
                },
                Err(ConstructError::KnotsNotMonotone) => {
                    &&& knots@.len() == control_points@.len() + degree + 1
                    &&& !crate::nurbs::knot::monotone(knots@)
                },
            },
    {
        let expected: usize = control_points.len() + degree as usize + 1;
        let got: usize = knots.len();
        if got != expected {
            return Err(ConstructError::KnotCountMismatch { expected, got });
        }
        if !is_monotone(&knots) {
            return Err(ConstructError::KnotsNotMonotone);
        }
        Ok(ScalarNurbs { degree, knots, control_points })
    }
}

impl<C, const N: usize> VectorNurbs<C, N> {
    pub open spec fn wf(self) -> bool {
        fits(self.degree, self.knots@, self.control_points@.len())
    }
}

/// The derivative of a curve, a curve of one degree less. `slope` computes the degree
/// times the difference of two control points over the difference of two knots.
pub fn derivative<C: Copy, F: Fn(u8, &C, &C, i64, i64) -> C>(
    curve: &ScalarNurbs<C>,
    slope: F,
    zero: C,
) -> (lowered: ScalarNurbs<C>)
    requires
        curve.wf(),
        curve.degree >= 1,
        curve.control_points@.len() >= 1,
        forall|p: u8, a: &C, b: &C, lo: i64, hi: i64| call_requires(slope, (p, a, b, lo, hi)),
    ensures
        lowered.wf(),
        lowered.degree == curve.degree - 1,
        lowered.knots@ == curve.knots@.subrange(1, curve.knots@.len() - 1),
        lowered.control_points@.len() == curve.control_points@.len() - 1,
        forall|i: int|
            0 <= i < lowered.control_points@.len() ==> is_slope(
                curve.degree,
                curve.knots@,
                curve.control_points@,
                slope,
                zero,
                i,
                #[trigger] lowered.control_points@[i],
            ),
{
    let knots: Vec<i64> = inner_knots(&curve.knots);
    let control_points: Vec<C> = slopes(
        curve.degree,
        &curve.knots,
        &curve.control_points,
        slope,
        zero,
    );
    ScalarNurbs { degree: curve.degree - 1, knots, control_points }
}

/// The derivative of a curve in `N` dimensions.
pub fn vector_derivative<C: Copy, const N: usize, F: Fn(u8, &[C; N], &[C; N], i64, i64) -> [C; N]>(
    curve: &VectorNurbs<C, N>,
    slope: F,
    zero: [C; N],
) -> (lowered: VectorNurbs<C, N>)
    requires
        curve.wf(),
        curve.degree >= 1,
        curve.control_points@.len() >= 1,
        forall|p: u8, a: &[C; N], b: &[C; N], lo: i64, hi: i64|
            call_requires(slope, (p, a, b, lo, hi)),
    ensures
        lowered.wf(),
        lowered.degree == curve.degree - 1,
        lowered.knots@ == curve.knots@.subrange(1, curve.knots@.len() - 1),
        lowered.control_points@.len() == curve.control_points@.len() - 1,
        forall|i: int|
            0 <= i < lowered.control_points@.len() ==> is_slope(
                curve.degree,
                curve.knots@,
                curve.control_points@,
                slope,
                zero,
                i,
                #[trigger] lowered.control_points@[i],
            ),
{
    let knots: Vec<i64> = inner_knots(&curve.knots);
    let control_points: Vec<[C; N]> = slopes(
        curve.degree,
        &curve.knots,
        &curve.control_points,
        slope,
        zero,
    );
    VectorNurbs { degree: curve.degree - 1, knots, control_points }
}

/// A curve has one knot for each control point, and one more than its degree besides; none
/// lies below one before it.
pub proof fn law_curve_is_accepted_where_its_counts_fit<C>(
    degree: u8,
    knots: Vec<i64>,
    control_points: Vec<C>,
    result: Result<ScalarNurbs<C>, ConstructError>,
)
    requires
        control_points@.len() + degree + 1 <= usize::MAX,
        call_ensures(ScalarNurbs::<C>::try_new, (degree, knots, control_points), result),
    ensures
        result is Ok <==> knots@.len() == control_points@.len() + degree + 1 && (forall|
            i: int,
            j: int,
        |
            0 <= i <= j < knots@.len() ==> knots@[i] <= knots@[j]),
        result matches Ok(curve) ==> curve.degree == degree && curve.knots@ == knots@
            && curve.control_points@ == control_points@,
{
}

/// Control point `i` of the derivative is the slope from control point `i` to the next, over
/// the knots from the one after knot `i` to as many further on as the degree; where that
/// stretch has no length it is zero.
pub proof fn law_derivative_point_is_a_slope<P, F: Fn(u8, &P, &P, i64, i64) -> P>(
    degree: u8,
    knots: Seq<i64>,
    points: Seq<P>,
    slope: F,
    zero: P,
    i: int,
    out: P,
)
    requires
        is_slope(degree, knots, points, slope, zero, i, out),
    ensures
        knots[i + 1] < knots[i + 1 + degree] ==> call_ensures(
            slope,
            (degree, &points[i], &points[i + 1], knots[i + 1], knots[i + 1 + degree]),
            out,
        ),
        knots[i + 1] >= knots[i + 1 + degree] ==> out == zero,
{
    assert(i + 1 + degree == i + degree + 1);
}

/// A derivative is one degree lower, over the same knots without the outermost two, with one
/// point less: each the slope of its two points over their own knots, or zero where those have
/// no extent.
pub proof fn law_derivative_lowers_the_degree<C: Copy, F: Fn(u8, &C, &C, i64, i64) -> C>(
    curve: &ScalarNurbs<C>,
    slope: F,
    zero: C,
    lowered: ScalarNurbs<C>,
    i: int,
)
    requires
        curve.wf(),
        curve.degree >= 1,
        curve.control_points@.len() >= 1,
        call_ensures(derivative::<C, F>, (curve, slope, zero), lowered),
        0 <= i < curve.control_points@.len() - 1,
    ensures
        lowered.degree + 1 == curve.degree,
        lowered.control_points@.len() + 1 == curve.control_points@.len(),
        lowered.knots@.len() + 2 == curve.knots@.len(),
        lowered.knots@[i] == curve.knots@[i + 1],
        curve.knots@[i + curve.degree + 1] > curve.knots@[i + 1] ==> call_ensures(
            slope,
            (
                curve.degree,
                &curve.control_points@[i],
                &curve.control_points@[i + 1],
                curve.knots@[i + 1],
                curve.knots@[i + curve.degree + 1],
            ),
            lowered.control_points@[i],
        ),
        curve.knots@[i + curve.degree + 1] <= curve.knots@[i + 1] ==> lowered.control_points@[i]
            == zero,
{
    assert(is_slope(
        curve.degree,
        curve.knots@,
        curve.control_points@,
        slope,
        zero,
        i,
        lowered.control_points@[i],
    ));
}

} // verus!
