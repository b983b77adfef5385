use kalico_motion::nurbs::algebra::{AlgebraError, BezierPiece, PiecewisePolynomialKernel};
use kalico_motion::nurbs::curve::{derivative, vector_derivative, ScalarNurbs, VectorNurbs};
use kalico_motion::nurbs::knot::{
    build_refinement_vector, find_knot_span, merge_knots, KnotVector,
};
use kalico_motion::nurbs::ConstructError;

/// The order key of a knot: keys compare as the knots do.
fn key(knot: f64) -> i64 {
    let bits = knot.to_bits() as i64;
    bits ^ (((bits >> 63) as u64) >> 1) as i64
}

fn keys(knots: &[f64]) -> Vec<i64> {
    knots.iter().map(|&knot| key(knot)).collect()
}

fn knot(key: i64) -> f64 {
    f64::from_bits((key ^ (((key >> 63) as u64) >> 1) as i64) as u64)
}

#[test]
fn try_new_accepts_monotone_knots() {
    let kv = KnotVector::try_new(keys(&[0.0, 0.0, 0.5, 1.0, 1.0])).unwrap();
    assert_eq!(kv.as_slice(), &keys(&[0.0, 0.0, 0.5, 1.0, 1.0])[..]);
}

#[test]
fn try_new_rejects_non_monotone() {
    let result = KnotVector::try_new(keys(&[0.0, 0.5, 0.3, 1.0]));
    assert!(matches!(result, Err(ConstructError::KnotsNotMonotone)));
}

#[test]
fn try_new_rejects_too_short() {
    let result = KnotVector::try_new(keys(&[0.0]));
    assert!(matches!(
        result,
        Err(ConstructError::KnotCountMismatch { .. })
    ));
}

#[test]
fn find_knot_span_returns_correct_span() {
    let knots = keys(&[0.0, 0.0, 0.5, 1.0, 1.0]);
    assert_eq!(find_knot_span(&knots, 1, 3, key(0.25)), 1);
    assert_eq!(find_knot_span(&knots, 1, 3, key(1.0)), 2);
    assert_eq!(find_knot_span(&knots, 1, 3, key(0.0)), 1);
}

#[test]
fn refinement_raises_interior_knots_to_full_multiplicity() {
    let knots = keys(&[0.0, 0.0, 0.0, 0.0, 0.5, 1.0, 1.0, 1.0, 1.0]);
    let missing = build_refinement_vector(&knots, 3);
    assert_eq!(missing, keys(&[0.5, 0.5]));
    assert_eq!(
        merge_knots(&knots, &missing),
        keys(&[0.0, 0.0, 0.0, 0.0, 0.5, 0.5, 0.5, 1.0, 1.0, 1.0, 1.0])
    );
    let full = merge_knots(&knots, &missing);
    assert!(build_refinement_vector(&full, 3).is_empty());
    let bare = keys(&[0.0, 0.0, 0.0, 0.0, 1.0, 1.0, 1.0, 1.0]);
    assert!(build_refinement_vector(&bare, 3).is_empty());
    let broken = keys(&[0.0, 0.0, 0.0, 0.25, 0.5, 0.5, 0.5, 1.0, 1.0, 1.0]);
    assert_eq!(build_refinement_vector(&broken, 2), keys(&[0.25]));
}

fn piece(u_start: i64, u_end: i64) -> BezierPiece<f64> {
    BezierPiece {
        u_start,
        u_end,
        coeffs: vec![1.0],
    }
}

#[test]
fn kernels_join_without_gaps() {
    let kernel = PiecewisePolynomialKernel::from_pieces(vec![piece(0, 3), piece(3, 9)]).unwrap();
    assert_eq!(kernel.support(), (0, 9));
    assert!(matches!(
        PiecewisePolynomialKernel::from_pieces(vec![piece(0, 3), piece(4, 9)]),
        Err(AlgebraError::SupportMismatch)
    ));
    assert!(matches!(
        PiecewisePolynomialKernel::<f64>::from_pieces(Vec::new()),
        Err(AlgebraError::SupportMismatch)
    ));
    let single = PiecewisePolynomialKernel::single_poly(vec![2.0, 1.0], (-4, 4));
    assert_eq!(single.support(), (-4, 4));
    assert_eq!(single.pieces[0].coeffs, vec![2.0, 1.0]);
}

fn slope(p: u8, a: &f64, b: &f64, lo: i64, hi: i64) -> f64 {
    f64::from(p) * (b - a) / (knot(hi) - knot(lo))
}

#[test]
fn a_derivative_has_one_degree_less() {
    let curve = ScalarNurbs::try_new(
        2,
        keys(&[0.0, 0.0, 0.0, 1.0, 1.0, 1.0]),
        vec![0.0, 1.0, 4.0],
    )
    .unwrap();
    let lowered = derivative(&curve, slope, 0.0);
    assert_eq!(lowered.degree, 1);
    assert_eq!(lowered.knots, keys(&[0.0, 0.0, 1.0, 1.0]));
    assert_eq!(lowered.control_points, vec![2.0, 6.0]);

    let plane = VectorNurbs {
        degree: 1,
        knots: keys(&[0.0, 0.0, 0.0, 2.0, 2.0]),
        control_points: vec![[9.0, 9.0], [0.0, 1.0], [4.0, 2.0]],
    };
    let lowered = vector_derivative(
        &plane,
        |p, a: &[f64; 2], b: &[f64; 2], lo, hi| {
            [slope(p, &a[0], &b[0], lo, hi), slope(p, &a[1], &b[1], lo, hi)]
        },
        [0.0; 2],
    );
    assert_eq!(lowered.control_points, vec![[0.0, 0.0], [2.0, 0.5]]);
}

#[test]
fn curves_need_matching_counts() {
    assert!(matches!(
        ScalarNurbs::try_new(1, keys(&[0.0, 0.0, 1.0]), vec![0.0, 1.0]),
        Err(ConstructError::KnotCountMismatch {
            expected: 4,
            got: 3
        })
    ));
    assert!(matches!(
        ScalarNurbs::try_new(1, keys(&[0.0, 0.5, 0.25, 1.0]), vec![0.0, 1.0]),
        Err(ConstructError::KnotsNotMonotone)
    ));
}
