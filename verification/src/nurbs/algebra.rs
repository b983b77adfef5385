//! Piecewise polynomial kernels.

use vstd::prelude::*;

verus! {

/// One polynomial between two breakpoints.
#[derive(Debug)]
pub struct BezierPiece<C> {
    pub u_start: i64,
    pub u_end: i64,
    pub coeffs: Vec<C>,
}

#[derive(Debug, Clone, Copy, PartialEq, Eq, Structural)]
pub enum AlgebraError {
    SupportMismatch,
}

/// Polynomial pieces, each starting where the one before it ends.
#[derive(Debug)]
pub struct PiecewisePolynomialKernel<C> {
    pub pieces: Vec<BezierPiece<C>>,
}

/// There is a piece, and each starts where the one before it ends.
pub open spec fn contiguous<C>(pieces: Seq<BezierPiece<C>>) -> bool {
    &&& pieces.len() > 0
    &&& forall|i: int, j: int|
        0 <= i && j == i + 1 && j < pieces.len() ==> (#[trigger] pieces[i]).u_end == (
        #[trigger] pieces[j]).u_start
}

impl<C> PiecewisePolynomialKernel<C> {
    pub open spec fn wf(self) -> bool {
        contiguous(self.pieces@)
    }

    /// One polynomial over its support.
    pub fn single_poly(coeffs: Vec<C>, support: (i64, i64)) -> (kernel: Self)
        ensures
            kernel.wf(),
            kernel.pieces@ == seq![
                BezierPiece { u_start: support.0, u_end: support.1, coeffs },
            ],
    {
        let mut pieces: Vec<BezierPiece<C>> = Vec::new();
        pieces.push(BezierPiece { u_start: support.0, u_end: support.1, coeffs });
        assert(pieces@ =~= seq![BezierPiece { u_start: support.0, u_end: support.1, coeffs }]);
        PiecewisePolynomialKernel { pieces }
    }

    /// The interval that the pieces cover.
    pub fn support(&self) -> (support: (i64, i64))
        requires
            self.wf(),
        ensures
            support == (self.pieces@[0].u_start, self.pieces@.last().u_end),
    {
        let last: usize = self.pieces.len() - 1;
        (self.pieces[0].u_start, self.pieces[last].u_end)
    }

    /// Takes pieces that join; no pieces, or a gap between two, is a mismatch.
    pub fn from_pieces(pieces: Vec<BezierPiece<C>>) -> (result: Result<Self, AlgebraError>)
        ensures
            match result {
                Ok(kernel) => kernel.pieces == pieces && kernel.wf(),
                Err(error) => error is SupportMismatch && !contiguous(pieces@),
            },
    {
        if pieces.len() == 0 {
            return Err(AlgebraError::SupportMismatch);
        }
        let mut j: usize = 1;
        while j < pieces.len()
            invariant
                1 <= j <= pieces@.len(),
                forall|a: int, b: int|
                    0 <= a && b == a + 1 && b < j ==> (#[trigger] pieces@[a]).u_end == (
                    #[trigger] pieces@[b]).u_start,
            decreases pieces@.len() - j,
        {
            if pieces[j - 1].u_end != pieces[j].u_start {
                assert(pieces@[j - 1].u_end != pieces@[j as int].u_start);
                return Err(AlgebraError::SupportMismatch);
            }
            j += 1;
        }
        Ok(PiecewisePolynomialKernel { pieces })
    }
}

/// Pieces are taken exactly where there is one and each starts where the one before it
/// ends; they are kept as they are.
pub proof fn law_only_joining_pieces_make_a_kernel<C>(
    pieces: Vec<BezierPiece<C>>,
    result: Result<PiecewisePolynomialKernel<C>, AlgebraError>,
)
    requires
        call_ensures(PiecewisePolynomialKernel::<C>::from_pieces, (pieces,), result),
    ensures
        result is Ok <==> pieces@.len() > 0 && (forall|i: int, j: int|
            0 <= i && j == i + 1 && j < pieces@.len() ==> (#[trigger] pieces@[i]).u_end == (
            #[trigger] pieces@[j]).u_start),
        result matches Ok(kernel) ==> kernel.pieces == pieces,
{
}

/// A single polynomial covers its support with all its coefficients, and a kernel's support
/// reaches from where its first piece starts to where its last one ends.
pub proof fn law_support_reaches_over_every_piece<C>(
    coeffs: Vec<C>,
    over: (i64, i64),
    single: PiecewisePolynomialKernel<C>,
    kernel: PiecewisePolynomialKernel<C>,
    support: (i64, i64),
)
    requires
        kernel.wf(),
        call_ensures(PiecewisePolynomialKernel::<C>::single_poly, (coeffs, over), single),
        call_ensures(PiecewisePolynomialKernel::<C>::support, (&kernel,), support),
    ensures
        single.pieces@.len() == 1,
        single.pieces@[0].u_start == over.0,
        single.pieces@[0].u_end == over.1,
        single.pieces@[0].coeffs == coeffs,
        support.0 == kernel.pieces@[0].u_start,
        support.1 == kernel.pieces@[kernel.pieces@.len() - 1].u_end,
{
}

} // verus!
