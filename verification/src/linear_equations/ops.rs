//! Linear systems for matrices that are handed on as they lie, with the
//! pivots in a matrix of the caller. The leading dimension of a matrix is
//! the number of its rows, or one where it has none.

use vstd::prelude::*;
use crate::matrix::{same_shape, Matrix};
use crate::util::{holds, leading, least_lead};

pub use super::{Gbsv, Gtsv, Hesv, Hpsv, Pbsv, Posv, Ppsv, Ptsv, Spsv, Sysv};

verus! {

/// General systems, by LU decomposition with partial pivoting.
pub trait Gesv: super::Gesv {
    /// Solves `a * x = b` in place: the routine is called once, on the
    /// buffers of the three matrices as they lie, with the dimensions of `a`
    /// and the dimensions of `b`; `p` takes the pivot rows. Its status is
    /// dropped.
    fn gesv<A: Matrix<Self>, B: Matrix<Self>, P: Matrix<i32>>(a: &mut A, b: &mut B, p: &mut P)
        requires
            holds(old(a)@.len() as int, old(a).rows() as int, old(a).cols() as int),
            holds(old(b)@.len() as int, old(b).rows() as int, old(b).cols() as int),
            old(p)@.len() >= old(a).cols(),
        ensures
            same_shape(old(a), final(a)),
            same_shape(old(b), final(b)),
            same_shape(old(p), final(p)),
            exists|a_buf: &mut [Self], ipiv: &mut [i32], b_buf: &mut [Self], info: i32|
                {
                    &&& #[trigger] call_ensures(
                        Self::xgesv,
                        (
                            old(a).cols(),
                            old(b).cols(),
                            a_buf,
                            least_lead(old(a).rows()),
                            ipiv,
                            b_buf,
                            least_lead(old(b).rows()),
                        ),
                        info,
                    )
                    &&& a_buf@ == old(a)@ && ipiv@ == old(p)@ && b_buf@ == old(b)@
                    &&& final(a)@ == final(a_buf)@ && final(p)@ == final(ipiv)@ && final(b)@
                        == final(b_buf)@
                },
    {
        let n = a.cols();
        let nrhs = b.cols();
        let lda = leading(a.rows());
        let ldb = leading(b.rows());
        let _ = Self::xgesv(n, nrhs, a.as_mut_ptr(), lda, p.as_mut_ptr(), b.as_mut_ptr(), ldb);
    }
}

impl<T: super::Gesv> Gesv for T {

}

} // verus!
