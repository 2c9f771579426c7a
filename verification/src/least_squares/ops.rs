//! Least squares with scratch space of a size that is computed from the
//! dimensions, without a query. The leading dimension of a matrix is the
//! number of its rows, or one where it has none.

use vstd::prelude::*;
use crate::matrix::{same_shape, Matrix};
use crate::types::Transpose;
use crate::util::{holds, leading, least_lead};

verus! {

/// The scratch space that `gels` is given for `nrhs` right-hand sides and a
/// matrix of `m` rows and `n` columns: with `mn` the smaller of `m` and `n`,
/// it is `mn` plus the larger of `mn` and `nrhs`.
pub open spec fn least_work_len(m: int, n: int, nrhs: int) -> int {
    let mn = if m <= n { m } else { n };
    mn + if mn >= nrhs { mn } else { nrhs }
}

/// Computes the size of the scratch space that `gels` is given.
pub fn work_len(m: i32, n: i32, nrhs: i32) -> (len: i32)
    requires
        i32::MIN <= least_work_len(m as int, n as int, nrhs as int) <= i32::MAX,
    ensures
        len == least_work_len(m as int, n as int, nrhs as int),
{
    let mn = if m <= n { m } else { n };
    mn + if mn >= nrhs { mn } else { nrhs }
}

/// Least squares by QR or LQ factorization, for matrices that are handed on
/// as they lie.
pub trait Gels: super::Gels {
    /// Solves `a * x = b` in the least-squares sense in place: the routine is
    /// called once, on the buffers of both matrices as they lie and on
    /// scratch space of the size that `work_len` computes, with the
    /// dimensions of `a` and the dimensions of `b`. Its status is dropped.
    fn gels<A: Matrix<Self>, B: Matrix<Self>>(a_trans: &Transpose, a: &mut A, b: &mut B)
        requires
            0 <= least_work_len(old(a).rows() as int, old(a).cols() as int, old(b).cols() as int)
                <= i32::MAX,
            holds(old(a)@.len() as int, old(a).rows() as int, old(a).cols() as int),
            holds(old(b)@.len() as int, old(b).rows() as int, old(b).cols() as int),
        ensures
            same_shape(old(a), final(a)),
            same_shape(old(b), final(b)),
            exists|a_buf: &mut [Self], b_buf: &mut [Self], work: &mut [Self], lwork: i32, info: i32|
                {
                    &&& #[trigger] call_ensures(
                        Self::xgels,
                        (
                            a_trans.code(),
                            old(a).rows(),
                            old(a).cols(),
                            old(b).cols(),
                            a_buf,
                            least_lead(old(a).rows()),
                            b_buf,
                            least_lead(old(b).rows()),
                            work,
                            lwork,
                        ),
                        info,
                    )
                    &&& a_buf@ == old(a)@ && b_buf@ == old(b)@
                    &&& lwork == least_work_len(
                        old(a).rows() as int,
                        old(a).cols() as int,
                        old(b).cols() as int,
                    ) && work@.len() == lwork
                    &&& final(a)@ == final(a_buf)@ && final(b)@ == final(b_buf)@
                },
    {
        let m = a.rows();
        let n = a.cols();
        let nrhs = b.cols();
        let work_len = work_len(m, n, nrhs);
        let mut work: Vec<Self> = vec![Self::default(); work_len as usize];
        let lda = leading(a.rows());
        let ldb = leading(b.rows());
        let _ = Self::xgels(
            a_trans.as_i8(),
            m,
            n,
            nrhs,
            a.as_mut_ptr(),
            lda,
            b.as_mut_ptr(),
            ldb,
            work.as_mut_slice(),
            work_len,
        );
    }
}

impl<T: super::Gels> Gels for T {

}

} // verus!
