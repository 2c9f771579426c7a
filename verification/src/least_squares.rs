//! Solving overdetermined and underdetermined systems in the least-squares
//! sense.

pub mod ops;

use vstd::prelude::*;
use crate::error::{finish, outcome, Error};
use crate::matrix::{same_shape, Matrix};
use crate::scalar::Scalar;
use crate::types::Transpose;
use crate::util::{holds, leading, least_lead, staged, stored, unstaged, ColMem};

verus! {

/// The leading dimension that the workspace query names for the right-hand
/// sides: they share their storage with the solution, so it covers the
/// larger of `m` and `n`.
pub open spec fn query_ldb(m: i32, n: i32) -> i32 {
    least_lead(if m >= n { m } else { n })
}

/// Least squares by QR or LQ factorization.
pub trait Gels: Scalar {
    /// The routine `gels` for this element type, asked for the size of the
    /// scratch space that suits it best. `a` and `b` are not touched.
    /// Returns the status code and the size as the routine reports it.
    fn xgels_query(
        trans: i8,
        m: i32,
        n: i32,
        nrhs: i32,
        a: &[Self],
        lda: i32,
        b: &[Self],
        ldb: i32,
    ) -> (i32, Self)
        requires
            lda == least_lead(m),
            ldb == query_ldb(m, n),
    ;

    /// The routine `gels` for this element type. `a` holds the `m` by `n`
    /// matrix, or stands for its conjugate transpose as `trans` says, and
    /// `b` the `nrhs` right-hand sides, both column-major with the leading
    /// dimensions `lda` and `ldb`; `work` is scratch space of `lwork`
    /// elements. Returns the status code.
    fn xgels(
        trans: i8,
        m: i32,
        n: i32,
        nrhs: i32,
        a: &mut [Self],
        lda: i32,
        b: &mut [Self],
        ldb: i32,
        work: &mut [Self],
        lwork: i32,
    ) -> i32
        requires
            stored(old(a)@.len() as int, lda as int, n as int),
            stored(old(b)@.len() as int, ldb as int, nrhs as int),
            lwork == old(work)@.len() as i32,
    ;

    /// Solves `a * x = b` in the least-squares sense: asks the routine for
    /// the size of the scratch space with `gels_work_len`, returns the error
    /// if there is one, and else solves with `gels_work` on scratch space of
    /// that size. On success `b` holds `x`.
    fn gels<A: Matrix<Self>, B: Matrix<Self>>(a_trans: &Transpose, a: &mut A, b: &mut B) -> (r:
        Result<(), Error>)
        requires
            holds(old(a)@.len() as int, old(a).rows() as int, old(a).cols() as int),
            holds(old(b)@.len() as int, old(b).rows() as int, old(b).cols() as int),
        ensures
            same_shape(old(a), final(a)),
            same_shape(old(b), final(b)),
            exists|a_query: &mut A, b_query: &mut B, query: Result<usize, Error>|
                {
                    &&& #[trigger] call_ensures(
                        Self::gels_work_len::<A, B>,
                        (a_trans, a_query, b_query),
                        query,
                    )
                    &&& *a_query == *old(a) && *b_query == *old(b)
                    &&& match query {
                        Err(e) => r == Err::<(), Error>(e) && *final(a) == *old(a) && *final(b)
                            == *old(b),
                        Ok(len) => exists|a_work: &mut A, b_work: &mut B, work: &mut [Self]|
                            {
                                &&& #[trigger] call_ensures(
                                    Self::gels_work::<A, B>,
                                    (a_trans, a_work, b_work, work),
                                    r,
                                )
                                &&& *a_work == *old(a) && *b_work == *old(b)
                                &&& work@.len() == len
                                &&& *final(a) == *final(a_work) && *final(b) == *final(b_work)
                            },
                    }
                },
    {
        let work_len = match Self::gels_work_len(a_trans, a, b) {
            Ok(len) => len,
            Err(e) => {
                return Err(e);
            },
        };
        let mut work: Vec<Self> = vec![Self::default(); work_len];
        Self::gels_work(a_trans, a, b, work.as_mut_slice())
    }

    /// Solves `a * x = b` in the least-squares sense with the scratch space
    /// `work`: the routine is called once, on both matrices in column-major
    /// storage, and the matrices take back what it leaves. The result is the
    /// status that it reports. On success `b` holds `x`.
    fn gels_work<A: Matrix<Self>, B: Matrix<Self>>(
        a_trans: &Transpose,
        a: &mut A,
        b: &mut B,
        work: &mut [Self],
    ) -> (r: Result<(), Error>)
        requires
            holds(old(a)@.len() as int, old(a).rows() as int, old(a).cols() as int),
            holds(old(b)@.len() as int, old(b).rows() as int, old(b).cols() as int),
        ensures
            same_shape(old(a), final(a)),
            same_shape(old(b), final(b)),
            exists|a_buf: &mut [Self], b_buf: &mut [Self], scratch: &mut [Self], info: i32|
                {
                    &&& #[trigger] call_ensures(
                        Self::xgels,
                        (
                            a_trans.code(),
                            old(a).rows(),
                            old(a).cols(),
                            old(b).cols(),
                            a_buf,
                            least_lead(old(a).rows()),
                            b_buf,
                            least_lead(old(b).rows()),
                            scratch,
                            old(work)@.len() as i32,
                        ),
                        info,
                    )
                    &&& staged(old(a).order(), old(a), a_buf@)
                    &&& staged(old(b).order(), old(b), b_buf@)
                    &&& scratch@ == old(work)@
                    &&& r == outcome(info, ())
                    &&& final(a)@ == unstaged(old(a).order(), old(a), final(a_buf)@)
                    &&& final(b)@ == unstaged(old(b).order(), old(b), final(b_buf)@)
                    &&& final(work)@ == final(scratch)@
                },
    {
        let m = a.rows();
        let n = a.cols();
        let nrhs = b.cols();
        let mut a_mem = ColMem::new(a.order(), a);
        let mut b_mem = ColMem::new(b.order(), b);
        let lda = a_mem.lead();
        let ldb = b_mem.lead();
        let lwork = #[verifier::truncate] (work.len() as i32);
        let info = Self::xgels(
            a_trans.as_i8(),
            m,
            n,
            nrhs,
            a_mem.as_mut_ptr(),
            lda,
            b_mem.as_mut_ptr(),
            ldb,
            work,
            lwork,
        );
        b_mem.write_back();
        a_mem.write_back();
        finish(info, ())
    }

    /// Asks the routine for the size of the scratch space that suits it
    /// best: the routine is called once, with the dimensions of the matrices
    /// and the least leading dimensions that it accepts for them. The result
    /// is the size that it reports, or the error that its status stands for.
    /// The matrices stay as they are.
    fn gels_work_len<A: Matrix<Self>, B: Matrix<Self>>(
        a_trans: &Transpose,
        a: &mut A,
        b: &mut B,
    ) -> (r: Result<usize, Error>)
        ensures
            *final(a) == *old(a),
            *final(b) == *old(b),
            exists|a_buf: &[Self], b_buf: &[Self], info: i32, size: Self|
                {
                    &&& #[trigger] call_ensures(
                        Self::xgels_query,
                        (
                            a_trans.code(),
                            old(a).rows(),
                            old(a).cols(),
                            old(b).cols(),
                            a_buf,
                            least_lead(old(a).rows()),
                            b_buf,
                            query_ldb(old(a).rows(), old(a).cols()),
                        ),
                        (info, size),
                    )
                    &&& a_buf@ == old(a)@ && b_buf@ == old(b)@
                    &&& match Error::of_info(info) {
                        Some(e) => r == Err::<usize, Error>(e),
                        None => r matches Ok(len) && call_ensures(Self::as_work, (size,), len),
                    }
                },
    {
        let m = a.rows();
        let n = a.cols();
        let nrhs = b.cols();
        let lda_t = leading(m);
        let ldb_t = leading(if m >= n { m } else { n });
        let a_buf = a.as_ptr();
        let b_buf = b.as_ptr();
        let (info, len_info) = Self::xgels_query(
            a_trans.as_i8(),
            m,
            n,
            nrhs,
            a_buf,
            lda_t,
            b_buf,
            ldb_t,
        );
        let r = match Error::from_info(info) {
            None => Ok(len_info.as_work()),
            Some(e) => Err(e),
        };
        assert(call_ensures(
            Self::xgels_query,
            (
                a_trans.code(),
                old(a).rows(),
                old(a).cols(),
                old(b).cols(),
                a_buf,
                least_lead(old(a).rows()),
                b_buf,
                query_ldb(old(a).rows(), old(a).cols()),
            ),
            (info, len_info),
        ));
        r
    }
}

} // verus!
