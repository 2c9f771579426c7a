//! Singular values and singular vectors of general matrices.

use vstd::prelude::*;
use crate::error::{finish, Error};
use crate::matrix::{same_shape, vectors_buffer, vectors_lead, Matrix};
use crate::scalar::Scalar;
use crate::types::Compute;
use crate::util::{holds, leading, least_lead, staged, stored, unstaged, ColMem};

verus! {

/// What a routine is asked to do about a set of singular vectors.
pub open spec fn vectors_job(wanted: bool) -> Compute {
    if wanted {
        Compute::Partial
    } else {
        Compute::Nothing
    }
}

/// The job for a set of singular vectors: the leading ones are computed if
/// the caller has a matrix to take them.
pub fn job(wanted: bool) -> (c: Compute)
    ensures
        c == vectors_job(wanted),
{
    if wanted {
        Compute::Partial
    } else {
        Compute::Nothing
    }
}

/// Singular values and, where wanted, the leading singular vectors of a
/// matrix with at least as many rows as columns.
pub trait Gesvd: Scalar {
    /// The routine `gesvd` for this element type, asked for the size of the
    /// scratch space that suits it best. `a` is not touched. Returns the
    /// status code and the size as the routine reports it.
    fn xgesvd_query(
        jobu: i8,
        jobvt: i8,
        m: i32,
        n: i32,
        a: &[Self],
        lda: i32,
        ldu: i32,
        ldvt: i32,
    ) -> (i32, Self)
        requires
            lda == least_lead(m),
            ldu == least_lead(m),
            ldvt == least_lead(n),
    ;

    /// The routine `gesvd` for this element type. `a` holds the `m` by `n`
    /// matrix, column-major with the leading dimension `lda`; `s` takes the
    /// `n` singular values; `u` and `vt` take the left and the right
    /// singular vectors where `jobu` and `jobvt` ask for them, and are empty
    /// where they do not; `work` is scratch space of `lwork` elements.
    /// Returns the status code.
    fn xgesvd(
        jobu: i8,
        jobvt: i8,
        m: i32,
        n: i32,
        a: &mut [Self],
        lda: i32,
        s: &mut [Self],
        u: &mut [Self],
        ldu: i32,
        vt: &mut [Self],
        ldvt: i32,
        work: &mut [Self],
        lwork: i32,
    ) -> i32
        requires
            jobu == Compute::Partial.code() || jobu == Compute::Nothing.code(),
            jobvt == Compute::Partial.code() || jobvt == Compute::Nothing.code(),
            0 <= n <= m,
            stored(old(a)@.len() as int, lda as int, n as int),
            old(s)@.len() == n,
            jobu == Compute::Partial.code() ==> stored(old(u)@.len() as int, ldu as int, n as int),
            jobu == Compute::Nothing.code() ==> old(u)@.len() == 0 && ldu == 1,
            jobvt == Compute::Partial.code() ==> stored(
                old(vt)@.len() as int,
                ldvt as int,
                n as int,
            ),
            jobvt == Compute::Nothing.code() ==> old(vt)@.len() == 0 && ldvt == 1,
            lwork == old(work)@.len() as i32,
    ;

    /// Computes the singular values of `a`, and the leading left and right
    /// singular vectors into `left` and `right` where they are given: asks
    /// the routine for the size of the scratch space with `work_len`,
    /// returns the error if there is one, and else computes with `work` on
    /// scratch space of that size. `a` is overwritten.
    fn gesvd<M: Matrix<Self>>(a: &mut M, left: Option<&mut M>, right: Option<&mut M>) -> (r: Result<
        Vec<Self>,
        Error,
    >)
        requires
            old(a).rows() >= old(a).cols() ==> {
                &&& old(a).cols() >= 0
                &&& holds(old(a)@.len() as int, old(a).rows() as int, old(a).cols() as int)
                &&& left matches Some(l) ==> holds(
                    l@.len() as int,
                    l.rows() as int,
                    old(a).cols() as int,
                )
                &&& right matches Some(m) ==> holds(
                    m@.len() as int,
                    m.rows() as int,
                    old(a).cols() as int,
                )
            },
        ensures
            same_shape(old(a), final(a)),
            left matches Some(l) ==> same_shape(l, final(l)),
            right matches Some(m) ==> same_shape(m, final(m)),
            old(a).rows() < old(a).cols() ==> r is Err,
            exists|a_query: &mut M, query: Result<usize, Error>|
                {
                    &&& #[trigger] call_ensures(
                        Self::work_len::<M>,
                        (a_query, vectors_job(left is Some), vectors_job(right is Some)),
                        query,
                    )
                    &&& *a_query == *old(a)
                    &&& match query {
                        Err(e) => {
                            &&& r == Err::<Vec<Self>, Error>(e)
                            &&& *final(a) == *old(a)
                            &&& left matches Some(l) ==> *final(l) == *l
                            &&& right matches Some(m) ==> *final(m) == *m
                        },
                        Ok(len) => exists|a_work: &mut M, work: &mut [Self]|
                            {
                                &&& #[trigger] call_ensures(
                                    Self::work::<M>,
                                    (a_work, left, right, work),
                                    r,
                                )
                                &&& *a_work == *old(a)
                                &&& work@.len() == len
                                &&& *final(a) == *final(a_work)
                            },
                    }
                },
    {
        let job_l = job(left.is_some());
        let job_r = job(right.is_some());
        let work_len = match Self::work_len(a, job_l, job_r) {
            Ok(len) => len,
            Err(e) => {
                return Err(e);
            },
        };
        let mut work: Vec<Self> = vec![Self::default(); work_len];
        Self::work(a, left, right, work.as_mut_slice())
    }

    /// Computes the singular values of `a`, and the leading left and right
    /// singular vectors into `left` and `right` where they are given, with
    /// the scratch space `work`: unless `a` has more columns than rows, the
    /// routine is called once, on `a` in column-major storage and on the
    /// buffers of `left` and `right` as they lie, and `a` takes back what it
    /// leaves. The result is the singular values that it leaves, or the
    /// error that its status stands for.
    fn work<M: Matrix<Self>>(
        a: &mut M,
        left: Option<&mut M>,
        right: Option<&mut M>,
        work: &mut [Self],
    ) -> (r: Result<Vec<Self>, Error>)
        requires
            old(a).rows() >= old(a).cols() ==> {
                &&& old(a).cols() >= 0
                &&& holds(old(a)@.len() as int, old(a).rows() as int, old(a).cols() as int)
                &&& left matches Some(l) ==> holds(
                    l@.len() as int,
                    l.rows() as int,
                    old(a).cols() as int,
                )
                &&& right matches Some(m) ==> holds(
                    m@.len() as int,
                    m.rows() as int,
                    old(a).cols() as int,
                )
            },
        ensures
            same_shape(old(a), final(a)),
            left matches Some(l) ==> same_shape(l, final(l)),
            right matches Some(m) ==> same_shape(m, final(m)),
            old(a).rows() < old(a).cols() ==> {
                &&& r == Err::<Vec<Self>, Error>(Error::DimensionMismatch)
                &&& *final(a) == *old(a)
                &&& final(work)@ == old(work)@
                &&& left matches Some(l) ==> *final(l) == *l
                &&& right matches Some(m) ==> *final(m) == *m
            },
            old(a).rows() >= old(a).cols() ==> exists|
                jobu: i8,
                jobvt: i8,
                a_buf: &mut [Self],
                lda: i32,
                s: &mut [Self],
                u: &mut [Self],
                ldu: i32,
                vt: &mut [Self],
                ldvt: i32,
                scratch: &mut [Self],
                lwork: i32,
                info: i32,
            |
                {
                    &&& #[trigger] call_ensures(
                        Self::xgesvd,
                        (
                            jobu,
                            jobvt,
                            old(a).rows(),
                            old(a).cols(),
                            a_buf,
                            lda,
                            s,
                            u,
                            ldu,
                            vt,
                            ldvt,
                            scratch,
                            lwork,
                        ),
                        info,
                    )
                    &&& jobu == vectors_job(left is Some).code()
                    &&& jobvt == vectors_job(right is Some).code()
                    &&& staged(old(a).order(), old(a), a_buf@)
                    &&& lda == least_lead(old(a).rows())
                    &&& s@.len() == old(a).cols()
                    &&& u@ == vectors_buffer(left) && ldu == vectors_lead(left)
                    &&& vt@ == vectors_buffer(right) && ldvt == vectors_lead(right)
                    &&& scratch@ == old(work)@ && lwork == old(work)@.len() as i32
                    &&& match r {
                        Ok(values) => info == 0 && values@ == final(s)@,
                        Err(e) => Error::of_info(info) == Some(e),
                    }
                    &&& final(a)@ == unstaged(old(a).order(), old(a), final(a_buf)@)
                    &&& left matches Some(l) ==> final(l)@ == final(u)@
                    &&& right matches Some(m) ==> final(m)@ == final(vt)@
                    &&& final(work)@ == final(scratch)@
                },
    {
        let m = a.rows();
        let n = a.cols();
        if m < n {
            return Err(Error::DimensionMismatch);
        }
        let mut a_mem = ColMem::new(a.order(), a);
        let mut no_left: Vec<Self> = Vec::new();
        let mut no_right: Vec<Self> = Vec::new();
        let (job_l, lead_l, ptr_l) = match left {
            Some(m) => (Compute::Partial, leading(m.rows()), m.as_mut_ptr()),
            None => (Compute::Nothing, 1, no_left.as_mut_slice()),
        };
        let (job_r, lead_r, ptr_r) = match right {
            Some(m) => (Compute::Partial, leading(m.rows()), m.as_mut_ptr()),
            None => (Compute::Nothing, 1, no_right.as_mut_slice()),
        };
        let mut singular_values: Vec<Self> = vec![Self::default(); n as usize];
        let lda = a_mem.lead();
        let lwork = #[verifier::truncate] (work.len() as i32);
        let info = Self::xgesvd(
            job_l.as_i8(),
            job_r.as_i8(),
            m,
            n,
            a_mem.as_mut_ptr(),
            lda,
            singular_values.as_mut_slice(),
            ptr_l,
            lead_l,
            ptr_r,
            lead_r,
            work,
            lwork,
        );
        a_mem.write_back();
        finish(info, singular_values)
    }

    /// Asks the routine for the size of the scratch space that suits it
    /// best, for the jobs `left` and `right`: the routine is called once,
    /// with the rows of `a` for its leading dimension and that of the left
    /// vectors, and its columns for that of the right ones, each one where
    /// there are none. The result is
    /// the size that it reports, or the error that its status stands for.
    /// `a` stays as it is.
    fn work_len<M: Matrix<Self>>(a: &mut M, left: Compute, right: Compute) -> (r: Result<
        usize,
        Error,
    >)
        ensures
            *final(a) == *old(a),
            exists|a_buf: &[Self], info: i32, size: Self|
                {
                    &&& #[trigger] call_ensures(
                        Self::xgesvd_query,
                        (
                            left.code(),
                            right.code(),
                            old(a).rows(),
                            old(a).cols(),
                            a_buf,
                            least_lead(old(a).rows()),
                            least_lead(old(a).rows()),
                            least_lead(old(a).cols()),
                        ),
                        (info, size),
                    )
                    &&& a_buf@ == old(a)@
                    &&& match Error::of_info(info) {
                        Some(e) => r == Err::<usize, Error>(e),
                        None => r matches Ok(len) && call_ensures(Self::as_work, (size,), len),
                    }
                },
    {
        let m = a.rows();
        let n = a.cols();
        let lda = leading(m);
        let ldvt = leading(n);
        let a_buf = a.as_ptr();
        let (info, len_info) = Self::xgesvd_query(
            left.as_i8(),
            right.as_i8(),
            m,
            n,
            a_buf,
            lda,
            lda,
            ldvt,
        );
        let r = match Error::from_info(info) {
            None => Ok(len_info.as_work()),
            Some(e) => Err(e),
        };
        assert(call_ensures(
            Self::xgesvd_query,
            (left.code(), right.code(), m, n, a_buf, lda, lda, ldvt),
            (info, len_info),
        ));
        r
    }
}

} // verus!
