//! Eigenvalues and eigenvectors of general matrices.

use vstd::prelude::*;
use num::complex::Complex;
use crate::error::{finish, Error};
use crate::matrix::{same_shape, vectors_buffer, vectors_lead, Matrix};
use crate::scalar::Scalar;
use crate::types::Compute;
use crate::util::{holds, leading, least, least_lead, staged, stored, unstaged, ColMem};

verus! {

/// `num::complex::Complex`: a complex number as its real part `re` and its
/// imaginary part `im`, both public fields.
#[verifier::external_type_specification]
#[verifier::reject_recursive_types(T)]
pub struct ExComplex<T>(Complex<T>);

/// `num::complex::Complex::new`: the complex number with the given real and
/// imaginary parts.
pub assume_specification<T>[ Complex::<T>::new ](re: T, im: T) -> (c: Complex<T>)
    ensures
        c.re == re,
        c.im == im,
;

/// The complex numbers with the real parts `re` and the imaginary parts
/// `im`, as far as both go.
pub open spec fn paired<T>(re: Seq<T>, im: Seq<T>) -> Seq<Complex<T>> {
    Seq::new(least(re.len() as int, im.len() as int) as nat, |k: int| Complex { re: re[k], im: im[k] })
}

/// Joins real and imaginary parts to complex numbers.
pub fn pair_up<T: Copy>(re: &[T], im: &[T]) -> (values: Vec<Complex<T>>)
    ensures
        values@ == paired(re@, im@),
{
    let count = if re.len() <= im.len() { re.len() } else { im.len() };
    let mut values: Vec<Complex<T>> = Vec::new();
    let mut k: usize = 0;
    while k < count
        invariant
            k <= count,
            count == least(re@.len() as int, im@.len() as int),
            values@.len() == k,
            forall|j: int| 0 <= j < k ==> values@[j] == paired(re@, im@)[j],
        decreases count - k,
    {
        values.push(Complex::new(re[k], im[k]));
        k += 1;
    }
    assert(values@ =~= paired(re@, im@));
    values
}

/// What a routine is asked to do about a set of eigenvectors.
pub open spec fn vectors_job(wanted: bool) -> Compute {
    if wanted {
        Compute::Value
    } else {
        Compute::Nothing
    }
}

/// The job for a set of eigenvectors: computed if the caller has a matrix to
/// take them.
pub fn job(wanted: bool) -> (c: Compute)
    ensures
        c == vectors_job(wanted),
{
    if wanted {
        Compute::Value
    } else {
        Compute::Nothing
    }
}

/// Whether `r` is what `work` returns once the routine has reported `info`
/// and left the real parts `wr` and the imaginary parts `wi` of the
/// eigenvalues.
pub open spec fn geev_returns<T>(
    r: Result<Vec<Complex<T>>, Error>,
    info: i32,
    wr: Seq<T>,
    wi: Seq<T>,
) -> bool {
    match r {
        Ok(values) => info == 0 && values@ == paired(wr, wi),
        Err(e) => Error::of_info(info) == Some(e),
    }
}

/// Eigenvalues and, where wanted, eigenvectors of a square matrix.
pub trait Geev: Scalar {
    /// The routine `geev` for this element type, asked for the size of the
    /// scratch space that suits it best. `a` is not touched. Returns the
    /// status code and the size as the routine reports it.
    fn xgeev_query(
        jobvl: i8,
        jobvr: i8,
        n: i32,
        a: &[Self],
        lda: i32,
        ldvl: i32,
        ldvr: i32,
    ) -> (i32, Self)
        requires
            lda == least_lead(n),
            ldvl == least_lead(n),
            ldvr == least_lead(n),
    ;

    /// The routine `geev` for this element type. `a` holds the matrix of
    /// order `n`, column-major with the leading dimension `lda`; `wr` and
    /// `wi` take the real and the imaginary parts of the eigenvalues; `vl`
    /// and `vr` take the left and the right eigenvectors where `jobvl` and
    /// `jobvr` ask for them, and are empty where they do not; `work` is
    /// scratch space of `lwork` elements. Returns the status code.
    fn xgeev(
        jobvl: i8,
        jobvr: i8,
        n: i32,
        a: &mut [Self],
        lda: i32,
        wr: &mut [Self],
        wi: &mut [Self],
        vl: &mut [Self],
        ldvl: i32,
        vr: &mut [Self],
        ldvr: i32,
        work: &mut [Self],
        lwork: i32,
    ) -> i32
        requires
            jobvl == Compute::Value.code() || jobvl == Compute::Nothing.code(),
            jobvr == Compute::Value.code() || jobvr == Compute::Nothing.code(),
            stored(old(a)@.len() as int, lda as int, n as int),
            old(wr)@.len() == n,
            old(wi)@.len() == n,
            jobvl == Compute::Value.code() ==> stored(old(vl)@.len() as int, ldvl as int, n as int),
            jobvl == Compute::Nothing.code() ==> old(vl)@.len() == 0 && ldvl == 1,
            jobvr == Compute::Value.code() ==> stored(old(vr)@.len() as int, ldvr as int, n as int),
            jobvr == Compute::Nothing.code() ==> old(vr)@.len() == 0 && ldvr == 1,
            lwork == old(work)@.len() as i32,
    ;

    /// Computes the eigenvalues of `a`, and the left and right eigenvectors
    /// into `left` and `right` where they are given: asks the routine for the
    /// size of the scratch space with `work_len`, returns the error if there
    /// is one, and else computes with `work` on scratch space of that size.
    /// `a` is overwritten.
    fn geev<M: Matrix<Self>>(a: &mut M, left: Option<&mut M>, right: Option<&mut M>) -> (r: Result<
        Vec<Complex<Self>>,
        Error,
    >)
        requires
            old(a).rows() == old(a).cols() ==> {
                &&& old(a).rows() >= 0
                &&& holds(old(a)@.len() as int, old(a).rows() as int, old(a).cols() as int)
                &&& left matches Some(l) ==> holds(
                    l@.len() as int,
                    l.rows() as int,
                    old(a).rows() as int,
                )
                &&& right matches Some(m) ==> holds(
                    m@.len() as int,
                    m.rows() as int,
                    old(a).rows() as int,
                )
            },
        ensures
            same_shape(old(a), final(a)),
            left matches Some(l) ==> same_shape(l, final(l)),
            right matches Some(m) ==> same_shape(m, final(m)),
            old(a).rows() != old(a).cols() ==> r == Err::<Vec<Complex<Self>>, Error>(
                Error::DimensionMismatch,
            ),
            exists|a_query: &mut M, query: Result<usize, Error>|
                {
                    &&& #[trigger] call_ensures(
                        Self::work_len::<M>,
                        (a_query, vectors_job(left is Some), vectors_job(right is Some)),
                        query,
                    )
                    &&& *a_query == *old(a)
                    &&& match query {
                        Err(e) => {
                            &&& r == Err::<Vec<Complex<Self>>, Error>(e)
                            &&& *final(a) == *old(a)
                            &&& left matches Some(l) ==> *final(l) == *l
                            &&& right matches Some(m) ==> *final(m) == *m
                        },
                        Ok(len) => exists|a_work: &mut M, work: &mut [Self]|
                            {
                                &&& #[trigger] call_ensures(
                                    Self::work::<M>,
                                    (a_work, left, right, work),
                                    r,
                                )
                                &&& *a_work == *old(a)
                                &&& work@.len() == len
                                &&& *final(a) == *final(a_work)
                            },
                    }
                },
    {
        let job_l = job(left.is_some());
        let job_r = job(right.is_some());
        let work_len = match Self::work_len(a, job_l, job_r) {
            Ok(len) => len,
            Err(e) => {
                return Err(e);
            },
        };
        let mut work: Vec<Self> = vec![Self::default(); work_len];
        Self::work(a, left, right, work.as_mut_slice())
    }

    /// Computes the eigenvalues of `a`, and the left and right eigenvectors
    /// into `left` and `right` where they are given, with the scratch space
    /// `work`: unless `a` is not square, the routine is called once, on `a`
    /// in column-major storage and on the buffers of `left` and `right` as
    /// they lie, and `a` takes back what it leaves. The result is the
    /// eigenvalues that it leaves, or the error that its status stands for.
    fn work<M: Matrix<Self>>(
        a: &mut M,
        left: Option<&mut M>,
        right: Option<&mut M>,
        work: &mut [Self],
    ) -> (r: Result<Vec<Complex<Self>>, Error>)
        requires
            old(a).rows() == old(a).cols() ==> {
                &&& old(a).rows() >= 0
                &&& holds(old(a)@.len() as int, old(a).rows() as int, old(a).cols() as int)
                &&& left matches Some(l) ==> holds(
                    l@.len() as int,
                    l.rows() as int,
                    old(a).rows() as int,
                )
                &&& right matches Some(m) ==> holds(
                    m@.len() as int,
                    m.rows() as int,
                    old(a).rows() as int,
                )
            },
        ensures
            same_shape(old(a), final(a)),
            left matches Some(l) ==> same_shape(l, final(l)),
            right matches Some(m) ==> same_shape(m, final(m)),
            old(a).rows() != old(a).cols() ==> {
                &&& r == Err::<Vec<Complex<Self>>, Error>(Error::DimensionMismatch)
                &&& *final(a) == *old(a)
                &&& final(work)@ == old(work)@
                &&& left matches Some(l) ==> *final(l) == *l
                &&& right matches Some(m) ==> *final(m) == *m
            },
            old(a).rows() == old(a).cols() ==> exists|
                jobvl: i8,
                jobvr: i8,
                a_buf: &mut [Self],
                lda: i32,
                wr: &mut [Self],
                wi: &mut [Self],
                vl: &mut [Self],
                ldvl: i32,
                vr: &mut [Self],
                ldvr: i32,
                scratch: &mut [Self],
                lwork: i32,
                info: i32,
            |
                {
                    &&& #[trigger] call_ensures(
                        Self::xgeev,
                        (
                            jobvl,
                            jobvr,
                            old(a).rows(),
                            a_buf,
                            lda,
                            wr,
                            wi,
                            vl,
                            ldvl,
                            vr,
                            ldvr,
                            scratch,
                            lwork,
                        ),
                        info,
                    )
                    &&& jobvl == vectors_job(left is Some).code()
                    &&& jobvr == vectors_job(right is Some).code()
                    &&& staged(old(a).order(), old(a), a_buf@)
                    &&& lda == least_lead(old(a).rows())
                    &&& wr@.len() == old(a).rows() && wi@.len() == old(a).rows()
                    &&& vl@ == vectors_buffer(left) && ldvl == vectors_lead(left)
                    &&& vr@ == vectors_buffer(right) && ldvr == vectors_lead(right)
                    &&& scratch@ == old(work)@ && lwork == old(work)@.len() as i32
                    &&& geev_returns(r, info, final(wr)@, final(wi)@)
                    &&& final(a)@ == unstaged(old(a).order(), old(a), final(a_buf)@)
                    &&& left matches Some(l) ==> final(l)@ == final(vl)@
                    &&& right matches Some(m) ==> final(m)@ == final(vr)@
                    &&& final(work)@ == final(scratch)@
                },
    {
        let n = a.rows();
        if n != a.cols() {
            return Err(Error::DimensionMismatch);
        }
        let mut a_mem = ColMem::new(a.order(), a);
        let mut no_left: Vec<Self> = Vec::new();
        let mut no_right: Vec<Self> = Vec::new();
        let (job_l, lead_l, ptr_l) = match left {
            Some(m) => (Compute::Value, leading(m.rows()), m.as_mut_ptr()),
            None => (Compute::Nothing, 1, no_left.as_mut_slice()),
        };
        let (job_r, lead_r, ptr_r) = match right {
            Some(m) => (Compute::Value, leading(m.rows()), m.as_mut_ptr()),
            None => (Compute::Nothing, 1, no_right.as_mut_slice()),
        };
        let mut re_parts: Vec<Self> = vec![Self::default(); n as usize];
        let mut im_parts: Vec<Self> = vec![Self::default(); n as usize];
        let lda = a_mem.lead();
        let lwork = #[verifier::truncate] (work.len() as i32);
        let info = Self::xgeev(
            job_l.as_i8(),
            job_r.as_i8(),
            n,
            a_mem.as_mut_ptr(),
            lda,
            re_parts.as_mut_slice(),
            im_parts.as_mut_slice(),
            ptr_l,
            lead_l,
            ptr_r,
            lead_r,
            work,
            lwork,
        );
        a_mem.write_back();
        finish(info, pair_up(re_parts.as_slice(), im_parts.as_slice()))
    }

    /// Asks the routine for the size of the scratch space that suits it
    /// best, for the jobs `left` and `right`: unless `a` is not square, the
    /// routine is called once, with the order of `a`, or one where it is
    /// empty, for every leading dimension. The result is the size that it reports, or the error that
    /// its status stands for. `a` stays as it is.
    fn work_len<M: Matrix<Self>>(a: &mut M, left: Compute, right: Compute) -> (r: Result<
        usize,
        Error,
    >)
        ensures
            *final(a) == *old(a),
            old(a).rows() != old(a).cols() ==> r == Err::<usize, Error>(Error::DimensionMismatch),
            old(a).rows() == old(a).cols() ==> exists|a_buf: &[Self], info: i32, size: Self|
                {
                    &&& #[trigger] call_ensures(
                        Self::xgeev_query,
                        (
                            left.code(),
                            right.code(),
                            old(a).rows(),
                            a_buf,
                            least_lead(old(a).rows()),
                            least_lead(old(a).rows()),
                            least_lead(old(a).rows()),
                        ),
                        (info, size),
                    )
                    &&& a_buf@ == old(a)@
                    &&& match Error::of_info(info) {
                        Some(e) => r == Err::<usize, Error>(e),
                        None => r matches Ok(len) && call_ensures(Self::as_work, (size,), len),
                    }
                },
    {
        let n = a.rows();
        if n != a.cols() {
            return Err(Error::DimensionMismatch);
        }
        let lda = leading(n);
        let a_buf = a.as_ptr();
        let (info, len_info) = Self::xgeev_query(
            left.as_i8(),
            right.as_i8(),
            n,
            a_buf,
            lda,
            lda,
            lda,
        );
        let r = match Error::from_info(info) {
            None => Ok(len_info.as_work()),
            Some(e) => Err(e),
        };
        assert(call_ensures(
            Self::xgeev_query,
            (left.code(), right.code(), n, a_buf, lda, lda, lda),
            (info, len_info),
        ));
        r
    }
}

} // verus!
