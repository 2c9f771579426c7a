//! Solving systems of linear equations.
//!
//! Each trait pairs a driver, which reads the arguments of the routine off
//! the matrices, with the routine itself, which the element type provides.
//! The leading dimension that a driver names for a matrix is the number of
//! its rows, or one where it has none: the least one that a routine accepts.

pub mod ops;

use vstd::prelude::*;
use crate::error::{finish, Error};
use crate::matrix::{same_shape, BandMatrix, Matrix, SymmetricMatrix, TridiagonalMatrix};
use crate::scalar::Scalar;
use crate::types::Symmetry;
use crate::util::{holds, leading, least_lead, staged, stored, unstaged, ColMem};

verus! {

/// The pivot rows as indices.
pub open spec fn pivots(ipiv: Seq<i32>) -> Seq<usize> {
    Seq::new(ipiv.len(), |k: int| ipiv[k] as usize)
}

/// Converts the pivot rows that a routine reported to indices.
pub fn pivot_indices(ipiv: &[i32]) -> (p: Vec<usize>)
    ensures
        p@ == pivots(ipiv@),
{
    let mut p: Vec<usize> = Vec::new();
    let mut k: usize = 0;
    while k < ipiv.len()
        invariant
            k <= ipiv@.len(),
            p@ == pivots(ipiv@.subrange(0, k as int)),
        decreases ipiv@.len() - k,
    {
        p.push(#[verifier::truncate] (ipiv[k] as usize));
        k += 1;
        assert(p@ =~= pivots(ipiv@.subrange(0, k as int)));
    }
    assert(ipiv@.subrange(0, k as int) =~= ipiv@);
    p
}

/// Whether `gesv` hands these arguments to the routine for the matrices `a`
/// and `b`: the order of `a`, the columns of `b`, both matrices in
/// column-major storage with the least leading dimensions that a routine
/// accepts for their rows, and one pivot row for each row of `a`, zero to
/// begin with.
pub open spec fn gesv_hands<T, A: Matrix<T>, B: Matrix<T>>(
    a: &A,
    b: &B,
    n: i32,
    nrhs: i32,
    a_buf: Seq<T>,
    lda: i32,
    ipiv: Seq<i32>,
    b_buf: Seq<T>,
    ldb: i32,
) -> bool {
    &&& n == a.rows()
    &&& nrhs == b.cols()
    &&& staged(a.order(), a, a_buf)
    &&& lda == least_lead(a.rows())
    &&& ipiv == Seq::new(a.rows() as nat, |k: int| 0i32)
    &&& staged(b.order(), b, b_buf)
    &&& ldb == least_lead(b.rows())
}

/// Whether `r` is what `gesv` returns once the routine has reported `info`
/// and left the pivot rows `ipiv`.
pub open spec fn gesv_returns(r: Result<Vec<usize>, Error>, info: i32, ipiv: Seq<i32>) -> bool {
    match r {
        Ok(p) => info == 0 && p@ == pivots(ipiv),
        Err(e) => Error::of_info(info) == Some(e),
    }
}

/// The number of diagonals beside the main one in the triangle of a
/// symmetric band matrix that is stored.
pub open spec fn stored_diagonals(uplo: Symmetry, sub: i32, sup: i32) -> i32 {
    match uplo {
        Symmetry::Upper => sup,
        Symmetry::Lower => sub,
    }
}

/// Picks the number of diagonals that belongs to the stored triangle.
pub fn band_width(uplo: Symmetry, sub: i32, sup: i32) -> (kd: i32)
    ensures
        kd == stored_diagonals(uplo, sub, sup),
{
    match uplo {
        Symmetry::Upper => sup,
        Symmetry::Lower => sub,
    }
}

/// General systems, by LU decomposition with partial pivoting.
pub trait Gesv: Scalar {
    /// The routine `gesv` for this element type. `a` holds the `n` by `n`
    /// matrix and `b` the `nrhs` right-hand sides, both column-major with the
    /// leading dimensions `lda` and `ldb`; `ipiv` takes the pivot rows.
    /// Returns the status code.
    fn xgesv(
        n: i32,
        nrhs: i32,
        a: &mut [Self],
        lda: i32,
        ipiv: &mut [i32],
        b: &mut [Self],
        ldb: i32,
    ) -> i32
        requires
            stored(old(a)@.len() as int, lda as int, n as int),
            stored(old(b)@.len() as int, ldb as int, nrhs as int),
            old(ipiv)@.len() >= n,
    ;

    /// Solves `a * x = b`: unless `a` is not square, the routine is called
    /// once, on both matrices in column-major storage and on one pivot row
    /// for each row of `a`, and the matrices take back what it leaves. The
    /// result is the pivot rows that it leaves, or the error that its status
    /// stands for. On success `b` holds `x` and `a` the factors.
    fn gesv<A: Matrix<Self>, B: Matrix<Self>>(a: &mut A, b: &mut B) -> (r: Result<
        Vec<usize>,
        Error,
    >)
        requires
            old(a).rows() == old(a).cols() ==> {
                &&& old(a).rows() >= 0
                &&& holds(old(a)@.len() as int, old(a).rows() as int, old(a).cols() as int)
                &&& holds(old(b)@.len() as int, old(b).rows() as int, old(b).cols() as int)
            },
        ensures
            same_shape(old(a), final(a)),
            same_shape(old(b), final(b)),
            old(a).rows() != old(a).cols() ==> r == Err::<Vec<usize>, Error>(
                Error::DimensionMismatch,
            ) && *final(a) == *old(a) && *final(b) == *old(b),
            old(a).rows() == old(a).cols() ==> exists|
                n: i32,
                nrhs: i32,
                a_buf: &mut [Self],
                lda: i32,
                ipiv: &mut [i32],
                b_buf: &mut [Self],
                ldb: i32,
                info: i32,
            |
                {
                    &&& #[trigger] call_ensures(
                        Self::xgesv,
                        (n, nrhs, a_buf, lda, ipiv, b_buf, ldb),
                        info,
                    )
                    &&& gesv_hands(old(a), old(b), n, nrhs, a_buf@, lda, ipiv@, b_buf@, ldb)
                    &&& gesv_returns(r, info, final(ipiv)@)
                    &&& final(a)@ == unstaged(old(a).order(), old(a), final(a_buf)@)
                    &&& final(b)@ == unstaged(old(b).order(), old(b), final(b_buf)@)
                },
    {
        let n = a.rows();
        if n != a.cols() {
            return Err(Error::DimensionMismatch);
        }
        let nrhs = b.cols();
        let mut pivot_rows: Vec<i32> = vec![0i32; n as usize];
        assert(pivot_rows@ =~= Seq::new(n as nat, |k: int| 0i32));
        let mut a_mem = ColMem::new(a.order(), a);
        let mut b_mem = ColMem::new(b.order(), b);
        let lda = a_mem.lead();
        let ldb = b_mem.lead();
        let info = Self::xgesv(
            n,
            nrhs,
            a_mem.as_mut_ptr(),
            lda,
            pivot_rows.as_mut_slice(),
            b_mem.as_mut_ptr(),
            ldb,
        );
        b_mem.write_back();
        a_mem.write_back();
        finish(info, pivot_indices(pivot_rows.as_slice()))
    }
}

/// Band systems, by LU decomposition with partial pivoting.
pub trait Gbsv: Scalar {
    /// The routine `gbsv` for this element type. `ab` holds the band matrix
    /// of order `n` with `kl` diagonals below and `ku` above the main one,
    /// `b` the `nrhs` right-hand sides, `ipiv` takes the pivot rows. Returns
    /// the status code.
    fn xgbsv(
        n: i32,
        kl: i32,
        ku: i32,
        nrhs: i32,
        ab: &mut [Self],
        ldab: i32,
        ipiv: &mut [i32],
        b: &mut [Self],
        ldb: i32,
    ) -> i32
        requires
            ldab >= 1,
            ldb >= 1,
    ;

    /// Solves `a * x = b` in place: the routine is called once, on the
    /// buffers of the three matrices as they lie, with the dimensions and
    /// the diagonals of `a` and the columns of `b`. Its status is dropped.
    fn gbsv<A: BandMatrix<Self>, B: Matrix<Self>, P: Matrix<i32>>(a: &mut A, b: &mut B, p: &mut P)
        ensures
            same_shape(old(a), final(a)),
            same_shape(old(b), final(b)),
            same_shape(old(p), final(p)),
            exists|ab: &mut [Self], ipiv: &mut [i32], b_buf: &mut [Self], info: i32|
                {
                    &&& #[trigger] call_ensures(
                        Self::xgbsv,
                        (
                            old(a).cols(),
                            old(a).sub_diagonals(),
                            old(a).sup_diagonals(),
                            old(b).cols(),
                            ab,
                            least_lead(old(a).rows()),
                            ipiv,
                            b_buf,
                            least_lead(old(b).rows()),
                        ),
                        info,
                    )
                    &&& ab@ == old(a)@ && ipiv@ == old(p)@ && b_buf@ == old(b)@
                    &&& final(a)@ == final(ab)@ && final(p)@ == final(ipiv)@ && final(b)@
                        == final(b_buf)@
                },
    {
        let n = a.cols();
        let kl = a.sub_diagonals();
        let ku = a.sup_diagonals();
        let nrhs = b.cols();
        let ldab = leading(a.rows());
        let ldb = leading(b.rows());
        let _ = Self::xgbsv(n, kl, ku, nrhs, a.as_mut_ptr(), ldab, p.as_mut_ptr(), b.as_mut_ptr(), ldb);
    }
}

/// Tridiagonal systems, by Gaussian elimination with partial pivoting.
pub trait Gtsv: Scalar {
    /// The routine `gtsv` for this element type. `dl`, `d` and `du` hold the
    /// diagonal below the main one, the main one and the one above it of the
    /// matrix of order `n`, `b` the `nrhs` right-hand sides. Returns the
    /// status code.
    fn xgtsv(
        n: i32,
        nrhs: i32,
        dl: &mut [Self],
        d: &mut [Self],
        du: &mut [Self],
        b: &mut [Self],
        ldb: i32,
    ) -> i32
        requires
            ldb >= 1,
    ;

    /// Solves `a * x = b` in place: the routine is called once, on the three
    /// diagonals of `a` and the buffer of `b` as they lie, with the columns
    /// of both. Its status is dropped.
    fn gtsv<A: TridiagonalMatrix<Self>, B: Matrix<Self>>(a: &mut A, b: &mut B)
        ensures
            same_shape(old(a), final(a)),
            same_shape(old(b), final(b)),
            exists|
                dl: &mut [Self],
                d: &mut [Self],
                du: &mut [Self],
                b_buf: &mut [Self],
                info: i32,
            |
                {
                    &&& #[trigger] call_ensures(
                        Self::xgtsv,
                        (
                            old(a).cols(),
                            old(b).cols(),
                            dl,
                            d,
                            du,
                            b_buf,
                            least_lead(old(b).rows()),
                        ),
                        info,
                    )
                    &&& (dl@, d@, du@) == old(a).diagonals() && b_buf@ == old(b)@
                    &&& final(a).diagonals() == (final(dl)@, final(d)@, final(du)@) && final(b)@
                        == final(b_buf)@
                },
    {
        let n = a.cols();
        let nrhs = b.cols();
        let ldb = leading(b.rows());
        let (dl, d, du) = a.as_mut_ptrs();
        let _ = Self::xgtsv(n, nrhs, dl, d, du, b.as_mut_ptr(), ldb);
    }
}

/// Symmetric positive definite systems, by Cholesky decomposition.
pub trait Posv: Scalar {
    /// The routine `posv` for this element type. `a` holds the triangle
    /// `uplo` of the matrix of order `n`, `b` the `nrhs` right-hand sides.
    /// Returns the status code.
    fn xposv(uplo: i8, n: i32, nrhs: i32, a: &mut [Self], lda: i32, b: &mut [Self], ldb: i32) -> i32
        requires
            lda >= 1,
            ldb >= 1,
    ;

    /// Solves `a * x = b` in place: the routine is called once, on the
    /// buffers of both matrices as they lie, with the stored triangle and the
    /// dimensions of `a` and the columns of `b`. Its status is dropped.
    fn posv<A: SymmetricMatrix<Self>, B: Matrix<Self>>(a: &mut A, b: &mut B)
        ensures
            same_shape(old(a), final(a)),
            same_shape(old(b), final(b)),
            exists|a_buf: &mut [Self], b_buf: &mut [Self], info: i32|
                {
                    &&& #[trigger] call_ensures(
                        Self::xposv,
                        (
                            old(a).symmetry().code(),
                            old(a).cols(),
                            old(b).cols(),
                            a_buf,
                            least_lead(old(a).rows()),
                            b_buf,
                            least_lead(old(b).rows()),
                        ),
                        info,
                    )
                    &&& a_buf@ == old(a)@ && b_buf@ == old(b)@
                    &&& final(a)@ == final(a_buf)@ && final(b)@ == final(b_buf)@
                },
    {
        let uplo = a.symmetry().as_i8();
        let n = a.cols();
        let nrhs = b.cols();
        let lda = leading(a.rows());
        let ldb = leading(b.rows());
        let _ = Self::xposv(uplo, n, nrhs, a.as_mut_ptr(), lda, b.as_mut_ptr(), ldb);
    }
}

/// Symmetric positive definite systems in packed storage.
pub trait Ppsv: Scalar {
    /// The routine `ppsv` for this element type. `ap` holds the triangle
    /// `uplo` of the matrix of order `n`, packed by columns, `b` the `nrhs`
    /// right-hand sides. Returns the status code.
    fn xppsv(uplo: i8, n: i32, nrhs: i32, ap: &mut [Self], b: &mut [Self], ldb: i32) -> i32
        requires
            ldb >= 1,
    ;

    /// Solves `a * x = b` in place: the routine is called once, on the
    /// buffers of both matrices as they lie, with the stored triangle and the
    /// columns of `a` and the dimensions of `b`. Its status is dropped.
    fn ppsv<A: SymmetricMatrix<Self>, B: Matrix<Self>>(a: &mut A, b: &mut B)
        ensures
            same_shape(old(a), final(a)),
            same_shape(old(b), final(b)),
            exists|ap: &mut [Self], b_buf: &mut [Self], info: i32|
                {
                    &&& #[trigger] call_ensures(
                        Self::xppsv,
                        (
                            old(a).symmetry().code(),
                            old(a).cols(),
                            old(b).cols(),
                            ap,
                            b_buf,
                            least_lead(old(b).rows()),
                        ),
                        info,
                    )
                    &&& ap@ == old(a)@ && b_buf@ == old(b)@
                    &&& final(a)@ == final(ap)@ && final(b)@ == final(b_buf)@
                },
    {
        let uplo = a.symmetry().as_i8();
        let n = a.cols();
        let nrhs = b.cols();
        let ldb = leading(b.rows());
        let _ = Self::xppsv(uplo, n, nrhs, a.as_mut_ptr(), b.as_mut_ptr(), ldb);
    }
}

/// Symmetric positive definite band systems.
pub trait Pbsv<M: SymmetricMatrix<Self> + BandMatrix<Self>>: Scalar {
    /// The routine `pbsv` for this element type. `ab` holds the triangle
    /// `uplo` of the band matrix of order `n` with `kd` diagonals beside the
    /// main one, `b` the `nrhs` right-hand sides. Returns the status code.
    fn xpbsv(
        uplo: i8,
        n: i32,
        kd: i32,
        nrhs: i32,
        ab: &mut [Self],
        ldab: i32,
        b: &mut [Self],
        ldb: i32,
    ) -> i32
        requires
            ldab >= 1,
            ldb >= 1,
    ;

    /// Solves `a * x = b` in place: the routine is called once, on the
    /// buffers of both matrices as they lie, with the stored triangle of `a`,
    /// the number of its diagonals, the dimensions of `a` and the columns of
    /// `b`. Its status is dropped.
    fn pbsv<B: Matrix<Self>>(a: &mut M, b: &mut B)
        ensures
            same_shape(old(a), final(a)),
            same_shape(old(b), final(b)),
            exists|ab: &mut [Self], b_buf: &mut [Self], info: i32|
                {
                    &&& #[trigger] call_ensures(
                        <Self as Pbsv<M>>::xpbsv,
                        (
                            old(a).symmetry().code(),
                            old(a).cols(),
                            stored_diagonals(
                                old(a).symmetry(),
                                old(a).sub_diagonals(),
                                old(a).sup_diagonals(),
                            ),
                            old(b).cols(),
                            ab,
                            least_lead(old(a).rows()),
                            b_buf,
                            least_lead(old(b).rows()),
                        ),
                        info,
                    )
                    &&& ab@ == old(a)@ && b_buf@ == old(b)@
                    &&& final(a)@ == final(ab)@ && final(b)@ == final(b_buf)@
                },
    {
        let diag = band_width(a.symmetry(), a.sub_diagonals(), a.sup_diagonals());
        let uplo = a.symmetry().as_i8();
        let n = a.cols();
        let nrhs = b.cols();
        let ldab = leading(a.rows());
        let ldb = leading(b.rows());
        let _ = Self::xpbsv(uplo, n, diag, nrhs, a.as_mut_ptr(), ldab, b.as_mut_ptr(), ldb);
    }
}

/// Symmetric positive definite tridiagonal systems.
pub trait Ptsv<M: TridiagonalMatrix<Self> + SymmetricMatrix<Self>>: Sized {
    /// Solves `a * x = b` in place.
    fn ptsv<B: Matrix<Self>>(a: &mut M, b: &mut B);
}

/// Symmetric indefinite systems, by diagonal pivoting.
pub trait Sysv: Scalar {
    /// The routine `sysv` for this element type. `a` holds the triangle
    /// `uplo` of the matrix of order `n`, `b` the `nrhs` right-hand sides;
    /// `ipiv` takes the pivots and `work` is scratch space of `lwork`
    /// elements. Returns the status code.
    fn xsysv(
        uplo: i8,
        n: i32,
        nrhs: i32,
        a: &mut [Self],
        lda: i32,
        ipiv: &mut [i32],
        b: &mut [Self],
        ldb: i32,
        work: &mut [Self],
        lwork: i32,
    ) -> i32
        requires
            lda >= 1,
            ldb >= 1,
            old(work)@.len() == lwork,
    ;

    /// Solves `a * x = b` in place: the routine is called once, on the
    /// buffers of the three matrices as they lie and on scratch space of one
    /// element for each column of `a`, with the stored triangle and the
    /// dimensions of `a` and the columns of `b`. Its status is dropped.
    fn sysv<A: SymmetricMatrix<Self>, B: Matrix<Self>, P: Matrix<i32>>(a: &mut A, b: &mut B, p: &mut P)
        requires
            old(a).cols() >= 0,
        ensures
            same_shape(old(a), final(a)),
            same_shape(old(b), final(b)),
            same_shape(old(p), final(p)),
            exists|
                a_buf: &mut [Self],
                ipiv: &mut [i32],
                b_buf: &mut [Self],
                work: &mut [Self],
                info: i32,
            |
                {
                    &&& #[trigger] call_ensures(
                        Self::xsysv,
                        (
                            old(a).symmetry().code(),
                            old(a).cols(),
                            old(b).cols(),
                            a_buf,
                            least_lead(old(a).rows()),
                            ipiv,
                            b_buf,
                            least_lead(old(b).rows()),
                            work,
                            old(a).cols(),
                        ),
                        info,
                    )
                    &&& a_buf@ == old(a)@ && ipiv@ == old(p)@ && b_buf@ == old(b)@
                    &&& work@.len() == old(a).cols()
                    &&& final(a)@ == final(a_buf)@ && final(p)@ == final(ipiv)@ && final(b)@
                        == final(b_buf)@
                },
    {
        let n = a.cols();
        let mut work: Vec<Self> = vec![Self::default(); n as usize];
        let uplo = a.symmetry().as_i8();
        let nrhs = b.cols();
        let lda = leading(a.rows());
        let ldb = leading(b.rows());
        let _ = Self::xsysv(
            uplo,
            n,
            nrhs,
            a.as_mut_ptr(),
            lda,
            p.as_mut_ptr(),
            b.as_mut_ptr(),
            ldb,
            work.as_mut_slice(),
            n,
        );
    }
}

/// Hermitian indefinite systems, by diagonal pivoting.
pub trait Hesv: Scalar {
    /// The routine `hesv` for this element type, with the arguments of
    /// `sysv`. Returns the status code.
    fn xhesv(
        uplo: i8,
        n: i32,
        nrhs: i32,
        a: &mut [Self],
        lda: i32,
        ipiv: &mut [i32],
        b: &mut [Self],
        ldb: i32,
        work: &mut [Self],
        lwork: i32,
    ) -> i32
        requires
            lda >= 1,
            ldb >= 1,
            old(work)@.len() == lwork,
    ;

    /// Solves `a * x = b` in place: the routine is called once, on the
    /// buffers of the three matrices as they lie and on scratch space of one
    /// element for each column of `a`, with the stored triangle and the
    /// dimensions of `a` and the columns of `b`. Its status is dropped.
    fn hesv<A: SymmetricMatrix<Self>, B: Matrix<Self>, P: Matrix<i32>>(a: &mut A, b: &mut B, p: &mut P)
        requires
            old(a).cols() >= 0,
        ensures
            same_shape(old(a), final(a)),
            same_shape(old(b), final(b)),
            same_shape(old(p), final(p)),
            exists|
                a_buf: &mut [Self],
                ipiv: &mut [i32],
                b_buf: &mut [Self],
                work: &mut [Self],
                info: i32,
            |
                {
                    &&& #[trigger] call_ensures(
                        Self::xhesv,
                        (
                            old(a).symmetry().code(),
                            old(a).cols(),
                            old(b).cols(),
                            a_buf,
                            least_lead(old(a).rows()),
                            ipiv,
                            b_buf,
                            least_lead(old(b).rows()),
                            work,
                            old(a).cols(),
                        ),
                        info,
                    )
                    &&& a_buf@ == old(a)@ && ipiv@ == old(p)@ && b_buf@ == old(b)@
                    &&& work@.len() == old(a).cols()
                    &&& final(a)@ == final(a_buf)@ && final(p)@ == final(ipiv)@ && final(b)@
                        == final(b_buf)@
                },
    {
        let n = a.cols();
        let mut work: Vec<Self> = vec![Self::default(); n as usize];
        let uplo = a.symmetry().as_i8();
        let nrhs = b.cols();
        let lda = leading(a.rows());
        let ldb = leading(b.rows());
        let _ = Self::xhesv(
            uplo,
            n,
            nrhs,
            a.as_mut_ptr(),
            lda,
            p.as_mut_ptr(),
            b.as_mut_ptr(),
            ldb,
            work.as_mut_slice(),
            n,
        );
    }
}

/// Symmetric indefinite systems in packed storage.
pub trait Spsv: Scalar {
    /// The routine `spsv` for this element type. `ap` holds the triangle
    /// `uplo` of the matrix of order `n`, packed by columns, `b` the `nrhs`
    /// right-hand sides; `ipiv` takes the pivots. Returns the status code.
    fn xspsv(
        uplo: i8,
        n: i32,
        nrhs: i32,
        ap: &mut [Self],
        ipiv: &mut [i32],
        b: &mut [Self],
        ldb: i32,
    ) -> i32
        requires
            ldb >= 1,
    ;

    /// Solves `a * x = b` in place: the routine is called once, on the
    /// buffers of the three matrices as they lie, with the stored triangle
    /// and the columns of `a` and the dimensions of `b`. Its status is
    /// dropped.
    fn spsv<A: SymmetricMatrix<Self>, B: Matrix<Self>, P: Matrix<i32>>(a: &mut A, b: &mut B, p: &mut P)
        ensures
            same_shape(old(a), final(a)),
            same_shape(old(b), final(b)),
            same_shape(old(p), final(p)),
            exists|ap: &mut [Self], ipiv: &mut [i32], b_buf: &mut [Self], info: i32|
                {
                    &&& #[trigger] call_ensures(
                        Self::xspsv,
                        (
                            old(a).symmetry().code(),
                            old(a).cols(),
                            old(b).cols(),
                            ap,
                            ipiv,
                            b_buf,
                            least_lead(old(b).rows()),
                        ),
                        info,
                    )
                    &&& ap@ == old(a)@ && ipiv@ == old(p)@ && b_buf@ == old(b)@
                    &&& final(a)@ == final(ap)@ && final(p)@ == final(ipiv)@ && final(b)@
                        == final(b_buf)@
                },
    {
        let uplo = a.symmetry().as_i8();
        let n = a.cols();
        let nrhs = b.cols();
        let ldb = leading(b.rows());
        let _ = Self::xspsv(uplo, n, nrhs, a.as_mut_ptr(), p.as_mut_ptr(), b.as_mut_ptr(), ldb);
    }
}

/// Hermitian indefinite systems in packed storage.
pub trait Hpsv: Scalar {
    /// The routine `hpsv` for this element type, with the arguments of
    /// `spsv`. Returns the status code.
    fn xhpsv(
        uplo: i8,
        n: i32,
        nrhs: i32,
        ap: &mut [Self],
        ipiv: &mut [i32],
        b: &mut [Self],
        ldb: i32,
    ) -> i32
        requires
            ldb >= 1,
    ;

    /// Solves `a * x = b` in place: the routine is called once, on the
    /// buffers of the three matrices as they lie, with the stored triangle
    /// and the columns of `a` and the dimensions of `b`. Its status is
    /// dropped.
    fn hpsv<A: SymmetricMatrix<Self>, B: Matrix<Self>, P: Matrix<i32>>(a: &mut A, b: &mut B, p: &mut P)
        ensures
            same_shape(old(a), final(a)),
            same_shape(old(b), final(b)),
            same_shape(old(p), final(p)),
            exists|ap: &mut [Self], ipiv: &mut [i32], b_buf: &mut [Self], info: i32|
                {
                    &&& #[trigger] call_ensures(
                        Self::xhpsv,
                        (
                            old(a).symmetry().code(),
                            old(a).cols(),
                            old(b).cols(),
                            ap,
                            ipiv,
                            b_buf,
                            least_lead(old(b).rows()),
                        ),
                        info,
                    )
                    &&& ap@ == old(a)@ && ipiv@ == old(p)@ && b_buf@ == old(b)@
                    &&& final(a)@ == final(ap)@ && final(p)@ == final(ipiv)@ && final(b)@
                        == final(b_buf)@
                },
    {
        let uplo = a.symmetry().as_i8();
        let n = a.cols();
        let nrhs = b.cols();
        let ldb = leading(b.rows());
        let _ = Self::xhpsv(uplo, n, nrhs, a.as_mut_ptr(), p.as_mut_ptr(), b.as_mut_ptr(), ldb);
    }
}

} // verus!
