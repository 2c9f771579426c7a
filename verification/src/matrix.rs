//! What a caller's matrix type has to offer to be handed to a routine.

use vstd::prelude::*;
use crate::types::{Order, Symmetry};
use crate::util::least_lead;

verus! {

/// A dense matrix in a flat buffer.
pub trait Matrix<T> {
    /// The number of rows.
    spec fn spec_rows(&self) -> i32;

    /// The number of columns.
    spec fn spec_cols(&self) -> i32;

    /// The layout of the buffer.
    spec fn spec_order(&self) -> Order;

    /// The buffer.
    spec fn view(&self) -> Seq<T>;

    /// The number of rows.
    #[verifier::when_used_as_spec(spec_rows)]
    fn rows(&self) -> (r: i32)
        ensures
            r == self.spec_rows(),
    ;

    /// The number of columns.
    #[verifier::when_used_as_spec(spec_cols)]
    fn cols(&self) -> (r: i32)
        ensures
            r == self.spec_cols(),
    ;

    /// The layout of the buffer.
    #[verifier::when_used_as_spec(spec_order)]
    fn order(&self) -> (r: Order)
        ensures
            r == self.spec_order(),
    ;

    /// The buffer, to read.
    fn as_ptr(&self) -> (s: &[T])
        ensures
            s@ == self@,
    ;

    /// The buffer, to write. The shape stays as it is.
    fn as_mut_ptr(&mut self) -> (s: &mut [T])
        ensures
            s@ == old(self)@,
            final(self)@ == final(s)@,
            final(self).rows() == old(self).rows(),
            final(self).cols() == old(self).cols(),
            final(self).order() == old(self).order(),
    ;
}

/// Whether two states of a matrix have the same dimensions and layout.
pub open spec fn same_shape<T, M: Matrix<T>>(before: &M, after: &M) -> bool {
    &&& after.rows() == before.rows()
    &&& after.cols() == before.cols()
    &&& after.order() == before.order()
}

/// The leading dimension that a routine gets for a set of vectors that the
/// caller may or may not want: the rows of the matrix that takes them, or
/// one where it has no rows or there is no matrix.
pub open spec fn vectors_lead<T, M: Matrix<T>>(vectors: Option<&mut M>) -> i32 {
    match vectors {
        Some(m) => least_lead(m.rows()),
        None => 1i32,
    }
}

/// The array that a routine gets for a set of vectors that the caller may
/// or may not want: the buffer of the matrix that takes them, or an empty
/// one where there is none.
pub open spec fn vectors_buffer<T, M: Matrix<T>>(vectors: Option<&mut M>) -> Seq<T> {
    match vectors {
        Some(m) => m@,
        None => Seq::<T>::empty(),
    }
}

/// A matrix that owns its buffer.
#[derive(Debug)]
pub struct Dense<T> {
    pub order: Order,
    pub rows: i32,
    pub cols: i32,
    pub data: Vec<T>,
}

impl<T> Matrix<T> for Dense<T> {
    open spec fn spec_rows(&self) -> i32 {
        self.rows
    }

    open spec fn spec_cols(&self) -> i32 {
        self.cols
    }

    open spec fn spec_order(&self) -> Order {
        self.order
    }

    open spec fn view(&self) -> Seq<T> {
        self.data@
    }

    fn rows(&self) -> (r: i32) {
        self.rows
    }

    fn cols(&self) -> (r: i32) {
        self.cols
    }

    fn order(&self) -> (r: Order) {
        self.order
    }

    fn as_ptr(&self) -> (s: &[T]) {
        self.data.as_slice()
    }

    fn as_mut_ptr(&mut self) -> (s: &mut [T]) {
        self.data.as_mut_slice()
    }
}

/// A band matrix: only the diagonals near the main one are stored.
pub trait BandMatrix<T>: Matrix<T> {
    /// The number of diagonals below the main one.
    spec fn spec_sub_diagonals(&self) -> i32;

    /// The number of diagonals above the main one.
    spec fn spec_sup_diagonals(&self) -> i32;

    /// The number of diagonals below the main one.
    #[verifier::when_used_as_spec(spec_sub_diagonals)]
    fn sub_diagonals(&self) -> (k: i32)
        ensures
            k == self.spec_sub_diagonals(),
    ;

    /// The number of diagonals above the main one.
    #[verifier::when_used_as_spec(spec_sup_diagonals)]
    fn sup_diagonals(&self) -> (k: i32)
        ensures
            k == self.spec_sup_diagonals(),
    ;
}

/// A tridiagonal matrix, stored as its three diagonals.
pub trait TridiagonalMatrix<T>: Matrix<T> {
    /// The three diagonals, in the order in which the routines take them:
    /// the one below the main diagonal, the main diagonal, the one above it.
    spec fn diagonals(&self) -> (Seq<T>, Seq<T>, Seq<T>);

    /// The three diagonals, to read.
    fn as_ptrs(&self) -> (d: (&[T], &[T], &[T]))
        ensures
            (d.0@, d.1@, d.2@) == self.diagonals(),
    ;

    /// The three diagonals, to write. The shape stays as it is.
    fn as_mut_ptrs(&mut self) -> (d: (&mut [T], &mut [T], &mut [T]))
        ensures
            (d.0@, d.1@, d.2@) == old(self).diagonals(),
            final(self).diagonals() == (final(d.0)@, final(d.1)@, final(d.2)@),
            final(self).rows() == old(self).rows(),
            final(self).cols() == old(self).cols(),
            final(self).order() == old(self).order(),
    ;
}

/// A symmetric matrix, of which one triangle is stored.
pub trait SymmetricMatrix<T>: Matrix<T> {
    /// The triangle that is stored.
    spec fn spec_symmetry(&self) -> Symmetry;

    /// The triangle that is stored.
    #[verifier::when_used_as_spec(spec_symmetry)]
    fn symmetry(&self) -> (s: Symmetry)
        ensures
            s == self.spec_symmetry(),
    ;
}

/// A matrix with the number of its diagonals attached.
#[derive(Debug)]
pub struct Band<M> {
    pub matrix: M,
    pub sub_diagonals: i32,
    pub sup_diagonals: i32,
}

impl<T, M: Matrix<T>> Matrix<T> for Band<M> {
    open spec fn spec_rows(&self) -> i32 {
        self.matrix.rows()
    }

    open spec fn spec_cols(&self) -> i32 {
        self.matrix.cols()
    }

    open spec fn spec_order(&self) -> Order {
        self.matrix.order()
    }

    open spec fn view(&self) -> Seq<T> {
        self.matrix@
    }

    fn rows(&self) -> (r: i32) {
        self.matrix.rows()
    }

    fn cols(&self) -> (r: i32) {
        self.matrix.cols()
    }

    fn order(&self) -> (r: Order) {
        self.matrix.order()
    }

    fn as_ptr(&self) -> (s: &[T]) {
        self.matrix.as_ptr()
    }

    fn as_mut_ptr(&mut self) -> (s: &mut [T])
        ensures
            final(self).sub_diagonals == old(self).sub_diagonals,
            final(self).sup_diagonals == old(self).sup_diagonals,
    {
        self.matrix.as_mut_ptr()
    }
}

impl<T, M: Matrix<T>> BandMatrix<T> for Band<M> {
    open spec fn spec_sub_diagonals(&self) -> i32 {
        self.sub_diagonals
    }

    open spec fn spec_sup_diagonals(&self) -> i32 {
        self.sup_diagonals
    }

    fn sub_diagonals(&self) -> (k: i32) {
        self.sub_diagonals
    }

    fn sup_diagonals(&self) -> (k: i32) {
        self.sup_diagonals
    }
}

/// A matrix with the triangle that is stored attached.
#[derive(Debug)]
pub struct Symmetric<M> {
    pub matrix: M,
    pub uplo: Symmetry,
}

impl<T, M: Matrix<T>> Matrix<T> for Symmetric<M> {
    open spec fn spec_rows(&self) -> i32 {
        self.matrix.rows()
    }

    open spec fn spec_cols(&self) -> i32 {
        self.matrix.cols()
    }

    open spec fn spec_order(&self) -> Order {
        self.matrix.order()
    }

    open spec fn view(&self) -> Seq<T> {
        self.matrix@
    }

    fn rows(&self) -> (r: i32) {
        self.matrix.rows()
    }

    fn cols(&self) -> (r: i32) {
        self.matrix.cols()
    }

    fn order(&self) -> (r: Order) {
        self.matrix.order()
    }

    fn as_ptr(&self) -> (s: &[T]) {
        self.matrix.as_ptr()
    }

    fn as_mut_ptr(&mut self) -> (s: &mut [T])
        ensures
            final(self).uplo == old(self).uplo,
    {
        self.matrix.as_mut_ptr()
    }
}

impl<T, M: Matrix<T>> SymmetricMatrix<T> for Symmetric<M> {
    open spec fn spec_symmetry(&self) -> Symmetry {
        self.uplo
    }

    fn symmetry(&self) -> (s: Symmetry) {
        self.uplo
    }
}

impl<T, M: BandMatrix<T>> BandMatrix<T> for Symmetric<M> {
    open spec fn spec_sub_diagonals(&self) -> i32 {
        self.matrix.sub_diagonals()
    }

    open spec fn spec_sup_diagonals(&self) -> i32 {
        self.matrix.sup_diagonals()
    }

    fn sub_diagonals(&self) -> (k: i32) {
        self.matrix.sub_diagonals()
    }

    fn sup_diagonals(&self) -> (k: i32) {
        self.matrix.sup_diagonals()
    }
}

impl<T, M: TridiagonalMatrix<T>> TridiagonalMatrix<T> for Symmetric<M> {
    open spec fn diagonals(&self) -> (Seq<T>, Seq<T>, Seq<T>) {
        self.matrix.diagonals()
    }

    fn as_ptrs(&self) -> (d: (&[T], &[T], &[T])) {
        self.matrix.as_ptrs()
    }

    fn as_mut_ptrs(&mut self) -> (d: (&mut [T], &mut [T], &mut [T])) {
        self.matrix.as_mut_ptrs()
    }
}

/// A square tridiagonal matrix that owns its three diagonals: `dl` below the
/// main diagonal, `d` the main diagonal, `du` above it. As a dense buffer it
/// offers the main diagonal.
#[derive(Debug)]
pub struct Tridiagonal<T> {
    pub order: i32,
    pub dl: Vec<T>,
    pub d: Vec<T>,
    pub du: Vec<T>,
}

impl<T> Matrix<T> for Tridiagonal<T> {
    open spec fn spec_rows(&self) -> i32 {
        self.order
    }

    open spec fn spec_cols(&self) -> i32 {
        self.order
    }

    open spec fn spec_order(&self) -> Order {
        Order::ColMajor
    }

    open spec fn view(&self) -> Seq<T> {
        self.d@
    }

    fn rows(&self) -> (r: i32) {
        self.order
    }

    fn cols(&self) -> (r: i32) {
        self.order
    }

    fn order(&self) -> (r: Order) {
        Order::ColMajor
    }

    fn as_ptr(&self) -> (s: &[T]) {
        self.d.as_slice()
    }

    fn as_mut_ptr(&mut self) -> (s: &mut [T])
        ensures
            final(self).dl == old(self).dl,
            final(self).du == old(self).du,
    {
        self.d.as_mut_slice()
    }
}

impl<T> TridiagonalMatrix<T> for Tridiagonal<T> {
    open spec fn diagonals(&self) -> (Seq<T>, Seq<T>, Seq<T>) {
        (self.dl@, self.d@, self.du@)
    }

    fn as_ptrs(&self) -> (d: (&[T], &[T], &[T])) {
        (self.dl.as_slice(), self.d.as_slice(), self.du.as_slice())
    }

    fn as_mut_ptrs(&mut self) -> (d: (&mut [T], &mut [T], &mut [T])) {
        (self.dl.as_mut_slice(), self.d.as_mut_slice(), self.du.as_mut_slice())
    }
}

} // verus!
