use rlapack::matrix::{Band, BandMatrix, Dense, Matrix, Symmetric, SymmetricMatrix, Tridiagonal, TridiagonalMatrix};
use rlapack::scalar::Scalar;
use rlapack::types::{Order, Symmetry};
use rlapack::vector::{Strided, Vector};

#[test]
fn an_integer_is_the_size_that_it_holds() {
    assert_eq!(5i32.as_work(), 5);
    assert_eq!(0i32.as_work(), 0);
    assert_eq!(i32::MAX.as_work(), 2147483647);
    assert_eq!(127i8.as_work(), 127);
}

#[test]
fn a_negative_integer_wraps_as_a_cast_does() {
    assert_eq!((-1i32).as_work(), usize::MAX);
    assert_eq!((-1i8).as_work(), usize::MAX);
    assert_eq!(i8::MIN.as_work(), usize::MAX - 127);
}

#[test]
fn a_dense_matrix_offers_its_fields() {
    let mut m = Dense { order: Order::RowMajor, rows: 2, cols: 3, data: vec![1, 2, 3, 4, 5, 6] };

    assert_eq!(m.rows(), 2);
    assert_eq!(m.cols(), 3);
    assert_eq!(m.order(), Order::RowMajor);
    assert_eq!(m.as_ptr(), &[1, 2, 3, 4, 5, 6][..]);
    m.as_mut_ptr()[1] = 20;
    assert_eq!(m.data, vec![1, 20, 3, 4, 5, 6]);
}

#[test]
fn a_band_and_a_triangle_pass_the_matrix_through() {
    let dense = Dense { order: Order::ColMajor, rows: 3, cols: 4, data: vec![0u8; 12] };
    let mut m = Symmetric { matrix: Band { matrix: dense, sub_diagonals: 1, sup_diagonals: 2 }, uplo: Symmetry::Lower };

    assert_eq!((m.rows(), m.cols(), m.order()), (3, 4, Order::ColMajor));
    assert_eq!((m.sub_diagonals(), m.sup_diagonals()), (1, 2));
    assert_eq!(m.symmetry(), Symmetry::Lower);
    m.as_mut_ptr()[11] = 9;
    assert_eq!(m.as_ptr()[11], 9);
    assert_eq!(m.matrix.matrix.data[11], 9);
}

#[test]
fn a_tridiagonal_matrix_offers_its_diagonals() {
    let mut m = Symmetric {
        matrix: Tridiagonal { order: 3, dl: vec![1, 2], d: vec![3, 4, 5], du: vec![6, 7] },
        uplo: Symmetry::Upper,
    };

    assert_eq!((m.rows(), m.cols(), m.order()), (3, 3, Order::ColMajor));
    assert_eq!(m.as_ptr(), &[3, 4, 5][..]);
    assert_eq!(m.as_ptrs(), (&[1, 2][..], &[3, 4, 5][..], &[6, 7][..]));
    let (dl, d, du) = m.as_mut_ptrs();
    dl[0] = 10;
    d[1] = 40;
    du[1] = 70;
    assert_eq!(m.matrix.dl, vec![10, 2]);
    assert_eq!(m.matrix.d, vec![3, 40, 5]);
    assert_eq!(m.matrix.du, vec![6, 70]);
}

#[test]
fn a_strided_vector_offers_its_fields() {
    let mut v = Strided { inc: 2, len: 3, data: vec![1, 0, 2, 0, 3] };

    assert_eq!(v.inc(), 2);
    assert_eq!(v.len(), 3);
    assert_eq!(v.as_ptr(), &[1, 0, 2, 0, 3][..]);
    v.as_mut_ptr()[4] = 30;
    assert_eq!(v.data, vec![1, 0, 2, 0, 30]);
}
