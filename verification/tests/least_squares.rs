use rlapack::error::Error;
use rlapack::least_squares::Gels;
use rlapack::matrix::Dense;
use rlapack::scalar::Scalar;
use rlapack::types::Order::{ColMajor, RowMajor};
use rlapack::types::Transpose;

/// A single-precision element with the normal equations for two unknowns
/// standing in for the native routine.
#[derive(Clone, Copy, Debug, Default, PartialEq)]
struct Single(f32);

impl Scalar for Single {
    fn as_work(self) -> usize {
        self.0 as usize
    }
}

fn least_work(m: i32, n: i32, nrhs: i32) -> i32 {
    let mn = m.min(n);
    (mn + mn.max(nrhs)).max(1)
}

fn validate(trans: i8, m: i32, n: i32, nrhs: i32, lda: i32, ldb: i32) -> i32 {
    if trans != 'N' as i8 && trans != 'C' as i8 {
        -1
    } else if m < 0 {
        -2
    } else if n < 0 {
        -3
    } else if nrhs < 0 {
        -4
    } else if lda < m.max(1) {
        -6
    } else if ldb < m.max(n).max(1) {
        -8
    } else {
        0
    }
}

impl Gels for Single {
    fn xgels_query(
        trans: i8,
        m: i32,
        n: i32,
        nrhs: i32,
        _a: &[Single],
        lda: i32,
        _b: &[Single],
        ldb: i32,
    ) -> (i32, Single) {
        let info = validate(trans, m, n, nrhs, lda, ldb);
        // Twice the least size, so that a test can tell the two apart.
        (info, Single(2.0 * least_work(m, n, nrhs) as f32))
    }

    fn xgels(
        trans: i8,
        m: i32,
        n: i32,
        nrhs: i32,
        a: &mut [Single],
        lda: i32,
        b: &mut [Single],
        ldb: i32,
        work: &mut [Single],
        lwork: i32,
    ) -> i32 {
        let info = validate(trans, m, n, nrhs, lda, ldb);
        if info != 0 {
            return info;
        }
        if lwork < least_work(m, n, nrhs) || work.len() != lwork as usize {
            return -10;
        }
        if n != 2 || m < n || trans != 'N' as i8 {
            return -3;
        }
        work[0] = Single(lwork as f32);
        let (m, lda, ldb) = (m as usize, lda as usize, ldb as usize);
        let dot = |x: &[Single], y: &[Single]| -> f32 { (0..m).map(|k| x[k].0 * y[k].0).sum() };
        let (c0, c1) = (&a[..m], &a[lda..lda + m]);
        let (g00, g01, g11) = (dot(c0, c0), dot(c0, c1), dot(c1, c1));
        let det = g00 * g11 - g01 * g01;
        if det == 0.0 {
            return 2;
        }
        for c in 0..nrhs as usize {
            let column = &mut b[c * ldb..c * ldb + m];
            let (r0, r1) = (dot(c0, column), dot(c1, column));
            column.fill(Single(0.0));
            column[0] = Single((r0 * g11 - g01 * r1) / det);
            column[1] = Single((g00 * r1 - r0 * g01) / det);
        }
        0
    }
}

fn singles(values: &[f32]) -> Vec<Single> {
    values.iter().map(|v| Single(*v)).collect()
}

#[test]
fn col_major() {
    let mut a = Dense { order: ColMajor, rows: 3i32, cols: 2i32, data: singles(&[2.0f32, 4.0, 7.0, 3.0, 9.0, 4.0]) };
    let mut b = Dense { order: ColMajor, rows: 3i32, cols: 2i32, data: singles(&[2.0f32, 4.0, 7.0, 6.0, 18.0, 8.0]) };

    Gels::gels(&Transpose::NoTrans, &mut a, &mut b).unwrap();

    let Dense { data: x, .. } = b;
    assert_eq!(x, singles(&[1.0, 0.0, 0.0, 0.0, 2.0, 0.0]));
}

#[test]
fn row_major() {
    let mut a = Dense { order: RowMajor, rows: 3i32, cols: 2i32, data: singles(&[2.0f32, 3.0, 4.0, 9.0, 7.0, 4.0]) };
    let mut b = Dense { order: RowMajor, rows: 3i32, cols: 2i32, data: singles(&[2.0f32, 3.0, 4.0, 9.0, 7.0, 4.0]) };

    Gels::gels(&Transpose::NoTrans, &mut a, &mut b).unwrap();

    let Dense { data: x, .. } = b;
    assert_eq!(x, singles(&[1.0, 0.0, 0.0, 1.0, 0.0, 0.0]));
}

#[test]
fn gels_asks_the_routine_for_the_scratch_space() {
    let mut a = Dense { order: ColMajor, rows: 3, cols: 2, data: singles(&[2.0, 4.0, 7.0, 3.0, 9.0, 4.0]) };
    let mut b = Dense { order: ColMajor, rows: 3, cols: 1, data: singles(&[2.0, 4.0, 7.0]) };

    let len = Gels::gels_work_len(&Transpose::NoTrans, &mut a, &mut b);

    assert_eq!(len, Ok(8));
    assert_eq!(a.data, singles(&[2.0, 4.0, 7.0, 3.0, 9.0, 4.0]));
    assert_eq!(b.data, singles(&[2.0, 4.0, 7.0]));
}

#[test]
fn gels_work_hands_on_the_scratch_space_of_the_caller() {
    let mut a = Dense { order: RowMajor, rows: 3, cols: 2, data: singles(&[2.0, 3.0, 4.0, 9.0, 7.0, 4.0]) };
    let mut b = Dense { order: RowMajor, rows: 3, cols: 1, data: singles(&[3.0, 9.0, 4.0]) };
    let mut work = singles(&[0.0; 5]);

    let r = Gels::gels_work(&Transpose::NoTrans, &mut a, &mut b, &mut work);

    assert_eq!(r, Ok(()));
    assert_eq!(work[0], Single(5.0));
    assert_eq!(b.data, singles(&[0.0, 1.0, 0.0]));
}

#[test]
fn gels_work_reports_scratch_space_that_is_too_small() {
    let mut a = Dense { order: ColMajor, rows: 3, cols: 2, data: singles(&[2.0, 4.0, 7.0, 3.0, 9.0, 4.0]) };
    let mut b = Dense { order: ColMajor, rows: 3, cols: 1, data: singles(&[2.0, 4.0, 7.0]) };
    let mut work = singles(&[0.0; 3]);

    let r = Gels::gels_work(&Transpose::NoTrans, &mut a, &mut b, &mut work);

    assert_eq!(r, Err(Error::IllegalParameter(10)));
}

#[test]
fn gels_stops_at_a_query_that_fails() {
    // A negative number of rows: the routine rejects it when it is asked
    // for the scratch space, and is not called again.
    let mut a = Dense { order: ColMajor, rows: -1, cols: 3, data: singles(&[1.0; 6]) };
    let mut b = Dense { order: ColMajor, rows: 2, cols: 1, data: singles(&[5.0, 6.0]) };

    let r = Gels::gels(&Transpose::Conjugate, &mut a, &mut b);

    assert_eq!(r, Err(Error::IllegalParameter(2)));
    assert_eq!(b.data, singles(&[5.0, 6.0]));
}

#[test]
fn gels_reports_a_matrix_without_full_rank() {
    let mut a = Dense { order: ColMajor, rows: 2, cols: 2, data: singles(&[1.0, 2.0, 2.0, 4.0]) };
    let mut b = Dense { order: ColMajor, rows: 2, cols: 1, data: singles(&[1.0, 2.0]) };

    let r = Gels::gels(&Transpose::NoTrans, &mut a, &mut b);

    assert_eq!(r, Err(Error::DiagonalElementZero(2)));
}
