use num::Complex;
use rlapack::eigenvalues::{job, pair_up, Geev};
use rlapack::error::Error;
use rlapack::matrix::Dense;
use rlapack::scalar::Scalar;
use rlapack::types::Compute;
use rlapack::types::Order::{ColMajor, RowMajor};

/// A double-precision element with the characteristic polynomial of a matrix
/// of order two standing in for the native routine.
#[derive(Clone, Copy, Debug, Default, PartialEq)]
struct Real(f64);

impl Scalar for Real {
    fn as_work(self) -> usize {
        self.0 as usize
    }
}

fn validate(jobvl: i8, jobvr: i8, n: i32, lda: i32, ldvl: i32, ldvr: i32) -> i32 {
    let wanted = |job: i8| job == 'V' as i8;
    if jobvl != 'N' as i8 && !wanted(jobvl) {
        -1
    } else if jobvr != 'N' as i8 && !wanted(jobvr) {
        -2
    } else if n < 0 {
        -3
    } else if lda < n.max(1) {
        -5
    } else if ldvl < 1 || (wanted(jobvl) && ldvl < n) {
        -9
    } else if ldvr < 1 || (wanted(jobvr) && ldvr < n) {
        -11
    } else {
        0
    }
}

fn least_work(jobvl: i8, jobvr: i8, n: i32) -> i32 {
    if jobvl == 'V' as i8 || jobvr == 'V' as i8 {
        (4 * n).max(1)
    } else {
        (3 * n).max(1)
    }
}

impl Geev for Real {
    fn xgeev_query(
        jobvl: i8,
        jobvr: i8,
        n: i32,
        _a: &[Real],
        lda: i32,
        ldvl: i32,
        ldvr: i32,
    ) -> (i32, Real) {
        if n > 3 {
            // More than this stand-in has room for.
            return (-3, Real(0.0));
        }
        (validate(jobvl, jobvr, n, lda, ldvl, ldvr), Real(least_work(jobvl, jobvr, n) as f64))
    }

    fn xgeev(
        jobvl: i8,
        jobvr: i8,
        n: i32,
        a: &mut [Real],
        lda: i32,
        wr: &mut [Real],
        wi: &mut [Real],
        vl: &mut [Real],
        ldvl: i32,
        vr: &mut [Real],
        ldvr: i32,
        work: &mut [Real],
        lwork: i32,
    ) -> i32 {
        let info = validate(jobvl, jobvr, n, lda, ldvl, ldvr);
        if info != 0 {
            return info;
        }
        if lwork < least_work(jobvl, jobvr, n) || work.len() != lwork as usize {
            return -13;
        }
        if n == 0 {
            return 0;
        }
        if n != 2 {
            return 1;
        }
        let lda = lda as usize;
        let trace = a[0].0 + a[lda + 1].0;
        let det = a[0].0 * a[lda + 1].0 - a[lda].0 * a[1].0;
        let disc = trace * trace - 4.0 * det;
        if disc >= 0.0 {
            wr[0] = Real((trace + disc.sqrt()) / 2.0);
            wr[1] = Real((trace - disc.sqrt()) / 2.0);
            wi[0] = Real(0.0);
            wi[1] = Real(0.0);
        } else {
            wr[0] = Real(trace / 2.0);
            wr[1] = Real(trace / 2.0);
            wi[0] = Real((-disc).sqrt() / 2.0);
            wi[1] = Real(-(-disc).sqrt() / 2.0);
        }
        // Not eigenvectors: marks that tell where each buffer ended up.
        if jobvl == 'V' as i8 {
            vl[0] = Real(-1.0);
        }
        if jobvr == 'V' as i8 {
            vr[0] = Real(1.0);
        }
        0
    }
}

fn reals(values: &[f64]) -> Vec<Real> {
    values.iter().map(|v| Real(*v)).collect()
}

fn floats(values: Vec<Complex<Real>>) -> Vec<Complex<f64>> {
    values.into_iter().map(|c| Complex::new(c.re.0, c.im.0)).collect()
}

#[test]
fn eigenvalues_real() {
    let mut a = Dense { order: RowMajor, rows: 2i32, cols: 2i32, data: reals(&[2.0f64, 7.0, -1.0, -6.0]) };
    let lambda = floats(Geev::geev(&mut a, None, None).unwrap());

    assert_eq!(lambda, vec![Complex::new(1.0, 0.0), Complex::new(-5.0, 0.0)]);
}

#[test]
fn geev_pairs_real_and_imaginary_parts() {
    // A rotation by a quarter turn: the eigenvalues are i and -i.
    let mut a = Dense { order: ColMajor, rows: 2, cols: 2, data: reals(&[0.0, 1.0, -1.0, 0.0]) };

    let lambda = floats(Geev::geev(&mut a, None, None).unwrap());

    assert_eq!(lambda, vec![Complex::new(0.0, 1.0), Complex::new(0.0, -1.0)]);
}

#[test]
fn geev_rejects_a_matrix_that_is_not_square() {
    let mut a = Dense { order: RowMajor, rows: 2, cols: 3, data: reals(&[1.0, 2.0, 3.0, 4.0, 5.0, 6.0]) };
    let mut left = Dense { order: ColMajor, rows: 2, cols: 2, data: reals(&[0.0; 4]) };
    let mut work = reals(&[0.0; 8]);

    assert_eq!(Geev::geev(&mut a, Some(&mut left), None), Err(Error::DimensionMismatch));
    assert_eq!(Geev::work(&mut a, Some(&mut left), None, &mut work), Err(Error::DimensionMismatch));
    assert_eq!(Geev::work_len(&mut a, Compute::Value, Compute::Nothing), Err(Error::DimensionMismatch));
    assert_eq!(a.data, reals(&[1.0, 2.0, 3.0, 4.0, 5.0, 6.0]));
    assert_eq!(left.data, reals(&[0.0; 4]));
}

#[test]
fn geev_asks_for_the_eigenvectors_that_have_somewhere_to_go() {
    let mut a = Dense { order: ColMajor, rows: 2, cols: 2, data: reals(&[2.0, -1.0, 7.0, -6.0]) };
    let mut left = Dense { order: ColMajor, rows: 2, cols: 2, data: reals(&[0.0; 4]) };
    let mut right = Dense { order: ColMajor, rows: 2, cols: 2, data: reals(&[0.0; 4]) };

    Geev::geev(&mut a, Some(&mut left), None).unwrap();
    assert_eq!(left.data[0], Real(-1.0));

    Geev::geev(&mut a, None, Some(&mut right)).unwrap();
    assert_eq!(right.data[0], Real(1.0));
    assert_eq!(left.data[0], Real(-1.0));
}

#[test]
fn geev_work_len_is_what_the_routine_reports() {
    let mut a = Dense { order: ColMajor, rows: 2, cols: 2, data: reals(&[2.0, -1.0, 7.0, -6.0]) };

    assert_eq!(Geev::work_len(&mut a, Compute::Nothing, Compute::Nothing), Ok(6));
    assert_eq!(Geev::work_len(&mut a, Compute::Value, Compute::Nothing), Ok(8));
    assert_eq!(Geev::work_len(&mut a, Compute::All, Compute::Nothing), Err(Error::IllegalParameter(1)));
}

#[test]
fn geev_work_reports_scratch_space_that_is_too_small() {
    let mut a = Dense { order: ColMajor, rows: 2, cols: 2, data: reals(&[2.0, -1.0, 7.0, -6.0]) };
    let mut work = reals(&[0.0; 5]);

    let r = Geev::work(&mut a, None, None, &mut work);

    assert_eq!(r, Err(Error::IllegalParameter(13)));
}

#[test]
fn geev_stops_at_a_query_that_fails() {
    let mut a = Dense { order: ColMajor, rows: 4, cols: 4, data: reals(&[0.0; 16]) };

    assert_eq!(Geev::geev(&mut a, None, None), Err(Error::IllegalParameter(3)));
    assert_eq!(a.data, reals(&[0.0; 16]));
}

#[test]
fn geev_of_an_empty_matrix_names_leading_dimensions_of_one() {
    // The stand-in rejects a leading dimension below one, as the native
    // routine does, in the query and in the computation.
    for order in [ColMajor, RowMajor] {
        let mut a = Dense { order, rows: 0, cols: 0, data: reals(&[]) };
        let mut left = Dense { order: ColMajor, rows: 0, cols: 0, data: reals(&[]) };

        assert_eq!(Geev::work_len(&mut a, Compute::Value, Compute::Value), Ok(1));
        assert_eq!(Geev::geev(&mut a, Some(&mut left), None), Ok(vec![]));
    }
}

#[test]
fn geev_returns_the_error_of_the_shape_without_looking_at_the_buffers() {
    let mut a = Dense { order: RowMajor, rows: 2, cols: 3, data: reals(&[1.0]) };
    let mut left = Dense { order: ColMajor, rows: 2, cols: 2, data: reals(&[]) };

    assert_eq!(Geev::geev(&mut a, Some(&mut left), None), Err(Error::DimensionMismatch));
    assert_eq!(a.data, reals(&[1.0]));
}

#[test]
fn geev_hands_on_a_breakdown_of_the_routine() {
    let mut a = Dense { order: ColMajor, rows: 3, cols: 3, data: reals(&[0.0; 9]) };

    assert_eq!(Geev::geev(&mut a, None, None), Err(Error::DiagonalElementZero(1)));
}

#[test]
fn parts_are_paired_as_far_as_both_go() {
    assert_eq!(pair_up(&[1, 2, 3], &[4, 5, 6]), vec![Complex::new(1, 4), Complex::new(2, 5), Complex::new(3, 6)]);
    assert_eq!(pair_up(&[1, 2, 3], &[4]), vec![Complex::new(1, 4)]);
    assert_eq!(pair_up(&[1], &[4, 5]), vec![Complex::new(1, 4)]);
    assert_eq!(pair_up::<i32>(&[], &[]), vec![]);
}

#[test]
fn eigenvectors_are_computed_when_wanted() {
    assert_eq!(job(true), Compute::Value);
    assert_eq!(job(false), Compute::Nothing);
}
