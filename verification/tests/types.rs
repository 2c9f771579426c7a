use rlapack::types::{Compute, Symmetry, Transpose};

#[test]
fn compute_gives_the_job_characters() {
    assert_eq!(Compute::Nothing.as_i8(), 'N' as i8);
    assert_eq!(Compute::Value.as_i8(), 'V' as i8);
    assert_eq!(Compute::All.as_i8(), 'A' as i8);
    assert_eq!(Compute::Partial.as_i8(), 'S' as i8);
    assert_eq!(Compute::OverwritePartial.as_i8(), 'O' as i8);
}

#[test]
fn compute_job_characters_as_numbers() {
    assert_eq!(Compute::Nothing.as_i8(), 78);
    assert_eq!(Compute::Value.as_i8(), 86);
    assert_eq!(Compute::All.as_i8(), 65);
    assert_eq!(Compute::Partial.as_i8(), 83);
    assert_eq!(Compute::OverwritePartial.as_i8(), 79);
}

#[test]
fn symmetry_gives_the_triangle_characters() {
    assert_eq!(Symmetry::Upper.as_i8(), 85);
    assert_eq!(Symmetry::Lower.as_i8(), 76);
    assert_eq!(Symmetry::Upper.as_i8(), 'U' as i8);
    assert_eq!(Symmetry::Lower.as_i8(), 'L' as i8);
}

#[test]
fn transpose_gives_the_transposition_characters() {
    assert_eq!(Transpose::NoTrans.as_i8(), 78);
    assert_eq!(Transpose::Conjugate.as_i8(), 67);
    assert_eq!(Transpose::NoTrans.as_i8(), 'N' as i8);
    assert_eq!(Transpose::Conjugate.as_i8(), 'C' as i8);
}
