use rlapack::linear_equations::{band_width, pivot_indices};
use rlapack::types::Symmetry;

#[test]
fn pivot_rows_become_indices() {
    assert_eq!(pivot_indices(&[2, 2, 3]), vec![2usize, 2, 3]);
    assert_eq!(pivot_indices(&[]), Vec::<usize>::new());
    assert_eq!(pivot_indices(&[i32::MAX]), vec![2147483647usize]);
}

#[test]
fn a_negative_pivot_row_wraps_as_a_cast_does() {
    assert_eq!(pivot_indices(&[-1]), vec![usize::MAX]);
}

#[test]
fn the_band_width_is_that_of_the_stored_triangle() {
    assert_eq!(band_width(Symmetry::Upper, 1, 2), 2);
    assert_eq!(band_width(Symmetry::Lower, 1, 2), 1);
}
