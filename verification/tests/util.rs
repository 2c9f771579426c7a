use rlapack::matrix::Dense;
use rlapack::types::Order;
use rlapack::types::Order::{ColMajor, RowMajor};
use rlapack::util::{fits, leading, transpose_data, ColMem};

#[test]
fn transpose() {
    let i: [f64; 6] = [2.0, 4.0, 7.0, 3.0, 9.0, 4.0];
    let mut buf: [f64; 6] = [0.0; 6];
    let o: [f64; 6] = [2.0, 3.0, 4.0, 9.0, 7.0, 4.0];

    transpose_data(ColMajor, 3, 2, &i, 3, &mut buf, 2);
    assert_eq!(buf, o);
}

#[test]
fn transpose_row_major_to_column_major() {
    let input = [1, 2, 3, 4, 5, 6];
    let mut output = [0; 6];

    transpose_data(RowMajor, 2, 3, &input, 3, &mut output, 2);

    assert_eq!(output, [1, 4, 2, 5, 3, 6]);
}

#[test]
fn transpose_there_and_back_restores_the_buffer() {
    let input = [1, 2, 3, 4, 5, 6, 7, 8, 9, 10, 11, 12];
    let mut copy = [0; 12];
    let mut back = [0; 12];

    transpose_data(RowMajor, 3, 4, &input, 4, &mut copy, 3);
    transpose_data(ColMajor, 3, 4, &copy, 3, &mut back, 4);

    assert_eq!(copy, [1, 5, 9, 2, 6, 10, 3, 7, 11, 4, 8, 12]);
    assert_eq!(back, input);
}

#[test]
fn transpose_leaves_the_gaps_of_a_wide_leading_dimension() {
    let input = [1, 2, 3, 4];
    let mut output = [9; 6];

    transpose_data(ColMajor, 2, 2, &input, 2, &mut output, 3);

    assert_eq!(output, [1, 3, 9, 2, 4, 9]);
}

#[test]
fn transpose_reads_across_the_gaps_of_a_wide_leading_dimension() {
    let input = [1, 2, -1, 3, 4, -1];
    let mut output = [0; 4];

    transpose_data(ColMajor, 2, 2, &input, 3, &mut output, 2);

    assert_eq!(output, [1, 3, 2, 4]);
}

#[test]
fn transpose_is_cut_down_by_a_short_leading_dimension() {
    let input = [1, 2, 3, 4, 5, 6];
    let mut output = [0; 6];

    // Three rows, but only two fit between the columns of the input, and two
    // columns, but only one fits between the rows of the output.
    transpose_data(ColMajor, 3, 2, &input, 2, &mut output, 1);

    assert_eq!(output, [1, 2, 0, 0, 0, 0]);
}

#[test]
fn transpose_of_nothing_writes_nothing() {
    let input = [1, 2, 3, 4];
    let mut output = [7; 4];

    transpose_data(ColMajor, 0, 2, &input, 2, &mut output, 2);
    assert_eq!(output, [7; 4]);
    transpose_data(RowMajor, 2, -1, &input, 2, &mut output, 2);
    assert_eq!(output, [7; 4]);
    transpose_data(ColMajor, 2, 2, &input, 0, &mut output, 2);
    assert_eq!(output, [7; 4]);
    transpose_data(ColMajor, 2, 2, &input, 2, &mut output, -3);
    assert_eq!(output, [7; 4]);
}

#[test]
fn leading_is_at_least_one() {
    assert_eq!(leading(5), 5);
    assert_eq!(leading(1), 1);
    assert_eq!(leading(0), 1);
    assert_eq!(leading(-4), 1);
}

fn dense(order: Order, rows: i32, cols: i32, data: Vec<i32>) -> Dense<i32> {
    Dense { order, rows, cols, data }
}

#[test]
fn col_mem_hands_a_column_major_matrix_on_as_it_is() {
    let mut m = dense(ColMajor, 2, 3, vec![1, 2, 3, 4, 5, 6]);
    let mut mem = ColMem::new(ColMajor, &mut m);

    assert_eq!(mem.lead(), 2);
    assert!(mem.data.is_none());
    assert_eq!(mem.as_mut_ptr(), &mut [1, 2, 3, 4, 5, 6][..]);
    mem.as_mut_ptr()[4] = 50;
    mem.write_back();

    assert_eq!(m.data, vec![1, 2, 3, 4, 50, 6]);
}

#[test]
fn col_mem_copies_a_row_major_matrix() {
    let mut m = dense(RowMajor, 2, 3, vec![1, 2, 3, 4, 5, 6]);
    let mut mem = ColMem::new(RowMajor, &mut m);

    assert_eq!(mem.lead(), 2);
    assert_eq!(mem.as_mut_ptr(), &mut [1, 4, 2, 5, 3, 6][..]);
}

#[test]
fn col_mem_writes_the_copy_back() {
    let mut m = dense(RowMajor, 2, 3, vec![1, 2, 3, 4, 5, 6]);
    let mut mem = ColMem::new(RowMajor, &mut m);
    // Column 2, row 1 of the column-major copy.
    mem.as_mut_ptr()[2 * 2 + 1] = 60;
    mem.as_mut_ptr()[0] = 10;
    mem.write_back();

    assert_eq!(m.data, vec![10, 2, 3, 4, 5, 60]);
}

#[test]
fn col_mem_round_trip_leaves_the_matrix_alone() {
    let mut m = dense(RowMajor, 3, 2, vec![1, 2, 3, 4, 5, 6, 77]);
    let mem = ColMem::new(RowMajor, &mut m);
    mem.write_back();

    assert_eq!(m.data, vec![1, 2, 3, 4, 5, 6, 77]);
}

#[test]
fn col_mem_of_an_empty_matrix_has_the_least_leading_dimension() {
    let mut m = dense(RowMajor, 0, 3, vec![]);
    let mut mem = ColMem::new(RowMajor, &mut m);

    assert_eq!(mem.lead(), 1);
    assert_eq!(mem.as_mut_ptr().len(), 3);
    mem.write_back();
    assert_eq!(m.data, Vec::<i32>::new());
}

#[test]
fn col_mem_does_not_write_back_a_copy_of_another_size() {
    let mut m = dense(RowMajor, 2, 2, vec![1, 2, 3, 4]);
    let mut mem = ColMem::new(RowMajor, &mut m);
    mem.data = Some(vec![9, 9, 9]);
    mem.write_back();

    assert_eq!(m.data, vec![1, 2, 3, 4]);
}

#[test]
fn a_buffer_fits_its_rows_and_columns_or_does_not() {
    assert!(fits(&dense(ColMajor, 2, 3, vec![0; 6])));
    assert!(fits(&dense(RowMajor, 2, 3, vec![0; 7])));
    assert!(!fits(&dense(ColMajor, 2, 3, vec![0; 5])));
    assert!(fits(&dense(ColMajor, 0, 3, vec![])));
    assert!(fits(&dense(ColMajor, 2, -3, vec![])));
    assert!(!fits(&dense(ColMajor, 1, 1, vec![])));
}

#[test]
fn col_mem_of_a_column_major_matrix_without_rows_has_the_least_leading_dimension() {
    let mut m = dense(ColMajor, 0, 3, vec![]);
    let mut mem = ColMem::new(ColMajor, &mut m);

    assert_eq!(mem.lead(), 1);
    assert!(mem.data.is_none());
    assert_eq!(mem.as_mut_ptr().len(), 0);
    mem.write_back();
    assert_eq!(m.data, Vec::<i32>::new());
}

#[test]
fn col_mem_never_has_a_leading_dimension_below_one() {
    for order in [ColMajor, RowMajor] {
        for rows in [-2, 0, 1, 2] {
            let len = if rows > 0 { 2 * rows as usize } else { 0 };
            let mut m = dense(order, rows, 2, vec![0; len]);
            let mem = ColMem::new(order, &mut m);

            assert_eq!(mem.lead(), rows.max(1));
            mem.write_back();
        }
    }
}
