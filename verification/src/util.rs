//! Moving a matrix between row-major and column-major storage.

use vstd::prelude::*;
use vstd::arithmetic::div_mod::{lemma_fundamental_div_mod, lemma_fundamental_div_mod_converse};
use vstd::arithmetic::mul::{lemma_mul_inequality, lemma_mul_is_commutative};
use crate::matrix::Matrix;
use crate::types::Order;

verus! {

/// The smaller of two integers.
pub open spec fn least(a: int, b: int) -> int {
    if a <= b {
        a
    } else {
        b
    }
}

/// The length of the runs in which `layout` stores a matrix of `m` rows and
/// `n` columns: a column when it is column-major, a row when it is row-major.
pub open spec fn run_len(layout: Order, m: int, n: int) -> int {
    match layout {
        Order::ColMajor => m,
        Order::RowMajor => n,
    }
}

/// The number of runs in which `layout` stores a matrix of `m` rows and `n`
/// columns.
pub open spec fn run_count(layout: Order, m: int, n: int) -> int {
    match layout {
        Order::ColMajor => n,
        Order::RowMajor => m,
    }
}

/// Whether both buffers are long enough for `transpose_data` to copy between
/// them: the last element that it reads lies in `input_len`, the last one
/// that it writes in `output_len`.
pub open spec fn transposable(
    layout: Order,
    m: int,
    n: int,
    input_len: int,
    ld_input: int,
    output_len: int,
    ld_output: int,
) -> bool {
    let p = least(run_len(layout, m, n), ld_input);
    let q = least(run_count(layout, m, n), ld_output);
    p > 0 && q > 0 ==> (q - 1) * ld_input + p <= input_len && (p - 1) * ld_output + q <= output_len
}

/// The output buffer after a matrix of `m` rows and `n` columns has been
/// copied into it from `input`, where it lies in `layout` with runs
/// `ld_input` apart, to the other layout with runs `ld_output` apart.
///
/// Position `i * ld_output + j` takes the element at `j * ld_input + i` for
/// every `i` below the run length and `ld_input`, and every `j` below the
/// number of runs and `ld_output`. Every other position keeps what `output`
/// holds.
pub open spec fn transposed<T>(
    layout: Order,
    m: int,
    n: int,
    input: Seq<T>,
    ld_input: int,
    output: Seq<T>,
    ld_output: int,
) -> Seq<T> {
    Seq::new(
        output.len(),
        |k: int|
            if ld_output > 0 && k / ld_output < least(run_len(layout, m, n), ld_input) && k
                % ld_output < least(run_count(layout, m, n), ld_output) {
                input[(k % ld_output) * ld_input + k / ld_output]
            } else {
                output[k]
            },
    )
}

/// The output buffer while the copy is under way: the first `i` runs of the
/// output are written as far as they go, and the next one up to `j`.
spec fn partly_transposed<T>(
    input: Seq<T>,
    ld_input: int,
    output: Seq<T>,
    ld_output: int,
    q: int,
    i: int,
    j: int,
) -> Seq<T> {
    Seq::new(
        output.len(),
        |k: int|
            if (k / ld_output < i && k % ld_output < q) || (k / ld_output == i && k % ld_output
                < j) {
                input[(k % ld_output) * ld_input + k / ld_output]
            } else {
                output[k]
            },
    )
}

/// Writing the element for `(i, j)` extends the copy by one position.
proof fn lemma_copy_step<T>(
    input: Seq<T>,
    ld_input: int,
    output: Seq<T>,
    ld_output: int,
    q: int,
    i: int,
    j: int,
)
    requires
        0 <= i,
        0 <= j < q <= ld_output,
        0 <= i * ld_output + j < output.len(),
    ensures
        partly_transposed(input, ld_input, output, ld_output, q, i, j + 1)
            == partly_transposed(input, ld_input, output, ld_output, q, i, j).update(
            i * ld_output + j,
            input[j * ld_input + i],
        ),
{
    let before = partly_transposed(input, ld_input, output, ld_output, q, i, j);
    let after = partly_transposed(input, ld_input, output, ld_output, q, i, j + 1);
    let written = before.update(i * ld_output + j, input[j * ld_input + i]);
    lemma_fundamental_div_mod_converse(i * ld_output + j, ld_output, i, j);
    assert forall|k: int| 0 <= k < output.len() implies after[k] == written[k] by {
        if k != i * ld_output + j {
            lemma_fundamental_div_mod(k, ld_output);
            lemma_mul_is_commutative(ld_output, k / ld_output);
        }
    }
    assert(after =~= written);
}

/// Where the run length, the number of runs or a leading dimension is not
/// positive, the output stays as it is.
proof fn lemma_nothing_to_copy<T>(
    layout: Order,
    m: int,
    n: int,
    input: Seq<T>,
    ld_input: int,
    output: Seq<T>,
    ld_output: int,
)
    requires
        least(run_len(layout, m, n), ld_input) <= 0 || least(run_count(layout, m, n), ld_output)
            <= 0,
    ensures
        transposed(layout, m, n, input, ld_input, output, ld_output) == output,
{
    let t = transposed(layout, m, n, input, ld_input, output, ld_output);
    assert forall|k: int| 0 <= k < output.len() implies #[trigger] t[k] == output[k] by {
        if ld_output > 0 {
            lemma_fundamental_div_mod(k, ld_output);
            if k / ld_output < 0 {
                lemma_mul_inequality(k / ld_output, -1, ld_output);
                lemma_mul_is_commutative(ld_output, k / ld_output);
            }
        }
    }
    assert(t =~= output);
}

/// Copies a matrix of `m` rows and `n` columns from `input`, where it lies in
/// `initial_layout` with runs `ld_input` apart, to `output` in the other
/// layout with runs `ld_output` apart.
///
/// A leading dimension that is shorter than the runs it separates cuts the
/// copy down to what fits; one that is not positive leaves nothing to copy.
pub fn transpose_data<T: Copy>(
    initial_layout: Order,
    m: isize,
    n: isize,
    input: &[T],
    ld_input: isize,
    output: &mut [T],
    ld_output: isize,
)
    requires
        transposable(
            initial_layout,
            m as int,
            n as int,
            input@.len() as int,
            ld_input as int,
            old(output)@.len() as int,
            ld_output as int,
        ),
    ensures
        final(output)@ == transposed(
            initial_layout,
            m as int,
            n as int,
            input@,
            ld_input as int,
            old(output)@,
            ld_output as int,
        ),
{
    let (x, y) = match initial_layout {
        Order::ColMajor => (n, m),
        Order::RowMajor => (m, n),
    };
    let rows = if y <= ld_input { y } else { ld_input };
    let cols = if x <= ld_output { x } else { ld_output };
    if rows <= 0 || cols <= 0 {
        proof {
            lemma_nothing_to_copy(
                initial_layout,
                m as int,
                n as int,
                input@,
                ld_input as int,
                output@,
                ld_output as int,
            );
        }
        return ;
    }
    let p = rows as usize;
    let q = cols as usize;
    let ldi = ld_input as usize;
    let ldo = ld_output as usize;
    let ghost start = output@;
    let input_len = input.len();
    let output_len = output.len();
    let mut i: usize = 0;
    while i < p
        invariant
            0 < p <= ldi,
            0 < q <= ldo,
            i <= p,
            (q - 1) * ldi + p <= input_len == input@.len(),
            (p - 1) * ldo + q <= output_len == start.len(),
            output@ == partly_transposed(input@, ldi as int, start, ldo as int, q as int, i as int, 0),
        decreases p - i,
    {
        let mut j: usize = 0;
        while j < q
            invariant
                0 < p <= ldi,
                0 < q <= ldo,
                i < p,
                j <= q,
                (q - 1) * ldi + p <= input_len == input@.len(),
                (p - 1) * ldo + q <= output_len == start.len(),
                output@ == partly_transposed(
                    input@,
                    ldi as int,
                    start,
                    ldo as int,
                    q as int,
                    i as int,
                    j as int,
                ),
            decreases q - j,
        {
            proof {
                lemma_mul_inequality(i as int, p - 1, ldo as int);
                lemma_mul_inequality(j as int, q - 1, ldi as int);
                lemma_copy_step(input@, ldi as int, start, ldo as int, q as int, i as int, j as int);
            }
            output[i * ldo + j] = input[j * ldi + i];
            j += 1;
        }
        assert(partly_transposed(input@, ldi as int, start, ldo as int, q as int, i as int, q as int)
            =~= partly_transposed(input@, ldi as int, start, ldo as int, q as int, i + 1, 0));
        i += 1;
    }
    assert(output@ =~= transposed(
        initial_layout,
        m as int,
        n as int,
        input@,
        ld_input as int,
        start,
        ld_output as int,
    ));
}

/// The copy keeps every element of the matrix: what `input` holds at
/// `j * ld_input + i` stands at `i * ld_output + j` afterwards.
pub proof fn lemma_transposed_element<T>(
    layout: Order,
    m: int,
    n: int,
    input: Seq<T>,
    ld_input: int,
    output: Seq<T>,
    ld_output: int,
    i: int,
    j: int,
)
    requires
        0 <= i < least(run_len(layout, m, n), ld_input),
        0 <= j < least(run_count(layout, m, n), ld_output),
        i * ld_output + j < output.len(),
    ensures
        0 <= i * ld_output + j,
        transposed(layout, m, n, input, ld_input, output, ld_output)[i * ld_output + j]
            == input[j * ld_input + i],
{
    lemma_mul_inequality(0, i, ld_output);
    lemma_fundamental_div_mod_converse(i * ld_output + j, ld_output, i, j);
}

/// One, or `k` where that is larger: the least leading dimension that a
/// routine accepts for runs of `k` elements.
pub open spec fn at_least_one(k: int) -> int {
    if k < 1 {
        1
    } else {
        k
    }
}

/// The least leading dimension that a routine accepts for runs of `k`
/// elements.
pub open spec fn least_lead(k: i32) -> i32 {
    if k < 1 {
        1i32
    } else {
        k
    }
}

/// The least leading dimension that a routine accepts for runs of `k`
/// elements.
pub fn leading(k: i32) -> (ld: i32)
    ensures
        ld == least_lead(k),
        ld == at_least_one(k as int),
{
    if k < 1 {
        1
    } else {
        k
    }
}

/// Whether a buffer of `len` elements holds a matrix of `rows` rows and
/// `cols` columns without gaps.
pub open spec fn holds(len: int, rows: int, cols: int) -> bool {
    rows > 0 && cols > 0 ==> rows * cols <= len
}

/// Whether an array of `len` elements can be handed to a routine with the
/// leading dimension `ld` and `cols` columns: `ld` is at least one, as every
/// routine asks, and where it is larger than one, so that it is the number
/// of rows that are stored, the array holds that many rows in each column.
/// With a leading dimension of one the matrix may have one row or none, and
/// the array may be empty.
pub open spec fn stored(len: int, ld: int, cols: int) -> bool {
    &&& ld >= 1
    &&& ld > 1 ==> holds(len, ld, cols)
}

/// Whether `buffer` is the column-major storage that a routine gets for
/// `mat`, which lies in `order`: the buffer of the matrix itself where it is
/// column-major; where it is row-major, a copy of `max(1, m) * max(1, n)`
/// elements that holds the element of row `r` and column `c` at
/// `c * max(1, m) + r`.
pub open spec fn staged<T, M: Matrix<T>>(order: Order, mat: &M, buffer: Seq<T>) -> bool {
    match order {
        Order::ColMajor => buffer == mat@,
        Order::RowMajor => {
            let lead = at_least_one(mat.rows() as int);
            &&& buffer.len() == lead * at_least_one(mat.cols() as int)
            &&& forall|r: int, c: int|
                0 <= r < mat.rows() && 0 <= c < mat.cols() ==> #[trigger] buffer[c * lead + r]
                    == mat@[r * mat.cols() + c]
        },
    }
}

/// The buffer of `mat`, which lies in `order`, once a routine has left
/// `buffer` in its column-major storage: `buffer` itself where the matrix is
/// column-major; where it is row-major, what it held with the copy written
/// back, or what it held where `buffer` has not the size of the copy.
pub open spec fn unstaged<T, M: Matrix<T>>(order: Order, mat: &M, buffer: Seq<T>) -> Seq<T> {
    match order {
        Order::ColMajor => buffer,
        Order::RowMajor => {
            let lead = at_least_one(mat.rows() as int);
            if buffer.len() == lead * at_least_one(mat.cols() as int) {
                transposed(
                    Order::ColMajor,
                    mat.rows() as int,
                    mat.cols() as int,
                    buffer,
                    lead,
                    mat@,
                    mat.cols() as int,
                )
            } else {
                mat@
            }
        },
    }
}

/// A routine that leaves the storage that it was given as it is leaves the
/// matrix as it is.
pub proof fn lemma_untouched<T, M: Matrix<T>>(order: Order, mat: &M, buffer: Seq<T>)
    requires
        staged(order, mat, buffer),
        holds(mat@.len() as int, mat.rows() as int, mat.cols() as int),
    ensures
        unstaged(order, mat, buffer) == mat@,
{
    if order == Order::RowMajor {
        let m = mat.rows() as int;
        let n = mat.cols() as int;
        let lead = at_least_one(m);
        let back = unstaged(order, mat, buffer);
        assert forall|k: int| 0 <= k < mat@.len() implies #[trigger] back[k] == mat@[k] by {
            if n > 0 && k / n < least(m, lead) && k % n < n {
                let r = k / n;
                let c = k % n;
                lemma_fundamental_div_mod(k, n);
                lemma_mul_is_commutative(n, r);
                if r < 0 {
                    lemma_mul_inequality(r, -1, n);
                }
                assert(buffer[c * lead + r] == mat@[r * n + c]);
            }
        }
        assert(back =~= mat@);
    }
}

/// Tests whether the buffer of `mat` holds its rows and columns without
/// gaps.
pub fn fits<T, M: Matrix<T>>(mat: &M) -> (ok: bool)
    ensures
        ok == holds(mat@.len() as int, mat.rows() as int, mat.cols() as int),
{
    let rows = mat.rows();
    let cols = mat.cols();
    if rows > 0 && cols > 0 {
        product_at_most(rows, cols, mat.as_ptr().len())
    } else {
        true
    }
}

/// Copying a row-major matrix of `m` rows and `n` columns to column-major
/// storage, as `ColMem::new` does, and back, as `ColMem::write_back` does,
/// leaves its buffer as it was.
pub proof fn lemma_round_trip<T>(m: int, n: int, matrix: Seq<T>, blank: Seq<T>)
    requires
        holds(matrix.len() as int, m, n),
        blank.len() == at_least_one(m) * at_least_one(n),
    ensures
        transposed(
            Order::ColMajor,
            m,
            n,
            transposed(Order::RowMajor, m, n, matrix, n, blank, at_least_one(m)),
            at_least_one(m),
            matrix,
            n,
        ) == matrix,
{
    let lead = at_least_one(m);
    let copy = transposed(Order::RowMajor, m, n, matrix, n, blank, lead);
    let back = transposed(Order::ColMajor, m, n, copy, lead, matrix, n);
    assert forall|k: int| 0 <= k < matrix.len() implies #[trigger] back[k] == matrix[k] by {
        if n > 0 && k / n < least(m, lead) && k % n < n {
            let r = k / n;
            let c = k % n;
            lemma_fundamental_div_mod(k, n);
            lemma_mul_is_commutative(n, r);
            if r < 0 {
                lemma_mul_inequality(r, -1, n);
            }
            assert(c * lead + r < blank.len()) by (nonlinear_arith)
                requires
                    0 <= r < m,
                    0 <= c < n,
                    lead == m,
                    blank.len() == m * n,
            ;
            lemma_transposed_element(Order::RowMajor, m, n, matrix, n, blank, lead, c, r);
        }
    }
    assert(back =~= matrix);
}

/// Whether `len` is the product of two positive dimensions.
fn product_is(a: i32, b: i32, len: usize) -> (same: bool)
    requires
        a >= 1,
        b >= 1,
    ensures
        same == (a * b == len),
{
    assert(a * b <= 0x7fff_ffff * 0x7fff_ffff) by (nonlinear_arith)
        requires
            1 <= a <= 0x7fff_ffff,
            1 <= b <= 0x7fff_ffff,
    ;
    (a as u64) * (b as u64) == len as u64
}

/// Whether the product of two positive dimensions fits in `len`.
fn product_at_most(a: i32, b: i32, len: usize) -> (fits: bool)
    requires
        a >= 1,
        b >= 1,
    ensures
        fits == (a * b <= len),
{
    assert(a * b <= 0x7fff_ffff * 0x7fff_ffff) by (nonlinear_arith)
        requires
            1 <= a <= 0x7fff_ffff,
            1 <= b <= 0x7fff_ffff,
    ;
    (a as u64) * (b as u64) <= len as u64
}

/// A matrix as a routine wants it, in column-major storage. A row-major
/// matrix is copied over when the value is made and copied back by
/// `write_back`; a column-major one is handed on as it is.
///
/// The work on the matrix ends with a call of `write_back`. A value that
/// goes out of scope without it writes nothing back: what a routine has left
/// in the copy of a row-major matrix is lost, and the matrix stays as it
/// was.
#[must_use]
pub struct ColMem<'a, T, M: Matrix<T>> {
    /// The matrix that the routine works on.
    pub source: &'a mut M,
    /// The leading dimension of the column-major storage.
    pub lead: i32,
    /// The column-major copy, where the matrix is row-major.
    pub data: Option<Vec<T>>,
}

impl<'a, T: Copy, M: Matrix<T>> ColMem<'a, T, M> {
    /// The column-major storage that the routine reads and writes.
    pub open spec fn buffer(&self) -> Seq<T> {
        match self.data {
            Some(t) => t@,
            None => self.source@,
        }
    }

    /// The copy, where there is one, has the size of the matrix, and the
    /// matrix has room to take it back.
    pub open spec fn wf(&self) -> bool {
        match self.data {
            Some(t) => {
                &&& self.lead == at_least_one(self.source.rows() as int)
                &&& t@.len() == at_least_one(self.source.rows() as int) * at_least_one(
                    self.source.cols() as int,
                )
                &&& holds(
                    self.source@.len() as int,
                    self.source.rows() as int,
                    self.source.cols() as int,
                )
            },
            None => self.lead == at_least_one(self.source.rows() as int),
        }
    }

    /// Prepares `mat`, which lies in `order`, for a routine. The leading
    /// dimension is `max(1, m)` for a matrix of `m` rows in either layout:
    /// the least one that a routine accepts. A row-major matrix of `m` rows
    /// and `n` columns is copied into a buffer of its own; the buffer has
    /// `max(1, m) * max(1, n)` elements, so where the matrix has none, what
    /// it holds is left open.
    pub fn new(order: Order, mat: &'a mut M) -> (mem: Self) where T: Default
        requires
            order == Order::RowMajor ==> holds(
                old(mat)@.len() as int,
                old(mat).rows() as int,
                old(mat).cols() as int,
            ),
        ensures
            *mem.source == *old(mat),
            *final(mem.source) == *final(mat),
            mem.wf(),
            mem.data is Some <==> order == Order::RowMajor,
            mem.lead == least_lead(old(mat).rows()),
            mem.lead >= 1 && mem.lead >= old(mat).rows(),
            staged(order, old(mat), mem.buffer()),
            holds(old(mat)@.len() as int, old(mat).rows() as int, old(mat).cols() as int)
                ==> stored(mem.buffer().len() as int, mem.lead as int, old(mat).cols() as int),
    {
        match order {
            Order::ColMajor => {
                let lead = leading(mat.rows());
                ColMem { source: mat, lead, data: None }
            },
            Order::RowMajor => {
                let m = mat.rows();
                let n = mat.cols();
                let lead = n;
                let lead_t = leading(m);
                let cols_t = leading(n);
                let input = mat.as_ptr();
                let input_len = input.len();
                assert(lead_t * cols_t <= usize::MAX) by (nonlinear_arith)
                    requires
                        1 <= lead_t <= i32::MAX,
                        1 <= cols_t <= i32::MAX,
                        (lead_t == 1 || cols_t == 1) || lead_t * cols_t <= input_len,
                        input_len <= usize::MAX,
                        i32::MAX <= usize::MAX,
                ;
                let len_t = (lead_t as usize) * (cols_t as usize);
                let mut transpose = vec![T::default(); len_t];
                let ghost blank = transpose@;
                assert(transposable(
                    Order::RowMajor,
                    m as int,
                    n as int,
                    input_len as int,
                    lead as int,
                    len_t as int,
                    lead_t as int,
                )) by (nonlinear_arith)
                    requires
                        m > 0 && n > 0 ==> m * n <= input_len,
                        lead == n,
                        lead_t == (if m < 1 { 1 } else { m as int }),
                        len_t == lead_t * (if n < 1 { 1 } else { n as int }),
                ;
                transpose_data(
                    Order::RowMajor,
                    m as isize,
                    n as isize,
                    input,
                    lead as isize,
                    transpose.as_mut_slice(),
                    lead_t as isize,
                );
                proof {
                    assert forall|r: int, c: int| 0 <= r < m && 0 <= c < n implies #[trigger] transpose@[c
                        * lead_t + r] == mat@[r * n + c] by {
                        assert(c * lead_t + r < len_t) by (nonlinear_arith)
                            requires
                                0 <= r < m,
                                0 <= c < n,
                                lead_t == m,
                                len_t == m * n,
                        ;
                        lemma_transposed_element(
                            Order::RowMajor,
                            m as int,
                            n as int,
                            mat@,
                            n as int,
                            blank,
                            lead_t as int,
                            c,
                            r,
                        );
                    }
                }
                ColMem { source: mat, lead: lead_t, data: Some(transpose) }
            },
        }
    }

    /// Return the leading storage dimension of the matrix.
    pub fn lead(&self) -> (ld: i32)
        ensures
            ld == self.lead,
    {
        self.lead
    }

    /// The storage to hand to the routine.
    pub fn as_mut_ptr(&mut self) -> (s: &mut [T])
        ensures
            s@ == old(self).buffer(),
            final(self).buffer() == final(s)@,
            final(self).lead == old(self).lead,
            final(self).data is Some <==> old(self).data is Some,
            final(self).source.rows() == old(self).source.rows(),
            final(self).source.cols() == old(self).source.cols(),
            final(self).source.order() == old(self).source.order(),
            final(self).data is Some ==> *final(self).source == *old(self).source,
            *final(final(self).source) == *final(old(self).source),
    {
        match &mut self.data {
            Some(v) => v.as_mut_slice(),
            None => self.source.as_mut_ptr(),
        }
    }

    /// Ends the work on the matrix: a copy is written back to the row-major
    /// matrix that it was made from. Where the copy no longer has the size of
    /// the matrix, nothing is written.
    pub fn write_back(self)
        ensures
            final(self.source).rows() == old(self.source).rows(),
            final(self.source).cols() == old(self.source).cols(),
            final(self.source).order() == old(self.source).order(),
            self.data is None || !self.wf() ==> *final(self.source) == *old(self.source),
            self.data is Some && self.wf() ==> final(self.source)@ == transposed(
                Order::ColMajor,
                old(self.source).rows() as int,
                old(self.source).cols() as int,
                self.data->0@,
                self.lead as int,
                old(self.source)@,
                old(self.source).cols() as int,
            ),
    {
        let ColMem { source, lead, data } = self;
        let transpose = match data {
            Some(v) => v,
            None => { return ; },
        };
        let m = source.rows();
        let n = source.cols();
        let lead_t = leading(m);
        let cols_t = leading(n);
        let target_len = source.as_ptr().len();
        if lead != lead_t || !product_is(lead_t, cols_t, transpose.len()) || (m > 0 && n > 0
            && !product_at_most(m, n, target_len)) {
            return ;
        }
        assert(transposable(
            Order::ColMajor,
            m as int,
            n as int,
            transpose@.len() as int,
            lead_t as int,
            target_len as int,
            n as int,
        )) by (nonlinear_arith)
            requires
                m > 0 && n > 0 ==> m * n <= target_len,
                lead_t == (if m < 1 { 1 } else { m as int }),
                transpose@.len() == lead_t * (if n < 1 { 1 } else { n as int }),
        ;
        transpose_data(
            Order::ColMajor,
            m as isize,
            n as isize,
            transpose.as_slice(),
            lead_t as isize,
            source.as_mut_ptr(),
            n as isize,
        );
    }
}

} // verus!
