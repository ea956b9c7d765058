//! The row-wise loops that the kernels share.

use vstd::prelude::*;
use crate::element::{
    accumulated, add_gives, cell, is_zero, lemma_accumulate_join, lemma_accumulate_step,
    lemma_may_accumulate_rest, may_accumulate, may_step, mul_gives, step, Element,
};
use crate::kernels::{gemm_dimensions, is_product, product_allowed, product_entry};
use crate::matrix::{lemma_cell_bounds, lemma_row_bounds, Matrix, MatrixView};

verus! {

/// Why matrices cannot be multiplied.
#[derive(Clone, Copy, Debug, PartialEq, Eq, Structural)]
pub enum DimensionError {
    NotSquare,
    Empty,
    Inputs,
    OutputRows,
}

impl DimensionError {
    /// What is reported of the error.
    pub open spec fn message_spec(self) -> Seq<char> {
        match self {
            DimensionError::NotSquare => "this benchmark supports only square matrices"@,
            DimensionError::Empty => "matrix dimension must be greater than zero"@,
            DimensionError::Inputs => "incompatible GEMM input dimensions"@,
            DimensionError::OutputRows => "output row count is incorrect"@,
        }
    }

    pub fn message(self) -> (message: &'static str)
        ensures
            message@ == self.message_spec(),
    {
        match self {
            DimensionError::NotSquare => "this benchmark supports only square matrices",
            DimensionError::Empty => "matrix dimension must be greater than zero",
            DimensionError::Inputs => "incompatible GEMM input dimensions",
            DimensionError::OutputRows => "output row count is incorrect",
        }
    }
}

/// The first reason, if there is one, why matrices cannot be multiplied.
pub open spec fn dimension_fault<T>(
    lhs: MatrixView<T>,
    rhs: MatrixView<T>,
    output: MatrixView<T>,
) -> Option<DimensionError> {
    if lhs.rows != lhs.cols || rhs.rows != rhs.cols || output.rows != output.cols {
        Some(DimensionError::NotSquare)
    } else if lhs.rows == 0 {
        Some(DimensionError::Empty)
    } else if lhs.cols != rhs.rows {
        Some(DimensionError::Inputs)
    } else if output.rows != lhs.rows {
        Some(DimensionError::OutputRows)
    } else {
        None
    }
}

/// Tests whether `output` can hold the product of `lhs` and `rhs`.
///
/// Square matrices whose rows agree agree in their columns too, so these are
/// not tested by themselves.
pub fn assert_gemm_dimensions<T>(
    lhs: &Matrix<T>,
    rhs: &Matrix<T>,
    output: &Matrix<T>,
) -> (result: Result<(), DimensionError>)
    requires
        lhs@.wf(),
        rhs@.wf(),
        output@.wf(),
    ensures
        match result {
            Ok(()) => dimension_fault(lhs@, rhs@, output@) is None && gemm_dimensions(
                lhs@,
                rhs@,
                output@,
            ),
            Err(error) => dimension_fault(lhs@, rhs@, output@) == Some(error) && !gemm_dimensions(
                lhs@,
                rhs@,
                output@,
            ),
        },
{
    if !lhs.is_square() || !rhs.is_square() || !output.is_square() {
        return Err(DimensionError::NotSquare);
    }
    if lhs.rows() == 0 {
        return Err(DimensionError::Empty);
    }
    if lhs.cols() != rhs.rows() {
        return Err(DimensionError::Inputs);
    }
    if output.rows() != lhs.rows() {
        return Err(DimensionError::OutputRows);
    }
    Ok(())
}

/// `before` holds whole rows of `n` elements each, the first of which is row
/// `first_row` of a product of `n` by `n` matrices, and every product of a row
/// and a column may be added to the element at its place.
pub open spec fn rows_may_accumulate<T: Element>(
    lhs: Seq<T>,
    rhs: Seq<T>,
    before: Seq<T>,
    first_row: int,
    n: int,
) -> bool {
    &&& n > 0
    &&& lhs.len() == n * n
    &&& rhs.len() == n * n
    &&& before.len() % (n as nat) == 0
    &&& 0 <= first_row
    &&& first_row + before.len() / (n as nat) <= n
    &&& forall|r: int, j: int|
        0 <= r < before.len() / (n as nat) && 0 <= j < n ==> may_accumulate(
            lhs,
            rhs,
            n,
            first_row + r,
            j,
            0,
            n,
            #[trigger] before[cell(n, r, j)],
        )
}

/// `after` holds what `before` held with the product of its row of `lhs` and
/// its column of `rhs` added to every element, term by term in ascending order.
pub open spec fn rows_accumulated<T: Element>(
    lhs: Seq<T>,
    rhs: Seq<T>,
    before: Seq<T>,
    after: Seq<T>,
    first_row: int,
    n: int,
) -> bool {
    &&& after.len() == before.len()
    &&& forall|r: int, j: int|
        0 <= r < before.len() / (n as nat) && 0 <= j < n ==> accumulated(
            lhs,
            rhs,
            n,
            first_row + r,
            j,
            0,
            n,
            before[cell(n, r, j)],
            #[trigger] after[cell(n, r, j)],
        )
}

/// A square matrix holds as many whole rows as it has columns.
pub proof fn lemma_square_rows(n: int)
    requires
        n > 0,
    ensures
        (n * n) % n == 0,
        (n * n) / n == n,
{
    vstd::arithmetic::div_mod::lemma_fundamental_div_mod_converse(n * n, n, n, 0);
}

/// An output that was filled with zero is ready to receive a product that the
/// element type allows.
pub proof fn lemma_zero_rows_may_accumulate<T: Element>(
    lhs: MatrixView<T>,
    rhs: MatrixView<T>,
    output: MatrixView<T>,
    zero: T,
)
    requires
        gemm_dimensions(lhs, rhs, output),
        product_allowed(lhs, rhs),
        is_zero(zero),
        forall|x: int| 0 <= x < output.data.len() ==> #[trigger] output.data[x] == zero,
    ensures
        rows_may_accumulate(lhs.data, rhs.data, output.data, 0, lhs.cols as int),
{
    let n = lhs.cols as int;
    lemma_square_rows(n);
    assert forall|r: int, j: int| 0 <= r < n && 0 <= j < n implies may_accumulate(
        lhs.data,
        rhs.data,
        n,
        r,
        j,
        0,
        n,
        #[trigger] output.data[cell(n, r, j)],
    ) by {
        lemma_cell_bounds(n, n, r, j);
        assert(may_accumulate(lhs.data, rhs.data, n, r, j, 0, n, zero));
    }
}

/// All rows of an output that was filled with zero, each with its product
/// added, make up the product.
pub proof fn lemma_rows_are_product<T: Element>(
    lhs: MatrixView<T>,
    rhs: MatrixView<T>,
    cleared: MatrixView<T>,
    output: MatrixView<T>,
    zero: T,
)
    requires
        gemm_dimensions(lhs, rhs, cleared),
        is_zero(zero),
        forall|x: int| 0 <= x < cleared.data.len() ==> #[trigger] cleared.data[x] == zero,
        output.rows == cleared.rows,
        output.cols == cleared.cols,
        rows_accumulated(lhs.data, rhs.data, cleared.data, output.data, 0, lhs.cols as int),
    ensures
        is_product(lhs, rhs, output),
{
    let n = lhs.cols as int;
    lemma_square_rows(n);
    assert forall|i: int, j: int| 0 <= i < output.rows && 0 <= j < output.cols implies product_entry(
        lhs,
        rhs,
        i,
        j,
        #[trigger] output.at(i, j),
    ) by {
        lemma_cell_bounds(n, n, i, j);
        assert(accumulated(lhs.data, rhs.data, n, 0 + i, j, 0, n, zero, output.data[cell(n, i, j)]));
    }
}

/// Rows `a` up to, and without, `b` of an output that is ready to receive a
/// product are ready to receive theirs.
pub proof fn lemma_part_may_accumulate<T: Element>(
    lhs: Seq<T>,
    rhs: Seq<T>,
    before: Seq<T>,
    n: int,
    a: int,
    b: int,
)
    requires
        rows_may_accumulate(lhs, rhs, before, 0, n),
        0 <= a <= b <= before.len() / (n as nat),
    ensures
        0 <= a * n <= b * n <= before.len(),
        rows_may_accumulate(lhs, rhs, before.subrange(a * n, b * n), a, n),
        before.subrange(a * n, b * n).len() / (n as nat) == b - a,
{
    lemma_part_size(before.len() as int, n, a, b);
    let part = before.subrange(a * n, b * n);
    assert forall|r: int, j: int| 0 <= r < b - a && 0 <= j < n implies may_accumulate(
        lhs,
        rhs,
        n,
        a + r,
        j,
        0,
        n,
        #[trigger] part[cell(n, r, j)],
    ) by {
        lemma_part_place(n, a, b, r, j);
        assert(may_accumulate(lhs, rhs, n, 0 + (a + r), j, 0, n, before[cell(n, a + r, j)]));
    }
}

/// A run of whole rows is a run of the storage.
proof fn lemma_part_size(len: int, n: int, a: int, b: int)
    requires
        n > 0,
        len % n == 0,
        0 <= a <= b <= len / n,
    ensures
        0 <= a * n <= b * n <= len,
        (b * n - a * n) % n == 0,
        (b * n - a * n) / n == b - a,
{
    vstd::arithmetic::div_mod::lemma_fundamental_div_mod(len, n);
    let rows = len / n;
    assert(0 <= a * n <= b * n <= n * rows) by (nonlinear_arith)
        requires
            n > 0,
            0 <= a <= b <= rows,
    ;
    assert((b - a) * n == b * n - a * n) by (nonlinear_arith);
    vstd::arithmetic::div_mod::lemma_fundamental_div_mod_converse(b * n - a * n, n, b - a, 0);
}

/// Row `r` of the rows from `a` on is row `a + r`.
proof fn lemma_part_place(n: int, a: int, b: int, r: int, j: int)
    requires
        0 <= a <= b,
        0 <= r < b - a,
        0 <= j < n,
    ensures
        0 <= cell(n, r, j) < b * n - a * n,
        a * n + cell(n, r, j) == cell(n, a + r, j),
{
    lemma_cell_bounds(b - a, n, r, j);
    assert((b - a) * n == b * n - a * n) by (nonlinear_arith);
    assert((a + r) * n == a * n + r * n) by (nonlinear_arith);
}

/// Consecutive runs of rows that cover an output, each with its products
/// added, make an output with all products added. Run `p` begins at row
/// `starts(p)`.
pub proof fn lemma_parts_accumulated<T: Element>(
    lhs: Seq<T>,
    rhs: Seq<T>,
    before: Seq<T>,
    after: Seq<T>,
    n: int,
    parts: int,
    starts: spec_fn(int) -> int,
)
    requires
        n > 0,
        before.len() % (n as nat) == 0,
        after.len() == before.len(),
        parts > 0,
        starts(0) == 0,
        starts(parts) == before.len() / (n as nat),
        forall|p: int|
            0 <= p < parts ==> 0 <= #[trigger] starts(p) <= starts(p + 1) <= before.len() / (
            n as nat),
        forall|p: int|
            0 <= p < parts ==> rows_accumulated(
                lhs,
                rhs,
                before.subrange(#[trigger] starts(p) * n, starts(p + 1) * n),
                after.subrange(starts(p) * n, starts(p + 1) * n),
                starts(p),
                n,
            ),
    ensures
        rows_accumulated(lhs, rhs, before, after, 0, n),
{
    let rows = before.len() as int / n;
    assert forall|r: int, j: int| 0 <= r < rows && 0 <= j < n implies accumulated(
        lhs,
        rhs,
        n,
        0 + r,
        j,
        0,
        n,
        before[cell(n, r, j)],
        #[trigger] after[cell(n, r, j)],
    ) by {
        let p = lemma_part_of(parts, starts, r);
        let a = starts(p);
        let b = starts(p + 1);
        lemma_part_size(before.len() as int, n, a, b);
        lemma_part_place(n, a, b, r - a, j);
        let before_part = before.subrange(a * n, b * n);
        let after_part = after.subrange(a * n, b * n);
        assert(accumulated(
            lhs,
            rhs,
            n,
            a + (r - a),
            j,
            0,
            n,
            before_part[cell(n, r - a, j)],
            after_part[cell(n, r - a, j)],
        ));
    }
}

/// The run that a row belongs to.
proof fn lemma_part_of(parts: int, starts: spec_fn(int) -> int, r: int) -> (p: int)
    requires
        parts > 0,
        starts(0) <= r < starts(parts),
    ensures
        0 <= p < parts,
        starts(p) <= r < starts(p + 1),
    decreases parts,
{
    if starts(parts - 1) <= r {
        parts - 1
    } else {
        lemma_part_of(parts - 1, starts, r)
    }
}

/// Sets every element to `value`.
pub fn fill<T: Element>(out: &mut [T], value: T)
    ensures
        final(out)@.len() == old(out)@.len(),
        forall|x: int| 0 <= x < final(out)@.len() ==> #[trigger] final(out)@[x] == value,
{
    let mut x: usize = 0;
    while x < out.len()
        invariant
            x <= out@.len(),
            out@.len() == old(out)@.len(),
            forall|y: int| 0 <= y < x ==> #[trigger] out@[y] == value,
        decreases out@.len() - x,
    {
        out[x] = value;
        x += 1;
    }
}

/// Adds `a` times each element of `row` to the element of `out` in the same
/// place.
fn add_scaled<T: Element>(out: &mut [T], a: T, row: &[T])
    requires
        old(out)@.len() == row@.len(),
        forall|j: int| 0 <= j < row@.len() ==> may_step(a, #[trigger] row@[j], old(out)@[j]),
    ensures
        final(out)@.len() == old(out)@.len(),
        forall|j: int|
            0 <= j < row@.len() ==> step(a, #[trigger] row@[j], old(out)@[j], final(out)@[j]),
{
    let mut j: usize = 0;
    while j < row.len()
        invariant
            j <= row@.len(),
            out@.len() == row@.len(),
            old(out)@.len() == row@.len(),
            forall|x: int| 0 <= x < row@.len() ==> may_step(a, #[trigger] row@[x], old(out)@[x]),
            forall|x: int| 0 <= x < j ==> step(a, #[trigger] row@[x], old(out)@[x], out@[x]),
            forall|x: int| j <= x < row@.len() ==> #[trigger] out@[x] == old(out)@[x],
        decreases row@.len() - j,
    {
        let b = row[j];
        assert(may_step(a, row@[j as int], old(out)@[j as int]));
        let p = a * b;
        assert(mul_gives(a, b, p));
        let s = out[j] + p;
        assert(add_gives(old(out)@[j as int], p, s));
        out[j] = s;
        j += 1;
    }
}

/// Adds to `tile`, which stands for columns `jj` and up of row `row` of the
/// product, the terms from `kk` up to, and without, `k_end`.
fn accumulate_tile<T: Element>(
    lhs: &[T],
    rhs: &[T],
    tile: &mut [T],
    row: usize,
    kk: usize,
    k_end: usize,
    jj: usize,
    n: usize,
)
    requires
        n > 0,
        lhs@.len() == n * n,
        rhs@.len() == n * n,
        row < n,
        kk <= k_end <= n,
        jj + old(tile)@.len() <= n,
        forall|x: int|
            0 <= x < old(tile)@.len() ==> may_accumulate(
                lhs@,
                rhs@,
                n as int,
                row as int,
                jj + x,
                kk as int,
                k_end as int,
                #[trigger] old(tile)@[x],
            ),
    ensures
        final(tile)@.len() == old(tile)@.len(),
        forall|x: int|
            0 <= x < old(tile)@.len() ==> accumulated(
                lhs@,
                rhs@,
                n as int,
                row as int,
                jj + x,
                kk as int,
                k_end as int,
                old(tile)@[x],
                #[trigger] final(tile)@[x],
            ),
{
    let width: usize = tile.len();
    let mut k: usize = kk;
    while k < k_end
        invariant
            n > 0,
            lhs@.len() == n * n,
            rhs@.len() == n * n,
            row < n,
            kk <= k <= k_end <= n,
            width == old(tile)@.len(),
            jj + width <= n,
            tile@.len() == width,
            forall|x: int|
                0 <= x < width ==> may_accumulate(
                    lhs@,
                    rhs@,
                    n as int,
                    row as int,
                    jj + x,
                    kk as int,
                    k_end as int,
                    #[trigger] old(tile)@[x],
                ),
            forall|x: int|
                0 <= x < width ==> accumulated(
                    lhs@,
                    rhs@,
                    n as int,
                    row as int,
                    jj + x,
                    kk as int,
                    k as int,
                    old(tile)@[x],
                    #[trigger] tile@[x],
                ),
        decreases k_end - k,
    {
        proof {
            assert(lhs.len() == lhs@.len());
            lemma_cell_bounds(n as int, n as int, row as int, k as int);
            lemma_row_bounds(n as int, n as int, k as int);
        }
        let a = lhs[row * n + k];
        let start: usize = k * n + jj;
        let rhs_row = &rhs[start..start + width];
        let ghost before = tile@;
        proof {
            assert forall|x: int| 0 <= x < width implies may_step(
                a,
                #[trigger] rhs_row@[x],
                before[x],
            ) by {
                assert(rhs_row@[x] == rhs@[cell(n as int, k as int, jj + x)]);
                assert(may_accumulate(
                    lhs@,
                    rhs@,
                    n as int,
                    row as int,
                    jj + x,
                    kk as int,
                    k_end as int,
                    old(tile)@[x],
                ));
            }
        }
        add_scaled(tile, a, rhs_row);
        proof {
            assert forall|x: int| 0 <= x < width implies accumulated(
                lhs@,
                rhs@,
                n as int,
                row as int,
                jj + x,
                kk as int,
                k + 1,
                old(tile)@[x],
                #[trigger] tile@[x],
            ) by {
                assert(rhs_row@[x] == rhs@[cell(n as int, k as int, jj + x)]);
                lemma_accumulate_step(
                    lhs@,
                    rhs@,
                    n as int,
                    row as int,
                    jj + x,
                    kk as int,
                    k as int,
                    old(tile)@[x],
                    before[x],
                    tile@[x],
                );
            }
        }
        k += 1;
    }
}

/// Does the same to columns `jj` up to, and without, `j_end` of one of the
/// rows in `output_rows`, and leaves everything else in them as it was.
fn accumulate_tile_row<T: Element>(
    lhs: &[T],
    rhs: &[T],
    output_rows: &mut [T],
    local_row: usize,
    row: usize,
    kk: usize,
    k_end: usize,
    jj: usize,
    j_end: usize,
    n: usize,
)
    requires
        n > 0,
        lhs@.len() == n * n,
        rhs@.len() == n * n,
        row < n,
        kk <= k_end <= n,
        jj <= j_end <= n,
        local_row * n + n <= old(output_rows)@.len(),
        forall|j: int|
            jj <= j < j_end ==> may_accumulate(
                lhs@,
                rhs@,
                n as int,
                row as int,
                j,
                kk as int,
                k_end as int,
                #[trigger] old(output_rows)@[cell(n as int, local_row as int, j)],
            ),
    ensures
        final(output_rows)@.len() == old(output_rows)@.len(),
        forall|j: int|
            jj <= j < j_end ==> accumulated(
                lhs@,
                rhs@,
                n as int,
                row as int,
                j,
                kk as int,
                k_end as int,
                old(output_rows)@[cell(n as int, local_row as int, j)],
                #[trigger] final(output_rows)@[cell(n as int, local_row as int, j)],
            ),
        forall|x: int|
            0 <= x < old(output_rows)@.len() && !(cell(n as int, local_row as int, jj as int) <= x
                < cell(n as int, local_row as int, j_end as int))
                ==> #[trigger] final(output_rows)@[x] == old(output_rows)@[x],
{
    proof {
        assert(output_rows.len() == output_rows@.len());
        lemma_row_bounds(local_row + 1, n as int, local_row as int);
    }
    let start: usize = local_row * n + jj;
    let width: usize = j_end - jj;
    let (_, tail) = output_rows.split_at_mut(start);
    let (tile, _) = tail.split_at_mut(width);
    proof {
        assert forall|x: int| 0 <= x < width implies may_accumulate(
            lhs@,
            rhs@,
            n as int,
            row as int,
            jj + x,
            kk as int,
            k_end as int,
            #[trigger] tile@[x],
        ) by {
            assert(tile@[x] == old(output_rows)@[cell(n as int, local_row as int, jj + x)]);
        }
    }
    let ghost before = tile@;
    accumulate_tile(lhs, rhs, tile, row, kk, k_end, jj, n);
    proof {
        assert forall|j: int| jj <= j < j_end implies accumulated(
            lhs@,
            rhs@,
            n as int,
            row as int,
            j,
            kk as int,
            k_end as int,
            old(output_rows)@[cell(n as int, local_row as int, j)],
            #[trigger] output_rows@[cell(n as int, local_row as int, j)],
        ) by {
            assert(before[j - jj] == old(output_rows)@[cell(n as int, local_row as int, j)]);
        }
    }
}

/// How far an element has come: row `r`, column `j` holds the terms up to, and
/// without, `done(r, j)`.
spec fn progressed<T: Element>(
    lhs: Seq<T>,
    rhs: Seq<T>,
    before: Seq<T>,
    now: Seq<T>,
    first_row: int,
    n: int,
    done: spec_fn(int, int) -> int,
) -> bool {
    &&& now.len() == before.len()
    &&& forall|r: int, j: int|
        0 <= r < before.len() / (n as nat) && 0 <= j < n ==> accumulated(
            lhs,
            rhs,
            n,
            first_row + r,
            j,
            0,
            done(r, j),
            before[cell(n, r, j)],
            #[trigger] now[cell(n, r, j)],
        )
}

/// The places of columns `jj` up to `j_end` of a row are those of no other
/// positions.
proof fn lemma_tile_places(n: int, row: int, jj: int, j_end: int, r: int, j: int)
    requires
        0 <= jj <= j_end <= n,
        0 <= j < n,
    ensures
        cell(n, row, jj) <= cell(n, r, j) < cell(n, row, j_end) <==> (r == row && jj <= j < j_end),
{
    if r < row {
        assert((r + 1) * n <= row * n) by (nonlinear_arith)
            requires
                r + 1 <= row,
                n > 0,
        ;
        assert((r + 1) * n == r * n + n) by (nonlinear_arith);
    } else if r > row {
        assert((row + 1) * n <= r * n) by (nonlinear_arith)
            requires
                row + 1 <= r,
                n > 0,
        ;
        assert((row + 1) * n == row * n + n) by (nonlinear_arith);
    }
}

/// Advances one tile row from `kk` terms to `k_end`, in terms of how far every
/// element has come.
fn advance_tile_row<T: Element>(
    lhs: &[T],
    rhs: &[T],
    output_rows: &mut [T],
    local_row: usize,
    first_row: usize,
    kk: usize,
    k_end: usize,
    jj: usize,
    j_end: usize,
    n: usize,
    Ghost(before): Ghost<Seq<T>>,
    Ghost(done): Ghost<spec_fn(int, int) -> int>,
    Ghost(next): Ghost<spec_fn(int, int) -> int>,
)
    requires
        rows_may_accumulate(lhs@, rhs@, before, first_row as int, n as int),
        progressed(lhs@, rhs@, before, old(output_rows)@, first_row as int, n as int, done),
        local_row < before.len() / (n as nat),
        kk <= k_end <= n,
        jj <= j_end <= n,
        forall|j: int| jj <= j < j_end ==> #[trigger] done(local_row as int, j) == kk,
        forall|r: int, j: int|
            0 <= r < before.len() / (n as nat) && 0 <= j < n ==> #[trigger] next(r, j) == if r
                == local_row && jj <= j < j_end {
                k_end as int
            } else {
                done(r, j)
            },
    ensures
        progressed(lhs@, rhs@, before, final(output_rows)@, first_row as int, n as int, next),
{
    let ghost rows = before.len() / (n as nat);
    proof {
        assert(rows * n == before.len()) by {
            vstd::arithmetic::div_mod::lemma_fundamental_div_mod(before.len() as int, n as int);
            assert(n * rows == rows * n) by (nonlinear_arith);
        }
        lemma_row_bounds(rows as int, n as int, local_row as int);
        assert forall|j: int| jj <= j < j_end implies may_accumulate(
            lhs@,
            rhs@,
            n as int,
            first_row + local_row,
            j,
            kk as int,
            k_end as int,
            #[trigger] output_rows@[cell(n as int, local_row as int, j)],
        ) by {
            assert(may_accumulate(
                lhs@,
                rhs@,
                n as int,
                first_row + local_row,
                j,
                0,
                n as int,
                before[cell(n as int, local_row as int, j)],
            ));
            assert(done(local_row as int, j) == kk);
            lemma_may_accumulate_rest(
                lhs@,
                rhs@,
                n as int,
                first_row + local_row,
                j,
                0,
                kk as int,
                n as int,
                before[cell(n as int, local_row as int, j)],
                output_rows@[cell(n as int, local_row as int, j)],
            );
        }
    }
    let ghost was = output_rows@;
    accumulate_tile_row(
        lhs,
        rhs,
        output_rows,
        local_row,
        first_row + local_row,
        kk,
        k_end,
        jj,
        j_end,
        n,
    );
    proof {
        assert forall|r: int, j: int| 0 <= r < rows && 0 <= j < n implies accumulated(
            lhs@,
            rhs@,
            n as int,
            first_row + r,
            j,
            0,
            next(r, j),
            before[cell(n as int, r, j)],
            #[trigger] output_rows@[cell(n as int, r, j)],
        ) by {
            lemma_cell_bounds(rows as int, n as int, r, j);
            lemma_tile_places(n as int, local_row as int, jj as int, j_end as int, r, j);
            assert(accumulated(
                lhs@,
                rhs@,
                n as int,
                first_row + r,
                j,
                0,
                done(r, j),
                before[cell(n as int, r, j)],
                was[cell(n as int, r, j)],
            ));
            assert(next(r, j) == if r == local_row && jj <= j < j_end {
                k_end as int
            } else {
                done(r, j)
            });
            if r == local_row && jj <= j < j_end {
                assert(done(local_row as int, j) == kk);
                lemma_accumulate_join(
                    lhs@,
                    rhs@,
                    n as int,
                    first_row + r,
                    j,
                    0,
                    kk as int,
                    k_end as int,
                    before[cell(n as int, r, j)],
                    was[cell(n as int, r, j)],
                    output_rows@[cell(n as int, r, j)],
                );
            }
        }
    }
}

/// The smaller of `from + size` and `limit`.
fn block_end(from: usize, size: usize, limit: usize) -> (end: usize)
    requires
        from < limit,
        size > 0,
    ensures
        end == if from + size < limit {
            from + size
        } else {
            limit as int
        },
{
    if size < limit - from {
        from + size
    } else {
        limit
    }
}

/// Multiplies contiguous rows using the `i-k-j` order.
///
/// `output_rows` holds whole rows beginning at `first_row`; this form is
/// shared by the serial, Rayon and static-schedule kernels, whose row slices
/// are known to be disjoint by construction.
pub fn ikj_rows<T: Element>(
    lhs: &[T],
    rhs: &[T],
    output_rows: &mut [T],
    first_row: usize,
    n: usize,
)
    requires
        rows_may_accumulate(lhs@, rhs@, old(output_rows)@, first_row as int, n as int),
    ensures
        rows_accumulated(
            lhs@,
            rhs@,
            old(output_rows)@,
            final(output_rows)@,
            first_row as int,
            n as int,
        ),
{
    let rows: usize = output_rows.len() / n;
    let ghost before = output_rows@;
    let mut local_row: usize = 0;
    while local_row < rows
        invariant
            local_row <= rows,
            rows == before.len() / (n as nat),
            before == old(output_rows)@,
            rows_may_accumulate(lhs@, rhs@, before, first_row as int, n as int),
            progressed(
                lhs@,
                rhs@,
                before,
                output_rows@,
                first_row as int,
                n as int,
                |r: int, j: int|
                    if r < local_row {
                        n as int
                    } else {
                        0
                    },
            ),
        decreases rows - local_row,
    {
        advance_tile_row(
            lhs,
            rhs,
            output_rows,
            local_row,
            first_row,
            0,
            n,
            0,
            n,
            n,
            Ghost(before),
            Ghost(
                |r: int, j: int|
                    if r < local_row {
                        n as int
                    } else {
                        0
                    },
            ),
            Ghost(
                |r: int, j: int|
                    if r < local_row + 1 {
                        n as int
                    } else {
                        0
                    },
            ),
        );
        local_row += 1;
    }
}

/// The number of terms that row `r`, column `j` holds while the tile of rows
/// `ii..i_end`, terms `kk..k_end` and columns `jj..j_end` is worked on, with
/// the rows before `row` finished.
spec fn tiles_done(
    n: int,
    ii: int,
    i_end: int,
    kk: int,
    k_end: int,
    jj: int,
    j_end: int,
    row: int,
    r: int,
    j: int,
) -> int {
    if r < ii {
        n
    } else if r >= i_end {
        0
    } else if j < jj || (j < j_end && r < row) {
        k_end
    } else {
        kk
    }
}

/// Works through all tiles of rows `ii..i_end`.
fn tile_rows_block<T: Element>(
    lhs: &[T],
    rhs: &[T],
    output_rows: &mut [T],
    first_row: usize,
    n: usize,
    block_size: usize,
    ii: usize,
    i_end: usize,
    Ghost(before): Ghost<Seq<T>>,
)
    requires
        block_size > 0,
        ii < i_end <= before.len() / (n as nat),
        rows_may_accumulate(lhs@, rhs@, before, first_row as int, n as int),
        progressed(
            lhs@,
            rhs@,
            before,
            old(output_rows)@,
            first_row as int,
            n as int,
            |r: int, j: int| tiles_done(n as int, ii as int, ii as int, 0, 0, 0, 0, 0, r, j),
        ),
    ensures
        progressed(
            lhs@,
            rhs@,
            before,
            final(output_rows)@,
            first_row as int,
            n as int,
            |r: int, j: int| tiles_done(n as int, i_end as int, i_end as int, 0, 0, 0, 0, 0, r, j),
        ),
{
    let ghost ni = n as int;
    let ghost i0 = ii as int;
    let ghost i1 = i_end as int;
    let mut kk: usize = 0;
    while kk < n
        invariant
            block_size > 0,
            ni == n,
            i0 == ii,
            i1 == i_end,
            kk <= n,
            ii < i_end <= before.len() / (n as nat),
            rows_may_accumulate(lhs@, rhs@, before, first_row as int, ni),
            progressed(
                lhs@,
                rhs@,
                before,
                output_rows@,
                first_row as int,
                ni,
                |r: int, j: int| tiles_done(ni, i0, i1, kk as int, kk as int, 0, 0, i0, r, j),
            ),
        decreases n - kk,
    {
        let k_end = block_end(kk, block_size, n);
        let ghost k0 = kk as int;
        let ghost k1 = k_end as int;
        let mut jj: usize = 0;
        while jj < n
            invariant
                block_size > 0,
                ni == n,
                i0 == ii,
                i1 == i_end,
                k0 == kk,
                k1 == k_end,
                kk < k_end <= n,
                jj <= n,
                ii < i_end <= before.len() / (n as nat),
                rows_may_accumulate(lhs@, rhs@, before, first_row as int, ni),
                progressed(
                    lhs@,
                    rhs@,
                    before,
                    output_rows@,
                    first_row as int,
                    ni,
                    |r: int, j: int|
                        tiles_done(ni, i0, i1, k0, k1, jj as int, jj as int, i0, r, j),
                ),
            decreases n - jj,
        {
            let j_end = block_end(jj, block_size, n);
            let ghost j0 = jj as int;
            let ghost j1 = j_end as int;
            let mut local_row: usize = ii;
            while local_row < i_end
                invariant
                    ni == n,
                    i0 == ii,
                    i1 == i_end,
                    k0 == kk,
                    k1 == k_end,
                    j0 == jj,
                    j1 == j_end,
                    kk < k_end <= n,
                    jj < j_end <= n,
                    ii <= local_row <= i_end <= before.len() / (n as nat),
                    rows_may_accumulate(lhs@, rhs@, before, first_row as int, ni),
                    progressed(
                        lhs@,
                        rhs@,
                        before,
                        output_rows@,
                        first_row as int,
                        ni,
                        |r: int, j: int|
                            tiles_done(ni, i0, i1, k0, k1, j0, j1, local_row as int, r, j),
                    ),
                decreases i_end - local_row,
            {
                advance_tile_row(
                    lhs,
                    rhs,
                    output_rows,
                    local_row,
                    first_row,
                    kk,
                    k_end,
                    jj,
                    j_end,
                    n,
                    Ghost(before),
                    Ghost(
                        |r: int, j: int|
                            tiles_done(ni, i0, i1, k0, k1, j0, j1, local_row as int, r, j),
                    ),
                    Ghost(
                        |r: int, j: int|
                            tiles_done(ni, i0, i1, k0, k1, j0, j1, local_row + 1, r, j),
                    ),
                );
                local_row += 1;
            }
            jj = j_end;
        }
        kk = k_end;
    }
}

/// Multiplies contiguous rows in tiles of `block_size` by `block_size`.
///
/// `output_rows` holds whole rows beginning at `first_row`, as in
/// [`ikj_rows`], and every element receives its terms in the same order.
pub fn tiled_rows<T: Element>(
    lhs: &[T],
    rhs: &[T],
    output_rows: &mut [T],
    first_row: usize,
    n: usize,
    block_size: usize,
)
    requires
        block_size > 0,
        rows_may_accumulate(lhs@, rhs@, old(output_rows)@, first_row as int, n as int),
    ensures
        rows_accumulated(
            lhs@,
            rhs@,
            old(output_rows)@,
            final(output_rows)@,
            first_row as int,
            n as int,
        ),
{
    let rows: usize = output_rows.len() / n;
    let ghost before = output_rows@;
    let mut ii: usize = 0;
    while ii < rows
        invariant
            block_size > 0,
            ii <= rows,
            rows == before.len() / (n as nat),
            before == old(output_rows)@,
            rows_may_accumulate(lhs@, rhs@, before, first_row as int, n as int),
            progressed(
                lhs@,
                rhs@,
                before,
                output_rows@,
                first_row as int,
                n as int,
                |r: int, j: int| tiles_done(n as int, ii as int, ii as int, 0, 0, 0, 0, 0, r, j),
            ),
        decreases rows - ii,
    {
        let i_end = block_end(ii, block_size, rows);
        tile_rows_block(lhs, rhs, output_rows, first_row, n, block_size, ii, i_end, Ghost(before));
        ii = i_end;
    }
}

} // verus!
