//! A contiguous, row-major matrix.

use vstd::prelude::*;
use crate::element::cell;

verus! {

/// A contiguous, row-major matrix.
///
/// Dimensions are kept even though the benchmark currently operates on square
/// matrices, so dimension checks remain explicit at kernel boundaries.
#[derive(Debug, PartialEq)]
pub struct Matrix<T> {
    rows: usize,
    cols: usize,
    data: Vec<T>,
}

/// What a matrix stands for: its dimensions and its elements, row by row.
#[verifier::ext_equal]
pub struct MatrixView<T> {
    pub rows: nat,
    pub cols: nat,
    pub data: Seq<T>,
}

impl<T> MatrixView<T> {
    /// The storage holds exactly one element per position.
    pub open spec fn wf(self) -> bool {
        self.data.len() == self.rows * self.cols
    }

    /// The element at row `row` and column `col`.
    pub open spec fn at(self, row: int, col: int) -> T {
        self.data[cell(self.cols as int, row, col)]
    }

    /// The elements of row `row`.
    pub open spec fn row_spec(self, row: int) -> Seq<T> {
        let start = cell(self.cols as int, row, 0);
        self.data.subrange(start, start + self.cols)
    }

    /// The matrix with `elements` in place of those of row `row`.
    pub open spec fn with_row(self, row: int, elements: Seq<T>) -> Self {
        let start = cell(self.cols as int, row, 0);
        MatrixView {
            data: self.data.take(start) + elements + self.data.skip(start + self.cols),
            ..self
        }
    }
}

impl<T> View for Matrix<T> {
    type V = MatrixView<T>;

    closed spec fn view(&self) -> MatrixView<T> {
        MatrixView { rows: self.rows as nat, cols: self.cols as nat, data: self.data@ }
    }
}

/// Distinct positions within the bounds are distinct places in the storage.
pub proof fn lemma_cell_bounds(rows: int, n: int, row: int, col: int)
    requires
        0 <= row < rows,
        0 <= col < n,
    ensures
        0 <= row * n <= cell(n, row, col) < row * n + n <= rows * n,
        (row + 1) * n == row * n + n,
{
    assert(row * n >= 0) by (nonlinear_arith)
        requires
            0 <= row,
            0 < n,
    ;
    assert((row + 1) * n == row * n + n) by (nonlinear_arith);
    assert((row + 1) * n <= rows * n) by (nonlinear_arith)
        requires
            row + 1 <= rows,
            0 < n,
    ;
}

/// A row lies within the storage.
pub proof fn lemma_row_bounds(rows: int, n: int, row: int)
    requires
        0 <= row < rows,
        0 <= n,
    ensures
        0 <= row * n,
        row * n + n <= rows * n,
        cell(n, row, 0) == row * n,
{
    assert(row * n >= 0) by (nonlinear_arith)
        requires
            0 <= row,
            0 <= n,
    ;
    assert(row * n + n <= rows * n) by (nonlinear_arith)
        requires
            row + 1 <= rows,
            0 <= n,
    ;
}

/// Every place in the storage is that of exactly one position.
pub proof fn lemma_cell_unique(n: int, row: int, col: int)
    requires
        0 < n,
        0 <= col < n,
    ensures
        cell(n, row, col) / n == row,
        cell(n, row, col) % n == col,
{
    vstd::arithmetic::div_mod::lemma_fundamental_div_mod_converse(
        cell(n, row, col),
        n,
        row,
        col,
    );
}

/// The position of a place in the storage.
pub proof fn lemma_cell_of(rows: int, n: int, index: int)
    requires
        0 < n,
        0 <= index < rows * n,
    ensures
        0 <= index / n < rows,
        0 <= index % n < n,
        cell(n, index / n, index % n) == index,
{
    vstd::arithmetic::div_mod::lemma_fundamental_div_mod(index, n);
    vstd::arithmetic::div_mod::lemma_mod_bound(index, n);
    assert(n * (index / n) == (index / n) * n) by (nonlinear_arith);
    let row = index / n;
    assert(0 <= row < rows) by (nonlinear_arith)
        requires
            0 < n,
            index == row * n + index % n,
            0 <= index % n < n,
            0 <= index < rows * n,
    ;
}

/// The storage is row-major: rows follow one another, and each is made of its
/// elements in the order of the columns.
pub proof fn storage_is_row_major<T>(matrix: MatrixView<T>, row: int, col: int)
    requires
        0 <= row < matrix.rows,
        0 <= col < matrix.cols,
    ensures
        matrix.wf() <==> matrix.data.len() == matrix.rows * matrix.cols,
        matrix.at(row, col) == matrix.data[row * matrix.cols + col],
        matrix.wf() ==> matrix.row_spec(row).len() == matrix.cols,
        matrix.wf() ==> matrix.row_spec(row)[col] == matrix.data[row * matrix.cols + col],
{
    lemma_row_bounds(matrix.rows as int, matrix.cols as int, row);
}

/// Writing a row replaces its run of the storage, and nothing before or after.
pub proof fn writing_a_row_replaces_its_run<T>(
    before: MatrixView<T>,
    row: int,
    elements: Seq<T>,
    index: int,
)
    requires
        before.wf(),
        0 <= row < before.rows,
        elements.len() == before.cols,
        0 <= index < before.data.len(),
    ensures
        before.with_row(row, elements).data.len() == before.data.len(),
        before.with_row(row, elements).data[index] == if row * before.cols <= index < row
            * before.cols + before.cols {
            elements[index - row * before.cols]
        } else {
            before.data[index]
        },
{
    lemma_row_bounds(before.rows as int, before.cols as int, row);
}

/// A matrix keeps its shape when its storage is written: new elements, as many
/// as before, make a matrix of the same dimensions with one per position.
pub proof fn writing_the_storage_keeps_the_shape<T>(before: MatrixView<T>, data: Seq<T>)
    requires
        before.wf(),
        data.len() == before.data.len(),
    ensures
        ({
            let after = MatrixView { data, ..before };
            &&& after.wf()
            &&& after.rows == before.rows
            &&& after.cols == before.cols
        }),
{
}

/// A matrix keeps its shape when one of its rows is written.
pub proof fn writing_a_row_keeps_the_shape<T>(before: MatrixView<T>, row: int, elements: Seq<T>)
    requires
        before.wf(),
        0 <= row < before.rows,
        elements.len() == before.cols,
    ensures
        before.with_row(row, elements).wf(),
        before.with_row(row, elements).rows == before.rows,
        before.with_row(row, elements).cols == before.cols,
{
    lemma_row_bounds(before.rows as int, before.cols as int, row);
}

/// A row is made of the elements at its positions, in the order of the columns.
pub proof fn rows_hold_their_elements<T>(matrix: MatrixView<T>, row: int, col: int)
    requires
        matrix.wf(),
        0 <= row < matrix.rows,
        0 <= col < matrix.cols,
    ensures
        matrix.row_spec(row).len() == matrix.cols,
        matrix.row_spec(row)[col] == matrix.at(row, col),
{
    lemma_row_bounds(matrix.rows as int, matrix.cols as int, row);
}

/// Writing a row changes the elements of that row, and no other.
pub proof fn writing_a_row_keeps_the_others<T>(
    before: MatrixView<T>,
    row: int,
    elements: Seq<T>,
    other: int,
    col: int,
)
    requires
        before.wf(),
        elements.len() == before.cols,
        0 <= row < before.rows,
        0 <= other < before.rows,
        0 <= col < before.cols,
    ensures
        before.with_row(row, elements).wf(),
        before.with_row(row, elements).at(other, col) == if other == row {
            elements[col]
        } else {
            before.at(other, col)
        },
{
    let n = before.cols as int;
    lemma_row_bounds(before.rows as int, n, row);
    lemma_cell_bounds(before.rows as int, n, other, col);
    if other < row {
        lemma_cell_bounds(row, n, other, col);
    } else if other > row {
        lemma_row_bounds(other, n, row);
    }
}

impl<T> Matrix<T> {
    /// Constructs a matrix from row-major storage.
    pub fn from_vec(rows: usize, cols: usize, data: Vec<T>) -> (matrix: Self)
        requires
            data@.len() == rows * cols,
        ensures
            matrix@ == (MatrixView { rows: rows as nat, cols: cols as nat, data: data@ }),
            matrix@.wf(),
    {
        Self { rows, cols, data }
    }

    /// Creates a matrix by evaluating `f` once for every element.
    pub fn from_fn<F: FnMut(usize, usize) -> T>(rows: usize, cols: usize, mut f: F) -> (matrix:
        Self)
        requires
            rows * cols <= usize::MAX,
            forall|row: usize, col: usize|
                row < rows && col < cols ==> #[trigger] f.requires((row, col)),
        ensures
            matrix@.rows == rows,
            matrix@.cols == cols,
            matrix@.wf(),
            forall|row: usize, col: usize|
                row < rows && col < cols ==> #[trigger] f.ensures(
                    (row, col),
                    matrix@.at(row as int, col as int),
                ),
    {
        let len: usize = rows * cols;
        let mut data: Vec<T> = Vec::with_capacity(len);
        let ghost initial = f;
        let mut row: usize = 0;
        while row < rows
            invariant
                row <= rows,
                f == initial,
                data@.len() == row * cols,
                forall|r: usize, c: usize|
                    r < rows && c < cols ==> #[trigger] initial.requires((r, c)),
                forall|r: usize, c: usize|
                    r < row && c < cols ==> #[trigger] initial.ensures(
                        (r, c),
                        data@[cell(cols as int, r as int, c as int)],
                    ),
            decreases rows - row,
        {
            let mut col: usize = 0;
            while col < cols
                invariant
                    row < rows,
                    col <= cols,
                    f == initial,
                    data@.len() == cell(cols as int, row as int, col as int),
                    forall|r: usize, c: usize|
                        r < rows && c < cols ==> #[trigger] initial.requires((r, c)),
                    forall|r: usize, c: usize|
                        r <= row && c < cols && (r == row ==> c < col)
                            ==> #[trigger] initial.ensures(
                            (r, c),
                            data@[cell(cols as int, r as int, c as int)],
                        ),
                decreases cols - col,
            {
                let ghost before = data@;
                data.push(f(row, col));
                proof {
                    assert forall|r: usize, c: usize|
                        r <= row && c < cols && (r == row ==> c <= col)
                            implies #[trigger] initial.ensures(
                        (r, c),
                        data@[cell(cols as int, r as int, c as int)],
                    ) by {
                        if r < row || c < col {
                            assert(initial.ensures(
                                (r, c),
                                before[cell(cols as int, r as int, c as int)],
                            ));
                            if r < row {
                                lemma_cell_bounds(row as int, cols as int, r as int, c as int);
                            } else {
                                lemma_cell_bounds(rows as int, cols as int, r as int, c as int);
                            }
                        }
                    }
                }
                col += 1;
            }
            proof {
                assert((row + 1) * cols == row * cols + cols) by (nonlinear_arith);
            }
            row += 1;
        }
        Self::from_vec(rows, cols, data)
    }

    #[must_use]
    pub fn rows(&self) -> (rows: usize)
        ensures
            rows == self@.rows,
    {
        self.rows
    }

    #[must_use]
    pub fn cols(&self) -> (cols: usize)
        ensures
            cols == self@.cols,
    {
        self.cols
    }

    #[must_use]
    pub fn is_square(&self) -> (square: bool)
        ensures
            square == (self@.rows == self@.cols),
    {
        self.rows == self.cols
    }

    #[must_use]
    pub fn as_slice(&self) -> (slice: &[T])
        ensures
            slice@ == self@.data,
    {
        self.data.as_slice()
    }

    pub fn as_mut_slice(&mut self) -> (slice: &mut [T])
        ensures
            slice@ == old(self)@.data,
            final(self)@ == (MatrixView { data: final(slice)@, ..old(self)@ }),
    {
        self.data.as_mut_slice()
    }

    #[must_use]
    pub fn row(&self, row: usize) -> (slice: &[T])
        requires
            self@.wf(),
            row < self@.rows,
        ensures
            slice@ == self@.row_spec(row as int),
    {
        proof {
            assert(self.data.len() == self@.data.len());
            lemma_row_bounds(self@.rows as int, self@.cols as int, row as int);
        }
        let start: usize = row * self.cols;
        &self.data.as_slice()[start..start + self.cols]
    }

    pub fn row_mut(&mut self, row: usize) -> (slice: &mut [T])
        requires
            old(self)@.wf(),
            row < old(self)@.rows,
        ensures
            slice@ == old(self)@.row_spec(row as int),
            final(self)@ == old(self)@.with_row(row as int, final(slice)@),
    {
        proof {
            assert(self.data.len() == self@.data.len());
            lemma_row_bounds(self@.rows as int, self@.cols as int, row as int);
        }
        let start: usize = row * self.cols;
        let (_, tail) = self.data.as_mut_slice().split_at_mut(start);
        let (slice, _) = tail.split_at_mut(self.cols);
        slice
    }

    #[must_use]
    pub fn get(&self, row: usize, col: usize) -> (element: &T)
        requires
            self@.wf(),
            row < self@.rows,
            col < self@.cols,
        ensures
            *element == self@.at(row as int, col as int),
    {
        proof {
            assert(self.data.len() == self@.data.len());
            lemma_cell_bounds(self@.rows as int, self@.cols as int, row as int, col as int);
        }
        &self.data[row * self.cols + col]
    }
}

impl<T: Clone> Clone for Matrix<T> {
    fn clone(&self) -> (copy: Self)
        ensures
            copy@.rows == self@.rows,
            copy@.cols == self@.cols,
            copy@.data.len() == self@.data.len(),
            forall|i: int|
                0 <= i < self@.data.len() ==> cloned(self@.data[i], #[trigger] copy@.data[i]),
    {
        Self { rows: self.rows, cols: self.cols, data: self.data.clone() }
    }
}

impl<T: Default + Clone> Matrix<T> {
    #[must_use]
    pub fn zeros(rows: usize, cols: usize) -> (matrix: Self)
        requires
            rows * cols <= usize::MAX,
        ensures
            matrix@.rows == rows,
            matrix@.cols == cols,
            matrix@.wf(),
            exists|zero: T| #[trigger]
                call_ensures(T::default, (), zero) && forall|i: int|
                    0 <= i < matrix@.data.len() ==> cloned(zero, #[trigger] matrix@.data[i]),
    {
        let len: usize = rows * cols;
        Self::from_vec(rows, cols, vec![T::default(); len])
    }
}

/// What is put into a matrix comes out of it: the dimensions, the storage, and
/// every element at its row and its column.
pub proof fn matrices_give_back_what_they_hold<T>(
    rows: usize,
    cols: usize,
    data: Vec<T>,
    matrix: Matrix<T>,
    row: usize,
    col: usize,
)
    requires
        call_ensures(Matrix::<T>::from_vec, (rows, cols, data), matrix),
        data@.len() == rows * cols,
        row < rows,
        col < cols,
    ensures
        forall|r: usize| #[trigger] call_ensures(Matrix::<T>::rows, (&matrix,), r) ==> r == rows,
        forall|c: usize| #[trigger] call_ensures(Matrix::<T>::cols, (&matrix,), c) ==> c == cols,
        forall|square: bool| #[trigger]
            call_ensures(Matrix::<T>::is_square, (&matrix,), square) ==> square == (rows == cols),
        forall|slice: &[T]| #[trigger]
            call_ensures(Matrix::<T>::as_slice, (&matrix,), slice) ==> slice@ == data@,
        forall|slice: &[T]| #[trigger]
            call_ensures(Matrix::<T>::row, (&matrix, row), slice) ==> slice@ == data@.subrange(
                row * cols,
                row * cols + cols,
            ),
        forall|element: &T| #[trigger]
            call_ensures(Matrix::<T>::get, (&matrix, row, col), element) ==> *element == data@[row
                * cols + col],
{
}

/// A matrix of zeros holds what the element type takes for zero, everywhere.
pub proof fn zeros_are_zero<T: Default + Clone>(rows: usize, cols: usize, matrix: Matrix<T>)
    requires
        call_ensures(Matrix::<T>::zeros, (rows, cols), matrix),
    ensures
        matrix@.rows == rows,
        matrix@.cols == cols,
        matrix@.data.len() == rows * cols,
        exists|zero: T| #[trigger]
            call_ensures(T::default, (), zero) && forall|i: int|
                0 <= i < rows * cols ==> cloned(zero, #[trigger] matrix@.data[i]),
{
}

} // verus!
