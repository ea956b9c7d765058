//! The matrices that are multiplied.

use vstd::prelude::*;
use vstd::arithmetic::div_mod::{
    lemma_add_mod_noop, lemma_fundamental_div_mod, lemma_fundamental_div_mod_converse,
};
use crate::matrix::Matrix;

verus! {

/// The fraction of the left input at row `row` and column `col`, as numerator
/// and denominator.
pub open spec fn lhs_fraction(row: int, col: int) -> (usize, usize) {
    (((row * 17 + col * 13) % 23) as usize, 23)
}

/// The fraction of the right input at row `row` and column `col`, as numerator
/// and denominator.
pub open spec fn rhs_fraction(row: int, col: int) -> (usize, usize) {
    (((row * 7 + col * 19) % 29) as usize, 29)
}

/// The left input starts at zero, and steps by 17 from row to row and by 13 from
/// column to column, modulo 23. All fractions are below one.
pub proof fn lhs_steps_evenly(row: int, col: int)
    requires
        0 <= row,
        0 <= col,
    ensures
        lhs_fraction(0, 0) == (0usize, 23usize),
        lhs_fraction(row + 1, col).0 == (lhs_fraction(row, col).0 + 17) % 23,
        lhs_fraction(row, col + 1).0 == (lhs_fraction(row, col).0 + 13) % 23,
        (17 * row + 13 * col - lhs_fraction(row, col).0) % 23 == 0,
        lhs_fraction(row, col).0 < lhs_fraction(row, col).1,
        lhs_fraction(row, col).1 == 23,
{
    let sum = row * 17 + col * 13;
    lemma_add_mod_noop(sum, 17, 23);
    lemma_add_mod_noop(sum, 13, 23);
    lemma_fundamental_div_mod(sum, 23);
    lemma_fundamental_div_mod_converse(sum - sum % 23, 23, sum / 23, 0);
}

/// The right input starts at zero, and steps by 7 from row to row and by 19 from
/// column to column, modulo 29. All fractions are below one.
pub proof fn rhs_steps_evenly(row: int, col: int)
    requires
        0 <= row,
        0 <= col,
    ensures
        rhs_fraction(0, 0) == (0usize, 29usize),
        rhs_fraction(row + 1, col).0 == (rhs_fraction(row, col).0 + 7) % 29,
        rhs_fraction(row, col + 1).0 == (rhs_fraction(row, col).0 + 19) % 29,
        (7 * row + 19 * col - rhs_fraction(row, col).0) % 29 == 0,
        rhs_fraction(row, col).0 < rhs_fraction(row, col).1,
        rhs_fraction(row, col).1 == 29,
{
    let sum = row * 7 + col * 19;
    lemma_add_mod_noop(sum, 7, 29);
    lemma_add_mod_noop(sum, 19, 29);
    lemma_fundamental_div_mod(sum, 29);
    lemma_fundamental_div_mod_converse(sum - sum % 29, 29, sum / 29, 0);
}

/// Square inputs of dimension `n`, made of fractions below one that `fraction`
/// turns from numerator and denominator into elements.
pub fn benchmark_inputs<T, F: Copy + Fn(usize, usize) -> T>(n: usize, fraction: F) -> (inputs: (
    Matrix<T>,
    Matrix<T>,
))
    requires
        n * n <= usize::MAX,
        forall|numerator: usize, denominator: usize|
            numerator < denominator ==> #[trigger] fraction.requires((numerator, denominator)),
    ensures
        inputs.0@.rows == n && inputs.0@.cols == n && inputs.0@.wf(),
        inputs.1@.rows == n && inputs.1@.cols == n && inputs.1@.wf(),
        forall|row: int, col: int|
            0 <= row < n && 0 <= col < n ==> fraction.ensures(
                lhs_fraction(row, col),
                #[trigger] inputs.0@.at(row, col),
            ),
        forall|row: int, col: int|
            0 <= row < n && 0 <= col < n ==> fraction.ensures(
                rhs_fraction(row, col),
                #[trigger] inputs.1@.at(row, col),
            ),
{
    proof {
        if n > 30 {
            assert(30 * n <= n * n) by (nonlinear_arith)
                requires
                    n > 30,
            ;
        }
    }
    let lhs_entry = |row: usize, col: usize| -> (entry: T)
        requires
            row < n,
            col < n,
        ensures
            fraction.ensures(lhs_fraction(row as int, col as int), entry),
        { fraction((row * 17 + col * 13) % 23, 23) };
    let lhs = Matrix::from_fn(n, n, lhs_entry);
    let rhs_entry = |row: usize, col: usize| -> (entry: T)
        requires
            row < n,
            col < n,
        ensures
            fraction.ensures(rhs_fraction(row as int, col as int), entry),
        { fraction((row * 7 + col * 19) % 29, 29) };
    let rhs = Matrix::from_fn(n, n, rhs_entry);
    proof {
        assert forall|row: int, col: int| 0 <= row < n && 0 <= col < n implies fraction.ensures(
            lhs_fraction(row, col),
            #[trigger] lhs@.at(row, col),
        ) by {
            assert(lhs_entry.ensures((row as usize, col as usize), lhs@.at(row, col)));
        }
        assert forall|row: int, col: int| 0 <= row < n && 0 <= col < n implies fraction.ensures(
            rhs_fraction(row, col),
            #[trigger] rhs@.at(row, col),
        ) by {
            assert(rhs_entry.ensures((row as usize, col as usize), rhs@.at(row, col)));
        }
    }
    (lhs, rhs)
}

} // verus!
