use vstd::prelude::*;
use crate::element::{
    accumulated, add_gives, is_zero, lemma_accumulate_step, may_accumulate, may_step, mul_gives,
    Element,
};
use crate::kernels::{gemm_dimensions, product_allowed, product_entry, GemmKernel};
use crate::matrix::{lemma_cell_bounds, lemma_cell_unique, Matrix};

verus! {

/// Sequential textbook kernel in the `i-j-k` order.
pub struct NaiveGemm;

/// Row `i` of `lhs` times column `j` of `rhs`.
fn dot<T: Element>(lhs: &Matrix<T>, rhs: &Matrix<T>, i: usize, j: usize) -> (sum: T)
    requires
        lhs@.wf(),
        rhs@.wf(),
        lhs@.rows == lhs@.cols,
        rhs@.rows == rhs@.cols,
        lhs@.cols == rhs@.rows,
        i < lhs@.rows,
        j < rhs@.cols,
        product_allowed(lhs@, rhs@),
    ensures
        product_entry(lhs@, rhs@, i as int, j as int, sum),
{
    let n = lhs.cols();
    let zero = T::default();
    assert(is_zero(zero));
    assert(may_accumulate(lhs@.data, rhs@.data, n as int, i as int, j as int, 0, n as int, zero));
    let mut sum = zero;
    let mut k: usize = 0;
    while k < n
        invariant
            k <= n,
            lhs@.wf(),
            rhs@.wf(),
            lhs@.rows == n,
            lhs@.cols == n,
            rhs@.rows == n,
            rhs@.cols == n,
            i < n,
            j < n,
            may_accumulate(
                lhs@.data,
                rhs@.data,
                n as int,
                i as int,
                j as int,
                0,
                n as int,
                zero,
            ),
            accumulated(
                lhs@.data,
                rhs@.data,
                n as int,
                i as int,
                j as int,
                0,
                k as int,
                zero,
                sum,
            ),
        decreases n - k,
    {
        let ghost before = sum;
        let a = *lhs.get(i, k);
        let b = *rhs.get(k, j);
        assert(may_step(a, b, sum));
        let p = a * b;
        assert(mul_gives(a, b, p));
        sum = sum + p;
        assert(add_gives(before, p, sum));
        proof {
            lemma_accumulate_step(
                lhs@.data,
                rhs@.data,
                n as int,
                i as int,
                j as int,
                0,
                k as int,
                zero,
                before,
                sum,
            );
        }
        k += 1;
    }
    sum
}

impl<T: Element> GemmKernel<T> for NaiveGemm {
    open spec fn label(&self) -> Seq<char> {
        "naive-ijk"@
    }

    open spec fn supports(&self, n: nat) -> bool {
        true
    }

    fn name(&self) -> (name: &'static str) {
        "naive-ijk"
    }

    fn compute(&self, lhs: &Matrix<T>, rhs: &Matrix<T>, output: &mut Matrix<T>) {
        let n = lhs.cols();
        let mut i: usize = 0;
        while i < n
            invariant
                i <= n,
                n == lhs@.cols,
                gemm_dimensions(lhs@, rhs@, output@),
                product_allowed(lhs@, rhs@),
                forall|r: int, c: int|
                    0 <= r < i && 0 <= c < n ==> product_entry(
                        lhs@,
                        rhs@,
                        r,
                        c,
                        #[trigger] output@.at(r, c),
                    ),
            decreases n - i,
        {
            let mut j: usize = 0;
            while j < n
                invariant
                    i < n,
                    j <= n,
                    n == lhs@.cols,
                    gemm_dimensions(lhs@, rhs@, output@),
                    product_allowed(lhs@, rhs@),
                    forall|r: int, c: int|
                        0 <= r <= i && 0 <= c < n && (r == i ==> c < j) ==> product_entry(
                            lhs@,
                            rhs@,
                            r,
                            c,
                            #[trigger] output@.at(r, c),
                        ),
                decreases n - j,
            {
                let ghost before = output@;
                let sum = dot(lhs, rhs, i, j);
                proof {
                    lemma_cell_bounds(n as int, n as int, i as int, j as int);
                }
                let row = output.row_mut(i);
                row[j] = sum;
                proof {
                    assert forall|r: int, c: int|
                        0 <= r <= i && 0 <= c < n && (r == i ==> c <= j) implies product_entry(
                        lhs@,
                        rhs@,
                        r,
                        c,
                        #[trigger] output@.at(r, c),
                    ) by {
                        lemma_cell_bounds(n as int, n as int, r, c);
                        lemma_cell_unique(n as int, r, c);
                        lemma_cell_unique(n as int, i as int, j as int);
                        if r < i || c < j {
                            assert(product_entry(lhs@, rhs@, r, c, before.at(r, c)));
                        }
                    }
                }
                j += 1;
            }
            i += 1;
        }
    }
}

} // verus!
