use vstd::prelude::*;
use rayon::iter::{IndexedParallelIterator, ParallelIterator};
use rayon::slice::ParallelSliceMut;
use crate::element::Element;
use crate::kernels::common::{
    fill, ikj_rows, lemma_part_may_accumulate, lemma_parts_accumulated, lemma_rows_are_product,
    lemma_square_rows, lemma_zero_rows_may_accumulate, rows_accumulated, rows_may_accumulate,
};
use crate::kernels::GemmKernel;
use crate::matrix::Matrix;

verus! {

/// Rayon work-stealing implementation of the contiguous `i-k-j` kernel.
///
/// It runs in the currently installed Rayon pool. The benchmark runner
/// installs a per-thread-count pool, avoiding global-pool configuration and
/// ensuring that pool construction is outside the timed region.
pub struct RayonIkjGemm;

/// Calls `ParallelSliceMut::par_chunks_exact_mut` and `for_each` over the
/// enumerated chunks.
///
/// Rayon cuts `output` into non-overlapping chunks of `n` elements, numbers
/// them from zero in the order of the storage, and calls the closure exactly
/// once with each; the call returns when all of them have returned. So the
/// chunk with number `row` ends up as `ikj_rows` leaves it. On which threads,
/// and in which order, is left open.
#[verifier::external_body]
fn par_chunks_ikj<T: Element>(lhs: &[T], rhs: &[T], output: &mut [T], n: usize)
    requires
        n > 0,
        old(output)@.len() % (n as nat) == 0,
        forall|row: int|
            0 <= row < old(output)@.len() / (n as nat) ==> rows_may_accumulate(
                lhs@,
                rhs@,
                #[trigger] old(output)@.subrange(row * n, (row + 1) * n),
                row,
                n as int,
            ),
    ensures
        final(output)@.len() == old(output)@.len(),
        forall|row: int|
            0 <= row < old(output)@.len() / (n as nat) ==> rows_accumulated(
                lhs@,
                rhs@,
                old(output)@.subrange(row * n, (row + 1) * n),
                #[trigger] final(output)@.subrange(row * n, (row + 1) * n),
                row,
                n as int,
            ),
{
    output.par_chunks_exact_mut(n).enumerate().for_each(
        |(row, output_row)| ikj_rows(lhs, rhs, output_row, row, n),
    );
}

impl<T: Element> GemmKernel<T> for RayonIkjGemm {
    open spec fn label(&self) -> Seq<char> {
        "rayon-ikj"@
    }

    open spec fn supports(&self, n: nat) -> bool {
        true
    }

    fn name(&self) -> (name: &'static str) {
        "rayon-ikj"
    }

    fn compute(&self, lhs: &Matrix<T>, rhs: &Matrix<T>, output: &mut Matrix<T>) {
        let n = lhs.cols();
        let zero = T::default();
        fill(output.as_mut_slice(), zero);
        let ghost cleared = output@;
        proof {
            lemma_zero_rows_may_accumulate(lhs@, rhs@, cleared, zero);
            lemma_square_rows(n as int);
            assert forall|row: int| 0 <= row < n implies rows_may_accumulate(
                lhs@.data,
                rhs@.data,
                #[trigger] cleared.data.subrange(row * n, (row + 1) * n),
                row,
                n as int,
            ) by {
                lemma_part_may_accumulate(lhs@.data, rhs@.data, cleared.data, n as int, row, row + 1);
            }
        }
        par_chunks_ikj(lhs.as_slice(), rhs.as_slice(), output.as_mut_slice(), n);
        proof {
            let starts = |p: int| p;
            lemma_parts_accumulated(
                lhs@.data,
                rhs@.data,
                cleared.data,
                output@.data,
                n as int,
                n as int,
                starts,
            );
            lemma_rows_are_product(lhs@, rhs@, cleared, output@, zero);
        }
    }
}

} // verus!
