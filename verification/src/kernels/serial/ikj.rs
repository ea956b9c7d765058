use vstd::prelude::*;
use crate::element::Element;
use crate::kernels::common::{
    fill, ikj_rows, lemma_rows_are_product, lemma_zero_rows_may_accumulate,
};
use crate::kernels::GemmKernel;
use crate::matrix::Matrix;

verus! {

/// Sequential kernel in the contiguous `i-k-j` order.
pub struct IkjGemm;

impl<T: Element> GemmKernel<T> for IkjGemm {
    open spec fn label(&self) -> Seq<char> {
        "ikj"@
    }

    open spec fn supports(&self, n: nat) -> bool {
        true
    }

    fn name(&self) -> (name: &'static str) {
        "ikj"
    }

    fn compute(&self, lhs: &Matrix<T>, rhs: &Matrix<T>, output: &mut Matrix<T>) {
        let n = lhs.cols();
        let zero = T::default();
        fill(output.as_mut_slice(), zero);
        let ghost cleared = output@;
        proof {
            lemma_zero_rows_may_accumulate(lhs@, rhs@, cleared, zero);
        }
        ikj_rows(lhs.as_slice(), rhs.as_slice(), output.as_mut_slice(), 0, n);
        proof {
            lemma_rows_are_product(lhs@, rhs@, cleared, output@, zero);
        }
    }
}

} // verus!
