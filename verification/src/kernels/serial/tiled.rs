use vstd::prelude::*;
use crate::element::Element;
use crate::kernels::common::{
    fill, lemma_rows_are_product, lemma_zero_rows_may_accumulate, tiled_rows,
};
use crate::kernels::GemmKernel;
use crate::matrix::Matrix;

verus! {

/// Sequential cache-blocked GEMM. A block size of 64 is a practical default,
/// while the CLI permits empirical tuning per target CPU and precision.
pub struct TiledGemm {
    block_size: usize,
}

impl TiledGemm {
    #[verifier::type_invariant]
    spec fn wf(self) -> bool {
        self.block_size > 0
    }

    /// The edge length of a tile.
    pub closed spec fn edge(self) -> nat {
        self.block_size as nat
    }

    #[must_use]
    pub fn new(block_size: usize) -> (kernel: Self)
        requires
            block_size > 0,
        ensures
            kernel.edge() == block_size,
    {
        Self { block_size }
    }
}

impl<T: Element> GemmKernel<T> for TiledGemm {
    open spec fn label(&self) -> Seq<char> {
        "tiled"@
    }

    open spec fn supports(&self, n: nat) -> bool {
        true
    }

    fn name(&self) -> (name: &'static str) {
        "tiled"
    }

    fn compute(&self, lhs: &Matrix<T>, rhs: &Matrix<T>, output: &mut Matrix<T>) {
        proof {
            use_type_invariant(self);
        }
        let n = lhs.cols();
        let zero = T::default();
        fill(output.as_mut_slice(), zero);
        let ghost cleared = output@;
        proof {
            lemma_zero_rows_may_accumulate(lhs@, rhs@, cleared, zero);
        }
        tiled_rows(
            lhs.as_slice(),
            rhs.as_slice(),
            output.as_mut_slice(),
            0,
            n,
            self.block_size,
        );
        proof {
            lemma_rows_are_product(lhs@, rhs@, cleared, output@, zero);
        }
    }
}

} // verus!
