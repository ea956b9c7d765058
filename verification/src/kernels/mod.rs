//! Dense GEMM kernels sharing one overwrite-style interface.

use vstd::prelude::*;
use crate::element::{accumulated, is_zero, may_accumulate, Element};
use crate::matrix::{Matrix, MatrixView};

pub mod common;
pub mod laws;
pub mod mps;
pub mod pool;
pub mod pooled;
pub mod serial;
pub mod static_threads;
pub mod work_stealing;

pub use pool::KernelError;
pub use pooled::Pooled;
pub use serial::{IkjGemm, NaiveGemm, TiledGemm};
pub use static_threads::{StaticIkjGemm, StaticTiledGemm};
pub use work_stealing::{RayonIkjGemm, RayonTiledGemm};

verus! {

/// All three matrices are square, of the same dimension, and not empty.
pub open spec fn gemm_dimensions<T>(
    lhs: MatrixView<T>,
    rhs: MatrixView<T>,
    output: MatrixView<T>,
) -> bool {
    &&& lhs.wf() && rhs.wf() && output.wf()
    &&& lhs.rows == lhs.cols && rhs.rows == rhs.cols && output.rows == output.cols
    &&& lhs.rows > 0
    &&& lhs.cols == rhs.rows
    &&& output.rows == lhs.rows
}

/// `value` is what row `i` of `lhs` times column `j` of `rhs` can come to: the
/// products are added to zero one after the other, in the order of the columns
/// of `lhs`.
pub open spec fn product_entry<T: Element>(
    lhs: MatrixView<T>,
    rhs: MatrixView<T>,
    i: int,
    j: int,
    value: T,
) -> bool {
    exists|zero: T| #[trigger]
        is_zero(zero) && accumulated(
            lhs.data,
            rhs.data,
            lhs.cols as int,
            i,
            j,
            0,
            lhs.cols as int,
            zero,
            value,
        )
}

/// `output` is the product of `lhs` and `rhs`.
pub open spec fn is_product<T: Element>(
    lhs: MatrixView<T>,
    rhs: MatrixView<T>,
    output: MatrixView<T>,
) -> bool {
    &&& output.wf()
    &&& output.rows == lhs.rows
    &&& output.cols == rhs.cols
    &&& forall|i: int, j: int|
        0 <= i < output.rows && 0 <= j < output.cols ==> product_entry(
            lhs,
            rhs,
            i,
            j,
            #[trigger] output.at(i, j),
        )
}

/// The element type allows every operation of that product.
pub open spec fn product_allowed<T: Element>(lhs: MatrixView<T>, rhs: MatrixView<T>) -> bool {
    forall|i: int, j: int, zero: T|
        0 <= i < lhs.rows && 0 <= j < rhs.cols && is_zero(zero) ==> #[trigger] may_accumulate(
            lhs.data,
            rhs.data,
            lhs.cols as int,
            i,
            j,
            0,
            lhs.cols as int,
            zero,
        )
}

/// A dense matrix product kernel that computes `output = lhs * rhs`.
///
/// All inputs must have compatible dimensions.
pub trait GemmKernel<T: Element>: Send + Sync {
    /// The name under which the kernel is reported.
    spec fn label(&self) -> Seq<char>;

    /// The kernel can multiply matrices of dimension `n`.
    spec fn supports(&self, n: nat) -> bool;

    fn name(&self) -> (name: &'static str)
        ensures
            name@ == self.label(),
    ;

    fn compute(&self, lhs: &Matrix<T>, rhs: &Matrix<T>, output: &mut Matrix<T>)
        requires
            gemm_dimensions(lhs@, rhs@, old(output)@),
            self.supports(lhs@.rows),
            product_allowed(lhs@, rhs@),
        ensures
            is_product(lhs@, rhs@, final(output)@),
    ;
}

} // verus!
