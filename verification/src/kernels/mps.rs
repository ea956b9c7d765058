//! How matrices are laid out for Metal Performance Shaders.

use vstd::prelude::*;
use crate::cli::Precision;
use crate::kernels::common::{assert_gemm_dimensions, dimension_fault, DimensionError};
use crate::matrix::Matrix;

verus! {

/// The element types that Metal Performance Shaders multiply natively.
#[derive(Clone, Copy, Debug, PartialEq, Eq, Structural)]
pub enum MpsDataType {
    Float16,
    Float32,
}

impl Precision {
    /// The data type of a precision. Double precision has none.
    pub open spec fn mps_data_type_spec(self) -> Option<MpsDataType> {
        match self {
            Precision::F16 => Some(MpsDataType::Float16),
            Precision::F32 => Some(MpsDataType::Float32),
            Precision::F64 => None,
        }
    }

    pub fn mps_data_type(self) -> (data_type: Option<MpsDataType>)
        ensures
            data_type == self.mps_data_type_spec(),
    {
        match self {
            Precision::F16 => Some(MpsDataType::Float16),
            Precision::F32 => Some(MpsDataType::Float32),
            Precision::F64 => None,
        }
    }
}

/// The buffers of a product: all three have the same shape.
#[derive(Clone, Copy, Debug, PartialEq, Eq, Structural)]
pub struct MpsLayout {
    /// The number of rows, and of columns.
    pub n: usize,
    /// The number of elements.
    pub count: usize,
    /// The number of bytes of a buffer.
    pub byte_len: usize,
    /// The number of bytes from one row to the next.
    pub row_bytes: usize,
}

impl MpsLayout {
    /// The rows lie one after the other, and fill the buffer.
    pub open spec fn packs(self, n: nat, elem_size: nat) -> bool {
        &&& self.n == n
        &&& self.count == n * n
        &&& self.byte_len == n * n * elem_size
        &&& self.row_bytes == n * elem_size
    }

    /// The layout of the buffers for matrices with elements of `elem_size`
    /// bytes.
    pub fn of<T>(
        lhs: &Matrix<T>,
        rhs: &Matrix<T>,
        output: &Matrix<T>,
        elem_size: usize,
    ) -> (layout: Result<MpsLayout, DimensionError>)
        requires
            lhs@.wf(),
            rhs@.wf(),
            output@.wf(),
            dimension_fault(lhs@, rhs@, output@) is None ==> lhs@.rows * lhs@.cols * elem_size
                <= usize::MAX,
        ensures
            match layout {
                Ok(layout) => dimension_fault(lhs@, rhs@, output@) is None && layout.packs(
                    lhs@.rows,
                    elem_size as nat,
                ),
                Err(error) => dimension_fault(lhs@, rhs@, output@) == Some(error),
            },
    {
        if let Err(error) = assert_gemm_dimensions(lhs, rhs, output) {
            return Err(error);
        }
        let n: usize = lhs.rows();
        proof {
            assert(n * elem_size <= n * n * elem_size) by (nonlinear_arith)
                requires
                    n > 0,
            ;
        }
        let count: usize = lhs.as_slice().len();
        Ok(MpsLayout { n, count, byte_len: count * elem_size, row_bytes: n * elem_size })
    }
}

/// Half and single precision have the data type of their width, and double
/// precision has none.
pub proof fn metal_data_types_have_the_width_of_the_precision(precision: Precision)
    ensures
        precision == Precision::F16 ==> precision.mps_data_type_spec() == Some(
            MpsDataType::Float16,
        ),
        precision == Precision::F32 ==> precision.mps_data_type_spec() == Some(
            MpsDataType::Float32,
        ),
        precision == Precision::F64 ==> precision.mps_data_type_spec() is None,
{
}

/// The buffer ends where its last row does.
pub proof fn mps_rows_fill_the_buffer(layout: MpsLayout, n: nat, elem_size: nat)
    requires
        layout.packs(n, elem_size),
    ensures
        layout.n == n,
        layout.count == layout.n * layout.n,
        layout.row_bytes == layout.n * elem_size,
        layout.count * elem_size == layout.byte_len,
        layout.n * layout.row_bytes == layout.byte_len,
{
    assert(n * (n * elem_size) == n * n * elem_size) by (nonlinear_arith);
}

} // verus!
