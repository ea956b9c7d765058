//! Building blocks for benchmarking dense, row-major matrix products.
//!
//! Kernels deliberately overwrite their output matrix: after
//! `kernel.compute(&a, &b, &mut c)`, `c == a * b`.

pub mod benchmark;
pub mod cli;
pub mod element;
pub mod kernels;
pub mod matrix;
pub mod text;

pub use element::Element;
pub use kernels::GemmKernel;
pub use matrix::Matrix;
