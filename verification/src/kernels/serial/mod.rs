//! Kernels that run on the calling thread.

pub mod ikj;
pub mod naive;
pub mod tiled;

pub use ikj::IkjGemm;
pub use naive::NaiveGemm;
pub use tiled::TiledGemm;
