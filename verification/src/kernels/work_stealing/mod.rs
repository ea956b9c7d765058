//! Kernels that hand row groups to Rayon's work-stealing scheduler.

pub mod ikj;
pub mod tiled;

pub use ikj::RayonIkjGemm;
pub use tiled::RayonTiledGemm;
