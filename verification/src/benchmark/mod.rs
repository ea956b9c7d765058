//! What is measured, in which order, and how often.

pub mod inputs;
pub mod kernel;
pub mod laws;
pub mod runs;
pub mod sweep;

pub use inputs::benchmark_inputs;
pub use kernel::CpuKernel;
pub use runs::{add_run, Run, RunSchedule};
pub use sweep::{Batch, Configuration};
