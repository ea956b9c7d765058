use vstd::prelude::*;
use rayon::{ThreadPool, ThreadPoolBuildError};
use crate::element::Element;
use crate::kernels::pool::{build_gives, granted_threads, pool_threads, start_pool, KernelError};
use crate::kernels::GemmKernel;
use crate::matrix::Matrix;
use super::chunks::static_product;

verus! {

/// Fixed, contiguous row chunks on a persistent thread pool.
///
/// This is the Rust counterpart to OpenMP's `schedule(static)`: worker `p`
/// always receives the same consecutive range of rows, with no work stealing.
/// The pool is built once in [`StaticIkjGemm::new`], so thread creation stays
/// outside the timed `compute` call, matching the Rayon kernels.
pub struct StaticIkjGemm {
    pool: ThreadPool,
}

impl StaticIkjGemm {
    /// The number of workers, each of which needs a row.
    pub closed spec fn workers(self) -> nat {
        pool_threads(self.pool)
    }

    /// `kernel` runs on the pool, or reports why the pool was not built.
    pub open spec fn made_of(
        built: Result<ThreadPool, ThreadPoolBuildError>,
        kernel: Result<Self, KernelError>,
    ) -> bool {
        match built {
            Ok(pool) => kernel matches Ok(kernel) && kernel.workers() == pool_threads(pool),
            Err(error) => kernel matches Err(e) && e == KernelError::PoolBuild(error),
        }
    }

    /// Fails only where the pool cannot be built, and with the pool's error.
    pub fn new(threads: usize) -> (kernel: Result<Self, KernelError>)
        requires
            threads > 0,
        ensures
            exists|built: Result<ThreadPool, ThreadPoolBuildError>| #[trigger]
                build_gives(threads, built) && Self::made_of(built, kernel),
            kernel matches Ok(kernel) ==> kernel.workers() == granted_threads(threads as nat),
    {
        Self::from_build(start_pool(threads))
    }

    /// The kernel that runs on a pool, if the pool was built.
    pub fn from_build(built: Result<ThreadPool, ThreadPoolBuildError>) -> (kernel: Result<
        Self,
        KernelError,
    >)
        ensures
            Self::made_of(built, kernel),
    {
        match built {
            Ok(pool) => Ok(Self { pool }),
            Err(error) => Err(KernelError::PoolBuild(error)),
        }
    }

    /// The number of workers.
    pub fn threads(&self) -> (threads: usize)
        ensures
            threads == self.workers(),
    {
        self.pool.current_num_threads()
    }
}

impl<T: Element> GemmKernel<T> for StaticIkjGemm {
    open spec fn label(&self) -> Seq<char> {
        "static-ikj"@
    }

    /// There is at least one row per worker.
    open spec fn supports(&self, n: nat) -> bool {
        0 < self.workers() <= n
    }

    fn name(&self) -> (name: &'static str) {
        "static-ikj"
    }

    fn compute(&self, lhs: &Matrix<T>, rhs: &Matrix<T>, output: &mut Matrix<T>) {
        static_product(&self.pool, lhs, rhs, output, None)
    }
}

} // verus!
