use vstd::prelude::*;
use rayon::{ThreadPool, ThreadPoolBuildError};
use crate::element::Element;
use crate::kernels::pool::{build_gives, granted_threads, pool_threads, start_pool, KernelError};
use crate::kernels::GemmKernel;
use crate::matrix::Matrix;
use super::chunks::static_product;

verus! {

/// Fixed row chunks on a persistent thread pool executing 2D cache-blocked GEMM.
pub struct StaticTiledGemm {
    pool: ThreadPool,
    block_size: usize,
}

impl StaticTiledGemm {
    #[verifier::type_invariant]
    spec fn wf(self) -> bool {
        self.block_size > 0
    }

    /// The number of workers, each of which needs a row.
    pub closed spec fn workers(self) -> nat {
        pool_threads(self.pool)
    }

    /// The edge length of a tile.
    pub closed spec fn edge(self) -> nat {
        self.block_size as nat
    }

    /// `kernel` runs on the pool with tiles of that edge length, or reports why
    /// the pool was not built.
    pub open spec fn made_of(
        built: Result<ThreadPool, ThreadPoolBuildError>,
        block_size: usize,
        kernel: Result<Self, KernelError>,
    ) -> bool {
        match built {
            Ok(pool) => kernel matches Ok(kernel) && kernel.workers() == pool_threads(pool)
                && kernel.edge() == block_size,
            Err(error) => kernel matches Err(e) && e == KernelError::PoolBuild(error),
        }
    }

    /// Fails only where the pool cannot be built, and with the pool's error.
    pub fn new(threads: usize, block_size: usize) -> (kernel: Result<Self, KernelError>)
        requires
            threads > 0,
            block_size > 0,
        ensures
            exists|built: Result<ThreadPool, ThreadPoolBuildError>| #[trigger]
                build_gives(threads, built) && Self::made_of(built, block_size, kernel),
            kernel matches Ok(kernel) ==> kernel.workers() == granted_threads(threads as nat)
                && kernel.edge() == block_size,
    {
        Self::from_build(start_pool(threads), block_size)
    }

    /// The kernel that runs on a pool, if the pool was built.
    pub fn from_build(
        built: Result<ThreadPool, ThreadPoolBuildError>,
        block_size: usize,
    ) -> (kernel: Result<Self, KernelError>)
        requires
            block_size > 0,
        ensures
            Self::made_of(built, block_size, kernel),
    {
        match built {
            Ok(pool) => Ok(Self { pool, block_size }),
            Err(error) => Err(KernelError::PoolBuild(error)),
        }
    }

    /// The number of workers.
    pub fn threads(&self) -> (threads: usize)
        ensures
            threads == self.workers(),
    {
        self.pool.current_num_threads()
    }
}

impl<T: Element> GemmKernel<T> for StaticTiledGemm {
    open spec fn label(&self) -> Seq<char> {
        "static-tiled"@
    }

    /// There is at least one row per worker.
    open spec fn supports(&self, n: nat) -> bool {
        0 < self.workers() <= n
    }

    fn name(&self) -> (name: &'static str) {
        "static-tiled"
    }

    fn compute(&self, lhs: &Matrix<T>, rhs: &Matrix<T>, output: &mut Matrix<T>) {
        proof {
            use_type_invariant(self);
        }
        static_product(&self.pool, lhs, rhs, output, Some(self.block_size))
    }
}

} // verus!
