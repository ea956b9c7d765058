//! Kernels that run in a thread pool of their own.

use vstd::prelude::*;
use rayon::{ThreadPool, ThreadPoolBuildError};
use crate::element::Element;
use crate::kernels::pool::{pool_threads, KernelError};
use crate::kernels::{gemm_dimensions, is_product, product_allowed, GemmKernel};
use crate::matrix::Matrix;

verus! {

/// A kernel that runs in the currently installed Rayon pool, together with the
/// pool that is installed for it.
///
/// The pool is built once, so thread creation stays outside the timed `compute`
/// call.
pub struct Pooled<K> {
    pool: ThreadPool,
    kernel: K,
}

impl<K> Pooled<K> {
    /// The number of threads that share the work.
    pub closed spec fn workers(self) -> nat {
        pool_threads(self.pool)
    }

    /// The kernel that does the work.
    pub closed spec fn inner(self) -> K {
        self.kernel
    }

    /// The kernel in its pool, if the pool was built.
    pub fn from_build(built: Result<ThreadPool, ThreadPoolBuildError>, kernel: K) -> (pooled:
        Result<Self, KernelError>)
        ensures
            match built {
                Ok(pool) => pooled matches Ok(pooled) && pooled.workers() == pool_threads(pool)
                    && pooled.inner() == kernel,
                Err(error) => pooled matches Err(e) && e == KernelError::PoolBuild(error),
            },
    {
        match built {
            Ok(pool) => Ok(Self { pool, kernel }),
            Err(error) => Err(KernelError::PoolBuild(error)),
        }
    }

    pub fn kernel(&self) -> (kernel: &K)
        ensures
            *kernel == self.inner(),
    {
        &self.kernel
    }
}

/// Calls `ThreadPool::install`, which runs a closure within the pool, waits for
/// it and returns what it returned. The closure makes one call of
/// [`GemmKernel::compute`], so what that call promises holds afterwards.
#[verifier::external_body]
fn install_compute<T: Element, K: GemmKernel<T>>(
    pool: &ThreadPool,
    kernel: &K,
    lhs: &Matrix<T>,
    rhs: &Matrix<T>,
    output: &mut Matrix<T>,
)
    requires
        gemm_dimensions(lhs@, rhs@, old(output)@),
        kernel.supports(lhs@.rows),
        product_allowed(lhs@, rhs@),
    ensures
        is_product(lhs@, rhs@, final(output)@),
{
    pool.install(|| kernel.compute(lhs, rhs, output))
}

impl<T: Element, K: GemmKernel<T>> GemmKernel<T> for Pooled<K> {
    open spec fn label(&self) -> Seq<char> {
        self.inner().label()
    }

    open spec fn supports(&self, n: nat) -> bool {
        self.inner().supports(n)
    }

    fn name(&self) -> (name: &'static str) {
        self.kernel.name()
    }

    fn compute(&self, lhs: &Matrix<T>, rhs: &Matrix<T>, output: &mut Matrix<T>) {
        install_compute(&self.pool, &self.kernel, lhs, rhs, output)
    }
}

} // verus!
