//! The kernel that a configuration is measured with.

use vstd::prelude::*;
use rayon::{ThreadPool, ThreadPoolBuildError};
use crate::cli::KernelChoice;
use crate::element::Element;
use crate::kernels::pool::{
    build_gives, granted_threads, pool_threads, start_pool, KernelError,
};
use crate::kernels::pooled::Pooled;
use crate::kernels::{
    GemmKernel, IkjGemm, NaiveGemm, RayonIkjGemm, RayonTiledGemm, StaticIkjGemm, StaticTiledGemm,
    TiledGemm,
};
use crate::matrix::Matrix;

verus! {

/// A kernel that runs on CPUs, with everything that it needs built beforehand.
pub enum CpuKernel {
    Naive(NaiveGemm),
    Ikj(IkjGemm),
    Tiled(TiledGemm),
    RayonIkj(Pooled<RayonIkjGemm>),
    RayonTiled(Pooled<RayonTiledGemm>),
    StaticIkj(StaticIkjGemm),
    StaticTiled(StaticTiledGemm),
}

impl CpuKernel {
    /// The choice that asks for the kernel.
    pub open spec fn choice(self) -> KernelChoice {
        match self {
            CpuKernel::Naive(_) => KernelChoice::Naive,
            CpuKernel::Ikj(_) => KernelChoice::Ikj,
            CpuKernel::Tiled(_) => KernelChoice::Tiled,
            CpuKernel::RayonIkj(_) => KernelChoice::RayonIkj,
            CpuKernel::RayonTiled(_) => KernelChoice::RayonTiled,
            CpuKernel::StaticIkj(_) => KernelChoice::StaticIkj,
            CpuKernel::StaticTiled(_) => KernelChoice::StaticTiled,
        }
    }

    /// The number of threads of the kernel's pool, where it has one.
    pub open spec fn workers(self) -> Option<nat> {
        match self {
            CpuKernel::RayonIkj(kernel) => Some(kernel.workers()),
            CpuKernel::RayonTiled(kernel) => Some(kernel.workers()),
            CpuKernel::StaticIkj(kernel) => Some(kernel.workers()),
            CpuKernel::StaticTiled(kernel) => Some(kernel.workers()),
            _ => None,
        }
    }

    /// The edge length of the kernel's tiles, where it works by tiles.
    pub open spec fn edge(self) -> Option<nat> {
        match self {
            CpuKernel::Tiled(kernel) => Some(kernel.edge()),
            CpuKernel::RayonTiled(kernel) => Some(kernel.inner().edge()),
            CpuKernel::StaticTiled(kernel) => Some(kernel.edge()),
            _ => None,
        }
    }

    /// The kernel is the one that a choice asks for, with as many threads as
    /// its pool was granted and with the tiles that were asked for.
    pub open spec fn built_for(
        self,
        choice: KernelChoice,
        threads: usize,
        block_size: usize,
    ) -> bool {
        &&& self.choice() == choice
        &&& self.workers() matches Some(workers) ==> workers == granted_threads(threads as nat)
        &&& self.edge() matches Some(edge) ==> edge == block_size
    }

    /// The kernel can multiply matrices of dimension `n`: a static kernel needs
    /// a row per worker, and a group of `rayon-tiled` has to be addressable.
    pub open spec fn fits(self, n: nat) -> bool {
        match self {
            CpuKernel::RayonTiled(kernel) => kernel.inner().edge() * n <= usize::MAX,
            CpuKernel::StaticIkj(kernel) => 0 < kernel.workers() <= n,
            CpuKernel::StaticTiled(kernel) => 0 < kernel.workers() <= n,
            _ => true,
        }
    }

    /// Tests whether the kernel can multiply matrices of dimension `n`.
    pub fn can_multiply(&self, n: usize) -> (can: bool)
        ensures
            can == self.fits(n as nat),
    {
        match self {
            CpuKernel::RayonTiled(kernel) => kernel.kernel().can_group(n),
            CpuKernel::StaticIkj(kernel) => 0 < kernel.threads() && kernel.threads() <= n,
            CpuKernel::StaticTiled(kernel) => 0 < kernel.threads() && kernel.threads() <= n,
            _ => true,
        }
    }
}

impl KernelChoice {
    /// Builds the kernel, with its pool, before anything is timed. There is
    /// none for a choice that does not run on CPUs.
    ///
    /// Fails only where the pool cannot be built, and with the pool's error.
    pub fn build(self, threads: usize, block_size: usize) -> (built: Result<
        Option<CpuKernel>,
        KernelError,
    >)
        requires
            self.parallel() ==> threads > 0,
            self.tiled() ==> block_size > 0,
        ensures
            built matches Ok(None) <==> self == KernelChoice::Mps,
            built matches Ok(Some(kernel)) ==> kernel.built_for(self, threads, block_size),
            built is Err ==> self.parallel(),
            self.parallel() ==> exists|outcome: Result<ThreadPool, ThreadPoolBuildError>| #[trigger]
                build_gives(threads, outcome) && match outcome {
                    Ok(pool) => built matches Ok(Some(kernel)) && kernel.workers() == Some(
                        pool_threads(pool),
                    ),
                    Err(error) => built matches Err(e) && e == KernelError::PoolBuild(error),
                },
    {
        match self {
            KernelChoice::Naive => Ok(Some(CpuKernel::Naive(NaiveGemm))),
            KernelChoice::Ikj => Ok(Some(CpuKernel::Ikj(IkjGemm))),
            KernelChoice::Tiled => Ok(Some(CpuKernel::Tiled(TiledGemm::new(block_size)))),
            KernelChoice::Mps => Ok(None),
            _ => match self.on_pool(start_pool(threads), block_size) {
                Ok(kernel) => Ok(Some(kernel)),
                Err(error) => Err(error),
            },
        }
    }

    /// The kernel that runs on a pool, if the pool was built.
    pub fn on_pool(
        self,
        built: Result<ThreadPool, ThreadPoolBuildError>,
        block_size: usize,
    ) -> (kernel: Result<CpuKernel, KernelError>)
        requires
            self.parallel(),
            self.tiled() ==> block_size > 0,
        ensures
            match built {
                Ok(pool) => kernel matches Ok(kernel) && kernel.choice() == self
                    && kernel.workers() == Some(pool_threads(pool)) && (
                kernel.edge() matches Some(edge) ==> edge == block_size),
                Err(error) => kernel matches Err(e) && e == KernelError::PoolBuild(error),
            },
    {
        match self {
            KernelChoice::RayonIkj => match Pooled::from_build(built, RayonIkjGemm) {
                Ok(kernel) => Ok(CpuKernel::RayonIkj(kernel)),
                Err(error) => Err(error),
            },
            KernelChoice::RayonTiled => match Pooled::from_build(
                built,
                RayonTiledGemm::new(block_size),
            ) {
                Ok(kernel) => Ok(CpuKernel::RayonTiled(kernel)),
                Err(error) => Err(error),
            },
            KernelChoice::StaticIkj => match StaticIkjGemm::from_build(built) {
                Ok(kernel) => Ok(CpuKernel::StaticIkj(kernel)),
                Err(error) => Err(error),
            },
            _ => match StaticTiledGemm::from_build(built, block_size) {
                Ok(kernel) => Ok(CpuKernel::StaticTiled(kernel)),
                Err(error) => Err(error),
            },
        }
    }
}

impl<T: Element> GemmKernel<T> for CpuKernel {
    open spec fn label(&self) -> Seq<char> {
        self.choice().label_spec()
    }

    open spec fn supports(&self, n: nat) -> bool {
        self.fits(n)
    }

    fn name(&self) -> (name: &'static str) {
        match self {
            CpuKernel::Naive(kernel) => GemmKernel::<T>::name(kernel),
            CpuKernel::Ikj(kernel) => GemmKernel::<T>::name(kernel),
            CpuKernel::Tiled(kernel) => GemmKernel::<T>::name(kernel),
            CpuKernel::RayonIkj(kernel) => GemmKernel::<T>::name(kernel),
            CpuKernel::RayonTiled(kernel) => GemmKernel::<T>::name(kernel),
            CpuKernel::StaticIkj(kernel) => GemmKernel::<T>::name(kernel),
            CpuKernel::StaticTiled(kernel) => GemmKernel::<T>::name(kernel),
        }
    }

    fn compute(&self, lhs: &Matrix<T>, rhs: &Matrix<T>, output: &mut Matrix<T>) {
        match self {
            CpuKernel::Naive(kernel) => kernel.compute(lhs, rhs, output),
            CpuKernel::Ikj(kernel) => kernel.compute(lhs, rhs, output),
            CpuKernel::Tiled(kernel) => kernel.compute(lhs, rhs, output),
            CpuKernel::RayonIkj(kernel) => kernel.compute(lhs, rhs, output),
            CpuKernel::RayonTiled(kernel) => kernel.compute(lhs, rhs, output),
            CpuKernel::StaticIkj(kernel) => kernel.compute(lhs, rhs, output),
            CpuKernel::StaticTiled(kernel) => kernel.compute(lhs, rhs, output),
        }
    }
}

} // verus!
