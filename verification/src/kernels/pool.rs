//! The thread pools that kernels run in.

use vstd::prelude::*;
use rayon::{ThreadPool, ThreadPoolBuildError, ThreadPoolBuilder};

verus! {

/// `rayon::ThreadPool`, of which only the number of threads is spoken of.
#[verifier::external_type_specification]
#[verifier::external_body]
pub struct ExThreadPool(ThreadPool);

/// `rayon::ThreadPoolBuildError`, which is carried through unread.
#[verifier::external_type_specification]
#[verifier::external_body]
pub struct ExThreadPoolBuildError(ThreadPoolBuildError);

/// What `ThreadPool::current_num_threads` returns. A pool that was built for a
/// stated number of threads keeps them for as long as it lives.
pub uninterp spec fn pool_threads(pool: ThreadPool) -> nat;

/// The most threads that a Rayon pool has, whatever it was asked for.
pub open spec fn max_pool_threads() -> nat {
    if usize::BITS == 64 {
        0xffff
    } else {
        0xff
    }
}

/// The number of threads of a pool that was asked for `threads`.
pub open spec fn granted_threads(threads: nat) -> nat {
    if threads < max_pool_threads() {
        threads
    } else {
        max_pool_threads()
    }
}

/// A pool has the threads that it was asked for, as long as Rayon can count
/// them in a quarter of the bits of a pointer.
pub proof fn small_pools_are_granted(threads: nat)
    ensures
        granted_threads(threads) <= threads,
        threads <= 255 ==> granted_threads(threads) == threads,
        usize::BITS == 64 && threads <= 65535 ==> granted_threads(threads) == threads,
        threads > 0 ==> granted_threads(threads) > 0,
{
}

/// `ThreadPool::current_num_threads` returns the number of threads in the pool.
pub assume_specification[ ThreadPool::current_num_threads ](pool: &ThreadPool) -> (threads: usize)
    ensures
        threads == pool_threads(*pool),
;

/// Calls `ThreadPoolBuilder::build` for a stated number of threads.
///
/// A pool that is built has that many threads, up to Rayon's own limit, which
/// its source sets by the width of a pointer. Whether it can be built is up to
/// the operating system, so success is not promised.
#[verifier::external_body]
fn build_pool(threads: usize) -> (built: Result<ThreadPool, ThreadPoolBuildError>)
    requires
        threads > 0,
    ensures
        built matches Ok(pool) ==> pool_threads(pool) == granted_threads(threads as nat),
{
    ThreadPoolBuilder::new().num_threads(threads).build()
}

/// `built` is what [`build_pool`] can return for that many threads: the pool,
/// or the error for which there is none.
pub closed spec fn build_gives(
    threads: usize,
    built: Result<ThreadPool, ThreadPoolBuildError>,
) -> bool {
    call_ensures(build_pool, (threads,), built)
}

/// Builds a pool, and returns what came of it.
pub(crate) fn start_pool(threads: usize) -> (built: Result<ThreadPool, ThreadPoolBuildError>)
    requires
        threads > 0,
    ensures
        build_gives(threads, built),
        built matches Ok(pool) ==> pool_threads(pool) == granted_threads(threads as nat),
{
    build_pool(threads)
}

/// Why a kernel could not be made.
#[derive(Debug)]
pub enum KernelError {
    /// The threads of its pool could not be started.
    PoolBuild(ThreadPoolBuildError),
}

} // verus!
