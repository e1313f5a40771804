use vstd::prelude::*;
use std::sync::Arc;

verus! {

#[verifier::external_type_specification]
#[verifier::external_body]
pub struct ExCpuPool(futures_cpupool::CpuPool);

/// The number of worker threads a pool was built with: the bound on the
/// blocking tasks it runs at once.
pub uninterp spec fn pool_thread_count(p: futures_cpupool::CpuPool) -> usize;

/// Relies on futures_cpupool::CpuPool::new: builds a pool with exactly
/// `num_threads` worker threads (the builder stores and spawns that
/// size).  The builder asserts that the size is positive, so zero is
/// excluded here.
#[verifier::external_body]
fn new_pool(num_threads: usize) -> (r: futures_cpupool::CpuPool)
    requires
        num_threads >= 1,
    ensures
        pool_thread_count(r) == num_threads,
{
    futures_cpupool::CpuPool::new(num_threads)
}

/// Relies on std's Arc::clone: the clone is the same shared value.
#[verifier::external_body]
pub(crate) fn arc_dup<T>(a: &Arc<T>) -> (r: Arc<T>)
    ensures
        r == *a,
{
    a.clone()
}

/// The component shared by every request: user state and the pool for
/// blocking work.  Built once at startup and never mutated afterwards.
pub struct Shared<S> {
    /// The bounded worker pool.  Handler code runs on the dispatch thread;
    /// anything blocking must be scheduled here instead.
    pub pool: futures_cpupool::CpuPool,
    /// User-supplied application state.  Concurrent mutation is governed
    /// by this state's own synchronization, not by the core.
    pub state: S,
}

impl<S> Shared<S> {
    pub fn new(num_threads: usize, state: S) -> (s: Shared<S>)
        requires
            num_threads >= 1,
        ensures
            s.state == state,
            pool_thread_count(s.pool) == num_threads,
    {
        Shared { pool: new_pool(num_threads), state }
    }
}

} // verus!
