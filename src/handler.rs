use vstd::prelude::*;

use crate::pool::{same_queue, same_results, PoolCore};
use crate::task::Command;
use crate::worker::{lemma_count_some, live_fn};

verus! {

/// The capability handed to a running task. Each call acts on the pool at
/// once: a result is published, a follow-up task is queued and counted as in
/// flight. It is only valid while its worker is busy with that task.
pub struct TaskHandler {
    worker: usize,
}

impl TaskHandler {
    /// The worker whose task holds this handler.
    pub closed spec fn worker_id(&self) -> nat {
        self.worker as nat
    }

    /// Whether the handler may act on `pool`: its worker is running a task.
    pub open spec fn valid_for<T, D>(&self, pool: PoolCore<T, D>) -> bool {
        &&& pool.wf()
        &&& self.worker_id() < pool.states().len()
        &&& pool.states()[self.worker_id() as int] is Busy
    }

    pub fn new(worker: usize) -> (r: Self)
        ensures
            r.worker_id() == worker,
    {
        TaskHandler { worker }
    }

    pub fn worker(&self) -> (r: usize)
        ensures
            r == self.worker_id(),
    {
        self.worker
    }

    /// Queues a follow-up task at once, raising the in-flight counter. The
    /// handler's own worker is running, so the pool always accepts it.
    pub fn new_task<T, D>(&self, pool: &mut PoolCore<T, D>, task: T) -> (r: Result<(), T>)
        requires
            self.valid_for(*old(pool)),
            old(pool).in_flight() < usize::MAX,
        ensures
            self.valid_for(*final(pool)),
            r is Ok,
            final(pool).commands() == old(pool).commands().push(Command::NewTask(task)),
            final(pool).in_flight() == old(pool).in_flight() + 1,
            final(pool).accepted() == old(pool).accepted() + 1,
            final(pool).states() == old(pool).states(),
            same_results(*final(pool), *old(pool)),
            final(pool).started() == old(pool).started(),
            final(pool).dropped() == old(pool).dropped(),
    {
        proof {
            lemma_count_some(pool.states(), self.worker_id() as int, live_fn());
        }
        match pool.submit(task) {
            Ok(_) => Ok(()),
            Err(_) => unreached(),
        }
    }

    /// Publishes one result at once.
    pub fn send_result<T, D>(&self, pool: &mut PoolCore<T, D>, result: D) -> (r: Result<(), D>)
        requires
            self.valid_for(*old(pool)),
        ensures
            self.valid_for(*final(pool)),
            r is Ok,
            final(pool).buffered() == old(pool).buffered().push(result),
            final(pool).published() == old(pool).published().push(result),
            final(pool).delivered() == old(pool).delivered(),
            final(pool).states() == old(pool).states(),
            same_queue(*final(pool), *old(pool)),
    {
        pool.publish_result(result);
        Ok(())
    }

    /// Publishes results at once, in order.
    pub fn send_results<T, D>(&self, pool: &mut PoolCore<T, D>, results: Vec<D>) -> (r: Result<(), Vec<D>>)
        requires
            self.valid_for(*old(pool)),
        ensures
            self.valid_for(*final(pool)),
            r is Ok,
            final(pool).buffered() == old(pool).buffered() + results@,
            final(pool).published() == old(pool).published() + results@,
            final(pool).delivered() == old(pool).delivered(),
            final(pool).states() == old(pool).states(),
            same_queue(*final(pool), *old(pool)),
    {
        pool.publish_results(results);
        Ok(())
    }
}

} // verus!
