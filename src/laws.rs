use vstd::prelude::*;

use crate::cmd_pipe::lemma_pending_positive;
use crate::pool::PoolCore;
use crate::pool::exited;
use crate::worker::{busy_fn, count_live, lemma_count_mono, lemma_count_some, lemma_count_update, live_fn};

verus! {

/// No task is lost: every task ever accepted has been taken by a worker, is
/// still queued, or was dropped because no worker was left; the in-flight
/// counter is the number of queued tasks.
pub proof fn law_tasks_conserved<T, D>(p: &PoolCore<T, D>)
    requires
        p.wf(),
    ensures
        p.accepted() == p.started() + p.in_flight() + p.dropped(),
        p.in_flight() == crate::cmd_pipe::pending_tasks(p.commands()),
{
    p.lemma_wf();
}

/// No result is lost or duplicated: the results handed out, followed by
/// those still buffered, are exactly the results published, in order. So a
/// shutdown of a pool whose results were never iterated returns exactly
/// what was published.
pub proof fn law_results_conserved<T, D>(p: &PoolCore<T, D>)
    requires
        p.wf(),
    ensures
        p.delivered() + p.buffered() == p.published(),
        p.delivered().len() == 0 ==> p.buffered() == p.published(),
{
    p.lemma_wf();
    if p.delivered().len() == 0 {
        assert(p.delivered() + p.buffered() =~= p.buffered());
    }
}

/// A pool where nothing was ever published has no result to return.
pub proof fn law_nothing_published_nothing_returned<T, D>(p: &PoolCore<T, D>)
    requires
        p.wf(),
        p.published().len() == 0,
    ensures
        p.buffered().len() == 0,
{
    p.lemma_wf();
}

/// The pool is never drained while a worker is running a task, since that
/// task may still submit a follow-up.
pub proof fn law_not_drained_while_busy<T, D>(p: &PoolCore<T, D>, id: int)
    requires
        p.wf(),
        0 <= id < p.states().len(),
        p.states()[id] is Busy,
    ensures
        !p.is_drained(),
        p.busy_workers() >= 1,
{
    lemma_count_some(p.states(), id, busy_fn());
}

/// The pool is never drained while a task is queued.
pub proof fn law_not_drained_while_queued<T, D>(p: &PoolCore<T, D>, i: int)
    requires
        p.wf(),
        0 <= i < p.commands().len(),
        p.commands()[i] is NewTask,
    ensures
        !p.is_drained(),
        p.in_flight() >= 1,
{
    p.lemma_wf();
    lemma_pending_positive(p.commands(), i);
}

} // verus!

verus! {

/// A pool with no worker left is drained, so waiting for it to drain ends.
pub proof fn law_dead_pool_is_drained<T, D>(p: &PoolCore<T, D>)
    requires
        p.wf(),
        p.live_workers() == 0,
    ensures
        p.is_drained(),
{
    p.lemma_wf();
    lemma_count_mono(p.states(), busy_fn(), live_fn());
}

/// A worker whose task panics costs the pool exactly one worker: the count
/// of running workers after its exit is one less. A pool that had another
/// worker running still has one, so it still accepts tasks.
pub proof fn law_panic_costs_one_worker<T, D>(p: &PoolCore<T, D>, id: int)
    requires
        p.wf(),
        0 <= id < p.states().len(),
        p.states()[id] is Busy,
    ensures
        count_live(p.states().update(id, exited(p.states()[id]))) + 1 == p.live_workers(),
        p.live_workers() >= 2 ==> count_live(p.states().update(id, exited(p.states()[id]))) > 0,
{
    lemma_count_update(p.states(), id, exited(p.states()[id]), live_fn());
}

} // verus!
