use std::collections::VecDeque;
use vstd::prelude::*;

use crate::cmd_pipe::{as_commands, pending_tasks, CommandPipe};
use crate::task::{Command, TaskResult, TrySendError};
use crate::worker::{
    busy_fn, count_busy, count_live, lemma_count_bound, lemma_count_push, lemma_count_some,
    lemma_count_update, live_fn, WorkerAction, WorkerState,
};

verus! {

/// Relies on num_cpus::get: the number of CPUs this process may use, which
/// its documentation promises is at least one.
#[verifier::external_body]
fn available_parallelism() -> (r: usize)
    ensures
        r >= 1,
{
    num_cpus::get()
}

/// The number of workers a pool is created with: the number asked for (at
/// least one), or the available parallelism when none is asked for.
pub open spec fn sized(requested: Option<usize>, available: usize) -> usize {
    match requested {
        Some(n) => if n == 0 {
            1
        } else {
            n
        },
        None => available,
    }
}

/// What a result consumer learns when it asks for the next result.
pub enum ResultPoll<D> {
    /// The oldest result not yet handed out.
    Ready(D),
    /// None is buffered, but a worker still runs and may publish one.
    Pending,
    /// None is buffered and no worker is left to publish one: the pool has
    /// been shut down, or lost every worker.
    Finished,
}

/// The state of a pool: its command queue, the state of each worker, and the
/// results published and not yet handed out.
pub struct PoolCore<T, D> {
    pipe: CommandPipe<T>,
    workers: Vec<WorkerState>,
    live: usize,
    busy: usize,
    results: VecDeque<D>,
    published: Ghost<Seq<D>>,
    delivered: Ghost<Seq<D>>,
    accepted: Ghost<nat>,
    started: Ghost<nat>,
    dropped: Ghost<nat>,
}

/// The result side of two pool states agrees.
pub open spec fn same_results<T, D>(a: PoolCore<T, D>, b: PoolCore<T, D>) -> bool {
    &&& a.buffered() == b.buffered()
    &&& a.published() == b.published()
    &&& a.delivered() == b.delivered()
}

/// The queue side of two pool states agrees.
pub open spec fn same_queue<T, D>(a: PoolCore<T, D>, b: PoolCore<T, D>) -> bool {
    &&& a.commands() == b.commands()
    &&& a.in_flight() == b.in_flight()
    &&& a.accepted() == b.accepted()
    &&& a.started() == b.started()
    &&& a.dropped() == b.dropped()
}

/// The queue of `now` is the one of `before` with every command dropped, as
/// happens when the last worker exits.
pub open spec fn discarded<T, D>(now: PoolCore<T, D>, before: PoolCore<T, D>) -> bool {
    &&& now.commands() == Seq::<Command<T>>::empty()
    &&& now.in_flight() == 0
    &&& now.accepted() == before.accepted()
    &&& now.started() == before.started()
    &&& now.dropped() == before.dropped() + before.in_flight()
}

/// A worker's state once its thread is known to have returned.
pub open spec fn exited(w: WorkerState) -> WorkerState {
    if w.is_live() {
        WorkerState::Panicked
    } else {
        w
    }
}

impl<T, D> PoolCore<T, D> {
    /// The queued commands, oldest first.
    pub closed spec fn commands(&self) -> Seq<Command<T>> {
        self.pipe.commands()
    }

    /// Tasks accepted and not yet taken by a worker.
    pub closed spec fn in_flight(&self) -> nat {
        self.pipe.in_flight()
    }

    /// The state of each worker, by index.
    pub closed spec fn states(&self) -> Seq<WorkerState> {
        self.workers@
    }

    /// Results published and not yet handed out, oldest first.
    pub closed spec fn buffered(&self) -> Seq<D> {
        self.results@
    }

    /// Every result ever published, in order.
    pub closed spec fn published(&self) -> Seq<D> {
        self.published@
    }

    /// Every result handed out so far, in order.
    pub closed spec fn delivered(&self) -> Seq<D> {
        self.delivered@
    }

    /// How many tasks were ever accepted into the queue.
    pub closed spec fn accepted(&self) -> nat {
        self.accepted@
    }

    /// How many tasks a worker has taken from the queue.
    pub closed spec fn started(&self) -> nat {
        self.started@
    }

    /// How many queued tasks were dropped because no worker was left to
    /// run them.
    pub closed spec fn dropped(&self) -> nat {
        self.dropped@
    }

    pub open spec fn live_workers(&self) -> nat {
        count_live(self.states())
    }

    pub open spec fn busy_workers(&self) -> nat {
        count_busy(self.states())
    }

    /// Submissions succeed while at least one worker runs.
    pub open spec fn accepts_tasks(&self) -> bool {
        self.live_workers() > 0
    }

    /// Nothing is queued and no worker is running a task, so no follow-up
    /// can appear any more.
    pub open spec fn is_drained(&self) -> bool {
        self.in_flight() == 0 && self.busy_workers() == 0
    }

    pub closed spec fn wf(&self) -> bool {
        &&& self.pipe.wf()
        &&& self.live as nat == count_live(self.workers@)
        &&& self.busy as nat == count_busy(self.workers@)
        &&& self.pipe.is_connected() == (self.live > 0)
        &&& self.delivered@ + self.results@ == self.published@
        &&& self.accepted@ == self.started@ + self.pipe.in_flight() + self.dropped@
        &&& self.live == 0 ==> self.pipe.commands().len() == 0
    }

    /// The facts that well-formedness carries.
    pub proof fn lemma_wf(&self)
        requires
            self.wf(),
        ensures
            self.in_flight() == pending_tasks(self.commands()),
            self.delivered() + self.buffered() == self.published(),
            self.accepted() == self.started() + self.in_flight() + self.dropped(),
            self.live_workers() == 0 ==> self.commands().len() == 0 && self.in_flight() == 0,
    {
    }

    /// A pool with `n_workers` idle workers and nothing queued.
    pub fn new(n_workers: usize) -> (r: Self)
        requires
            n_workers > 0,
        ensures
            r.wf(),
            r.states() == Seq::new(n_workers as nat, |i: int| WorkerState::Idle),
            r.live_workers() == n_workers,
            r.busy_workers() == 0,
            r.commands() == Seq::<Command<T>>::empty(),
            r.in_flight() == 0,
            r.buffered() == Seq::<D>::empty(),
            r.published() == Seq::<D>::empty(),
            r.delivered() == Seq::<D>::empty(),
            r.accepted() == 0,
            r.started() == 0,
            r.dropped() == 0,
    {
        let mut workers: Vec<WorkerState> = Vec::new();
        let mut i: usize = 0;
        while i < n_workers
            invariant
                i <= n_workers,
                workers@ == Seq::new(i as nat, |j: int| WorkerState::Idle),
                count_live(workers@) == i,
                count_busy(workers@) == 0,
            decreases n_workers - i,
        {
            proof {
                lemma_count_push(workers@, WorkerState::Idle, live_fn());
                lemma_count_push(workers@, WorkerState::Idle, busy_fn());
            }
            workers.push(WorkerState::Idle);
            i = i + 1;
            assert(workers@ =~= Seq::new(i as nat, |j: int| WorkerState::Idle));
        }
        PoolCore {
            pipe: CommandPipe::new(),
            workers,
            live: n_workers,
            busy: 0,
            results: VecDeque::new(),
            published: Ghost(Seq::empty()),
            delivered: Ghost(Seq::empty()),
            accepted: Ghost(0),
            started: Ghost(0),
            dropped: Ghost(0),
        }
    }

    /// The number of workers for a requested size and the available
    /// parallelism.
    pub fn pool_size(requested: Option<usize>, available: usize) -> (r: usize)
        requires
            available >= 1,
        ensures
            r == sized(requested, available),
            r >= 1,
    {
        match requested {
            Some(n) => if n == 0 {
                1
            } else {
                n
            },
            None => available,
        }
    }

    /// A pool of the requested size, or one worker per available CPU.
    pub fn create(requested: Option<usize>) -> (r: Self)
        ensures
            r.wf(),
            requested is Some ==> r.states().len() == sized(requested, 1),
            r.states().len() >= 1,
            forall|i: int| 0 <= i < r.states().len() ==> #[trigger] r.states()[i] is Idle,
            r.live_workers() == r.states().len(),
            r.busy_workers() == 0,
            r.commands() == Seq::<Command<T>>::empty(),
            r.in_flight() == 0,
            r.buffered() == Seq::<D>::empty(),
            r.published() == Seq::<D>::empty(),
            r.delivered() == Seq::<D>::empty(),
            r.accepted() == 0,
            r.started() == 0,
            r.dropped() == 0,
    {
        let available = available_parallelism();
        let n = Self::pool_size(requested, available);
        Self::new(n)
    }

    /// The number of worker slots, running or not.
    pub fn n_workers(&self) -> (r: usize)
        ensures
            r == self.states().len(),
    {
        self.workers.len()
    }

    /// The number of workers whose thread has not exited.
    pub fn worker_count(&self) -> (r: usize)
        requires
            self.wf(),
        ensures
            r == self.live_workers(),
    {
        self.live
    }

    /// The number of workers executing a task.
    pub fn busy_count(&self) -> (r: usize)
        requires
            self.wf(),
        ensures
            r == self.busy_workers(),
    {
        self.busy
    }

    /// The in-flight counter.
    pub fn jobs_in_queue(&self) -> (r: usize)
        requires
            self.wf(),
        ensures
            r == self.in_flight(),
    {
        self.pipe.jobs_in_queue()
    }

    pub fn state_of(&self, id: usize) -> (r: WorkerState)
        requires
            id < self.states().len(),
        ensures
            r == self.states()[id as int],
    {
        self.workers[id]
    }

    /// Whether the pool is drained.
    pub fn drained(&self) -> (r: bool)
        requires
            self.wf(),
        ensures
            r == self.is_drained(),
    {
        self.pipe.jobs_in_queue() == 0 && self.busy == 0
    }

    /// Moves worker `id` to state `v`, keeping the counters and the
    /// connection in step. A worker that has exited never runs again; when
    /// the last one exits, the queue is disconnected and dropped.
    fn set_state(&mut self, id: usize, v: WorkerState)
        requires
            old(self).wf(),
            id < old(self).states().len(),
            old(self).states()[id as int].is_live() || !v.is_live(),
        ensures
            final(self).wf(),
            final(self).states() == old(self).states().update(id as int, v),
            same_results(*final(self), *old(self)),
            old(self).states()[id as int].is_live() == v.is_live() ==> {
                &&& same_queue(*final(self), *old(self))
                &&& final(self).live_workers() == old(self).live_workers()
            },
            old(self).states()[id as int].is_live() && !v.is_live() ==> final(self).live_workers() + 1
                == old(self).live_workers(),
            old(self).states()[id as int].is_live() && !v.is_live() && old(self).live_workers() > 1
                ==> same_queue(*final(self), *old(self)),
            old(self).states()[id as int].is_live() && !v.is_live() && old(self).live_workers() == 1
                ==> discarded(*final(self), *old(self)),
    {
        let prev = self.workers[id];
        let n = self.workers.len();
        proof {
            lemma_count_update(self.workers@, id as int, v, live_fn());
            lemma_count_update(self.workers@, id as int, v, busy_fn());
            lemma_count_bound(self.workers@.update(id as int, v), busy_fn());
        }
        self.workers.set(id, v);
        if prev.is_running() && !v.is_running() {
            self.live = self.live - 1;
            if self.live == 0 {
                self.pipe.disconnect();
                let ghost lost = self.pipe.in_flight();
                self.pipe.discard();
                self.dropped = Ghost(self.dropped@ + lost);
            }
        }
        if prev.is_busy() && !v.is_busy() {
            self.busy = self.busy - 1;
        } else if !prev.is_busy() && v.is_busy() {
            assert(self.busy + 1 <= n);
            self.busy = self.busy + 1;
        }
    }

    /// Queues a task. While a worker runs, it is accepted and the new depth
    /// of the queue is returned; otherwise the pool is dead.
    pub fn submit(&mut self, task: T) -> (r: Result<usize, TrySendError>)
        requires
            old(self).wf(),
            old(self).in_flight() < usize::MAX,
        ensures
            final(self).wf(),
            final(self).states() == old(self).states(),
            same_results(*final(self), *old(self)),
            final(self).started() == old(self).started(),
            final(self).dropped() == old(self).dropped(),
            old(self).accepts_tasks() ==> {
                &&& r == Ok::<usize, TrySendError>((old(self).in_flight() + 1) as usize)
                &&& final(self).commands() == old(self).commands().push(Command::NewTask(task))
                &&& final(self).in_flight() == old(self).in_flight() + 1
                &&& final(self).accepted() == old(self).accepted() + 1
            },
            !old(self).accepts_tasks() ==> {
                &&& r == Err::<usize, TrySendError>(TrySendError::SendError)
                &&& same_queue(*final(self), *old(self))
            },
    {
        match self.pipe.send_single(task) {
            Ok(()) => {
                self.accepted = Ghost(self.accepted@ + 1);
                Ok(self.pipe.jobs_in_queue())
            },
            Err(e) => Err(e),
        }
    }

    /// Queues a batch of tasks in order.
    pub fn submit_many(&mut self, tasks: Vec<T>) -> (r: Result<usize, TrySendError>)
        requires
            old(self).wf(),
            old(self).in_flight() + tasks@.len() <= usize::MAX,
        ensures
            final(self).wf(),
            final(self).states() == old(self).states(),
            same_results(*final(self), *old(self)),
            final(self).started() == old(self).started(),
            final(self).dropped() == old(self).dropped(),
            old(self).accepts_tasks() ==> {
                &&& r == Ok::<usize, TrySendError>((old(self).in_flight() + tasks@.len()) as usize)
                &&& final(self).commands() == old(self).commands() + as_commands(tasks@)
                &&& final(self).in_flight() == old(self).in_flight() + tasks@.len()
                &&& final(self).accepted() == old(self).accepted() + tasks@.len()
            },
            !old(self).accepts_tasks() ==> {
                &&& r == Err::<usize, TrySendError>(TrySendError::SendError)
                &&& same_queue(*final(self), *old(self))
            },
    {
        let ghost n = tasks@.len();
        match self.pipe.send_many(tasks) {
            Ok(()) => {
                self.accepted = Ghost(self.accepted@ + n);
                Ok(self.pipe.jobs_in_queue())
            },
            Err(e) => Err(e),
        }
    }

    /// Publishes one result.
    pub fn publish_result(&mut self, result: D)
        requires
            old(self).wf(),
        ensures
            final(self).wf(),
            final(self).buffered() == old(self).buffered().push(result),
            final(self).published() == old(self).published().push(result),
            final(self).delivered() == old(self).delivered(),
            final(self).states() == old(self).states(),
            same_queue(*final(self), *old(self)),
    {
        self.results.push_back(result);
        self.published = Ghost(self.published@.push(result));
        assert(self.delivered@ + self.results@ =~= self.published@);
    }

    /// Publishes results in order.
    pub fn publish_results(&mut self, results: Vec<D>)
        requires
            old(self).wf(),
        ensures
            final(self).wf(),
            final(self).buffered() == old(self).buffered() + results@,
            final(self).published() == old(self).published() + results@,
            final(self).delivered() == old(self).delivered(),
            final(self).states() == old(self).states(),
            same_queue(*final(self), *old(self)),
    {
        let ghost start = *self;
        let ghost all = results@;
        for result in it: results.into_iter()
            invariant
                self.wf(),
                it.seq() == all,
                self.buffered() == start.buffered() + all.subrange(0, it.index() as int),
                self.published() == start.published() + all.subrange(0, it.index() as int),
                self.delivered() == start.delivered(),
                self.states() == start.states(),
                same_queue(*self, start),
        {
            proof {
                assert(all.subrange(0, it.index() + 1) =~= all.subrange(0, it.index() as int).push(result));
            }
            self.publish_result(result);
        }
        assert(all.subrange(0, all.len() as int) =~= all);
    }

    /// Publishes what a task handed back: all its results, then its
    /// follow-up tasks, which are queued while a worker runs.
    pub fn publish(&mut self, bundle: TaskResult<D, T>) -> (r: Result<(), TrySendError>)
        requires
            old(self).wf(),
            old(self).in_flight() + bundle.jobs_view().len() <= usize::MAX,
        ensures
            final(self).wf(),
            final(self).buffered() == old(self).buffered() + bundle.results_view(),
            final(self).published() == old(self).published() + bundle.results_view(),
            final(self).delivered() == old(self).delivered(),
            final(self).states() == old(self).states(),
            final(self).started() == old(self).started(),
            final(self).dropped() == old(self).dropped(),
            old(self).accepts_tasks() ==> {
                &&& r is Ok
                &&& final(self).commands() == old(self).commands() + as_commands(bundle.jobs_view())
                &&& final(self).in_flight() == old(self).in_flight() + bundle.jobs_view().len()
                &&& final(self).accepted() == old(self).accepted() + bundle.jobs_view().len()
            },
            !old(self).accepts_tasks() ==> {
                &&& r == Err::<(), TrySendError>(TrySendError::SendError)
                &&& final(self).commands() == old(self).commands()
                &&& final(self).in_flight() == old(self).in_flight()
                &&& final(self).accepted() == old(self).accepted()
            },
    {
        let (results, jobs) = bundle.into_parts();
        self.publish_results(results);
        match self.submit_many(jobs) {
            Ok(_) => Ok(()),
            Err(e) => Err(e),
        }
    }

    /// The decision of worker `id` when it asks for work. An idle worker
    /// takes the oldest command: a task makes it busy, a termination
    /// sentinel ends it. With nothing queued it waits. A worker that is not
    /// idle is given nothing and leaves.
    pub fn next_command(&mut self, id: usize) -> (r: WorkerAction<T>)
        requires
            old(self).wf(),
            id < old(self).states().len(),
        ensures
            final(self).wf(),
            same_results(*final(self), *old(self)),
            final(self).accepted() == old(self).accepted(),
            !(old(self).states()[id as int] is Idle) ==> {
                &&& r is Exit
                &&& same_queue(*final(self), *old(self))
                &&& final(self).states() == old(self).states()
            },
            old(self).states()[id as int] is Idle && old(self).commands().len() == 0 ==> {
                &&& r is Wait
                &&& same_queue(*final(self), *old(self))
                &&& final(self).states() == old(self).states()
            },
            old(self).states()[id as int] is Idle && old(self).commands().len() > 0 ==> {
                &&& match old(self).commands()[0] {
                    Command::NewTask(t) => {
                        &&& r == WorkerAction::Run(t)
                        &&& final(self).commands() == old(self).commands().drop_first()
                        &&& final(self).dropped() == old(self).dropped()
                        &&& final(self).states() == old(self).states().update(
                            id as int,
                            WorkerState::Busy,
                        )
                        &&& final(self).in_flight() + 1 == old(self).in_flight()
                        &&& final(self).started() == old(self).started() + 1
                    },
                    Command::Terminate => {
                        &&& r is Exit
                        &&& final(self).states() == old(self).states().update(
                            id as int,
                            WorkerState::Terminated,
                        )
                        &&& final(self).started() == old(self).started()
                        &&& old(self).live_workers() > 1 ==> {
                            &&& final(self).commands() == old(self).commands().drop_first()
                            &&& final(self).in_flight() == old(self).in_flight()
                            &&& final(self).dropped() == old(self).dropped()
                        }
                        &&& old(self).live_workers() <= 1 ==> {
                            &&& final(self).commands() == Seq::<Command<T>>::empty()
                            &&& final(self).in_flight() == 0
                            &&& final(self).dropped() == old(self).dropped() + old(self).in_flight()
                        }
                    },
                }
            },
    {
        match self.workers[id] {
            WorkerState::Idle => {},
            _ => {
                return WorkerAction::Exit;
            },
        }
        match self.pipe.try_recv() {
            Err(()) => WorkerAction::Wait,
            Ok(Command::NewTask(task)) => {
                self.started = Ghost(self.started@ + 1);
                self.set_state(id, WorkerState::Busy);
                WorkerAction::Run(task)
            },
            Ok(Command::Terminate) => {
                proof {
                    lemma_count_some(self.workers@, id as int, live_fn());
                }
                self.set_state(id, WorkerState::Terminated);
                WorkerAction::Exit
            },
        }
    }

    /// Worker `id` finished its task and is idle again.
    pub fn task_done(&mut self, id: usize)
        requires
            old(self).wf(),
            id < old(self).states().len(),
        ensures
            final(self).wf(),
            same_results(*final(self), *old(self)),
            same_queue(*final(self), *old(self)),
            old(self).states()[id as int] is Busy ==> final(self).states() == old(self).states().update(
                id as int,
                WorkerState::Idle,
            ),
            !(old(self).states()[id as int] is Busy) ==> final(self).states() == old(self).states(),
    {
        if self.workers[id].is_busy() {
            self.set_state(id, WorkerState::Idle);
        }
    }

    /// The thread of worker `id` has returned. Unless it had taken a
    /// termination sentinel it panicked, and the pool goes on with one
    /// worker fewer. Once no worker is left, the queued tasks are dropped:
    /// nothing could run them.
    pub fn worker_exited(&mut self, id: usize)
        requires
            old(self).wf(),
            id < old(self).states().len(),
        ensures
            final(self).wf(),
            same_results(*final(self), *old(self)),
            !old(self).states()[id as int].is_live() || old(self).live_workers() > 1 ==> same_queue(
                *final(self),
                *old(self),
            ),
            old(self).states()[id as int].is_live() && old(self).live_workers() == 1 ==> discarded(
                *final(self),
                *old(self),
            ),
            final(self).states() == old(self).states().update(id as int, exited(old(self).states()[id as int])),
            old(self).states()[id as int].is_live() ==> final(self).live_workers() + 1 == old(self).live_workers(),
            !old(self).states()[id as int].is_live() ==> final(self).live_workers() == old(self).live_workers(),
    {
        proof {
            lemma_count_update(self.workers@, id as int, exited(self.workers@[id as int]), live_fn());
        }
        if self.workers[id].is_running() {
            self.set_state(id, WorkerState::Panicked);
        } else {
            assert(self.workers@.update(id as int, exited(self.workers@[id as int])) =~= self.workers@);
        }
    }

    /// Queues one termination sentinel per worker slot, behind every
    /// command already queued.
    pub fn begin_shutdown(&mut self)
        requires
            old(self).wf(),
        ensures
            final(self).wf(),
            same_results(*final(self), *old(self)),
            final(self).states() == old(self).states(),
            final(self).in_flight() == old(self).in_flight(),
            final(self).accepted() == old(self).accepted(),
            final(self).started() == old(self).started(),
            final(self).dropped() == old(self).dropped(),
            old(self).accepts_tasks() ==> final(self).commands() == old(self).commands() + Seq::new(
                old(self).states().len(),
                |i: int| Command::<T>::Terminate,
            ),
            !old(self).accepts_tasks() ==> final(self).commands() == old(self).commands(),
    {
        let n = self.workers.len();
        let ghost start = *self;
        let mut i: usize = 0;
        while i < n
            invariant
                self.wf(),
                i <= n,
                n == start.states().len(),
                same_results(*self, start),
                self.states() == start.states(),
                self.in_flight() == start.in_flight(),
                self.accepted() == start.accepted(),
                self.started() == start.started(),
                self.dropped() == start.dropped(),
                self.pipe.is_connected() == start.pipe.is_connected(),
                start.wf(),
                start.accepts_tasks() ==> self.commands() == start.commands() + Seq::new(
                    i as nat,
                    |j: int| Command::<T>::Terminate,
                ),
                !start.accepts_tasks() ==> self.commands() == start.commands(),
            decreases n - i,
        {
            let _ = self.pipe.send_termination();
            i = i + 1;
            proof {
                if start.accepts_tasks() {
                    assert(self.commands() =~= start.commands() + Seq::new(
                        i as nat,
                        |j: int| Command::<T>::Terminate,
                    ));
                }
            }
        }
    }

    /// Hands out the oldest buffered result, if any.
    pub fn next_result(&mut self) -> (r: Option<D>)
        requires
            old(self).wf(),
        ensures
            final(self).wf(),
            final(self).published() == old(self).published(),
            final(self).states() == old(self).states(),
            same_queue(*final(self), *old(self)),
            old(self).buffered().len() == 0 ==> r is None && same_results(*final(self), *old(self)),
            old(self).buffered().len() > 0 ==> {
                &&& r == Some(old(self).buffered()[0])
                &&& final(self).buffered() == old(self).buffered().drop_first()
                &&& final(self).delivered() == old(self).delivered().push(old(self).buffered()[0])
            },
    {
        match self.results.pop_front() {
            None => None,
            Some(result) => {
                self.delivered = Ghost(self.delivered@.push(result));
                assert(self.delivered@ + self.results@ =~= old(self).delivered@ + old(self).results@);
                assert(self.results@ =~= old(self).results@.drop_first());
                Some(result)
            },
        }
    }

    /// What a consumer iterating over results gets next: a result, the
    /// advice to wait, or the end once no worker is left.
    pub fn poll_result(&mut self) -> (r: ResultPoll<D>)
        requires
            old(self).wf(),
        ensures
            final(self).wf(),
            final(self).published() == old(self).published(),
            final(self).states() == old(self).states(),
            same_queue(*final(self), *old(self)),
            old(self).buffered().len() > 0 ==> {
                &&& r == ResultPoll::Ready(old(self).buffered()[0])
                &&& final(self).buffered() == old(self).buffered().drop_first()
                &&& final(self).delivered() == old(self).delivered().push(old(self).buffered()[0])
            },
            old(self).buffered().len() == 0 ==> same_results(*final(self), *old(self)),
            old(self).buffered().len() == 0 ==> (r is Finished <==> old(self).live_workers() == 0),
            old(self).buffered().len() == 0 ==> (r is Pending <==> old(self).live_workers() > 0),
    {
        match self.next_result() {
            Some(result) => ResultPoll::Ready(result),
            None => if self.live == 0 {
                ResultPoll::Finished
            } else {
                ResultPoll::Pending
            },
        }
    }

    /// Called once every worker thread has been joined: each worker still
    /// recorded as running is marked as exited, and every buffered result is
    /// handed out, in order.
    pub fn finish(&mut self) -> (r: Vec<D>)
        requires
            old(self).wf(),
        ensures
            final(self).wf(),
            final(self).live_workers() == 0,
            final(self).busy_workers() == 0,
            final(self).states() == old(self).states().map_values(|w: WorkerState| exited(w)),
            r@ == old(self).buffered(),
            final(self).buffered() == Seq::<D>::empty(),
            final(self).delivered() == old(self).delivered() + r@,
            final(self).published() == old(self).published(),
            discarded(*final(self), *old(self)),
    {
        let ghost start = *self;
        proof {
            self.lemma_wf();
            if self.live_workers() == 0 {
                assert(self.commands() =~= Seq::<Command<T>>::empty());
            }
        }
        let n = self.workers.len();
        let mut id: usize = 0;
        while id < n
            invariant
                self.wf(),
                id <= n,
                n == start.states().len(),
                self.states().len() == n,
                forall|j: int| 0 <= j < id ==> #[trigger] self.states()[j] == exited(start.states()[j]),
                forall|j: int| id <= j < n ==> #[trigger] self.states()[j] == start.states()[j],
                same_results(*self, start),
                self.live_workers() > 0 ==> same_queue(*self, start),
                self.live_workers() == 0 ==> discarded(*self, start),
            decreases n - id,
        {
            self.worker_exited(id);
            id = id + 1;
        }
        proof {
            assert(self.states() =~= start.states().map_values(|w: WorkerState| exited(w)));
            crate::worker::lemma_count_none(self.states(), live_fn());
            crate::worker::lemma_count_none(self.states(), busy_fn());
        }
        let mut out: Vec<D> = Vec::new();
        while self.results.len() > 0
            invariant
                self.wf(),
                self.states() == start.states().map_values(|w: WorkerState| exited(w)),
                discarded(*self, start),
                self.published() == start.published(),
                out@ + self.buffered() == start.buffered(),
                self.delivered() == start.delivered() + out@,
            decreases self.buffered().len(),
        {
            match self.next_result() {
                Some(result) => {
                    out.push(result);
                    assert(out@ + self.buffered() =~= start.buffered());
                    assert(self.delivered() =~= start.delivered() + out@);
                },
                None => {},
            }
        }
        assert(out@ =~= start.buffered());
        out
    }
}

} // verus!
