use std::collections::VecDeque;
use vstd::prelude::*;

use crate::task::{Command, Shape, TrySendError};

verus! {

/// One when the command carries a task, zero for a termination sentinel.
pub open spec fn task_weight<T>(c: Command<T>) -> nat {
    if c is NewTask {
        1
    } else {
        0
    }
}

/// How many of the queued commands carry a task.
pub open spec fn pending_tasks<T>(q: Seq<Command<T>>) -> nat
    decreases q.len(),
{
    if q.len() == 0 {
        0
    } else {
        task_weight(q[0]) + pending_tasks(q.subrange(1, q.len() as int))
    }
}

/// The commands that carry the given tasks, in order.
pub open spec fn as_commands<T>(tasks: Seq<T>) -> Seq<Command<T>> {
    tasks.map_values(|t: T| Command::NewTask(t))
}

proof fn lemma_pending_push<T>(q: Seq<Command<T>>, c: Command<T>)
    ensures
        pending_tasks(q.push(c)) == pending_tasks(q) + task_weight(c),
    decreases q.len(),
{
    let p = q.push(c);
    if q.len() == 0 {
        assert(p.subrange(1, p.len() as int) =~= Seq::<Command<T>>::empty());
        assert(pending_tasks(Seq::<Command<T>>::empty()) == 0);
        assert(p[0] == c);
    } else {
        let rest = q.subrange(1, q.len() as int);
        assert(p.subrange(1, p.len() as int) =~= rest.push(c));
        lemma_pending_push(rest, c);
        assert(p[0] == q[0]);
    }
}

/// A queue that holds a task has a positive count of pending tasks.
pub proof fn lemma_pending_positive<T>(q: Seq<Command<T>>, i: int)
    requires
        0 <= i < q.len(),
        q[i] is NewTask,
    ensures
        pending_tasks(q) > 0,
    decreases q.len(),
{
    if i > 0 {
        let rest = q.subrange(1, q.len() as int);
        assert(rest[i - 1] == q[i]);
        lemma_pending_positive(rest, i - 1);
    }
}

/// The queue of commands shared by all workers, with the count of queued
/// tasks kept beside it.
pub struct CommandPipe<T> {
    queue: VecDeque<Command<T>>,
    queue_size: usize,
    connected: bool,
}

impl<T> CommandPipe<T> {
    /// The queued commands, oldest first.
    pub closed spec fn commands(&self) -> Seq<Command<T>> {
        self.queue@
    }

    /// The in-flight counter: tasks accepted and not yet taken by a worker.
    pub closed spec fn in_flight(&self) -> nat {
        self.queue_size as nat
    }

    /// Whether a consumer is still there to take commands.
    pub closed spec fn is_connected(&self) -> bool {
        self.connected
    }

    /// The counter always equals the number of queued tasks.
    pub open spec fn wf(&self) -> bool {
        self.in_flight() == pending_tasks(self.commands())
    }

    pub fn new() -> (r: Self)
        ensures
            r.wf(),
            r.commands() == Seq::<Command<T>>::empty(),
            r.in_flight() == 0,
            r.is_connected(),
    {
        CommandPipe { queue: VecDeque::new(), queue_size: 0, connected: true }
    }

    /// The number of queued tasks.
    pub fn jobs_in_queue(&self) -> (r: usize)
        ensures
            r == self.in_flight(),
    {
        self.queue_size
    }

    /// Marks the consumer side as gone; every later send fails.
    pub fn disconnect(&mut self)
        ensures
            final(self).commands() == old(self).commands(),
            final(self).in_flight() == old(self).in_flight(),
            !final(self).is_connected(),
    {
        self.connected = false;
    }

    /// Drops every queued command; nothing is in flight afterwards.
    pub fn discard(&mut self)
        ensures
            final(self).wf(),
            final(self).commands() == Seq::<Command<T>>::empty(),
            final(self).in_flight() == 0,
            final(self).is_connected() == old(self).is_connected(),
    {
        self.queue.clear();
        self.queue_size = 0;
    }

    fn push_task(&mut self, job: T)
        requires
            old(self).wf(),
            old(self).in_flight() < usize::MAX,
        ensures
            final(self).wf(),
            final(self).commands() == old(self).commands().push(Command::NewTask(job)),
            final(self).in_flight() == old(self).in_flight() + 1,
            final(self).is_connected() == old(self).is_connected(),
    {
        proof {
            lemma_pending_push(self.queue@, Command::NewTask(job));
        }
        self.queue.push_back(Command::NewTask(job));
        self.queue_size = self.queue_size + 1;
    }

    /// Queues one task.
    pub fn send_single(&mut self, job: T) -> (r: Result<(), TrySendError>)
        requires
            old(self).wf(),
            old(self).in_flight() < usize::MAX,
        ensures
            final(self).wf(),
            final(self).is_connected() == old(self).is_connected(),
            old(self).is_connected() ==> {
                &&& r is Ok
                &&& final(self).commands() == old(self).commands().push(Command::NewTask(job))
                &&& final(self).in_flight() == old(self).in_flight() + 1
            },
            !old(self).is_connected() ==> {
                &&& r == Err::<(), TrySendError>(TrySendError::SendError)
                &&& final(self).commands() == old(self).commands()
                &&& final(self).in_flight() == old(self).in_flight()
            },
    {
        if !self.connected {
            return Err(TrySendError::SendError);
        }
        self.push_task(job);
        Ok(())
    }

    /// Queues a batch of tasks in order; the counter grows by exactly the
    /// number delivered.
    pub fn send_many(&mut self, jobs: Vec<T>) -> (r: Result<(), TrySendError>)
        requires
            old(self).wf(),
            old(self).in_flight() + jobs@.len() <= usize::MAX,
        ensures
            final(self).wf(),
            final(self).is_connected() == old(self).is_connected(),
            old(self).is_connected() ==> {
                &&& r is Ok
                &&& final(self).commands() == old(self).commands() + as_commands(jobs@)
                &&& final(self).in_flight() == old(self).in_flight() + jobs@.len()
            },
            !old(self).is_connected() ==> {
                &&& r == Err::<(), TrySendError>(TrySendError::SendError)
                &&& final(self).commands() == old(self).commands()
                &&& final(self).in_flight() == old(self).in_flight()
            },
    {
        if !self.connected {
            return Err(TrySendError::SendError);
        }
        let ghost start = self.queue@;
        let ghost count = self.queue_size as nat;
        let ghost all = jobs@;
        for job in it: jobs.into_iter()
            invariant
                self.wf(),
                self.is_connected(),
                it.seq() == all,
                count + all.len() <= usize::MAX,
                self.commands() == start + as_commands(all.subrange(0, it.index() as int)),
                self.in_flight() == count + it.index(),
        {
            proof {
                assert(all.subrange(0, it.index() + 1) =~= all.subrange(0, it.index() as int).push(job));
                assert(as_commands(all.subrange(0, it.index() + 1))
                    =~= as_commands(all.subrange(0, it.index() as int)).push(Command::NewTask(job)));
            }
            self.push_task(job);
        }
        proof {
            assert(all.subrange(0, all.len() as int) =~= all);
        }
        Ok(())
    }

    /// Queues one task or a batch.
    pub fn send(&mut self, jobs: Shape<T>) -> (r: Result<(), TrySendError>)
        requires
            old(self).wf(),
            old(self).in_flight() + jobs.items().len() <= usize::MAX,
        ensures
            final(self).wf(),
            final(self).is_connected() == old(self).is_connected(),
            old(self).is_connected() ==> {
                &&& r is Ok
                &&& final(self).commands() == old(self).commands() + as_commands(jobs.items())
                &&& final(self).in_flight() == old(self).in_flight() + jobs.items().len()
            },
            !old(self).is_connected() ==> {
                &&& r == Err::<(), TrySendError>(TrySendError::SendError)
                &&& final(self).commands() == old(self).commands()
                &&& final(self).in_flight() == old(self).in_flight()
            },
    {
        match jobs {
            Shape::Single(job) => {
                let ghost items = jobs.items();
                proof {
                    assert(as_commands(items) =~= seq![Command::NewTask(job)]);
                    assert(self.commands().push(Command::NewTask(job))
                        =~= self.commands() + seq![Command::NewTask(job)]);
                }
                self.send_single(job)
            },
            Shape::Batch(batch) => self.send_many(batch),
        }
    }

    /// Queues one termination sentinel; the counter does not change.
    pub fn send_termination(&mut self) -> (r: Result<(), TrySendError>)
        requires
            old(self).wf(),
        ensures
            final(self).wf(),
            final(self).is_connected() == old(self).is_connected(),
            final(self).in_flight() == old(self).in_flight(),
            old(self).is_connected() ==> {
                &&& r is Ok
                &&& final(self).commands() == old(self).commands().push(Command::Terminate)
            },
            !old(self).is_connected() ==> {
                &&& r == Err::<(), TrySendError>(TrySendError::SendError)
                &&& final(self).commands() == old(self).commands()
            },
    {
        if !self.connected {
            return Err(TrySendError::SendError);
        }
        proof {
            lemma_pending_push(self.queue@, Command::<T>::Terminate);
        }
        self.queue.push_back(Command::Terminate);
        Ok(())
    }

    /// Takes the oldest command, if any; taking a task decrements the
    /// counter exactly once.
    pub fn try_recv(&mut self) -> (r: Result<Command<T>, ()>)
        requires
            old(self).wf(),
        ensures
            final(self).wf(),
            final(self).is_connected() == old(self).is_connected(),
            old(self).commands().len() == 0 ==> {
                &&& r is Err
                &&& final(self).commands() == old(self).commands()
                &&& final(self).in_flight() == old(self).in_flight()
            },
            old(self).commands().len() > 0 ==> {
                &&& r == Ok::<Command<T>, ()>(old(self).commands()[0])
                &&& final(self).commands() == old(self).commands().drop_first()
                &&& final(self).in_flight() + task_weight(old(self).commands()[0])
                    == old(self).in_flight()
            },
    {
        match self.queue.pop_front() {
            None => Err(()),
            Some(command) => {
                proof {
                    assert(self.queue@ =~= old(self).queue@.drop_first());
                }
                if let Command::NewTask(_) = command {
                    self.queue_size = self.queue_size - 1;
                }
                Ok(command)
            },
        }
    }
}

} // verus!
