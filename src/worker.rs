use vstd::prelude::*;

verus! {

/// Where a worker stands. `Idle` and `Busy` alternate while its thread runs;
/// `Terminated` (it took a termination sentinel) and `Panicked` (its thread
/// ended any other way) are final.
#[derive(Debug, Clone, Copy, PartialEq, Eq, Structural)]
pub enum WorkerState {
    Idle,
    Busy,
    Terminated,
    Panicked,
}

impl WorkerState {
    /// Whether the worker's thread is still running.
    pub open spec fn is_live(self) -> bool {
        self is Idle || self is Busy
    }

    pub fn is_running(self) -> (r: bool)
        ensures
            r == self.is_live(),
    {
        match self {
            WorkerState::Idle | WorkerState::Busy => true,
            _ => false,
        }
    }

    pub fn is_busy(self) -> (r: bool)
        ensures
            r == (self is Busy),
    {
        match self {
            WorkerState::Busy => true,
            _ => false,
        }
    }

    /// The state as seen from outside once it is known whether the thread
    /// has returned: a thread that ended without terminating has panicked.
    pub fn observed(self, thread_alive: bool) -> (r: WorkerState)
        ensures
            thread_alive ==> r == self,
            !thread_alive && self is Terminated ==> r is Terminated,
            !thread_alive && !(self is Terminated) ==> r is Panicked,
    {
        if thread_alive {
            self
        } else {
            match self {
                WorkerState::Terminated => WorkerState::Terminated,
                _ => WorkerState::Panicked,
            }
        }
    }
}

/// What a worker does next.
pub enum WorkerAction<T> {
    /// Execute the task it carries.
    Run(T),
    /// Nothing is queued: block until something changes.
    Wait,
    /// Leave the loop.
    Exit,
}

/// How many of the states satisfy `f`.
pub open spec fn count_where(s: Seq<WorkerState>, f: spec_fn(WorkerState) -> bool) -> nat
    decreases s.len(),
{
    if s.len() == 0 {
        0
    } else {
        count_where(s.drop_last(), f) + if f(s.last()) {
            1nat
        } else {
            0nat
        }
    }
}

/// Holds of a worker whose thread still runs.
pub open spec fn live_fn() -> spec_fn(WorkerState) -> bool {
    |w: WorkerState| w.is_live()
}

/// Holds of a worker that is executing a task.
pub open spec fn busy_fn() -> spec_fn(WorkerState) -> bool {
    |w: WorkerState| w is Busy
}

/// How many workers are still running.
pub open spec fn count_live(s: Seq<WorkerState>) -> nat {
    count_where(s, live_fn())
}

/// How many workers are executing a task.
pub open spec fn count_busy(s: Seq<WorkerState>) -> nat {
    count_where(s, busy_fn())
}

pub proof fn lemma_count_push(s: Seq<WorkerState>, v: WorkerState, f: spec_fn(WorkerState) -> bool)
    ensures
        count_where(s.push(v), f) == count_where(s, f) + if f(v) {
            1nat
        } else {
            0nat
        },
{
    assert(s.push(v).drop_last() =~= s);
}

pub proof fn lemma_count_update(
    s: Seq<WorkerState>,
    i: int,
    v: WorkerState,
    f: spec_fn(WorkerState) -> bool,
)
    requires
        0 <= i < s.len(),
    ensures
        count_where(s.update(i, v), f) + (if f(s[i]) {
            1nat
        } else {
            0nat
        }) == count_where(s, f) + if f(v) {
            1nat
        } else {
            0nat
        },
    decreases s.len(),
{
    let u = s.update(i, v);
    if i == s.len() - 1 {
        assert(u.drop_last() =~= s.drop_last());
    } else {
        assert(u.drop_last() =~= s.drop_last().update(i, v));
        lemma_count_update(s.drop_last(), i, v, f);
    }
}

pub proof fn lemma_count_none(s: Seq<WorkerState>, f: spec_fn(WorkerState) -> bool)
    requires
        forall|i: int| 0 <= i < s.len() ==> !f(#[trigger] s[i]),
    ensures
        count_where(s, f) == 0,
    decreases s.len(),
{
    if s.len() > 0 {
        assert(!f(s[s.len() - 1]));
        lemma_count_none(s.drop_last(), f);
    }
}

pub proof fn lemma_count_some(s: Seq<WorkerState>, i: int, f: spec_fn(WorkerState) -> bool)
    requires
        0 <= i < s.len(),
        f(s[i]),
    ensures
        count_where(s, f) >= 1,
    decreases s.len(),
{
    if i < s.len() - 1 {
        assert(s.drop_last()[i] == s[i]);
        lemma_count_some(s.drop_last(), i, f);
    }
}

pub proof fn lemma_count_mono(
    s: Seq<WorkerState>,
    f: spec_fn(WorkerState) -> bool,
    g: spec_fn(WorkerState) -> bool,
)
    requires
        forall|w: WorkerState| #[trigger] f(w) ==> g(w),
    ensures
        count_where(s, f) <= count_where(s, g),
    decreases s.len(),
{
    if s.len() > 0 {
        lemma_count_mono(s.drop_last(), f, g);
    }
}

pub proof fn lemma_count_bound(s: Seq<WorkerState>, f: spec_fn(WorkerState) -> bool)
    ensures
        count_where(s, f) <= s.len(),
    decreases s.len(),
{
    if s.len() > 0 {
        lemma_count_bound(s.drop_last(), f);
    }
}

} // verus!
