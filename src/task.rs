use vstd::prelude::*;

verus! {

/// One item, or a batch of items.
pub enum Shape<X> {
    Single(X),
    Batch(Vec<X>),
}

impl<X> Shape<X> {
    /// The items carried, in order.
    pub open spec fn items(&self) -> Seq<X> {
        match self {
            Shape::Single(x) => seq![*x],
            Shape::Batch(v) => v@,
        }
    }
}

/// The items of an optional shape; none when it is absent.
pub open spec fn shape_items<X>(s: Option<Shape<X>>) -> Seq<X> {
    match s {
        Some(sh) => sh.items(),
        None => Seq::empty(),
    }
}

/// How a sequence is packaged: nothing when empty, `Single` for one item,
/// `Batch` for more.
pub open spec fn packs<X>(s: Seq<X>, r: Option<Shape<X>>) -> bool {
    if s.len() == 0 {
        r is None
    } else if s.len() == 1 {
        r == Some(Shape::Single(s[0]))
    } else {
        match r {
            Some(Shape::Batch(v)) => v@ == s,
            _ => false,
        }
    }
}

/// What a task hands back: results to publish and follow-up tasks to run.
pub struct TaskResult<D, T> {
    results: Vec<D>,
    jobs: Vec<T>,
}

impl<D, T> TaskResult<D, T> {
    /// The results, in the order they were added.
    pub closed spec fn results_view(&self) -> Seq<D> {
        self.results@
    }

    /// The follow-up tasks, in the order they were added.
    pub closed spec fn jobs_view(&self) -> Seq<T> {
        self.jobs@
    }

    pub fn new() -> (r: Self)
        ensures
            r.results_view() == Seq::<D>::empty(),
            r.jobs_view() == Seq::<T>::empty(),
    {
        TaskResult { results: Vec::new(), jobs: Vec::new() }
    }

    pub fn from(results: Option<Shape<D>>, jobs: Option<Shape<T>>) -> (r: Self)
        ensures
            r.results_view() == shape_items(results),
            r.jobs_view() == shape_items(jobs),
    {
        let bundle = match results {
            Some(Shape::Single(result)) => Self::from_result(result),
            Some(Shape::Batch(batch)) => Self::from_results(batch),
            None => Self::new(),
        };
        match jobs {
            Some(Shape::Single(job)) => bundle.add_job(job),
            Some(Shape::Batch(batch)) => bundle.add_jobs(batch),
            None => bundle,
        }
    }

    pub fn from_result(result: D) -> (r: Self)
        ensures
            r.results_view() == seq![result],
            r.jobs_view() == Seq::<T>::empty(),
    {
        let mut results = Vec::new();
        results.push(result);
        TaskResult { results, jobs: Vec::new() }
    }

    pub fn from_results(results: Vec<D>) -> (r: Self)
        ensures
            r.results_view() == results@,
            r.jobs_view() == Seq::<T>::empty(),
    {
        TaskResult { results, jobs: Vec::new() }
    }

    pub fn from_job(job: T) -> (r: Self)
        ensures
            r.results_view() == Seq::<D>::empty(),
            r.jobs_view() == seq![job],
    {
        let mut jobs = Vec::new();
        jobs.push(job);
        TaskResult { results: Vec::new(), jobs }
    }

    pub fn from_jobs(jobs: Vec<T>) -> (r: Self)
        ensures
            r.results_view() == Seq::<D>::empty(),
            r.jobs_view() == jobs@,
    {
        TaskResult { results: Vec::new(), jobs }
    }

    pub fn clear(self) -> (r: Self)
        ensures
            r.results_view() == Seq::<D>::empty(),
            r.jobs_view() == Seq::<T>::empty(),
    {
        let mut bundle = self;
        bundle.results.clear();
        bundle.jobs.clear();
        bundle
    }

    pub fn add_result(self, result: D) -> (r: Self)
        ensures
            r.results_view() == self.results_view().push(result),
            r.jobs_view() == self.jobs_view(),
    {
        let mut bundle = self;
        bundle.results.push(result);
        bundle
    }

    pub fn add_results(self, results: Vec<D>) -> (r: Self)
        ensures
            r.results_view() == self.results_view() + results@,
            r.jobs_view() == self.jobs_view(),
    {
        let mut bundle = self;
        let mut more = results;
        bundle.results.append(&mut more);
        bundle
    }

    pub fn add_job(self, job: T) -> (r: Self)
        ensures
            r.results_view() == self.results_view(),
            r.jobs_view() == self.jobs_view().push(job),
    {
        let mut bundle = self;
        bundle.jobs.push(job);
        bundle
    }

    pub fn add_jobs(self, jobs: Vec<T>) -> (r: Self)
        ensures
            r.results_view() == self.results_view(),
            r.jobs_view() == self.jobs_view() + jobs@,
    {
        let mut bundle = self;
        let mut more = jobs;
        bundle.jobs.append(&mut more);
        bundle
    }

    /// Splits the bundle into its packaged results and follow-up tasks.
    pub fn get(self) -> (r: (Option<Shape<D>>, Option<Shape<T>>))
        ensures
            packs(self.results_view(), r.0),
            packs(self.jobs_view(), r.1),
    {
        let TaskResult { results, jobs } = self;
        (pack(results), pack(jobs))
    }

    /// The results and the follow-up tasks, unpackaged.
    pub fn into_parts(self) -> (r: (Vec<D>, Vec<T>))
        ensures
            r.0@ == self.results_view(),
            r.1@ == self.jobs_view(),
    {
        let TaskResult { results, jobs } = self;
        (results, jobs)
    }

    pub fn is_empty(&self) -> (r: bool)
        ensures
            r == (self.results_view().len() == 0 && self.jobs_view().len() == 0),
    {
        self.results.len() == 0 && self.jobs.len() == 0
    }

    /// The bundle itself, or `None` when it carries nothing.
    pub fn to_opt(self) -> (r: Option<Self>)
        ensures
            self.results_view().len() == 0 && self.jobs_view().len() == 0 ==> r is None,
            self.results_view().len() > 0 || self.jobs_view().len() > 0 ==> r == Some(self),
    {
        if self.is_empty() {
            None
        } else {
            Some(self)
        }
    }

    pub fn has_results(&self) -> (r: bool)
        ensures
            r == (self.results_view().len() > 0),
    {
        self.results.len() > 0
    }
}

impl<D: Copy, T> TaskResult<D, T> {
    /// A copy of the results.
    pub fn clone_results(&self) -> (r: Option<Vec<D>>)
        ensures
            r matches Some(v) && v@ == self.results_view(),
    {
        let mut out: Vec<D> = Vec::new();
        let mut i: usize = 0;
        while i < self.results.len()
            invariant
                i <= self.results@.len(),
                out@ == self.results@.subrange(0, i as int),
            decreases self.results@.len() - i,
        {
            out.push(self.results[i]);
            i = i + 1;
            assert(out@ =~= self.results@.subrange(0, i as int));
        }
        assert(out@ =~= self.results@);
        Some(out)
    }

    /// A copy of the first result, if there is one.
    pub fn clone_first_result(&self) -> (r: Option<D>)
        ensures
            self.results_view().len() == 0 ==> r is None,
            self.results_view().len() > 0 ==> r == Some(self.results_view()[0]),
    {
        if self.results.len() == 0 {
            None
        } else {
            Some(self.results[0])
        }
    }
}

/// Packages a sequence: nothing, a single item, or the whole batch.
fn pack<X>(items: Vec<X>) -> (r: Option<Shape<X>>)
    ensures
        packs(items@, r),
{
    let mut items = items;
    if items.len() == 0 {
        None
    } else if items.len() == 1 {
        let only = items.remove(0);
        Some(Shape::Single(only))
    } else {
        Some(Shape::Batch(items))
    }
}

/// What travels through the command queue to the workers.
pub enum Command<T> {
    NewTask(T),
    Terminate,
}

impl<T> Command<T> {
    /// The task carried, if this is a new task.
    pub fn get_task(self) -> (r: Option<T>)
        ensures
            r == (match self {
                Command::NewTask(t) => Some(t),
                Command::Terminate => None,
            }),
    {
        match self {
            Command::NewTask(task) => Some(task),
            Command::Terminate => None,
        }
    }

    /// The task carried; only for a command known to carry one.
    pub fn expect_task(self) -> (r: T)
        requires
            self is NewTask,
        ensures
            self == Command::NewTask(r),
    {
        match self {
            Command::NewTask(task) => task,
            Command::Terminate => unreached(),
        }
    }
}

/// Why a command could not be queued.
#[derive(Debug, Clone, Copy, PartialEq, Eq, Structural)]
pub enum TrySendError {
    /// The non-blocking path found the queue's guard held.
    WouldBlock,
    /// No worker is left to receive commands.
    SendError,
}

} // verus!
