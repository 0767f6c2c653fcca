use pool::{AtomicStack, Command, CommandPipe, Shape, TaskResult, TrySendError, WorkerState};

fn shape_vec(s: Option<Shape<u64>>) -> Option<Vec<u64>> {
    match s {
        None => None,
        Some(Shape::Single(x)) => Some(vec![x]),
        Some(Shape::Batch(v)) => Some(v),
    }
}

#[test]
fn task_result_new_is_empty() {
    let r: TaskResult<u64, u64> = TaskResult::new();
    assert!(r.is_empty());
    assert!(!r.has_results());
    assert!(r.to_opt().is_none());
}

#[test]
fn task_result_get_packs_single_and_batch() {
    let r: TaskResult<u64, u64> = TaskResult::from_result(7).add_job(1).add_job(2);
    let (results, jobs) = r.get();
    assert!(matches!(results, Some(Shape::Single(7))));
    assert_eq!(shape_vec(jobs), Some(vec![1, 2]));
    assert!(matches!(jobs_of_empty(), (None, None)));
}

fn jobs_of_empty() -> (Option<Shape<u64>>, Option<Shape<u64>>) {
    let r: TaskResult<u64, u64> = TaskResult::new();
    r.get()
}

#[test]
fn task_result_from_shapes() {
    let r: TaskResult<u64, u64> =
        TaskResult::from(Some(Shape::Batch(vec![1, 2, 3])), Some(Shape::Single(9)));
    assert_eq!(r.clone_results(), Some(vec![1, 2, 3]));
    assert_eq!(r.clone_first_result(), Some(1));
    let (results, jobs) = r.get();
    assert_eq!(shape_vec(results), Some(vec![1, 2, 3]));
    assert!(matches!(jobs, Some(Shape::Single(9))));
}

#[test]
fn task_result_add_and_clear() {
    let r: TaskResult<u64, u64> = TaskResult::from_results(vec![4])
        .add_result(5)
        .add_results(vec![6, 7])
        .add_jobs(vec![10, 11]);
    assert_eq!(r.clone_results(), Some(vec![4, 5, 6, 7]));
    let (results, jobs) = r.into_parts();
    assert_eq!(results, vec![4, 5, 6, 7]);
    assert_eq!(jobs, vec![10, 11]);
    let c: TaskResult<u64, u64> = TaskResult::from_jobs(vec![1]).add_result(3).clear();
    assert!(c.is_empty());
    assert_eq!(c.clone_first_result(), None);
}

#[test]
fn task_result_only_jobs_is_not_empty() {
    let r: TaskResult<u64, u64> = TaskResult::from_job(3);
    assert!(!r.has_results());
    assert!(!r.is_empty());
    assert!(r.to_opt().is_some());
}

#[test]
fn command_task_extraction() {
    let c: Command<u64> = Command::NewTask(4);
    assert_eq!(c.get_task(), Some(4));
    let t: Command<u64> = Command::Terminate;
    assert_eq!(t.get_task(), None);
    assert_eq!(Command::NewTask(8u64).expect_task(), 8);
}

#[test]
fn pipe_counts_only_tasks() {
    let mut p: CommandPipe<u64> = CommandPipe::new();
    assert_eq!(p.send_single(1), Ok(()));
    assert_eq!(p.send_many(vec![2, 3]), Ok(()));
    assert_eq!(p.send_termination(), Ok(()));
    assert_eq!(p.send(Shape::Single(4)), Ok(()));
    assert_eq!(p.jobs_in_queue(), 4);
    assert!(matches!(p.try_recv(), Ok(Command::NewTask(1))));
    assert_eq!(p.jobs_in_queue(), 3);
    assert!(matches!(p.try_recv(), Ok(Command::NewTask(2))));
    assert!(matches!(p.try_recv(), Ok(Command::NewTask(3))));
    assert!(matches!(p.try_recv(), Ok(Command::Terminate)));
    assert_eq!(p.jobs_in_queue(), 1);
    assert!(matches!(p.try_recv(), Ok(Command::NewTask(4))));
    assert_eq!(p.jobs_in_queue(), 0);
    assert!(p.try_recv().is_err());
}

#[test]
fn pipe_disconnected_refuses() {
    let mut p: CommandPipe<u64> = CommandPipe::new();
    p.disconnect();
    assert_eq!(p.send_single(1), Err(TrySendError::SendError));
    assert_eq!(p.send_many(vec![1, 2]), Err(TrySendError::SendError));
    assert_eq!(p.send_termination(), Err(TrySendError::SendError));
    assert_eq!(p.jobs_in_queue(), 0);
    assert!(p.try_recv().is_err());
}

#[test]
fn worker_state_observation() {
    assert_eq!(WorkerState::Busy.observed(true), WorkerState::Busy);
    assert_eq!(WorkerState::Busy.observed(false), WorkerState::Panicked);
    assert_eq!(WorkerState::Idle.observed(false), WorkerState::Panicked);
    assert_eq!(WorkerState::Terminated.observed(false), WorkerState::Terminated);
    assert!(WorkerState::Idle.is_running());
    assert!(!WorkerState::Panicked.is_running());
    assert!(WorkerState::Busy.is_busy());
}

#[test]
fn stack_is_last_in_first_out() {
    let mut s: AtomicStack<u64> = AtomicStack::with_capacity(4);
    assert!(s.push(1));
    assert!(s.push(2));
    assert_eq!(s.to_vec(), Some(vec![1, 2]));
    assert_eq!(s.pop(), Some(2));
    assert_eq!(s.pop(), Some(1));
    assert_eq!(s.pop(), None);
    let e: AtomicStack<u64> = AtomicStack::new();
    assert_eq!(e.to_vec(), Some(vec![]));
}

