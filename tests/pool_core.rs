use pool::{PoolCore, ResultPoll, TaskHandler, TaskResult, TrySendError, WorkerAction, WorkerState};

/// A task here is `(value, chained)`: it publishes `value`, and when chained
/// and `value > 0` it submits `(value - 1, true)` as a follow-up.
type Job = (u64, bool);

fn execute(job: Job, handler: &TaskHandler, core: &mut PoolCore<Job, u64>) {
    let (k, chained) = job;
    handler.send_result(core, k).expect("result kept");
    if chained && k > 0 {
        handler.new_task(core, (k - 1, true)).expect("follow-up queued");
    }
}

fn run_one(core: &mut PoolCore<Job, u64>, id: usize) -> Option<bool> {
    match core.next_command(id) {
        WorkerAction::Run(job) => {
            let handler = TaskHandler::new(id);
            execute(job, &handler, core);
            core.task_done(id);
            Some(true)
        },
        WorkerAction::Wait => Some(false),
        WorkerAction::Exit => {
            core.worker_exited(id);
            None
        },
    }
}

/// Lets every worker take commands in turn until each has exited, then
/// collects the results.
fn shut_down(core: &mut PoolCore<Job, u64>) -> Vec<u64> {
    core.begin_shutdown();
    let n = core.n_workers();
    let mut rounds: u32 = 0;
    while core.worker_count() > 0 {
        for id in 0..n {
            if core.state_of(id).is_running() {
                let _ = run_one(core, id);
            }
        }
        rounds += 1;
        assert!(rounds < 1000, "workers did not exit");
    }
    core.finish()
}

fn sorted(mut v: Vec<u64>) -> Vec<u64> {
    v.sort();
    v
}

#[test]
fn independent_tasks_all_results_returned() {
    let mut core: PoolCore<Job, u64> = PoolCore::new(3);
    for i in 0..10u64 {
        assert!(core.submit((i * 10, false)).is_ok());
    }
    assert_eq!(core.jobs_in_queue(), 10);
    let results = shut_down(&mut core);
    assert_eq!(sorted(results), (0..10u64).map(|i| i * 10).collect::<Vec<u64>>());
    assert_eq!(core.worker_count(), 0);
}

#[test]
fn worker_count_zero_after_shutdown() {
    let mut core: PoolCore<Job, u64> = PoolCore::new(4);
    assert_eq!(core.worker_count(), 4);
    core.submit((1, false)).unwrap();
    let _ = shut_down(&mut core);
    assert_eq!(core.worker_count(), 0);
    assert_eq!(core.busy_count(), 0);
}

#[test]
fn follow_up_chain_yields_every_link() {
    let mut core: PoolCore<Job, u64> = PoolCore::new(2);
    assert_eq!(core.submit((2, true)), Ok(1));
    // The first worker takes the task; the queue is empty but the pool is
    // not drained while the task runs.
    match core.next_command(0) {
        WorkerAction::Run(job) => {
            assert_eq!(core.jobs_in_queue(), 0);
            assert_eq!(core.busy_count(), 1);
            assert!(!core.drained());
            let handler = TaskHandler::new(0);
            execute(job, &handler, &mut core);
            // The follow-up is queued at the call, while its parent runs.
            assert_eq!(core.jobs_in_queue(), 1);
            assert!(!core.drained());
            core.task_done(0);
            assert!(!core.drained());
        },
        _ => panic!("expected a task"),
    }
    assert!(!core.drained());
    while !core.drained() {
        let _ = run_one(&mut core, 1);
    }
    let results = shut_down(&mut core);
    assert_eq!(sorted(results), vec![0, 1, 2]);
}

#[test]
fn zero_tasks_shutdown_is_empty() {
    let mut core: PoolCore<Job, u64> = PoolCore::new(3);
    assert!(core.drained());
    let results = shut_down(&mut core);
    assert!(results.is_empty());
    assert_eq!(core.worker_count(), 0);
}

#[test]
fn submissions_equal_results_observed() {
    let mut core: PoolCore<Job, u64> = PoolCore::new(2);
    let mut accepted: usize = 0;
    for i in 0..25u64 {
        if core.submit((i, false)).is_ok() {
            accepted += 1;
        }
        // Workers take work while producers keep submitting.
        if i % 3 == 0 {
            let _ = run_one(&mut core, (i % 2) as usize);
        }
    }
    let results = shut_down(&mut core);
    assert_eq!(accepted, 25);
    assert_eq!(results.len(), accepted);
    assert_eq!(sorted(results), (0..25u64).collect::<Vec<u64>>());
}

#[test]
fn panicked_worker_leaves_pool_degraded_but_alive() {
    let mut core: PoolCore<Job, u64> = PoolCore::new(3);
    core.submit((1, false)).unwrap();
    match core.next_command(0) {
        WorkerAction::Run(_) => {},
        _ => panic!("expected a task"),
    }
    assert_eq!(core.worker_count(), 3);
    // The task panics: its thread returns without finishing.
    core.worker_exited(0);
    assert_eq!(core.worker_count(), 2);
    assert_eq!(core.state_of(0), WorkerState::Panicked);
    assert_eq!(core.busy_count(), 0);
    assert_eq!(core.submit((7, false)), Ok(1));
    assert_eq!(run_one(&mut core, 0), None);
    assert_eq!(run_one(&mut core, 1), Some(true));
    let results = shut_down(&mut core);
    assert_eq!(results, vec![7]);
}

#[test]
fn all_workers_panicked_refuses_submissions() {
    let mut core: PoolCore<Job, u64> = PoolCore::new(2);
    core.worker_exited(0);
    core.worker_exited(1);
    assert_eq!(core.worker_count(), 0);
    assert_eq!(core.submit((1, false)), Err(TrySendError::SendError));
    assert!(core.drained());
}

#[test]
fn two_workers_task_and_follow_up() {
    let mut core: PoolCore<u64, u64> = PoolCore::new(2);
    core.submit(5).unwrap();
    match core.next_command(0) {
        WorkerAction::Run(v) => {
            assert_eq!(v, 5);
            let handler = TaskHandler::new(0);
            handler.send_result(&mut core, 5).unwrap();
            handler.new_task(&mut core, 6).unwrap();
        },
        _ => panic!("expected a task"),
    }
    // The second worker takes the follow-up while the first still runs.
    match core.next_command(1) {
        WorkerAction::Run(v) => {
            assert_eq!(v, 6);
            let handler = TaskHandler::new(1);
            handler.send_result(&mut core, 6).unwrap();
            core.task_done(1);
        },
        _ => panic!("expected the follow-up"),
    }
    assert!(!core.drained());
    core.task_done(0);
    assert!(core.drained());
    core.begin_shutdown();
    assert!(matches!(core.next_command(0), WorkerAction::Exit));
    core.worker_exited(0);
    assert!(matches!(core.next_command(1), WorkerAction::Exit));
    core.worker_exited(1);
    let results = core.finish();
    assert_eq!(sorted(results), vec![5, 6]);
    assert_eq!(core.worker_count(), 0);
}

#[test]
fn publish_bundle_queues_follow_ups() {
    let mut core: PoolCore<u64, u64> = PoolCore::new(1);
    let bundle: TaskResult<u64, u64> = TaskResult::from_results(vec![1, 2]).add_jobs(vec![8, 9]);
    assert_eq!(core.publish(bundle), Ok(()));
    assert_eq!(core.jobs_in_queue(), 2);
    assert_eq!(core.next_result(), Some(1));
    assert_eq!(core.next_result(), Some(2));
    assert_eq!(core.next_result(), None);
    assert_eq!(core.submit_many(vec![3, 4, 5]), Ok(5));
}

#[test]
fn poll_result_pending_ready_finished() {
    let mut core: PoolCore<u64, u64> = PoolCore::new(1);
    assert!(matches!(core.poll_result(), ResultPoll::Pending));
    core.submit(1).unwrap();
    assert!(matches!(core.next_command(0), WorkerAction::Run(1)));
    let handler = TaskHandler::new(0);
    handler.send_results(&mut core, vec![3, 4]).unwrap();
    core.task_done(0);
    assert!(core.drained());
    assert!(matches!(core.poll_result(), ResultPoll::Ready(3)));
    // Drained but alive: the sequence goes on until the pool is shut down.
    core.publish_result(5);
    assert!(matches!(core.poll_result(), ResultPoll::Ready(4)));
    assert!(matches!(core.poll_result(), ResultPoll::Ready(5)));
    assert!(matches!(core.poll_result(), ResultPoll::Pending));
    core.begin_shutdown();
    assert!(matches!(core.next_command(0), WorkerAction::Exit));
    assert_eq!(core.state_of(0), WorkerState::Terminated);
    assert!(matches!(core.poll_result(), ResultPoll::Finished));
}

#[test]
fn waiting_worker_gets_nothing() {
    let mut core: PoolCore<u64, u64> = PoolCore::new(1);
    assert!(matches!(core.next_command(0), WorkerAction::Wait));
    assert_eq!(core.state_of(0), WorkerState::Idle);
}

#[test]
fn pool_size_rules() {
    assert_eq!(PoolCore::<u64, u64>::pool_size(Some(3), 8), 3);
    assert_eq!(PoolCore::<u64, u64>::pool_size(Some(12), 8), 12);
    assert_eq!(PoolCore::<u64, u64>::pool_size(Some(0), 8), 1);
    assert_eq!(PoolCore::<u64, u64>::pool_size(None, 8), 8);
}

#[test]
fn create_uses_requested_size_or_cpus() {
    let core: PoolCore<u64, u64> = PoolCore::create(Some(5));
    assert_eq!(core.n_workers(), 5);
    assert_eq!(core.worker_count(), 5);
    let auto: PoolCore<u64, u64> = PoolCore::create(None);
    assert!(auto.n_workers() >= 1);
    assert_eq!(auto.worker_count(), auto.n_workers());
}

#[test]
fn last_worker_lost_drops_queued_tasks() {
    let mut core: PoolCore<u64, u64> = PoolCore::new(1);
    core.submit(1).unwrap();
    core.submit(2).unwrap();
    assert!(matches!(core.next_command(0), WorkerAction::Run(1)));
    assert_eq!(core.jobs_in_queue(), 1);
    core.worker_exited(0);
    assert_eq!(core.worker_count(), 0);
    assert_eq!(core.jobs_in_queue(), 0);
    assert!(core.drained());
    assert_eq!(core.submit(3), Err(TrySendError::SendError));
}

#[test]
fn follow_up_queued_while_another_worker_is_lost() {
    let mut core: PoolCore<u64, u64> = PoolCore::new(2);
    core.submit(1).unwrap();
    assert!(matches!(core.next_command(0), WorkerAction::Run(1)));
    core.worker_exited(1);
    let handler = TaskHandler::new(0);
    assert_eq!(handler.worker(), 0);
    assert_eq!(handler.new_task(&mut core, 9), Ok(()));
    assert_eq!(core.jobs_in_queue(), 1);
}
