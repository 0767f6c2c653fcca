//! A fixed-size worker pool, modelled as a verified state machine.
//!
//! The data that travels between producers and workers (tasks, commands,
//! result bundles), the command queue with its in-flight counter, the
//! per-worker state machine and the pool's drain and shutdown decisions are
//! all ordinary values here, with contracts. Threads, locks and condition
//! variables drive these values from the outside.

mod task;
mod cmd_pipe;
mod worker;
mod pool;
mod handler;
mod laws;
mod stack;

pub use task::{shape_items, packs, Shape, TaskResult, Command, TrySendError};
pub use handler::TaskHandler;
pub use cmd_pipe::{task_weight, pending_tasks, as_commands, lemma_pending_positive, CommandPipe};
pub use worker::{count_where, count_live, count_busy, live_fn, busy_fn, WorkerState, WorkerAction};
pub use pool::{sized, same_results, same_queue, discarded, exited, ResultPoll, PoolCore};
pub use laws::{law_tasks_conserved, law_results_conserved, law_nothing_published_nothing_returned, law_not_drained_while_busy, law_not_drained_while_queued, law_dead_pool_is_drained, law_panic_costs_one_worker};
pub use stack::AtomicStack;
