//! A fixed-size worker pool, as a verified state machine.
//!
//! The pool's shared state (the message queue, each worker's state and
//! whether the pool still accepts jobs) lives in [`ThreadPool`]. Every
//! decision of the pool is a method on it: validating the size, accepting or
//! refusing a job, sending one terminate message per worker on shutdown, and
//! handing the next message to a worker. Running the threads, blocking while
//! the queue is empty and invoking the jobs are left to the caller, which
//! keeps the state behind a lock.

mod error;
mod message;
mod pool;
mod worker;

pub use error::{creation_message, PoolClosed, PoolCreationError};
pub use message::{payload, Message, Step};
pub use pool::{
    lemma_closed_pool_drains,
    lemma_execute_after_shutdown,
    lemma_shutdown_idempotent,
    lemma_stopped_pool_delivered_all,
    terminates,
    PoolView,
    ThreadPool,
};
pub use worker::{running_count, Worker, WorkerState};
