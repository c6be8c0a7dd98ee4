//! The books of a fixed-size worker pool, verified.
//!
//! A pool keeps a roster of workers and a first-in, first-out queue of
//! pending jobs. Callers submit jobs with [`ThreadPool::execute`]. A worker
//! that is idle takes the job at the head of the queue with
//! [`ThreadPool::dequeue`], announces that it has it, runs it outside the
//! pool, and reports back with [`ThreadPool::complete`].
//!
//! The pool itself never runs a job and never blocks. Sharing it between
//! threads, putting a worker to sleep while the queue is empty and running
//! the jobs are left to the code that owns the threads; a lock around the
//! pool needs to be held only for the length of one call.
//!
//! * [`pool`] holds the pool and the contracts of its operations.
//! * [`worker`] holds the workers and the text of their announcements.
//! * [`history`] proves what holds of a pool after any sequence of
//!   operations: jobs are handed out once each and in the order of their
//!   submission, and no more jobs are in flight than there are workers.
//! * [`error`] holds the error of a refused construction.

pub mod error;
pub mod history;
pub mod pool;
pub mod worker;

pub use error::PoolCreationError;
pub use pool::{Assignment, PoolState, ThreadPool};
pub use worker::{Worker, WorkerState};
