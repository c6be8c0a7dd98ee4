//! The pool: a roster of workers and the queue of jobs that wait for one.

use crate::error::PoolCreationError;
use crate::worker::{announcement, announcement_text, Worker, WorkerState};
use std::collections::VecDeque;
use vstd::prelude::*;

verus! {

/// A pool as its contracts see it: who the workers are and which jobs wait.
#[verifier::ext_equal]
pub struct PoolState<J> {
    /// The workers, by number.
    pub workers: Seq<Worker>,
    /// The jobs that wait for a worker, oldest first.
    pub pending: Seq<J>,
}

impl<J> PoolState<J> {
    /// Every worker stands at the position that is its number.
    pub open spec fn numbered(self) -> bool {
        forall|i: int| 0 <= i < self.workers.len() ==> (#[trigger] self.workers[i]).id == i
    }

    /// A new pool of `size` workers: all idle, nothing queued.
    pub open spec fn fresh(size: usize) -> Self {
        PoolState {
            workers: Seq::new(
                size as nat,
                |i: int| Worker { id: i as usize, state: WorkerState::Idle },
            ),
            pending: Seq::empty(),
        }
    }

    /// The pool after `job` has joined the back of the queue.
    pub open spec fn submit(self, job: J) -> Self {
        PoolState { workers: self.workers, pending: self.pending.push(job) }
    }

    /// Whether `worker` may take a job: it belongs to the pool, it is idle,
    /// and a job is waiting.
    pub open spec fn can_dequeue(self, worker: int) -> bool {
        &&& 0 <= worker < self.workers.len()
        &&& self.workers[worker].state == WorkerState::Idle
        &&& self.pending.len() > 0
    }

    /// The pool after `worker` has taken the job at the head of the queue.
    pub open spec fn dequeue(self, worker: int) -> Self
        recommends
            self.can_dequeue(worker),
    {
        PoolState {
            workers: self.workers.update(
                worker,
                Worker { id: self.workers[worker].id, state: WorkerState::Running },
            ),
            pending: self.pending.drop_first(),
        }
    }

    /// Whether `worker` has a job to finish: it belongs to the pool and is
    /// running.
    pub open spec fn can_complete(self, worker: int) -> bool {
        &&& 0 <= worker < self.workers.len()
        &&& self.workers[worker].state == WorkerState::Running
    }

    /// The pool after `worker` has finished its job.
    pub open spec fn complete(self, worker: int) -> Self
        recommends
            self.can_complete(worker),
    {
        PoolState {
            workers: self.workers.update(
                worker,
                Worker { id: self.workers[worker].id, state: WorkerState::Idle },
            ),
            pending: self.pending,
        }
    }
}

/// What a worker is handed when it takes a job: the line to announce, and
/// the job to run after it.
pub struct Assignment<J> {
    /// The worker's announcement that it has taken the job.
    pub notice: String,
    /// The job, to be run once.
    pub job: J,
}

/// A fixed set of workers and the jobs that wait for them.
///
/// `J` is the type of a job. The pool queues jobs and hands them out; it
/// never looks inside one.
pub struct ThreadPool<J> {
    workers: Vec<Worker>,
    queue: VecDeque<J>,
}

impl<J> View for ThreadPool<J> {
    type V = PoolState<J>;

    closed spec fn view(&self) -> PoolState<J> {
        PoolState { workers: self.workers@, pending: self.queue@ }
    }
}

impl<J> ThreadPool<J> {
    /// Builds a pool of `size` idle workers with an empty queue.
    ///
    /// A pool needs at least one worker: a size of zero is refused.
    pub fn build(size: usize) -> (built: Result<ThreadPool<J>, PoolCreationError>)
        ensures
            size == 0 <==> built is Err,
            built matches Err(e) ==> e == PoolCreationError::InvalidSize,
            built matches Ok(pool) ==> pool@ == PoolState::<J>::fresh(size),
    {
        if size == 0 {
            return Err(PoolCreationError::InvalidSize);
        }
        let mut workers: Vec<Worker> = Vec::new();
        let mut id: usize = 0;
        while id < size
            invariant
                id <= size,
                workers@.len() == id,
                forall|i: int|
                    0 <= i < id ==> workers@[i] == (Worker {
                        id: i as usize,
                        state: WorkerState::Idle,
                    }),
            decreases size - id,
        {
            workers.push(Worker::new(id));
            id = id + 1;
        }
        let pool = ThreadPool { workers, queue: VecDeque::new() };
        assert(pool@ =~= PoolState::<J>::fresh(size));
        Ok(pool)
    }

    /// The number of workers.
    pub fn size(&self) -> (size: usize)
        ensures
            size == self@.workers.len(),
    {
        self.workers.len()
    }

    /// The workers, by number.
    pub fn workers(&self) -> (workers: &[Worker])
        ensures
            workers@ == self@.workers,
    {
        self.workers.as_slice()
    }

    /// The number of jobs that wait for a worker.
    pub fn pending(&self) -> (pending: usize)
        ensures
            pending == self@.pending.len(),
    {
        self.queue.len()
    }

    /// Submits `job`: it joins the back of the queue.
    pub fn execute(&mut self, job: J)
        ensures
            final(self)@ == old(self)@.submit(job),
            old(self)@.numbered() ==> final(self)@.numbered(),
    {
        self.queue.push_back(job);
    }

    /// Hands `worker` the job at the head of the queue, if it may take one.
    ///
    /// The worker becomes running. Nothing changes, and nothing is handed
    /// out, when the number names no worker of the pool, when the worker is
    /// still running, or when no job is waiting.
    #[must_use]
    pub fn dequeue(&mut self, worker: usize) -> (assignment: Option<Assignment<J>>)
        ensures
            match assignment {
                Some(a) => {
                    &&& old(self)@.can_dequeue(worker as int)
                    &&& a.job == old(self)@.pending[0]
                    &&& a.notice@ == announcement_text(worker as nat)
                    &&& final(self)@ == old(self)@.dequeue(worker as int)
                },
                None => {
                    &&& !old(self)@.can_dequeue(worker as int)
                    &&& final(self)@ == old(self)@
                },
            },
            old(self)@.numbered() ==> final(self)@.numbered(),
    {
        if worker >= self.workers.len() {
            return None;
        }
        if !self.workers[worker].is_idle() {
            return None;
        }
        match self.queue.pop_front() {
            None => None,
            Some(job) => {
                let notice = announcement(worker);
                self.workers[worker].state = WorkerState::Running;
                Some(Assignment { notice, job })
            },
        }
    }

    /// Records that `worker` has finished its job: it becomes idle again.
    ///
    /// Returns whether there was a job to finish. Nothing changes when the
    /// number names no worker of the pool or when the worker was idle.
    pub fn complete(&mut self, worker: usize) -> (finished: bool)
        ensures
            finished == old(self)@.can_complete(worker as int),
            final(self)@ == if finished {
                old(self)@.complete(worker as int)
            } else {
                old(self)@
            },
            old(self)@.numbered() ==> final(self)@.numbered(),
    {
        if worker >= self.workers.len() {
            return false;
        }
        if self.workers[worker].is_idle() {
            return false;
        }
        self.workers[worker].state = WorkerState::Idle;
        true
    }
}

} // verus!
