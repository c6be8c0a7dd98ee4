//! Histories of a pool: what holds after any sequence of events.
//!
//! A history is a sequence of submissions, requests for a job and reports
//! of a finished job, in the order in which the pool saw them. The lemmas of
//! this module speak of the state that [`PoolState::after_all`] reaches, which
//! is the state that the pool's methods reach when they are called in that
//! order.

use crate::pool::PoolState;
use crate::worker::{Worker, WorkerState};
use vstd::prelude::*;

verus! {

/// One thing that happens to a pool.
pub enum Event<J> {
    /// A caller submits a job.
    Submit(J),
    /// The worker with this number asks for a job.
    Dequeue(int),
    /// The worker with this number reports that its job has finished.
    Complete(int),
}

/// How many of `workers` are running a job.
pub open spec fn running_among(workers: Seq<Worker>) -> nat
    decreases workers.len(),
{
    if workers.len() == 0 {
        0
    } else {
        running_among(workers.drop_last()) + if workers.last().state == WorkerState::Running {
            1nat
        } else {
            0nat
        }
    }
}

/// The jobs that `events` submit, in order.
pub open spec fn submitted<J>(events: Seq<Event<J>>) -> Seq<J>
    decreases events.len(),
{
    if events.len() == 0 {
        Seq::empty()
    } else {
        match events.last() {
            Event::Submit(job) => submitted(events.drop_last()).push(job),
            _ => submitted(events.drop_last()),
        }
    }
}

impl<J> PoolState<J> {
    /// The pool after `event`. A request that the pool refuses changes
    /// nothing.
    pub open spec fn after(self, event: Event<J>) -> Self {
        match event {
            Event::Submit(job) => self.submit(job),
            Event::Dequeue(worker) => if self.can_dequeue(worker) {
                self.dequeue(worker)
            } else {
                self
            },
            Event::Complete(worker) => if self.can_complete(worker) {
                self.complete(worker)
            } else {
                self
            },
        }
    }

    /// The pool after `events`, in order.
    pub open spec fn after_all(self, events: Seq<Event<J>>) -> Self
        decreases events.len(),
    {
        if events.len() == 0 {
            self
        } else {
            self.after_all(events.drop_last()).after(events.last())
        }
    }

    /// The jobs handed to workers in the course of `events`, in order.
    pub open spec fn delivered(self, events: Seq<Event<J>>) -> Seq<J>
        decreases events.len(),
    {
        if events.len() == 0 {
            Seq::empty()
        } else {
            let before = self.after_all(events.drop_last());
            let earlier = self.delivered(events.drop_last());
            match events.last() {
                Event::Dequeue(worker) => if before.can_dequeue(worker) {
                    earlier.push(before.pending[0])
                } else {
                    earlier
                },
                _ => earlier,
            }
        }
    }

    /// How many jobs were reported finished in the course of `events`.
    pub open spec fn finished(self, events: Seq<Event<J>>) -> nat
        decreases events.len(),
    {
        if events.len() == 0 {
            0
        } else {
            let before = self.after_all(events.drop_last());
            let earlier = self.finished(events.drop_last());
            match events.last() {
                Event::Complete(worker) => if before.can_complete(worker) {
                    earlier + 1
                } else {
                    earlier
                },
                _ => earlier,
            }
        }
    }

    /// How many workers are running a job.
    pub open spec fn running(self) -> nat {
        running_among(self.workers)
    }
}

/// No more workers run than there are workers.
pub proof fn lemma_running_is_bounded(workers: Seq<Worker>)
    ensures
        running_among(workers) <= workers.len(),
    decreases workers.len(),
{
    if workers.len() > 0 {
        lemma_running_is_bounded(workers.drop_last());
    }
}

/// Where every worker is idle, none counts as running.
pub proof fn lemma_none_running(workers: Seq<Worker>)
    requires
        forall|i: int|
            0 <= i < workers.len() ==> (#[trigger] workers[i]).state == WorkerState::Idle,
    ensures
        running_among(workers) == 0,
    decreases workers.len(),
{
    if workers.len() > 0 {
        let rest = workers.drop_last();
        assert forall|i: int| 0 <= i < rest.len() implies (#[trigger] rest[i]).state
            == WorkerState::Idle by {
            assert(rest[i] == workers[i]);
        }
        lemma_none_running(rest);
    }
}

/// Where every worker counts as running, each of them is running.
pub proof fn lemma_all_running(workers: Seq<Worker>)
    requires
        running_among(workers) == workers.len(),
    ensures
        forall|i: int|
            0 <= i < workers.len() ==> (#[trigger] workers[i]).state == WorkerState::Running,
    decreases workers.len(),
{
    if workers.len() > 0 {
        lemma_running_is_bounded(workers.drop_last());
        lemma_all_running(workers.drop_last());
        assert forall|i: int| 0 <= i < workers.len() implies (#[trigger] workers[i]).state
            == WorkerState::Running by {
            if i < workers.len() - 1 {
                assert(workers[i] == workers.drop_last()[i]);
            }
        }
    }
}

/// Replacing one worker changes the count of running workers by that
/// worker's share alone.
proof fn lemma_running_after_update(workers: Seq<Worker>, i: int, worker: Worker)
    requires
        0 <= i < workers.len(),
    ensures
        running_among(workers.update(i, worker)) + (if workers[i].state == WorkerState::Running {
            1nat
        } else {
            0nat
        }) == running_among(workers) + (if worker.state == WorkerState::Running {
            1nat
        } else {
            0nat
        }),
    decreases workers.len(),
{
    let updated = workers.update(i, worker);
    if i == workers.len() - 1 {
        assert(updated.drop_last() =~= workers.drop_last());
    } else {
        lemma_running_after_update(workers.drop_last(), i, worker);
        assert(updated.drop_last() =~= workers.drop_last().update(i, worker));
    }
}

/// Delivery is first in, first out, without loss and without repetition.
///
/// Whatever the events, the jobs that waited at the start followed by the
/// jobs submitted since are exactly the jobs handed to workers followed by
/// the jobs that still wait. So every job is handed out at most once, in the
/// order of submission, and a job that was not handed out is still queued.
pub proof fn lemma_delivery_is_fifo<J>(start: PoolState<J>, events: Seq<Event<J>>)
    ensures
        start.pending + submitted(events) == start.delivered(events) + start.after_all(events).pending,
    decreases events.len(),
{
    let handed = start.delivered(events);
    let waiting = start.after_all(events).pending;
    if events.len() == 0 {
        assert(start.pending + submitted(events) =~= handed + waiting);
    } else {
        let earlier = events.drop_last();
        let handed_earlier = start.delivered(earlier);
        let waiting_earlier = start.after_all(earlier).pending;
        lemma_delivery_is_fifo(start, earlier);
        match events.last() {
            Event::Submit(job) => {
                assert(start.pending + submitted(earlier).push(job) =~= (handed_earlier
                    + waiting_earlier).push(job));
                assert((handed_earlier + waiting_earlier).push(job) =~= handed + waiting);
            },
            Event::Dequeue(worker) => {
                assert(handed + waiting =~= handed_earlier + waiting_earlier);
            },
            Event::Complete(worker) => {},
        }
    }
}

/// The k-th job handed out is the k-th job submitted.
///
/// In a pool that started with an empty queue no job is handed out that was
/// not submitted, and none is handed out twice: the jobs handed out are a
/// prefix of the jobs submitted.
pub proof fn lemma_delivered_is_prefix_of_submitted<J>(
    start: PoolState<J>,
    events: Seq<Event<J>>,
)
    requires
        start.pending.len() == 0,
    ensures
        start.delivered(events).len() <= submitted(events).len(),
        start.delivered(events) == submitted(events).subrange(
            0,
            start.delivered(events).len() as int,
        ),
        start.after_all(events).pending == submitted(events).subrange(
            start.delivered(events).len() as int,
            submitted(events).len() as int,
        ),
{
    lemma_delivery_is_fifo(start, events);
    let all = submitted(events);
    let handed = start.delivered(events);
    let waiting = start.after_all(events).pending;
    assert(all =~= start.pending + all);
    assert(all.len() == handed.len() + waiting.len());
    assert(handed =~= all.subrange(0, handed.len() as int));
    assert(waiting =~= all.subrange(handed.len() as int, all.len() as int));
}

/// The roster never changes: the same workers, under the same numbers.
pub proof fn lemma_roster_is_stable<J>(start: PoolState<J>, events: Seq<Event<J>>)
    ensures
        start.after_all(events).workers.len() == start.workers.len(),
        forall|i: int|
            0 <= i < start.workers.len() ==> (#[trigger] start.after_all(events).workers[i]).id
                == start.workers[i].id,
        start.numbered() ==> start.after_all(events).numbered(),
    decreases events.len(),
{
    if events.len() > 0 {
        lemma_roster_is_stable(start, events.drop_last());
    }
}

/// The jobs in flight are the jobs of the running workers.
///
/// Whatever the events, the workers that ran at the start plus the jobs
/// handed out since are the workers that run now plus the jobs reported
/// finished. So the jobs handed out and not yet finished never outnumber the
/// workers.
pub proof fn lemma_jobs_in_flight<J>(start: PoolState<J>, events: Seq<Event<J>>)
    ensures
        start.running() + start.delivered(events).len() == start.after_all(events).running()
            + start.finished(events),
        start.after_all(events).running() <= start.workers.len(),
    decreases events.len(),
{
    lemma_roster_is_stable(start, events);
    lemma_running_is_bounded(start.after_all(events).workers);
    if events.len() > 0 {
        let earlier = events.drop_last();
        let before = start.after_all(earlier);
        lemma_jobs_in_flight(start, earlier);
        match events.last() {
            Event::Submit(job) => {},
            Event::Dequeue(worker) => {
                if before.can_dequeue(worker) {
                    lemma_running_after_update(
                        before.workers,
                        worker,
                        Worker { id: before.workers[worker].id, state: WorkerState::Running },
                    );
                }
            },
            Event::Complete(worker) => {
                if before.can_complete(worker) {
                    lemma_running_after_update(
                        before.workers,
                        worker,
                        Worker { id: before.workers[worker].id, state: WorkerState::Idle },
                    );
                }
            },
        }
    }
}

/// What holds of a pool of `size` workers, from the moment it is built,
/// whatever happens to it.
///
/// The roster keeps its `size` workers under their numbers. The jobs handed
/// out followed by the jobs that wait are the jobs submitted, in order: none
/// is lost, none is handed out twice. The jobs handed out and not yet
/// reported finished are the jobs of the running workers, so at most `size`
/// jobs are in flight.
pub proof fn lemma_history_of_a_new_pool<J>(size: usize, events: Seq<Event<J>>)
    ensures
        ({
            let start = PoolState::<J>::fresh(size);
            let now = start.after_all(events);
            &&& now.workers.len() == size
            &&& now.numbered()
            &&& start.delivered(events) + now.pending == submitted(events)
            &&& start.delivered(events).len() == now.running() + start.finished(events)
            &&& now.running() <= size
        }),
{
    let start = PoolState::<J>::fresh(size);
    lemma_roster_is_stable(start, events);
    lemma_delivery_is_fifo(start, events);
    lemma_jobs_in_flight(start, events);
    lemma_none_running(start.workers);
    assert(start.pending + submitted(events) =~= submitted(events));
}

/// A pool whose workers all run hands out nothing.
///
/// With as many jobs in flight as there are workers, every request for a job
/// is refused until some worker reports that its job has finished.
pub proof fn lemma_saturated_pool_hands_out_nothing<J>(pool: PoolState<J>, worker: int)
    requires
        pool.running() == pool.workers.len(),
    ensures
        !pool.can_dequeue(worker),
{
    lemma_all_running(pool.workers);
}

} // verus!
