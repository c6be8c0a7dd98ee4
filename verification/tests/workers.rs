use thread_pool::{Worker, WorkerState};

#[test]
fn a_new_worker_is_idle_under_its_number() {
    let worker = Worker::new(7);
    assert_eq!(worker.id, 7);
    assert_eq!(worker.state, WorkerState::Idle);
    assert!(worker.is_idle());
}

#[test]
fn a_running_worker_is_not_idle() {
    let worker = Worker { id: 2, state: WorkerState::Running };
    assert!(!worker.is_idle());
    assert_eq!(worker, Worker { id: 2, state: WorkerState::Running });
    assert_ne!(worker, Worker::new(2));
}

#[test]
fn workers_with_the_largest_number_are_idle_when_new() {
    let worker = Worker::new(usize::MAX);
    assert_eq!(worker.id, usize::MAX);
    assert!(worker.is_idle());
}
