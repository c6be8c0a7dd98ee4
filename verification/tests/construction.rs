use thread_pool::{PoolCreationError, ThreadPool, WorkerState};

type Job = Box<dyn FnOnce() + Send + 'static>;

#[test]
fn build_of_zero_workers_is_refused() {
    let built = ThreadPool::<Job>::build(0);
    assert!(matches!(built, Err(PoolCreationError::InvalidSize)));
}

#[test]
fn build_of_one_worker_succeeds() {
    let pool = ThreadPool::<Job>::build(1).ok().expect("one worker is a valid pool");
    assert_eq!(pool.size(), 1);
    assert_eq!(pool.pending(), 0);
    assert_eq!(pool.workers()[0].id, 0);
    assert_eq!(pool.workers()[0].state, WorkerState::Idle);
}

#[test]
fn build_makes_exactly_the_workers_asked_for() {
    for size in 1..=64usize {
        let pool = ThreadPool::<Job>::build(size).ok().expect("a positive size is valid");
        assert_eq!(pool.size(), size);
        assert_eq!(pool.workers().len(), size);
        assert_eq!(pool.pending(), 0);
        for (position, worker) in pool.workers().iter().enumerate() {
            assert_eq!(worker.id, position);
            assert_eq!(worker.state, WorkerState::Idle);
        }
    }
}

#[test]
fn build_of_four_workers_numbers_them_from_zero() {
    let pool = ThreadPool::<u32>::build(4).ok().expect("four workers are a valid pool");
    let ids: Vec<usize> = pool.workers().iter().map(|worker| worker.id).collect();
    assert_eq!(ids, vec![0, 1, 2, 3]);
}

#[test]
fn invalid_size_has_its_message() {
    assert_eq!(PoolCreationError::InvalidSize.message(), "Invalid pool size provided");
}

#[test]
fn invalid_size_message_comes_with_the_refusal() {
    match ThreadPool::<Job>::build(0) {
        Ok(_) => panic!("a pool of zero workers was built"),
        Err(error) => {
            assert_eq!(error, PoolCreationError::InvalidSize);
            assert_eq!(error.message(), "Invalid pool size provided");
            assert_eq!(format!("{:?}", error), "InvalidSize");
        }
    }
}
