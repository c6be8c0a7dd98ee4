use thread_pool::worker::announcement;
use thread_pool::ThreadPool;

#[test]
fn announcement_of_worker_zero() {
    assert_eq!(announcement(0), "Worker 0 got a job; executing.");
}

#[test]
fn announcement_of_single_digit_workers() {
    assert_eq!(announcement(1), "Worker 1 got a job; executing.");
    assert_eq!(announcement(7), "Worker 7 got a job; executing.");
    assert_eq!(announcement(9), "Worker 9 got a job; executing.");
}

#[test]
fn announcement_of_workers_with_several_digits() {
    assert_eq!(announcement(10), "Worker 10 got a job; executing.");
    assert_eq!(announcement(99), "Worker 99 got a job; executing.");
    assert_eq!(announcement(100), "Worker 100 got a job; executing.");
    assert_eq!(announcement(1_234_567_890), "Worker 1234567890 got a job; executing.");
    assert_eq!(announcement(9_007_199_254_740_993), "Worker 9007199254740993 got a job; executing.");
}

#[test]
fn announcement_of_the_largest_number() {
    assert_eq!(
        announcement(usize::MAX),
        format!("Worker {} got a job; executing.", usize::MAX)
    );
}

#[test]
fn announcement_agrees_with_decimal_formatting() {
    let mut id: usize = 0;
    while id < 5_000 {
        assert_eq!(announcement(id), format!("Worker {} got a job; executing.", id));
        id += 1;
    }
    let mut id: usize = 1;
    while id < usize::MAX / 7 {
        assert_eq!(announcement(id), format!("Worker {} got a job; executing.", id));
        id = id * 7 + 3;
    }
}

#[test]
fn dequeue_announces_the_worker_that_asked() {
    let mut pool = ThreadPool::<u32>::build(12).ok().expect("twelve workers are a valid pool");
    for job in 0..12u32 {
        pool.execute(job);
    }
    let first = pool.dequeue(11).expect("worker 11 is idle and a job waits");
    assert_eq!(first.notice, "Worker 11 got a job; executing.");
    let second = pool.dequeue(3).expect("worker 3 is idle and a job waits");
    assert_eq!(second.notice, "Worker 3 got a job; executing.");
    let third = pool.dequeue(10).expect("worker 10 is idle and a job waits");
    assert_eq!(third.notice, "Worker 10 got a job; executing.");
}
