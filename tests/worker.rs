use std::sync::atomic::{AtomicBool, AtomicU64, Ordering};
use vanity_address::worker::{worker_iteration, worker_step, WorkerStep};

#[test]
fn stopped_worker_generates_nothing() {
    let mut rng = rand::thread_rng();
    assert!(matches!(worker_step(true, &mut rng, ""), WorkerStep::Stopped));
    assert!(matches!(worker_step(true, &mut rng, "abc"), WorkerStep::Stopped));
}

#[test]
fn empty_pattern_takes_first_candidate() {
    let mut rng = rand::thread_rng();
    match worker_step(false, &mut rng, "") {
        WorkerStep::Found(c) => {
            assert_eq!(c.address.len(), 40);
            assert_eq!(c.private_key.len(), 64);
        }
        _ => panic!("the first candidate must match the empty pattern"),
    }
}

#[test]
fn long_pattern_goes_on_and_counts() {
    // Forty zeros: no candidate will match within a test's lifetime.
    let pattern = "0000000000000000000000000000000000000000";
    let found = AtomicBool::new(false);
    let processed = AtomicU64::new(0);
    let mut rng = rand::thread_rng();
    for _ in 0..3 {
        assert!(matches!(
            worker_iteration(&found, &processed, &mut rng, pattern),
            WorkerStep::Continue
        ));
    }
    assert_eq!(processed.load(Ordering::Relaxed), 3);
}

#[test]
fn raised_signal_stops_iteration() {
    let found = AtomicBool::new(true);
    let processed = AtomicU64::new(7);
    let mut rng = rand::thread_rng();
    assert!(matches!(
        worker_iteration(&found, &processed, &mut rng, ""),
        WorkerStep::Stopped
    ));
    assert_eq!(processed.load(Ordering::Relaxed), 7);
}

#[test]
fn single_digit_pattern_is_found() {
    let found = AtomicBool::new(false);
    let processed = AtomicU64::new(0);
    let mut rng = rand::thread_rng();
    loop {
        match worker_iteration(&found, &processed, &mut rng, "a") {
            WorkerStep::Found(c) => {
                assert!(c.address.starts_with('a'));
                break;
            }
            WorkerStep::Continue => {}
            WorkerStep::Stopped => panic!("the signal was never raised"),
        }
    }
}
