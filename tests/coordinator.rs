use vanity_address::coordinator::{
    progress_report, search_difficulty, Action, Coordinator, PollEvent, Progress, SearchError,
    DEFAULT_WORKERS,
};
use vanity_address::keys::Candidate;

fn candidate(address: &str) -> Candidate {
    Candidate {
        private_key: "11".repeat(32),
        address: address.to_string(),
    }
}

#[test]
fn difficulty_is_a_power_of_sixteen() {
    assert_eq!(search_difficulty(0), 1);
    assert_eq!(search_difficulty(1), 16);
    assert_eq!(search_difficulty(4), 65536);
    assert_eq!(search_difficulty(15), 1u64 << 60);
}

#[test]
fn difficulty_saturates() {
    assert_eq!(search_difficulty(16), u64::MAX);
    assert_eq!(search_difficulty(40), u64::MAX);
}

#[test]
fn no_report_without_elapsed_time() {
    assert_eq!(progress_report(0, 0, 4), None);
    assert_eq!(progress_report(1000, 0, 4), None);
}

#[test]
fn unknown_eta_without_progress() {
    assert_eq!(
        progress_report(0, 5, 4),
        Some(Progress { speed: 0, elapsed_secs: 5, eta_secs: None })
    );
    assert_eq!(
        progress_report(3, 5, 4),
        Some(Progress { speed: 0, elapsed_secs: 5, eta_secs: None })
    );
}

#[test]
fn report_values() {
    assert_eq!(
        progress_report(1000, 2, 4),
        Some(Progress { speed: 500, elapsed_secs: 2, eta_secs: Some(131) })
    );
    assert_eq!(
        progress_report(10, 1, 0),
        Some(Progress { speed: 10, elapsed_secs: 1, eta_secs: Some(0) })
    );
}

#[test]
fn invalid_pattern_is_refused() {
    assert_eq!(Coordinator::new("0x1", 4).err(), Some(SearchError::InvalidPattern));
    assert_eq!(Coordinator::new("ABC", 4).err(), Some(SearchError::InvalidPattern));
}

#[test]
fn at_least_one_worker() {
    let c = Coordinator::new("ab", 0).unwrap();
    assert_eq!(c.workers(), 1);
    let c = Coordinator::new("ab", DEFAULT_WORKERS).unwrap();
    assert_eq!(c.workers(), 4);
    assert_eq!(c.pattern(), "ab");
    assert!(!c.is_stopped());
}

#[test]
fn first_match_wins() {
    let mut c = Coordinator::new("dead", 4).unwrap();
    match c.on_event(PollEvent::Received(candidate("deadbeef"))) {
        Action::Finish(r) => assert_eq!(r.address, "deadbeef"),
        other => panic!("expected the result, got {:?}", other),
    }
    assert!(c.is_stopped());
    assert!(matches!(
        c.on_event(PollEvent::Received(candidate("dead0000"))),
        Action::Discard
    ));
    assert!(c.is_stopped());
}

#[test]
fn non_matching_candidate_is_discarded() {
    let mut c = Coordinator::new("dead", 4).unwrap();
    assert!(matches!(
        c.on_event(PollEvent::Received(candidate("cafebabe"))),
        Action::Discard
    ));
    assert!(!c.is_stopped());
    assert!(matches!(
        c.on_event(PollEvent::Received(candidate("deadcafe"))),
        Action::Finish(_)
    ));
}

#[test]
fn stop_signal_stays_raised() {
    let mut c = Coordinator::new("", 2).unwrap();
    assert!(matches!(
        c.on_event(PollEvent::Received(candidate("0123"))),
        Action::Finish(_)
    ));
    c.on_event(PollEvent::Timeout { elapsed_secs: 3, processed: 9 });
    assert!(c.is_stopped());
    c.on_event(PollEvent::Received(candidate("4567")));
    assert!(c.is_stopped());
}

#[test]
fn timeouts_yield_reports() {
    let mut c = Coordinator::new("ab", 4).unwrap();
    assert!(matches!(
        c.on_event(PollEvent::Timeout { elapsed_secs: 0, processed: 50 }),
        Action::Wait
    ));
    match c.on_event(PollEvent::Timeout { elapsed_secs: 2, processed: 100 }) {
        Action::Report(p) => {
            assert_eq!(p, Progress { speed: 50, elapsed_secs: 2, eta_secs: Some(5) })
        }
        other => panic!("expected a report, got {:?}", other),
    }
    match c.on_event(PollEvent::Timeout { elapsed_secs: 2, processed: 0 }) {
        Action::Report(p) => assert_eq!(p.eta_secs, None),
        other => panic!("expected a report, got {:?}", other),
    }
}
