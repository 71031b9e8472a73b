use origin_key_upload::schedule::{
    RetryPolicy, RetrySchedule, DEFAULT_MAX_ATTEMPTS, DEFAULT_RETRY_WAIT_MS,
};
use origin_key_upload::transport::{classify, AttemptOutcome, TransportError};

#[test]
fn fixed_schedule_yields_interval_count_times() {
    let mut s = RetrySchedule::fixed(250, 3);
    assert!(!s.is_exhausted());
    assert_eq!(s.next_delay(), Some(250));
    assert_eq!(s.next_delay(), Some(250));
    assert_eq!(s.next_delay(), Some(250));
    assert!(s.is_exhausted());
    assert_eq!(s.next_delay(), None);
    assert_eq!(s.next_delay(), None);
}

#[test]
fn empty_schedule_is_exhausted() {
    let mut s = RetrySchedule::fixed(1000, 0);
    assert!(s.is_exhausted());
    assert_eq!(s.next_delay(), None);
}

#[test]
fn policy_schedule_has_one_wait_fewer_than_attempts() {
    let p = RetryPolicy::new(4, 10).unwrap();
    let mut s = p.schedule();
    let mut waits: Vec<u64> = Vec::new();
    while let Some(d) = s.next_delay() {
        waits.push(d);
    }
    assert_eq!(waits, vec![10, 10, 10]);
}

#[test]
fn policy_needs_an_attempt() {
    assert!(RetryPolicy::new(0, 10).is_none());
    assert_eq!(
        RetryPolicy::new(1, 0),
        Some(RetryPolicy { max_attempts: 1, interval_ms: 0 })
    );
}

#[test]
fn default_policy_values() {
    let p = RetryPolicy::default_policy();
    assert_eq!(p.max_attempts, DEFAULT_MAX_ATTEMPTS);
    assert_eq!(p.interval_ms, DEFAULT_RETRY_WAIT_MS);
    assert_eq!(p.max_attempts, 5);
    assert_eq!(p.interval_ms, 3000);
}

#[test]
fn conflict_status_is_conflict() {
    assert_eq!(TransportError::from_status(409), TransportError::Conflict);
}

#[test]
fn other_statuses_are_retryable() {
    assert_eq!(TransportError::from_status(500), TransportError::Other);
    assert_eq!(TransportError::from_status(404), TransportError::Other);
    assert_eq!(TransportError::from_status(408), TransportError::Other);
    assert_eq!(TransportError::from_status(42), TransportError::Other);
    assert_eq!(TransportError::from_status(1409), TransportError::Other);
}

#[test]
fn classification() {
    assert_eq!(classify(Ok(())), AttemptOutcome::Success);
    assert_eq!(classify(Err(TransportError::Conflict)), AttemptOutcome::AlreadyExists);
    assert_eq!(classify(Err(TransportError::Other)), AttemptOutcome::RetryableError);
}
