use origin_key_upload::key_id::ParseError;
use origin_key_upload::schedule::RetryPolicy;
use origin_key_upload::session::{start, Action, PublishError, StatusEvent, UploadPhase};
use origin_key_upload::transport::TransportError;

struct Run {
    events: Vec<StatusEvent>,
    calls: Vec<UploadPhase>,
    waits: Vec<u64>,
    result: Result<(), PublishError>,
}

fn phase_index(phase: UploadPhase) -> usize {
    match phase {
        UploadPhase::Public => 0,
        UploadPhase::Secret => 1,
    }
}

/// Drives a session to its end; `transport(phase, n)` answers the upload of
/// `phase` made after `n` earlier ones of that phase.
fn run(
    public: &str,
    secret: Option<&str>,
    policy: RetryPolicy,
    mut transport: impl FnMut(UploadPhase, usize) -> Result<(), TransportError>,
) -> Run {
    let mut out = Run { events: Vec::new(), calls: Vec::new(), waits: Vec::new(), result: Ok(()) };
    let (mut session, mut step) = match start(public, secret, policy) {
        Ok(s) => s,
        Err(e) => {
            out.result = Err(e);
            return out;
        }
    };
    let mut counts: [usize; 2] = [0, 0];
    loop {
        out.events.extend(step.events);
        match step.action {
            Action::Upload(phase) => {
                let n: usize = counts[phase_index(phase)];
                counts[phase_index(phase)] += 1;
                assert_eq!(session.attempts(), n);
                assert!(session.key(phase).is_some());
                out.calls.push(phase);
                step = session.on_upload_result(transport(phase, n));
            }
            Action::Wait(ms) => {
                out.waits.push(ms);
                step = session.on_waited();
            }
            Action::Finish(r) => {
                out.result = r;
                return out;
            }
        }
    }
}

fn policy(n: usize) -> RetryPolicy {
    RetryPolicy::new(n, 3000).unwrap()
}

const PUBLIC: &str = "/keys/core-20160810182414.pub";
const SECRET: &str = "/keys/core-20160810182414.sig.key";

fn count(events: &[StatusEvent], e: StatusEvent) -> usize {
    events.iter().filter(|x| **x == e).count()
}

#[test]
fn always_succeeding_transport_uploads_once() {
    let r = run(PUBLIC, None, policy(5), |_, _| Ok(()));
    assert!(r.result.is_ok());
    assert_eq!(
        r.events,
        vec![
            StatusEvent::Begin(UploadPhase::Public),
            StatusEvent::Attempting(UploadPhase::Public),
            StatusEvent::Uploaded(UploadPhase::Public),
            StatusEvent::End(UploadPhase::Public),
        ]
    );
    assert_eq!(count(&r.events, StatusEvent::Uploaded(UploadPhase::Public)), 1);
    assert_eq!(count(&r.events, StatusEvent::UsingExisting(UploadPhase::Public)), 0);
    assert_eq!(r.calls, vec![UploadPhase::Public]);
    assert!(r.waits.is_empty());
}

#[test]
fn conflict_uses_existing_key_without_waiting() {
    let r = run(PUBLIC, None, policy(5), |_, _| Err(TransportError::Conflict));
    assert!(r.result.is_ok());
    assert_eq!(count(&r.events, StatusEvent::UsingExisting(UploadPhase::Public)), 1);
    assert_eq!(count(&r.events, StatusEvent::Uploaded(UploadPhase::Public)), 0);
    assert_eq!(r.calls.len(), 1);
    assert!(r.waits.is_empty());
}

#[test]
fn conflict_in_both_phases() {
    let r = run(PUBLIC, Some(SECRET), policy(5), |_, _| Err(TransportError::Conflict));
    assert!(r.result.is_ok());
    assert_eq!(
        r.events,
        vec![
            StatusEvent::Begin(UploadPhase::Public),
            StatusEvent::Attempting(UploadPhase::Public),
            StatusEvent::UsingExisting(UploadPhase::Public),
            StatusEvent::End(UploadPhase::Public),
            StatusEvent::Begin(UploadPhase::Secret),
            StatusEvent::Attempting(UploadPhase::Secret),
            StatusEvent::UsingExisting(UploadPhase::Secret),
            StatusEvent::End(UploadPhase::Secret),
        ]
    );
    assert_eq!(r.calls, vec![UploadPhase::Public, UploadPhase::Secret]);
    assert!(r.waits.is_empty());
}

#[test]
fn retryable_errors_exhaust_public_phase() {
    let r = run(PUBLIC, None, policy(4), |_, _| Err(TransportError::Other));
    assert_eq!(r.calls, vec![UploadPhase::Public; 4]);
    assert_eq!(r.waits, vec![3000, 3000, 3000]);
    match r.result {
        Err(PublishError::PublicUploadFailed(x)) => {
            assert_eq!(x.attempts, 4);
            assert_eq!(x.id.name, "core");
            assert_eq!(x.id.revision, "20160810182414");
        }
        other => panic!("unexpected result {:?}", other),
    }
    assert_eq!(count(&r.events, StatusEvent::Attempting(UploadPhase::Public)), 4);
    assert_eq!(count(&r.events, StatusEvent::End(UploadPhase::Public)), 0);
}

#[test]
fn single_attempt_policy_never_waits() {
    let r = run(PUBLIC, None, policy(1), |_, _| Err(TransportError::Other));
    assert_eq!(r.calls.len(), 1);
    assert!(r.waits.is_empty());
    match r.result {
        Err(PublishError::PublicUploadFailed(x)) => assert_eq!(x.attempts, 1),
        other => panic!("unexpected result {:?}", other),
    }
}

#[test]
fn success_on_third_attempt() {
    let r = run(PUBLIC, None, policy(5), |_, n| {
        if n < 2 {
            Err(TransportError::Other)
        } else {
            Ok(())
        }
    });
    assert!(r.result.is_ok());
    assert_eq!(r.calls.len(), 3);
    assert_eq!(r.waits.len(), 2);
    assert_eq!(count(&r.events, StatusEvent::Uploaded(UploadPhase::Public)), 1);
}

#[test]
fn success_on_last_allowed_attempt() {
    let r = run(PUBLIC, None, policy(5), |_, n| {
        if n < 4 {
            Err(TransportError::Other)
        } else {
            Ok(())
        }
    });
    assert!(r.result.is_ok());
    assert_eq!(r.calls.len(), 5);
}

#[test]
fn public_failure_skips_secret_phase() {
    let r = run(PUBLIC, Some(SECRET), policy(3), |phase, _| match phase {
        UploadPhase::Public => Err(TransportError::Other),
        UploadPhase::Secret => Ok(()),
    });
    assert!(matches!(r.result, Err(PublishError::PublicUploadFailed(_))));
    assert!(r.calls.iter().all(|p| *p == UploadPhase::Public));
    assert_eq!(r.calls.len(), 3);
    assert_eq!(count(&r.events, StatusEvent::Begin(UploadPhase::Secret)), 0);
}

#[test]
fn secret_phase_exhaustion() {
    let r = run(PUBLIC, Some(SECRET), policy(2), |phase, _| match phase {
        UploadPhase::Public => Ok(()),
        UploadPhase::Secret => Err(TransportError::Other),
    });
    assert_eq!(
        r.calls,
        vec![UploadPhase::Public, UploadPhase::Secret, UploadPhase::Secret]
    );
    match r.result {
        Err(PublishError::SecretUploadFailed(x)) => {
            assert_eq!(x.attempts, 2);
            assert_eq!(x.id.name, "core");
        }
        other => panic!("unexpected result {:?}", other),
    }
}

#[test]
fn both_keys_uploaded() {
    let r = run(PUBLIC, Some(SECRET), policy(5), |_, _| Ok(()));
    assert!(r.result.is_ok());
    assert_eq!(count(&r.events, StatusEvent::Uploaded(UploadPhase::Public)), 1);
    assert_eq!(count(&r.events, StatusEvent::Uploaded(UploadPhase::Secret)), 1);
    assert_eq!(count(&r.events, StatusEvent::End(UploadPhase::Secret)), 1);
}

#[test]
fn wrong_version_public_file_makes_no_call() {
    let r = run(SECRET, None, policy(5), |_, _| Ok(()));
    assert!(matches!(
        r.result,
        Err(PublishError::Parse(UploadPhase::Public, ParseError::VersionMismatch))
    ));
    assert!(r.calls.is_empty());
    assert!(r.events.is_empty());
}

#[test]
fn missing_separator_makes_no_call() {
    let r = run("/keys/core.pub", None, policy(5), |_, _| Ok(()));
    assert!(matches!(
        r.result,
        Err(PublishError::Parse(UploadPhase::Public, ParseError::MissingSeparator))
    ));
    assert!(r.calls.is_empty());
}

#[test]
fn bad_secret_file_fails_after_public_upload() {
    let r = run(PUBLIC, Some("/keys/core-20160810182414.pub"), policy(5), |_, _| Ok(()));
    assert!(matches!(
        r.result,
        Err(PublishError::Parse(UploadPhase::Secret, ParseError::VersionMismatch))
    ));
    assert_eq!(r.calls, vec![UploadPhase::Public]);
    assert_eq!(count(&r.events, StatusEvent::End(UploadPhase::Public)), 1);
}
