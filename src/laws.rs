//! Whole runs of a session against a transport whose answers are given in
//! advance, and what holds of them.
use vstd::prelude::*;
use crate::key_id::{KeyVersion, parse_spec};
use crate::schedule::{RetryPolicy, fixed_schedule};
use crate::session::{
    ActionModel,
    PublishErrorModel,
    SessionModel,
    StatusEvent,
    UploadPhase,
    start_spec,
    upload_step,
    wait_step,
};
use crate::transport::TransportError;

verus! {

/// What a run reported and did: status events, transport calls, waits, and
/// the final result if the run got that far.
pub struct RunModel {
    pub events: Seq<StatusEvent>,
    pub calls: Seq<UploadPhase>,
    pub waits: Seq<u64>,
    pub outcome: Option<Result<(), PublishErrorModel>>,
}

pub open spec fn unfinished() -> RunModel {
    RunModel { events: Seq::empty(), calls: Seq::empty(), waits: Seq::empty(), outcome: None }
}

/// Carries out `action` and those that follow it, for at most `fuel`
/// actions. `t(phase, n)` is the transport's answer to an upload of `phase`'s
/// key made after `n` earlier attempts in that phase.
pub open spec fn drive(
    m: SessionModel,
    action: ActionModel,
    t: spec_fn(UploadPhase, nat) -> Result<(), TransportError>,
    fuel: nat,
) -> RunModel
    decreases fuel,
{
    if fuel == 0 {
        unfinished()
    } else {
        match action {
            ActionModel::Finish(r) => RunModel { outcome: Some(r), ..unfinished() },
            ActionModel::Upload(ph) => {
                let (m2, st) = upload_step(m, t(ph, m.attempts));
                let rest = drive(m2, st.action, t, (fuel - 1) as nat);
                RunModel {
                    events: st.events + rest.events,
                    calls: seq![ph] + rest.calls,
                    waits: rest.waits,
                    outcome: rest.outcome,
                }
            },
            ActionModel::Wait(ms) => {
                let (m2, st) = wait_step(m);
                let rest = drive(m2, st.action, t, (fuel - 1) as nat);
                RunModel {
                    events: st.events + rest.events,
                    calls: rest.calls,
                    waits: seq![ms] + rest.waits,
                    outcome: rest.outcome,
                }
            },
        }
    }
}

/// A whole session, from `start` on.
pub open spec fn publish_run(
    public_path: Seq<char>,
    secret_path: Option<Seq<char>>,
    policy: RetryPolicy,
    t: spec_fn(UploadPhase, nat) -> Result<(), TransportError>,
    fuel: nat,
) -> RunModel {
    match start_spec(public_path, secret_path, policy) {
        Err(e) => RunModel { outcome: Some(Err(e)), ..unfinished() },
        Ok((m, st)) => {
            let rest = drive(m, st.action, t, fuel);
            RunModel { events: st.events + rest.events, ..rest }
        },
    }
}

pub open spec fn public_success_events(found: bool) -> Seq<StatusEvent> {
    seq![
        StatusEvent::Begin(UploadPhase::Public),
        StatusEvent::Attempting(UploadPhase::Public),
        if found {
            StatusEvent::UsingExisting(UploadPhase::Public)
        } else {
            StatusEvent::Uploaded(UploadPhase::Public)
        },
        StatusEvent::End(UploadPhase::Public),
    ]
}

pub open spec fn secret_success_events(found: bool) -> Seq<StatusEvent> {
    seq![
        StatusEvent::Begin(UploadPhase::Secret),
        StatusEvent::Attempting(UploadPhase::Secret),
        if found {
            StatusEvent::UsingExisting(UploadPhase::Secret)
        } else {
            StatusEvent::Uploaded(UploadPhase::Secret)
        },
        StatusEvent::End(UploadPhase::Secret),
    ]
}

/// With a valid public key file, no secret key and a transport that always
/// succeeds, the session succeeds with one upload, reporting `Uploaded` once
/// and `UsingExisting` never.
pub proof fn law_success_uploads_once(
    public_path: Seq<char>,
    policy: RetryPolicy,
    t: spec_fn(UploadPhase, nat) -> Result<(), TransportError>,
    fuel: nat,
)
    requires
        parse_spec(public_path, KeyVersion::PublicSig) is Ok,
        policy.wf(),
        forall|ph: UploadPhase, n: nat| #[trigger] t(ph, n) == Ok::<(), TransportError>(()),
        fuel >= 2,
    ensures
        ({
            let run = publish_run(public_path, None, policy, t, fuel);
            &&& run.outcome == Some(Ok::<(), PublishErrorModel>(()))
            &&& run.events == public_success_events(false)
            &&& run.calls == seq![UploadPhase::Public]
            &&& run.waits.len() == 0
        }),
{
    let (m, st) = start_spec(public_path, None, policy)->Ok_0;
    assert(m.attempts == 0);
    let (m2, st2) = upload_step(m, t(UploadPhase::Public, 0));
    assert(st2.action == ActionModel::Finish(Ok::<(), PublishErrorModel>(())));
    let rest2 = drive(m2, st2.action, t, (fuel - 1) as nat);
    assert(rest2.outcome == Some(Ok::<(), PublishErrorModel>(())));
    let rest = drive(m, st.action, t, fuel);
    assert(rest.events == st2.events + rest2.events);
    assert(rest2.events =~= Seq::<StatusEvent>::empty());
    assert(rest2.calls =~= Seq::<UploadPhase>::empty());
    assert(st.events + rest.events =~= public_success_events(false));
    assert(rest.calls =~= seq![UploadPhase::Public]);
}

/// With valid key files and a transport that answers `Conflict` to the first
/// attempt of each phase, the session succeeds with one attempt per key,
/// reporting `UsingExisting` once per key, `Uploaded` never, and no wait.
pub proof fn law_conflict_uses_existing(
    public_path: Seq<char>,
    secret_path: Option<Seq<char>>,
    policy: RetryPolicy,
    t: spec_fn(UploadPhase, nat) -> Result<(), TransportError>,
    fuel: nat,
)
    requires
        parse_spec(public_path, KeyVersion::PublicSig) is Ok,
        secret_path is Some ==> parse_spec(secret_path->0, KeyVersion::SecretSig) is Ok,
        policy.wf(),
        t(UploadPhase::Public, 0) == Err::<(), TransportError>(TransportError::Conflict),
        t(UploadPhase::Secret, 0) == Err::<(), TransportError>(TransportError::Conflict),
        fuel >= 3,
    ensures
        ({
            let run = publish_run(public_path, secret_path, policy, t, fuel);
            &&& run.outcome == Some(Ok::<(), PublishErrorModel>(()))
            &&& run.waits.len() == 0
            &&& secret_path is None ==> run.events == public_success_events(true)
                && run.calls == seq![UploadPhase::Public]
            &&& secret_path is Some ==> run.events == public_success_events(true)
                + secret_success_events(true) && run.calls == seq![
                UploadPhase::Public,
                UploadPhase::Secret,
            ]
        }),
{
    let (m, st) = start_spec(public_path, secret_path, policy)->Ok_0;
    assert(m.attempts == 0);
    let (m2, st2) = upload_step(m, t(UploadPhase::Public, 0));
    let rest2 = drive(m2, st2.action, t, (fuel - 1) as nat);
    let rest = drive(m, st.action, t, fuel);
    assert(rest.events == st2.events + rest2.events);
    assert(rest.calls == seq![UploadPhase::Public] + rest2.calls);
    if secret_path is None {
        assert(st2.action == ActionModel::Finish(Ok::<(), PublishErrorModel>(())));
        assert(rest2.events =~= Seq::<StatusEvent>::empty());
        assert(rest2.calls =~= Seq::<UploadPhase>::empty());
        assert(st.events + rest.events =~= public_success_events(true));
        assert(rest.calls =~= seq![UploadPhase::Public]);
    } else {
        assert(st2.action == ActionModel::Upload(UploadPhase::Secret));
        assert(m2.attempts == 0);
        let (m3, st3) = upload_step(m2, t(UploadPhase::Secret, 0));
        assert(st3.action == ActionModel::Finish(Ok::<(), PublishErrorModel>(())));
        let rest3 = drive(m3, st3.action, t, (fuel - 2) as nat);
        assert(rest2.events == st3.events + rest3.events);
        assert(rest2.calls == seq![UploadPhase::Secret] + rest3.calls);
        assert(rest3.events =~= Seq::<StatusEvent>::empty());
        assert(rest3.calls =~= Seq::<UploadPhase>::empty());
        assert(st.events + rest.events =~= public_success_events(true) + secret_success_events(
            true,
        ));
        assert(rest.calls =~= seq![UploadPhase::Public, UploadPhase::Secret]);
    }
}

proof fn lemma_fixed_schedule_skip(interval: u64, count: nat)
    requires
        count > 0,
    ensures
        fixed_schedule(interval, count).skip(1) == fixed_schedule(interval, (count - 1) as nat),
{
    assert(fixed_schedule(interval, count).skip(1) =~= fixed_schedule(interval, (count - 1) as nat));
}

/// From a public attempt about to be made, a transport that always fails
/// with a retryable error uses up the rest of the schedule and fails the
/// public phase after the policy's bound of attempts.
proof fn lemma_public_exhausts(
    m: SessionModel,
    t: spec_fn(UploadPhase, nat) -> Result<(), TransportError>,
    fuel: nat,
)
    requires
        m.wf(),
        m.stage is Public,
        !m.waiting,
        forall|n: nat| #[trigger] t(UploadPhase::Public, n) == Err::<(), TransportError>(TransportError::Other),
        fuel >= 2 * (m.delays.len() + 1),
    ensures
        ({
            let run = drive(m, ActionModel::Upload(UploadPhase::Public), t, fuel);
            &&& run.outcome == Some(
                Err::<(), PublishErrorModel>(
                    PublishErrorModel::PublicUploadFailed(m.public_id, m.policy.max_attempts as nat),
                ),
            )
            &&& run.calls == Seq::new(m.delays.len() + 1, |_i: int| UploadPhase::Public)
            &&& run.waits == m.delays
        }),
    decreases m.delays.len(),
{
    let (m2, st2) = upload_step(m, t(UploadPhase::Public, m.attempts));
    let rest2 = drive(m2, st2.action, t, (fuel - 1) as nat);
    let run = drive(m, ActionModel::Upload(UploadPhase::Public), t, fuel);
    assert(run.calls == seq![UploadPhase::Public] + rest2.calls);
    if m.delays.len() == 0 {
        assert(rest2.calls =~= Seq::<UploadPhase>::empty());
        assert(run.calls =~= Seq::new(m.delays.len() + 1, |_i: int| UploadPhase::Public));
        assert(run.waits =~= m.delays);
    } else {
        assert(st2.action == ActionModel::Wait(m.delays[0]));
        let (m3, st3) = wait_step(m2);
        assert(st3.action == ActionModel::Upload(UploadPhase::Public));
        lemma_fixed_schedule_skip(m.policy.interval_ms, m.delays.len());
        lemma_public_exhausts(m3, t, (fuel - 2) as nat);
        let rest3 = drive(m3, st3.action, t, (fuel - 2) as nat);
        assert(rest2.calls == rest3.calls);
        assert(rest2.waits == seq![m.delays[0]] + rest3.waits);
        assert(run.calls =~= Seq::new(m.delays.len() + 1, |_i: int| UploadPhase::Public));
        assert(run.waits =~= m.delays);
    }
}

/// With a valid public key file and a transport that fails every public
/// attempt with a retryable error, the session fails after exactly the
/// policy's bound of attempts, waiting the schedule's intervals in between,
/// with a public-phase failure that names the key and the attempt count; the
/// secret key is never uploaded, whether or not one was given.
pub proof fn law_exhaustion_fails_public_phase(
    public_path: Seq<char>,
    secret_path: Option<Seq<char>>,
    policy: RetryPolicy,
    t: spec_fn(UploadPhase, nat) -> Result<(), TransportError>,
    fuel: nat,
)
    requires
        parse_spec(public_path, KeyVersion::PublicSig) is Ok,
        policy.wf(),
        forall|n: nat| #[trigger] t(UploadPhase::Public, n) == Err::<(), TransportError>(TransportError::Other),
        fuel >= 2 * policy.max_attempts,
    ensures
        ({
            let run = publish_run(public_path, secret_path, policy, t, fuel);
            &&& run.outcome == Some(
                Err::<(), PublishErrorModel>(
                    PublishErrorModel::PublicUploadFailed(
                        parse_spec(public_path, KeyVersion::PublicSig)->Ok_0,
                        policy.max_attempts as nat,
                    ),
                ),
            )
            &&& run.calls.len() == policy.max_attempts
            &&& run.calls == Seq::new(policy.max_attempts as nat, |_i: int| UploadPhase::Public)
            &&& !run.calls.contains(UploadPhase::Secret)
            &&& run.waits == policy.delays()
        }),
{
    let (m, st) = start_spec(public_path, secret_path, policy)->Ok_0;
    lemma_public_exhausts(m, t, fuel);
    let run = publish_run(public_path, secret_path, policy, t, fuel);
    if run.calls.contains(UploadPhase::Secret) {
        let i = choose|i: int| 0 <= i < run.calls.len() && run.calls[i] == UploadPhase::Secret;
        assert(run.calls[i] == UploadPhase::Public);
    }
}

/// From a public attempt about to be made, with no secret key, a transport
/// that fails with retryable errors until the attempt that follows `k - 1`
/// earlier ones, and succeeds on that one, ends the session in success.
proof fn lemma_public_succeeds_at(
    m: SessionModel,
    t: spec_fn(UploadPhase, nat) -> Result<(), TransportError>,
    k: nat,
    fuel: nat,
)
    requires
        m.wf(),
        m.stage is Public,
        !m.waiting,
        m.secret_path is None,
        m.attempts < k <= m.policy.max_attempts,
        forall|n: nat|
            m.attempts <= n < k - 1 ==> #[trigger] t(UploadPhase::Public, n) == Err::<
                (),
                TransportError,
            >(TransportError::Other),
        t(UploadPhase::Public, (k - 1) as nat) == Ok::<(), TransportError>(()),
        fuel >= 2 * (k - m.attempts),
    ensures
        ({
            let run = drive(m, ActionModel::Upload(UploadPhase::Public), t, fuel);
            &&& run.outcome == Some(Ok::<(), PublishErrorModel>(()))
            &&& run.calls == Seq::new((k - m.attempts) as nat, |_i: int| UploadPhase::Public)
            &&& run.waits.len() == k - 1 - m.attempts
        }),
    decreases k - m.attempts,
{
    let (m2, st2) = upload_step(m, t(UploadPhase::Public, m.attempts));
    let rest2 = drive(m2, st2.action, t, (fuel - 1) as nat);
    let run = drive(m, ActionModel::Upload(UploadPhase::Public), t, fuel);
    assert(run.calls == seq![UploadPhase::Public] + rest2.calls);
    if m.attempts == k - 1 {
        assert(st2.action == ActionModel::Finish(Ok::<(), PublishErrorModel>(())));
        assert(rest2.calls =~= Seq::<UploadPhase>::empty());
        assert(run.calls =~= Seq::new((k - m.attempts) as nat, |_i: int| UploadPhase::Public));
    } else {
        assert(t(UploadPhase::Public, m.attempts) == Err::<(), TransportError>(
            TransportError::Other,
        ));
        assert(st2.action == ActionModel::Wait(m.delays[0]));
        let (m3, st3) = wait_step(m2);
        assert(st3.action == ActionModel::Upload(UploadPhase::Public));
        lemma_fixed_schedule_skip(m.policy.interval_ms, m.delays.len());
        lemma_public_succeeds_at(m3, t, k, (fuel - 2) as nat);
        let rest3 = drive(m3, st3.action, t, (fuel - 2) as nat);
        assert(rest2.calls == rest3.calls);
        assert(run.calls =~= Seq::new((k - m.attempts) as nat, |_i: int| UploadPhase::Public));
    }
}

/// With a valid public key file, no secret key, and a transport that fails
/// attempts 1 to `k - 1` with retryable errors and succeeds on attempt `k`,
/// within the policy's bound, the session succeeds after exactly `k`
/// attempts and `k - 1` waits.
pub proof fn law_success_after_retries(
    public_path: Seq<char>,
    policy: RetryPolicy,
    t: spec_fn(UploadPhase, nat) -> Result<(), TransportError>,
    k: nat,
    fuel: nat,
)
    requires
        parse_spec(public_path, KeyVersion::PublicSig) is Ok,
        policy.wf(),
        1 <= k <= policy.max_attempts,
        forall|n: nat|
            n < k - 1 ==> #[trigger] t(UploadPhase::Public, n) == Err::<(), TransportError>(
                TransportError::Other,
            ),
        t(UploadPhase::Public, (k - 1) as nat) == Ok::<(), TransportError>(()),
        fuel >= 2 * k,
    ensures
        ({
            let run = publish_run(public_path, None, policy, t, fuel);
            &&& run.outcome == Some(Ok::<(), PublishErrorModel>(()))
            &&& run.calls.len() == k
            &&& run.calls == Seq::new(k, |_i: int| UploadPhase::Public)
            &&& run.waits.len() == k - 1
        }),
{
    let (m, st) = start_spec(public_path, None, policy)->Ok_0;
    lemma_public_succeeds_at(m, t, k, fuel);
}

/// A public key file whose name does not parse ends the session at once,
/// with the parse error and no transport call, whatever the transport does.
pub proof fn law_parse_failure_makes_no_call(
    public_path: Seq<char>,
    secret_path: Option<Seq<char>>,
    policy: RetryPolicy,
    t: spec_fn(UploadPhase, nat) -> Result<(), TransportError>,
    fuel: nat,
)
    requires
        parse_spec(public_path, KeyVersion::PublicSig) is Err,
    ensures
        ({
            let run = publish_run(public_path, secret_path, policy, t, fuel);
            &&& run.outcome == Some(
                Err::<(), PublishErrorModel>(
                    PublishErrorModel::Parse(
                        UploadPhase::Public,
                        parse_spec(public_path, KeyVersion::PublicSig)->Err_0,
                    ),
                ),
            )
            &&& run.calls.len() == 0
            &&& run.events.len() == 0
        }),
{
}

} // verus!
