//! The upload session: the public key first, then, if one was given, the
//! secret key, each driven through its own bounded retry schedule.
//!
//! The session decides; its caller acts. Each step hands back the status
//! events to report and one action: upload the key of a phase and report the
//! transport's result with `on_upload_result`, wait and report it with
//! `on_waited`, or finish with the session's result.
use vstd::prelude::*;
use crate::key_id::{KeyIdentifier, KeyVersion, ParseError, parse_key_file, parse_spec};
use crate::schedule::{RetryPolicy, RetrySchedule, fixed_schedule};
use crate::transport::{AttemptOutcome, TransportError, classify, classify_spec};

verus! {

/// The two keys, uploaded in this order.
#[derive(Clone, Copy, Debug, PartialEq, Eq, Structural)]
pub enum UploadPhase {
    Public,
    Secret,
}

/// Lifecycle events for the status reporter.
#[derive(Clone, Copy, Debug, PartialEq, Eq, Structural)]
pub enum StatusEvent {
    /// The phase starts.
    Begin(UploadPhase),
    /// An upload attempt is about to be made.
    Attempting(UploadPhase),
    /// The key was uploaded.
    Uploaded(UploadPhase),
    /// The registry already holds the key; it is used as it is.
    UsingExisting(UploadPhase),
    /// The phase is complete.
    End(UploadPhase),
}

/// A phase's attempts all failed.
#[derive(Debug)]
pub struct RetryExhausted {
    pub id: KeyIdentifier,
    pub attempts: usize,
}

#[derive(Debug)]
pub enum PublishError {
    /// A key file's name is malformed; nothing was retried.
    Parse(UploadPhase, ParseError),
    /// The public key could not be uploaded; the secret key was not tried.
    PublicUploadFailed(RetryExhausted),
    SecretUploadFailed(RetryExhausted),
}

pub enum PublishErrorModel {
    Parse(UploadPhase, ParseError),
    PublicUploadFailed((Seq<char>, Seq<char>), nat),
    SecretUploadFailed((Seq<char>, Seq<char>), nat),
}

impl View for PublishError {
    type V = PublishErrorModel;

    open spec fn view(&self) -> PublishErrorModel {
        match self {
            PublishError::Parse(phase, e) => PublishErrorModel::Parse(*phase, *e),
            PublishError::PublicUploadFailed(x) => PublishErrorModel::PublicUploadFailed(
                x.id@,
                x.attempts as nat,
            ),
            PublishError::SecretUploadFailed(x) => PublishErrorModel::SecretUploadFailed(
                x.id@,
                x.attempts as nat,
            ),
        }
    }
}

pub open spec fn outcome_view(r: Result<(), PublishError>) -> Result<(), PublishErrorModel> {
    match r {
        Ok(()) => Ok(()),
        Err(e) => Err(e@),
    }
}

/// What the caller is to do next.
#[derive(Debug)]
pub enum Action {
    /// Upload the key of this phase, then call `on_upload_result`.
    Upload(UploadPhase),
    /// Wait this many milliseconds, then call `on_waited`.
    Wait(u64),
    /// The session is over, with this result.
    Finish(Result<(), PublishError>),
}

pub enum ActionModel {
    Upload(UploadPhase),
    Wait(u64),
    Finish(Result<(), PublishErrorModel>),
}

impl View for Action {
    type V = ActionModel;

    open spec fn view(&self) -> ActionModel {
        match self {
            Action::Upload(phase) => ActionModel::Upload(*phase),
            Action::Wait(ms) => ActionModel::Wait(*ms),
            Action::Finish(r) => ActionModel::Finish(outcome_view(*r)),
        }
    }
}

/// Events to report, in order, and the action that follows them.
#[derive(Debug)]
pub struct Step {
    pub events: Vec<StatusEvent>,
    pub action: Action,
}

pub struct StepModel {
    pub events: Seq<StatusEvent>,
    pub action: ActionModel,
}

impl View for Step {
    type V = StepModel;

    open spec fn view(&self) -> StepModel {
        StepModel { events: self.events@, action: self.action@ }
    }
}

#[derive(Clone, Copy, Debug, PartialEq, Eq, Structural)]
pub enum Stage {
    Public,
    Secret,
    Finished,
}

pub struct SessionModel {
    pub policy: RetryPolicy,
    pub public_id: (Seq<char>, Seq<char>),
    pub secret_path: Option<Seq<char>>,
    pub secret_id: Option<(Seq<char>, Seq<char>)>,
    pub stage: Stage,
    /// A wait was ordered and has not been reported back.
    pub waiting: bool,
    /// Attempts made in the current phase.
    pub attempts: nat,
    /// Waits left in the current phase's schedule.
    pub delays: Seq<u64>,
}

pub open spec fn phase_of(stage: Stage) -> UploadPhase {
    if stage is Public {
        UploadPhase::Public
    } else {
        UploadPhase::Secret
    }
}

impl SessionModel {
    pub open spec fn wf(self) -> bool {
        &&& self.policy.wf()
        &&& self.stage is Secret ==> self.secret_id is Some
        &&& !(self.stage is Finished) ==> {
            &&& self.delays == fixed_schedule(self.policy.interval_ms, self.delays.len())
            &&& self.attempts + self.delays.len() + 1 == self.policy.max_attempts
        }
    }

    pub open spec fn awaiting_upload(self) -> bool {
        !(self.stage is Finished) && !self.waiting
    }

    pub open spec fn awaiting_wait(self) -> bool {
        !(self.stage is Finished) && self.waiting
    }

    pub open spec fn phase(self) -> UploadPhase {
        phase_of(self.stage)
    }

    /// The failure of the current phase after `attempts` attempts.
    pub open spec fn exhausted(self, attempts: nat) -> PublishErrorModel {
        if self.stage is Public {
            PublishErrorModel::PublicUploadFailed(self.public_id, attempts)
        } else {
            PublishErrorModel::SecretUploadFailed(self.secret_id->0, attempts)
        }
    }
}

/// The session's first state and step, or the public key's parse error.
pub open spec fn start_spec(
    public_path: Seq<char>,
    secret_path: Option<Seq<char>>,
    policy: RetryPolicy,
) -> Result<(SessionModel, StepModel), PublishErrorModel> {
    match parse_spec(public_path, KeyVersion::PublicSig) {
        Err(e) => Err(PublishErrorModel::Parse(UploadPhase::Public, e)),
        Ok(id) => Ok(
            (
                SessionModel {
                    policy,
                    public_id: id,
                    secret_path,
                    secret_id: None,
                    stage: Stage::Public,
                    waiting: false,
                    attempts: 0,
                    delays: policy.delays(),
                },
                StepModel {
                    events: seq![
                        StatusEvent::Begin(UploadPhase::Public),
                        StatusEvent::Attempting(UploadPhase::Public),
                    ],
                    action: ActionModel::Upload(UploadPhase::Public),
                },
            ),
        ),
    }
}

/// The current phase succeeded, and `events` report it: go on to the secret
/// phase if the public one is done and a secret key was given, else finish.
pub open spec fn phase_done(m: SessionModel, events: Seq<StatusEvent>) -> (SessionModel, StepModel) {
    if m.stage is Public && m.secret_path is Some {
        match parse_spec(m.secret_path->0, KeyVersion::SecretSig) {
            Err(e) => (
                SessionModel { stage: Stage::Finished, ..m },
                StepModel {
                    events,
                    action: ActionModel::Finish(
                        Err(PublishErrorModel::Parse(UploadPhase::Secret, e)),
                    ),
                },
            ),
            Ok(id) => (
                SessionModel {
                    secret_id: Some(id),
                    stage: Stage::Secret,
                    waiting: false,
                    attempts: 0,
                    delays: m.policy.delays(),
                    ..m
                },
                StepModel {
                    events: events + seq![
                        StatusEvent::Begin(UploadPhase::Secret),
                        StatusEvent::Attempting(UploadPhase::Secret),
                    ],
                    action: ActionModel::Upload(UploadPhase::Secret),
                },
            ),
        }
    } else {
        (
            SessionModel { stage: Stage::Finished, ..m },
            StepModel { events, action: ActionModel::Finish(Ok(())) },
        )
    }
}

/// The transport answered the current phase's attempt with `result`.
pub open spec fn upload_step(m: SessionModel, result: Result<(), TransportError>) -> (
    SessionModel,
    StepModel,
) {
    let ph = m.phase();
    let a = m.attempts + 1;
    match classify_spec(result) {
        AttemptOutcome::Success => phase_done(
            SessionModel { attempts: a, ..m },
            seq![StatusEvent::Uploaded(ph), StatusEvent::End(ph)],
        ),
        AttemptOutcome::AlreadyExists => phase_done(
            SessionModel { attempts: a, ..m },
            seq![StatusEvent::UsingExisting(ph), StatusEvent::End(ph)],
        ),
        AttemptOutcome::RetryableError => if m.delays.len() > 0 {
            (
                SessionModel { attempts: a, waiting: true, delays: m.delays.skip(1), ..m },
                StepModel { events: Seq::empty(), action: ActionModel::Wait(m.delays[0]) },
            )
        } else {
            (
                SessionModel { attempts: a, stage: Stage::Finished, ..m },
                StepModel {
                    events: Seq::empty(),
                    action: ActionModel::Finish(Err(m.exhausted(a))),
                },
            )
        },
    }
}

/// The ordered wait is over: attempt the current phase's upload again.
pub open spec fn wait_step(m: SessionModel) -> (SessionModel, StepModel) {
    (
        SessionModel { waiting: false, ..m },
        StepModel {
            events: seq![StatusEvent::Attempting(m.phase())],
            action: ActionModel::Upload(m.phase()),
        },
    )
}

pub open spec fn opt_view(o: Option<&str>) -> Option<Seq<char>> {
    match o {
        Some(s) => Some(s@),
        None => None,
    }
}

/// One invocation's upload state.
#[derive(Debug)]
pub struct Session {
    policy: RetryPolicy,
    public_id: KeyIdentifier,
    secret_path: Option<String>,
    secret_id: Option<KeyIdentifier>,
    stage: Stage,
    waiting: bool,
    attempts: usize,
    schedule: RetrySchedule,
}

impl View for Session {
    type V = SessionModel;

    closed spec fn view(&self) -> SessionModel {
        SessionModel {
            policy: self.policy,
            public_id: self.public_id@,
            secret_path: match self.secret_path {
                Some(p) => Some(p@),
                None => None,
            },
            secret_id: match self.secret_id {
                Some(id) => Some(id@),
                None => None,
            },
            stage: self.stage,
            waiting: self.waiting,
            attempts: self.attempts as nat,
            delays: self.schedule@,
        }
    }
}

fn copy_id(id: &KeyIdentifier) -> (r: KeyIdentifier)
    ensures
        r@ == id@,
{
    KeyIdentifier { name: id.name.clone(), revision: id.revision.clone() }
}

/// Begins a session: parses the public key file's name and asks for its
/// first upload attempt. The secret key file, if any, is parsed only once the
/// public key is in the registry.
pub fn start(public_keyfile: &str, secret_keyfile: Option<&str>, policy: RetryPolicy) -> (r: Result<
    (Session, Step),
    PublishError,
>)
    requires
        policy.wf(),
    ensures
        match r {
            Ok((s, st)) => start_spec(public_keyfile@, opt_view(secret_keyfile), policy) == Ok::<
                (SessionModel, StepModel),
                PublishErrorModel,
            >((s@, st@)) && s@.wf(),
            Err(e) => start_spec(public_keyfile@, opt_view(secret_keyfile), policy) == Err::<
                (SessionModel, StepModel),
                PublishErrorModel,
            >(e@),
        },
{
    let public_id = match parse_key_file(public_keyfile, KeyVersion::PublicSig) {
        Ok(id) => id,
        Err(e) => {
            return Err(PublishError::Parse(UploadPhase::Public, e));
        },
    };
    let secret_path = match secret_keyfile {
        Some(p) => Some(String::from_str(p)),
        None => None,
    };
    let s = Session {
        policy,
        public_id,
        secret_path,
        secret_id: None,
        stage: Stage::Public,
        waiting: false,
        attempts: 0,
        schedule: policy.schedule(),
    };
    let mut events: Vec<StatusEvent> = Vec::new();
    events.push(StatusEvent::Begin(UploadPhase::Public));
    events.push(StatusEvent::Attempting(UploadPhase::Public));
    let st = Step { events, action: Action::Upload(UploadPhase::Public) };
    proof {
        let spec_r = start_spec(public_keyfile@, opt_view(secret_keyfile), policy);
        assert(st@.events =~= spec_r->Ok_0.1.events);
        assert(s@ == spec_r->Ok_0.0);
    }
    Ok((s, st))
}

impl Session {
    fn phase_exec(&self) -> (r: UploadPhase)
        ensures
            r == self@.phase(),
    {
        match self.stage {
            Stage::Public => UploadPhase::Public,
            _ => UploadPhase::Secret,
        }
    }

    fn finish_phase(&mut self, reported: Vec<StatusEvent>) -> (r: Step)
        requires
            old(self)@.policy.wf(),
            old(self)@.stage is Secret ==> old(self)@.secret_id is Some,
            !(old(self)@.stage is Finished),
        ensures
            (final(self)@, r@) == phase_done(old(self)@, reported@),
            final(self)@.wf(),
    {
        let ghost given = reported@;
        let mut events = reported;
        if self.stage == Stage::Public {
            let parsed = match &self.secret_path {
                Some(p) => Some(parse_key_file(p.as_str(), KeyVersion::SecretSig)),
                None => None,
            };
            match parsed {
                Some(Ok(id)) => {
                    self.secret_id = Some(id);
                    self.stage = Stage::Secret;
                    self.waiting = false;
                    self.attempts = 0;
                    self.schedule = self.policy.schedule();
                    events.push(StatusEvent::Begin(UploadPhase::Secret));
                    events.push(StatusEvent::Attempting(UploadPhase::Secret));
                    let r = Step { events, action: Action::Upload(UploadPhase::Secret) };
                    proof {
                        let sp = phase_done(old(self)@, given);
                        assert(r@.events =~= sp.1.events);
                        assert(self@ == sp.0);
                    }
                    return r;
                },
                Some(Err(e)) => {
                    self.stage = Stage::Finished;
                    let r = Step {
                        events,
                        action: Action::Finish(Err(PublishError::Parse(UploadPhase::Secret, e))),
                    };
                    proof {
                        let sp = phase_done(old(self)@, given);
                        assert(self@ == sp.0);
                    }
                    return r;
                },
                None => {},
            }
        }
        self.stage = Stage::Finished;
        let r = Step { events, action: Action::Finish(Ok(())) };
        proof {
            let sp = phase_done(old(self)@, given);
            assert(self@ == sp.0);
        }
        r
    }

    /// Reports the transport's result for the attempt that was asked for.
    pub fn on_upload_result(&mut self, result: Result<(), TransportError>) -> (r: Step)
        requires
            old(self)@.wf(),
            old(self)@.awaiting_upload(),
        ensures
            (final(self)@, r@) == upload_step(old(self)@, result),
            final(self)@.wf(),
    {
        let ph = self.phase_exec();
        self.attempts = self.attempts + 1;
        match classify(result) {
            AttemptOutcome::Success => {
                let mut events: Vec<StatusEvent> = Vec::new();
                events.push(StatusEvent::Uploaded(ph));
                events.push(StatusEvent::End(ph));
                assert(events@ =~= seq![StatusEvent::Uploaded(ph), StatusEvent::End(ph)]);
                self.finish_phase(events)
            },
            AttemptOutcome::AlreadyExists => {
                let mut events: Vec<StatusEvent> = Vec::new();
                events.push(StatusEvent::UsingExisting(ph));
                events.push(StatusEvent::End(ph));
                assert(events@ =~= seq![StatusEvent::UsingExisting(ph), StatusEvent::End(ph)]);
                self.finish_phase(events)
            },
            AttemptOutcome::RetryableError => {
                match self.schedule.next_delay() {
                    Some(ms) => {
                        self.waiting = true;
                        let r = Step { events: Vec::new(), action: Action::Wait(ms) };
                        proof {
                            let sp = upload_step(old(self)@, result);
                            assert(r@.events =~= sp.1.events);
                            assert(self@ == sp.0);
                            let iv = self.policy.interval_ms;
                            assert(self@.delays =~= fixed_schedule(iv, self@.delays.len()));
                        }
                        r
                    },
                    None => {
                        self.stage = Stage::Finished;
                        let x = if ph == UploadPhase::Public {
                            PublishError::PublicUploadFailed(
                                RetryExhausted { id: copy_id(&self.public_id), attempts: self.attempts },
                            )
                        } else {
                            let id = copy_id(self.secret_id.as_ref().unwrap());
                            PublishError::SecretUploadFailed(
                                RetryExhausted { id, attempts: self.attempts },
                            )
                        };
                        let r = Step { events: Vec::new(), action: Action::Finish(Err(x)) };
                        proof {
                            let sp = upload_step(old(self)@, result);
                            assert(r@.events =~= sp.1.events);
                            assert(self@ == sp.0);
                        }
                        r
                    },
                }
            },
        }
    }

    /// The identifier of the key that a phase uploads, once it is known.
    pub fn key(&self, phase: UploadPhase) -> (r: Option<&KeyIdentifier>)
        ensures
            phase == UploadPhase::Public ==> r is Some && r->0@ == self@.public_id,
            phase == UploadPhase::Secret ==> match r {
                Some(id) => self@.secret_id == Some(id@),
                None => self@.secret_id is None,
            },
    {
        match phase {
            UploadPhase::Public => Some(&self.public_id),
            UploadPhase::Secret => match &self.secret_id {
                Some(id) => Some(id),
                None => None,
            },
        }
    }

    /// Attempts made so far in the current phase.
    pub fn attempts(&self) -> (r: usize)
        ensures
            r == self@.attempts,
    {
        self.attempts
    }

    /// Reports that the wait that was asked for is over.
    pub fn on_waited(&mut self) -> (r: Step)
        requires
            old(self)@.wf(),
            old(self)@.awaiting_wait(),
        ensures
            (final(self)@, r@) == wait_step(old(self)@),
            final(self)@.wf(),
    {
        let ph = self.phase_exec();
        self.waiting = false;
        let mut events: Vec<StatusEvent> = Vec::new();
        events.push(StatusEvent::Attempting(ph));
        let r = Step { events, action: Action::Upload(ph) };
        assert(r@.events =~= wait_step(old(self)@).1.events);
        r
    }
}

} // verus!
