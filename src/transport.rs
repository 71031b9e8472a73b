//! What one upload attempt came to.
use vstd::prelude::*;

verus! {

/// How the transport reports a failed upload.
#[derive(Clone, Copy, Debug, PartialEq, Eq, Structural)]
pub enum TransportError {
    /// The registry already holds this exact identifier.
    Conflict,
    /// Any other failure: network, timeout, server error.
    Other,
}

/// The class of one attempt's result.
#[derive(Clone, Copy, Debug, PartialEq, Eq, Structural)]
pub enum AttemptOutcome {
    Success,
    AlreadyExists,
    RetryableError,
}

/// The HTTP status by which a registry reports a conflict.
pub open spec fn conflict_status() -> u16 {
    409
}

/// Relies on reqwest::StatusCode (http's `StatusCode`): `from_u16` accepts
/// every code in 100..=999, and `CONFLICT` is code 409.
#[verifier::external_body]
fn is_conflict_status(status: u16) -> (r: bool)
    ensures
        r == (status == conflict_status()),
{
    reqwest::StatusCode::from_u16(status).map_or(false, |s| s == reqwest::StatusCode::CONFLICT)
}

impl TransportError {
    /// The error for an HTTP error status answered by the registry.
    pub fn from_status(status: u16) -> (r: TransportError)
        ensures
            r == (if status == conflict_status() {
                TransportError::Conflict
            } else {
                TransportError::Other
            }),
    {
        if is_conflict_status(status) {
            TransportError::Conflict
        } else {
            TransportError::Other
        }
    }
}

pub open spec fn classify_spec(result: Result<(), TransportError>) -> AttemptOutcome {
    match result {
        Ok(()) => AttemptOutcome::Success,
        Err(TransportError::Conflict) => AttemptOutcome::AlreadyExists,
        Err(TransportError::Other) => AttemptOutcome::RetryableError,
    }
}

/// Success and an existing identical key both end the attempts; anything else
/// may be retried.
pub fn classify(result: Result<(), TransportError>) -> (r: AttemptOutcome)
    ensures
        r == classify_spec(result),
{
    match result {
        Ok(()) => AttemptOutcome::Success,
        Err(TransportError::Conflict) => AttemptOutcome::AlreadyExists,
        Err(TransportError::Other) => AttemptOutcome::RetryableError,
    }
}

} // verus!
