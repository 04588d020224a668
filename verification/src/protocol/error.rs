//! Stable public errors for request and decision outcomes.
use vstd::prelude::*;

use crate::protocol::identity::RequestId;

verus! {

/// Enumerates stable public request and decision error categories.
#[derive(Clone, Copy, Debug, PartialEq, Eq, Hash, Structural)]
pub enum ErrorCode {
    /// The request could not be decoded or validated.
    Malformed,
    /// The protocol version is unsupported.
    UnsupportedVersion,
    /// The authenticated principal cannot submit the request.
    Forbidden,
    /// The referenced observation is no longer usable.
    StaleObservation,
    /// NautilusTrader could not establish a safe decision state.
    IndeterminateState,
    /// NautilusTrader rejected the semantic proposal.
    Rejected,
    /// A principal-scoped idempotency key was reused with different content.
    IdempotencyConflict,
    /// NautilusTrader could not durably commit the accepted decision.
    CommitFailed,
    /// NautilusTrader could not establish a safe dispatch result.
    DispatchFailed,
}

/// The `Debug` name of an error code.
pub open spec fn error_code_name(c: ErrorCode) -> Seq<char> {
    match c {
        ErrorCode::Malformed => "Malformed"@,
        ErrorCode::UnsupportedVersion => "UnsupportedVersion"@,
        ErrorCode::Forbidden => "Forbidden"@,
        ErrorCode::StaleObservation => "StaleObservation"@,
        ErrorCode::IndeterminateState => "IndeterminateState"@,
        ErrorCode::Rejected => "Rejected"@,
        ErrorCode::IdempotencyConflict => "IdempotencyConflict"@,
        ErrorCode::CommitFailed => "CommitFailed"@,
        ErrorCode::DispatchFailed => "DispatchFailed"@,
    }
}

impl ErrorCode {
    /// Returns the `Debug` name of this code.
    pub fn name(&self) -> (r: &'static str)
        ensures
            r@ == error_code_name(*self),
    {
        match self {
            ErrorCode::Malformed => "Malformed",
            ErrorCode::UnsupportedVersion => "UnsupportedVersion",
            ErrorCode::Forbidden => "Forbidden",
            ErrorCode::StaleObservation => "StaleObservation",
            ErrorCode::IndeterminateState => "IndeterminateState",
            ErrorCode::Rejected => "Rejected",
            ErrorCode::IdempotencyConflict => "IdempotencyConflict",
            ErrorCode::CommitFailed => "CommitFailed",
            ErrorCode::DispatchFailed => "DispatchFailed",
        }
    }
}

/// Carries a stable decision-path error code and retry hint.
#[derive(Clone, Debug, PartialEq, Eq)]
pub struct DecisionError {
    /// The stable machine-readable error code.
    pub code: ErrorCode,
    /// A human-readable, unstable explanation.
    pub message: String,
    /// Whether retrying the same logical operation may succeed.
    pub retryable: bool,
}

/// Carries an error before NautilusTrader accepts a request into the decision path.
#[derive(Clone, Debug, PartialEq, Eq)]
pub struct ProtocolError {
    /// The request identity when NautilusTrader could decode it.
    pub request_id: Option<RequestId>,
    /// The stable machine-readable error code.
    pub code: ErrorCode,
    /// A human-readable, unstable explanation.
    pub message: String,
    /// Whether retrying the same logical operation may succeed.
    pub retryable: bool,
}

} // verus!
