//! Public NautilusTrader decision receipts and correlation references.
use vstd::prelude::*;

use crate::protocol::error::{error_code_name, DecisionError, ErrorCode, ProtocolError};
use crate::protocol::identity::{CorrelationId, IntentId, RequestId};
use crate::protocol::observation::ObservationRef;
use crate::protocol::value::TimestampNs;
use crate::protocol::version::{supported_version, version_debug_text, ProtocolVersion};

verus! {

/// Enumerates stable public decision and dispatch progress states.
#[derive(Clone, Copy, Debug, PartialEq, Eq, Hash, PartialOrd, Ord, Structural)]
pub enum DecisionStatus {
    /// NautilusTrader accepted and durably identified the request.
    Accepted,
    /// NautilusTrader rejected the semantic proposal.
    Rejected,
    /// NautilusTrader authorized the proposal for private lowering.
    Authorized,
    /// NautilusTrader did not dispatch a command.
    NotDispatched,
    /// NautilusTrader dispatched the private command.
    Dispatched,
    /// NautilusTrader cannot yet establish the dispatch outcome.
    DispatchUnknown,
    /// NautilusTrader completed the public decision lifecycle.
    Completed,
}

/// The `Debug` name of a decision status.
pub open spec fn status_name(s: DecisionStatus) -> Seq<char> {
    match s {
        DecisionStatus::Accepted => "Accepted"@,
        DecisionStatus::Rejected => "Rejected"@,
        DecisionStatus::Authorized => "Authorized"@,
        DecisionStatus::NotDispatched => "NotDispatched"@,
        DecisionStatus::Dispatched => "Dispatched"@,
        DecisionStatus::DispatchUnknown => "DispatchUnknown"@,
        DecisionStatus::Completed => "Completed"@,
    }
}

impl DecisionStatus {
    /// Returns the `Debug` name of this status.
    pub fn name(&self) -> (r: &'static str)
        ensures
            r@ == status_name(*self),
    {
        match self {
            DecisionStatus::Accepted => "Accepted",
            DecisionStatus::Rejected => "Rejected",
            DecisionStatus::Authorized => "Authorized",
            DecisionStatus::NotDispatched => "NotDispatched",
            DecisionStatus::Dispatched => "Dispatched",
            DecisionStatus::DispatchUnknown => "DispatchUnknown",
            DecisionStatus::Completed => "Completed",
        }
    }
}

/// The negative or uncertain statuses, which must carry a decision error.
pub open spec fn status_requires_error(s: DecisionStatus) -> bool {
    match s {
        DecisionStatus::Rejected | DecisionStatus::NotDispatched | DecisionStatus::DispatchUnknown => true,
        _ => false,
    }
}

/// The error codes each status may carry: rejections carry a decision-path rejection code, a
/// missing dispatch a commit or dispatch failure, an unknown dispatch a dispatch failure.
pub open spec fn spec_error_matches_status(status: DecisionStatus, code: ErrorCode) -> bool {
    match status {
        DecisionStatus::Rejected => code == ErrorCode::Forbidden || code == ErrorCode::StaleObservation
            || code == ErrorCode::IndeterminateState || code == ErrorCode::Rejected || code
            == ErrorCode::IdempotencyConflict,
        DecisionStatus::NotDispatched => code == ErrorCode::CommitFailed || code
            == ErrorCode::DispatchFailed,
        DecisionStatus::DispatchUnknown => code == ErrorCode::DispatchFailed,
        _ => false,
    }
}

/// Reports an inconsistent public decision receipt.
#[derive(Clone, Copy, Debug, PartialEq, Eq, Structural)]
pub enum ReceiptError {
    /// The receipt uses an unsupported protocol version.
    UnsupportedVersion {
        /// The unsupported version.
        version: ProtocolVersion,
    },
    /// The receipt update precedes its creation.
    UpdateBeforeCreation,
    /// The status requires a decision error.
    MissingError {
        /// The inconsistent status.
        status: DecisionStatus,
    },
    /// The status cannot carry a decision error.
    UnexpectedError {
        /// The inconsistent status.
        status: DecisionStatus,
    },
    /// The error code is incompatible with the status.
    ErrorCodeMismatch {
        /// The inconsistent status.
        status: DecisionStatus,
        /// The inconsistent error code.
        code: ErrorCode,
    },
}

/// The human-readable explanation of a receipt error.
pub open spec fn receipt_error_text(e: ReceiptError) -> Seq<char> {
    match e {
        ReceiptError::UnsupportedVersion { version } => "unsupported protocol version "@
            + version_debug_text(version),
        ReceiptError::UpdateBeforeCreation => "receipt update precedes creation"@,
        ReceiptError::MissingError { status } => "receipt status "@ + status_name(status)
            + " requires an error"@,
        ReceiptError::UnexpectedError { status } => "receipt status "@ + status_name(status)
            + " cannot carry an error"@,
        ReceiptError::ErrorCodeMismatch { status, code } => "error code "@ + error_code_name(code)
            + " is incompatible with receipt status "@ + status_name(status),
    }
}

impl ReceiptError {
    /// Returns the human-readable explanation of this error.
    pub fn message(&self) -> (r: String)
        ensures
            r@ == receipt_error_text(*self),
    {
        let mut out = String::new();
        match self {
            ReceiptError::UnsupportedVersion { version } => {
                out.append("unsupported protocol version ");
                version.push_debug_text(&mut out);
            },
            ReceiptError::UpdateBeforeCreation => {
                out.append("receipt update precedes creation");
            },
            ReceiptError::MissingError { status } => {
                out.append("receipt status ");
                out.append(status.name());
                out.append(" requires an error");
            },
            ReceiptError::UnexpectedError { status } => {
                out.append("receipt status ");
                out.append(status.name());
                out.append(" cannot carry an error");
            },
            ReceiptError::ErrorCodeMismatch { status, code } => {
                out.append("error code ");
                out.append(code.name());
                out.append(" is incompatible with receipt status ");
                out.append(status.name());
            },
        }
        assert(out@ =~= receipt_error_text(*self));
        out
    }
}

/// Reports the stable public outcome for an accepted request.
#[derive(Clone, Debug, PartialEq, Eq)]
pub struct DecisionReceipt {
    /// The external protocol version.
    pub version: ProtocolVersion,
    /// The caller-created request identity.
    pub request_id: RequestId,
    /// The exact observation considered by NautilusTrader.
    pub observation: ObservationRef,
    /// The intent identity minted by NautilusTrader after request acceptance.
    pub intent_id: IntentId,
    /// The stable public decision status.
    pub status: DecisionStatus,
    /// An error for terminal negative or uncertain states.
    pub error: Option<DecisionError>,
    /// Public engine correlation references when available.
    pub correlation: CorrelationRefs,
    /// The receipt creation time.
    pub created_at: TimestampNs,
    /// The most recent receipt update time.
    pub updated_at: TimestampNs,
}

/// The first inconsistency of a receipt, in check order.
pub open spec fn receipt_fault(r: DecisionReceipt) -> Option<ReceiptError> {
    if !supported_version(r.version) {
        Some(ReceiptError::UnsupportedVersion { version: r.version })
    } else if r.updated_at@ < r.created_at@ {
        Some(ReceiptError::UpdateBeforeCreation)
    } else if status_requires_error(r.status) && r.error is None {
        Some(ReceiptError::MissingError { status: r.status })
    } else if !status_requires_error(r.status) && r.error is Some {
        Some(ReceiptError::UnexpectedError { status: r.status })
    } else if r.error is Some && !spec_error_matches_status(r.status, r.error.unwrap().code) {
        Some(ReceiptError::ErrorCodeMismatch { status: r.status, code: r.error.unwrap().code })
    } else {
        None
    }
}

/// A consistent receipt carries an error exactly when its status is negative or uncertain
/// (rejected, not dispatched, dispatch unknown), and that error's code is one its status admits.
pub proof fn lemma_valid_receipt_error(r: DecisionReceipt)
    requires
        receipt_fault(r) is None,
    ensures
        status_requires_error(r.status) <==> r.error is Some,
        r.error matches Some(e) ==> spec_error_matches_status(r.status, e.code),
        supported_version(r.version),
        r.created_at@ <= r.updated_at@,
{
}

/// With a supported version and an update no earlier than its creation, a receipt is
/// consistent exactly when an accepted, authorized, dispatched or completed receipt carries no
/// error, a rejected one carries a forbidden, stale-observation, indeterminate-state, rejected
/// or idempotency-conflict error, a not-dispatched one a commit or dispatch failure, and a
/// dispatch-unknown one a dispatch failure.
pub proof fn lemma_receipt_status_error_table(r: DecisionReceipt)
    requires
        supported_version(r.version),
        r.created_at@ <= r.updated_at@,
    ensures
        (receipt_fault(r) is None) == (match r.error {
            None => r.status is Accepted || r.status is Authorized || r.status is Dispatched
                || r.status is Completed,
            Some(e) => match r.status {
                DecisionStatus::Rejected => e.code is Forbidden || e.code is StaleObservation
                    || e.code is IndeterminateState || e.code is Rejected
                    || e.code is IdempotencyConflict,
                DecisionStatus::NotDispatched => e.code is CommitFailed || e.code is DispatchFailed,
                DecisionStatus::DispatchUnknown => e.code is DispatchFailed,
                _ => false,
            },
        }),
{
}

impl DecisionReceipt {
    /// Validates public receipt invariants.
    pub fn validate(&self) -> (r: Result<(), ReceiptError>)
        ensures
            match receipt_fault(*self) {
                Some(e) => r == Err::<(), ReceiptError>(e),
                None => r is Ok,
            },
    {
        if !self.version.is_supported() {
            return Err(ReceiptError::UnsupportedVersion { version: self.version });
        }
        if self.updated_at.as_u64() < self.created_at.as_u64() {
            return Err(ReceiptError::UpdateBeforeCreation);
        }
        match (self.status, self.error.is_some()) {
            (DecisionStatus::Rejected, false)
            | (DecisionStatus::NotDispatched, false)
            | (DecisionStatus::DispatchUnknown, false) => {
                return Err(ReceiptError::MissingError { status: self.status });
            },
            (DecisionStatus::Accepted, true)
            | (DecisionStatus::Authorized, true)
            | (DecisionStatus::Dispatched, true)
            | (DecisionStatus::Completed, true) => {
                return Err(ReceiptError::UnexpectedError { status: self.status });
            },
            (_, _) => {},
        }
        if let Some(error) = &self.error {
            if !error_matches_status(self.status, error.code) {
                return Err(ReceiptError::ErrorCodeMismatch { status: self.status, code: error.code });
            }
        }
        Ok(())
    }
}

/// Whether a decision error code is compatible with a status.
pub(crate) fn error_matches_status(status: DecisionStatus, code: ErrorCode) -> (r: bool)
    ensures
        r == spec_error_matches_status(status, code),
{
    match status {
        DecisionStatus::Rejected => match code {
            ErrorCode::Forbidden
            | ErrorCode::StaleObservation
            | ErrorCode::IndeterminateState
            | ErrorCode::Rejected
            | ErrorCode::IdempotencyConflict => true,
            _ => false,
        },
        DecisionStatus::NotDispatched => match code {
            ErrorCode::CommitFailed | ErrorCode::DispatchFailed => true,
            _ => false,
        },
        DecisionStatus::DispatchUnknown => match code {
            ErrorCode::DispatchFailed => true,
            _ => false,
        },
        _ => false,
    }
}

/// Carries public links into engine correlation without exposing private records.
#[derive(Clone, Debug, PartialEq, Eq)]
pub struct CorrelationRefs {
    /// The engine correlation identity when one exists.
    pub engine_correlation_id: Option<CorrelationId>,
    /// The engine causation identity when one exists.
    pub engine_causation_id: Option<CorrelationId>,
}

/// Separates accepted decision receipts from request-level protocol errors.
#[derive(Clone, Debug, PartialEq, Eq)]
pub enum ProposalResponse {
    /// NautilusTrader accepted the request into the decision path.
    Receipt(DecisionReceipt),
    /// NautilusTrader rejected the request before decision-path acceptance.
    Error(ProtocolError),
}

} // verus!
