//! Live observations and semantic position-reduction proposals.
use vstd::prelude::*;

use crate::protocol::identity::{IdempotencyKey, RequestId, TraceId};
use crate::protocol::observation::ObservationRef;
use crate::protocol::value::{InstrumentId, PositionId, Quantity, TimestampNs};
use crate::protocol::version::{supported_version, version_debug_text, ProtocolVersion};

verus! {

/// Reports a structurally invalid live proposal request.
#[derive(Clone, Copy, Debug, PartialEq, Eq, Structural)]
pub enum RequestError {
    /// The request uses an unsupported protocol version.
    UnsupportedVersion {
        /// The unsupported version.
        version: ProtocolVersion,
    },
}

impl RequestError {
    /// Returns the human-readable explanation of this error.
    pub fn message(&self) -> (r: String)
        ensures
            match *self {
                RequestError::UnsupportedVersion { version } => r@ == "unsupported protocol version "@
                    + version_debug_text(version),
            },
    {
        match self {
            RequestError::UnsupportedVersion { version } => {
                let mut out = String::new();
                out.append("unsupported protocol version ");
                version.push_debug_text(&mut out);
                out
            },
        }
    }
}

/// Contains the live views disclosed for one observation.
#[derive(Clone, Debug, PartialEq, Eq)]
pub struct LiveObservation {
    /// The scoped position summaries.
    pub positions: Vec<PositionView>,
    /// The scoped instrument summaries.
    pub instruments: Vec<InstrumentView>,
}

/// Contains the minimum position state needed by a proposal policy.
#[derive(Debug, PartialEq, Eq)]
pub struct PositionView {
    /// The position identity.
    pub position_id: PositionId,
    /// The position's instrument identity.
    pub instrument_id: InstrumentId,
    /// The open position side.
    pub side: PositionSide,
    /// The current open quantity.
    pub quantity: Quantity,
    /// The last position-state update time.
    pub updated_at: TimestampNs,
}

impl Clone for PositionView {
    fn clone(&self) -> (r: Self)
        ensures
            r == *self,
    {
        PositionView {
            position_id: self.position_id.clone(),
            instrument_id: self.instrument_id.clone(),
            side: self.side,
            quantity: self.quantity.clone(),
            updated_at: self.updated_at,
        }
    }
}

/// Identifies the direction of an open position.
#[derive(Clone, Copy, Debug, PartialEq, Eq, Hash, Structural)]
pub enum PositionSide {
    /// The position is long.
    Long,
    /// The position is short.
    Short,
}

/// Contains the minimum instrument rules needed by a proposal policy.
#[derive(Debug, PartialEq, Eq)]
pub struct InstrumentView {
    /// The instrument identity.
    pub instrument_id: InstrumentId,
    /// The permitted quantity increment.
    pub quantity_increment: Quantity,
}

impl Clone for InstrumentView {
    fn clone(&self) -> (r: Self)
        ensures
            r == *self,
    {
        InstrumentView {
            instrument_id: self.instrument_id.clone(),
            quantity_increment: self.quantity_increment.clone(),
        }
    }
}

/// Submits one semantic live proposal against an exact observation.
#[derive(Clone, Debug, PartialEq, Eq)]
pub struct LiveProposalRequest {
    /// The external protocol version.
    pub version: ProtocolVersion,
    /// The caller-created request identity.
    pub request_id: RequestId,
    /// The caller-created key that NautilusTrader scopes to the principal.
    pub idempotency_key: IdempotencyKey,
    /// The exact observation used by the policy.
    pub observation: ObservationRef,
    /// An optional link to the agent-side trace.
    pub agent_trace_id: Option<TraceId>,
    /// The single semantic proposal.
    pub proposal: LiveProposal,
}

impl LiveProposalRequest {
    /// Validates request-level protocol invariants.
    pub fn validate(&self) -> (r: Result<(), RequestError>)
        ensures
            supported_version(self.version) ==> r is Ok,
            !supported_version(self.version) ==> r == Err::<(), RequestError>(
                RequestError::UnsupportedVersion { version: self.version },
            ),
    {
        if !self.version.is_supported() {
            return Err(RequestError::UnsupportedVersion { version: self.version });
        }
        Ok(())
    }
}

/// Wraps the single live intent carried by a request.
#[derive(Debug, PartialEq, Eq)]
pub struct LiveProposal {
    /// The semantic intent for NautilusTrader to consider.
    pub intent: LiveIntent,
}

impl Clone for LiveProposal {
    fn clone(&self) -> (r: Self)
        ensures
            r == *self,
    {
        LiveProposal { intent: self.intent.clone() }
    }
}

/// Enumerates the live proposal vocabulary for protocol 1.0.
#[derive(Debug, PartialEq, Eq)]
pub enum LiveIntent {
    /// Proposes reducing an existing position without adding risk.
    ReducePosition(ReducePosition),
}

impl Clone for LiveIntent {
    fn clone(&self) -> (r: Self)
        ensures
            r == *self,
    {
        match self {
            LiveIntent::ReducePosition(reduction) => LiveIntent::ReducePosition(reduction.clone()),
        }
    }
}

/// Identifies an existing position and the quantity to reduce.
#[derive(Debug, PartialEq, Eq)]
pub struct ReducePosition {
    /// The position to reduce.
    pub position_id: PositionId,
    /// The instrument expected for the fresh position.
    pub instrument_id: InstrumentId,
    /// The strictly positive reduction quantity.
    pub quantity: Quantity,
}

impl Clone for ReducePosition {
    fn clone(&self) -> (r: Self)
        ensures
            r == *self,
    {
        ReducePosition {
            position_id: self.position_id.clone(),
            instrument_id: self.instrument_id.clone(),
            quantity: self.quantity.clone(),
        }
    }
}

} // verus!
