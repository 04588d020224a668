//! Agent-side policy traces that retain only an observation reference.
use vstd::prelude::*;

use crate::protocol::identity::TraceId;
use crate::protocol::live::LiveProposal;
use crate::protocol::observation::ObservationRef;
use crate::protocol::value::TimestampNs;
use crate::protocol::version::ProtocolVersion;

verus! {

/// Records one complete agent-side policy evaluation.
#[derive(Clone, Debug, PartialEq, Eq)]
pub struct AgentTrace {
    /// The external protocol version.
    pub version: ProtocolVersion,
    /// The agent-created trace identity.
    pub trace_id: TraceId,
    /// The exact observation used by the policy.
    pub observation: ObservationRef,
    /// The caller-supplied policy identity.
    pub policy: PolicyMetadata,
    /// The policy evaluation start time.
    pub started_at: TimestampNs,
    /// The policy evaluation completion time.
    pub completed_at: TimestampNs,
    /// The complete agent-side policy outcome.
    pub outcome: TraceOutcome,
}

/// Identifies a caller's policy implementation.
#[derive(Debug, PartialEq, Eq)]
pub struct PolicyMetadata {
    /// The policy name.
    pub name: String,
    /// The caller-defined policy version.
    pub version: String,
}

impl Clone for PolicyMetadata {
    fn clone(&self) -> (r: Self)
        ensures
            r == *self,
    {
        PolicyMetadata { name: self.name.clone(), version: self.version.clone() }
    }
}

/// Captures a proposal, deliberate no-proposal result, or local failure.
#[derive(Debug, PartialEq, Eq)]
pub enum TraceOutcome {
    /// The policy produced one semantic proposal.
    Proposed(LiveProposal),
    /// The policy deliberately produced no proposal.
    NoProposal,
    /// The local policy evaluation failed.
    Failed(AgentFailure),
}

impl Clone for TraceOutcome {
    fn clone(&self) -> (r: Self)
        ensures
            r == *self,
    {
        match self {
            TraceOutcome::Proposed(proposal) => TraceOutcome::Proposed(proposal.clone()),
            TraceOutcome::NoProposal => TraceOutcome::NoProposal,
            TraceOutcome::Failed(failure) => TraceOutcome::Failed(failure.clone()),
        }
    }
}

/// Describes a local policy failure without implying a NautilusTrader outcome.
#[derive(Debug, PartialEq, Eq)]
pub struct AgentFailure {
    /// The stable local failure category.
    pub kind: AgentFailureKind,
    /// A human-readable failure explanation.
    pub message: String,
}

impl Clone for AgentFailure {
    fn clone(&self) -> (r: Self)
        ensures
            r == *self,
    {
        AgentFailure { kind: self.kind, message: self.message.clone() }
    }
}

/// Enumerates local policy failure categories.
#[derive(Clone, Copy, Debug, PartialEq, Eq, Hash, Structural)]
pub enum AgentFailureKind {
    /// The policy returned an error.
    PolicyError,
    /// The local runner reached its configured timeout.
    Timeout,
    /// The policy future panicked.
    Panic,
}

} // verus!
