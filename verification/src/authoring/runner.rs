//! Local policy evaluation bookkeeping: configuration, outcomes and traces.
//!
//! The host awaits the policy under a timeout and catches its panics; this module turns what the
//! host observed into the trace outcome and assembles the agent-side trace.
use core::time::Duration;
use vstd::prelude::*;

use crate::assurance::trace::{AgentFailure, AgentFailureKind, AgentTrace, PolicyMetadata, TraceOutcome};
use crate::authoring::policy::{proposal_error_text, ProposalDecision, ProposalError};
use crate::protocol::identity::TraceId;
use crate::protocol::observation::Observation;
use crate::protocol::value::TimestampNs;
use crate::protocol::version::{protocol_version, spec_protocol_version};
use crate::text::{decimal_chars, owned, push_decimal};

verus! {

/// Configures one proposal policy and its local evaluation timeout.
#[derive(Debug, PartialEq, Eq)]
pub struct RunnerConfig {
    /// The caller-defined policy identity recorded in every trace.
    pub policy: PolicyMetadata,
    /// The maximum duration allowed for one local policy evaluation.
    pub timeout: Duration,
}

impl Clone for RunnerConfig {
    fn clone(&self) -> (r: Self)
        ensures
            r == *self,
    {
        RunnerConfig { policy: self.policy.clone(), timeout: self.timeout }
    }
}

/// Evaluates a proposal policy locally and emits one agent-side trace.
pub struct ProposalRunner<P> {
    policy: P,
    config: RunnerConfig,
}

/// What the host observed of one policy evaluation.
#[derive(Debug, PartialEq, Eq)]
pub enum PolicyEvaluation {
    /// The policy future completed with its result.
    Completed(Result<ProposalDecision, ProposalError>),
    /// The policy panicked, with the panic message when it was a string.
    Panicked(Option<String>),
    /// The configured timeout elapsed first.
    TimedOut {
        /// The configured timeout in whole milliseconds.
        timeout_ms: u128,
    },
}

/// Whether `r` is the failure outcome of the given kind and message.
pub open spec fn is_failure(r: TraceOutcome, kind: AgentFailureKind, message: Seq<char>) -> bool {
    r matches TraceOutcome::Failed(f) && f.kind == kind && f.message@ == message
}

/// The outcome of a panic: its string message, or a fixed message for any other payload.
pub open spec fn panic_outcome_of(message: Option<String>, r: TraceOutcome) -> bool {
    match message {
        Some(m) => is_failure(r, AgentFailureKind::Panic, m@),
        None => is_failure(r, AgentFailureKind::Panic, "policy panicked"@),
    }
}

/// The message recorded when a policy runs past its timeout.
pub open spec fn timeout_text(timeout_ms: u128) -> Seq<char> {
    "policy evaluation timed out after "@ + decimal_chars(timeout_ms as nat) + " ms"@
}

/// The trace outcome of an evaluation: a proposal or no proposal as returned, a policy error
/// with its message, a panic, or the timeout.
pub open spec fn evaluation_outcome_of(e: PolicyEvaluation, r: TraceOutcome) -> bool {
    match e {
        PolicyEvaluation::Completed(Ok(ProposalDecision::Propose(p))) => r == TraceOutcome::Proposed(p),
        PolicyEvaluation::Completed(Ok(ProposalDecision::NoProposal)) => r == TraceOutcome::NoProposal,
        PolicyEvaluation::Completed(Err(err)) => is_failure(
            r,
            AgentFailureKind::PolicyError,
            proposal_error_text(err),
        ),
        PolicyEvaluation::Panicked(message) => panic_outcome_of(message, r),
        PolicyEvaluation::TimedOut { timeout_ms } => is_failure(
            r,
            AgentFailureKind::Timeout,
            timeout_text(timeout_ms),
        ),
    }
}

/// The failure outcome of a panicking policy.
pub fn panic_outcome(message: Option<String>) -> (r: TraceOutcome)
    ensures
        panic_outcome_of(message, r),
{
    let message = match message {
        Some(m) => m,
        None => owned("policy panicked"),
    };
    TraceOutcome::Failed(AgentFailure { kind: AgentFailureKind::Panic, message })
}

/// Turns what the host observed of one evaluation into the trace outcome.
pub fn evaluation_outcome(evaluation: PolicyEvaluation) -> (r: TraceOutcome)
    ensures
        evaluation_outcome_of(evaluation, r),
{
    match evaluation {
        PolicyEvaluation::Completed(Ok(ProposalDecision::Propose(proposal))) => TraceOutcome::Proposed(
            proposal,
        ),
        PolicyEvaluation::Completed(Ok(ProposalDecision::NoProposal)) => TraceOutcome::NoProposal,
        PolicyEvaluation::Completed(Err(e)) => TraceOutcome::Failed(
            AgentFailure { kind: AgentFailureKind::PolicyError, message: e.message() },
        ),
        PolicyEvaluation::Panicked(message) => panic_outcome(message),
        PolicyEvaluation::TimedOut { timeout_ms } => {
            let mut message = String::new();
            message.append("policy evaluation timed out after ");
            push_decimal(&mut message, timeout_ms);
            message.append(" ms");
            assert(message@ =~= timeout_text(timeout_ms));
            TraceOutcome::Failed(AgentFailure { kind: AgentFailureKind::Timeout, message })
        },
    }
}

impl<P> ProposalRunner<P> {
    /// The policy this runner evaluates.
    pub closed spec fn held_policy(&self) -> P {
        self.policy
    }

    /// The configuration this runner records.
    pub closed spec fn held_config(&self) -> RunnerConfig {
        self.config
    }

    /// Creates a local proposal runner.
    pub fn new(policy: P, config: RunnerConfig) -> (r: Self)
        ensures
            r.held_policy() == policy,
            r.held_config() == config,
    {
        ProposalRunner { policy, config }
    }

    /// Returns the policy this runner evaluates.
    pub fn policy(&self) -> (r: &P)
        ensures
            *r == self.held_policy(),
    {
        &self.policy
    }

    /// Returns the configuration of this runner.
    pub fn config(&self) -> (r: &RunnerConfig)
        ensures
            *r == self.held_config(),
    {
        &self.config
    }

    /// Assembles the one agent-side trace of an evaluation of `observation`.
    pub fn trace(
        &self,
        observation: &Observation,
        trace_id: TraceId,
        started_at: TimestampNs,
        completed_at: TimestampNs,
        outcome: TraceOutcome,
    ) -> (r: AgentTrace)
        ensures
            r.version == spec_protocol_version(),
            r.trace_id == trace_id,
            r.observation.id == observation.id,
            r.observation.digest == observation.digest,
            r.policy == self.held_config().policy,
            r.started_at == started_at,
            r.completed_at == completed_at,
            r.outcome == outcome,
    {
        AgentTrace {
            version: protocol_version(),
            trace_id,
            observation: observation.reference(),
            policy: self.config.policy.clone(),
            started_at,
            completed_at,
            outcome,
        }
    }
}

} // verus!
