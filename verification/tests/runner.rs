use std::time::Duration;

use nautilus_agents::assurance::trace::{
    AgentFailure, AgentFailureKind, AgentTrace, PolicyMetadata, TraceOutcome,
};
use nautilus_agents::authoring::policy::{ProposalDecision, ProposalError};
use nautilus_agents::authoring::runner::{
    evaluation_outcome, panic_outcome, PolicyEvaluation, ProposalRunner, RunnerConfig,
};
use nautilus_agents::protocol::identity::TraceId;
use nautilus_agents::protocol::live::{LiveIntent, LiveProposal, ReducePosition};
use nautilus_agents::protocol::value::{FieldPath, InstrumentId, PositionId, Quantity, TimestampNs};
use nautilus_agents::protocol::version::protocol_version;
use nautilus_agents::testing::valid_observation;

const TRACE_ID: &str = "12345678-90ab-4cde-8fab-1234567890ab";

enum PolicyResult {
    Proposal,
    NoProposal,
    Error,
    Pending,
    Panic,
}

fn proposal() -> LiveProposal {
    LiveProposal {
        intent: LiveIntent::ReducePosition(ReducePosition {
            position_id: PositionId::parse("position-authoring-17").unwrap(),
            instrument_id: InstrumentId::parse("BTCUSDT-PERP.SIM").unwrap(),
            quantity: Quantity::parse("1.25").unwrap(),
        }),
    }
}

fn config() -> RunnerConfig {
    RunnerConfig {
        policy: PolicyMetadata {
            name: "defensive-reducer".to_owned(),
            version: "7.4.2".to_owned(),
        },
        timeout: Duration::from_millis(25),
    }
}

fn observed(result: &PolicyResult, timeout: Duration) -> PolicyEvaluation {
    match result {
        PolicyResult::Proposal => PolicyEvaluation::Completed(Ok(ProposalDecision::Propose(proposal()))),
        PolicyResult::NoProposal => PolicyEvaluation::Completed(Ok(ProposalDecision::NoProposal)),
        PolicyResult::Error => PolicyEvaluation::Completed(Err(ProposalError::Internal {
            message: "policy input was inconsistent".to_owned(),
        })),
        PolicyResult::Pending => PolicyEvaluation::TimedOut {
            timeout_ms: timeout.as_millis(),
        },
        PolicyResult::Panic => PolicyEvaluation::Panicked(Some("policy future panic".to_owned())),
    }
}

fn assert_trace(result: PolicyResult, outcome: TraceOutcome) {
    let observation = valid_observation();
    let runner = ProposalRunner::new(result, config());
    let started_at = TimestampNs::new(1_700_000_000_000_000_111);
    let evaluated = evaluation_outcome(observed(runner.policy(), runner.config().timeout));
    let completed_at = TimestampNs::new(1_700_000_000_000_000_222);

    let actual = runner.trace(
        &observation,
        TraceId::parse(TRACE_ID).unwrap(),
        started_at,
        completed_at,
        evaluated,
    );

    assert_eq!(
        actual,
        AgentTrace {
            version: protocol_version(),
            trace_id: TraceId::parse(TRACE_ID).unwrap(),
            observation: observation.reference(),
            policy: PolicyMetadata {
                name: "defensive-reducer".to_owned(),
                version: "7.4.2".to_owned(),
            },
            started_at: TimestampNs::new(1_700_000_000_000_000_111),
            completed_at: TimestampNs::new(1_700_000_000_000_000_222),
            outcome,
        }
    );
}

#[test]
fn test_proposal_produces_exact_trace() {
    assert_trace(PolicyResult::Proposal, TraceOutcome::Proposed(proposal()));
}

#[test]
fn test_no_proposal_produces_exact_trace() {
    assert_trace(PolicyResult::NoProposal, TraceOutcome::NoProposal);
}

#[test]
fn test_returned_error_produces_exact_trace() {
    assert_trace(
        PolicyResult::Error,
        TraceOutcome::Failed(AgentFailure {
            kind: AgentFailureKind::PolicyError,
            message: "policy input was inconsistent".to_owned(),
        }),
    );
}

#[test]
fn test_timeout_produces_exact_trace() {
    assert_trace(
        PolicyResult::Pending,
        TraceOutcome::Failed(AgentFailure {
            kind: AgentFailureKind::Timeout,
            message: "policy evaluation timed out after 25 ms".to_owned(),
        }),
    );
}

#[test]
fn test_panic_produces_exact_trace() {
    assert_trace(
        PolicyResult::Panic,
        TraceOutcome::Failed(AgentFailure {
            kind: AgentFailureKind::Panic,
            message: "policy future panic".to_owned(),
        }),
    );
}

#[test]
fn test_panic_without_text_payload_uses_fixed_message() {
    assert_eq!(
        panic_outcome(None),
        TraceOutcome::Failed(AgentFailure {
            kind: AgentFailureKind::Panic,
            message: "policy panicked".to_owned(),
        })
    );
}

#[test]
fn test_insufficient_observation_error_lists_fields() {
    let error = ProposalError::InsufficientObservation {
        fields: vec![
            FieldPath::parse("/payload/live/positions").unwrap(),
            FieldPath::parse("/payload/live/instruments/0/quantity_increment").unwrap(),
        ],
    };
    assert_eq!(
        error.message(),
        "observation lacks required fields: [FieldPath(\"/payload/live/positions\"), FieldPath(\"/payload/live/instruments/0/quantity_increment\")]"
    );
    let none = ProposalError::InsufficientObservation { fields: vec![] };
    assert_eq!(none.message(), "observation lacks required fields: []");
    assert_eq!(
        evaluation_outcome(PolicyEvaluation::Completed(Err(error))),
        TraceOutcome::Failed(AgentFailure {
            kind: AgentFailureKind::PolicyError,
            message: "observation lacks required fields: [FieldPath(\"/payload/live/positions\"), FieldPath(\"/payload/live/instruments/0/quantity_increment\")]".to_owned(),
        })
    );
}

#[test]
fn test_field_list_text_escapes_like_debug() {
    let fields = vec![FieldPath::parse("/a\"b/c\\d").unwrap()];
    let error = ProposalError::InsufficientObservation {
        fields: fields.clone(),
    };
    assert_eq!(
        error.message(),
        format!("observation lacks required fields: {fields:?}")
    );
}

#[test]
fn test_large_timeout_is_rendered_in_whole_milliseconds() {
    assert_eq!(
        evaluation_outcome(PolicyEvaluation::TimedOut {
            timeout_ms: Duration::from_secs(90).as_millis()
        }),
        TraceOutcome::Failed(AgentFailure {
            kind: AgentFailureKind::Timeout,
            message: "policy evaluation timed out after 90000 ms".to_owned(),
        })
    );
}
