use nautilus_agents::protocol::error::ErrorCode;
use nautilus_agents::protocol::identity::ObservationId;
use nautilus_agents::protocol::observation::{
    FieldOmission, Observation, ObservationError, ObservationPayload, OmissionReason,
    RetentionClass,
};
use nautilus_agents::protocol::receipt::{DecisionStatus, ProposalResponse};
use nautilus_agents::protocol::value::{ContentDigest, FieldPath, Quantity, TimestampNs};
use nautilus_agents::protocol::version::{protocol_version, ProtocolVersion};
use nautilus_agents::testing::{
    accepted_receipt, expired_observation, proposal_trace, redacted_observation,
    reduce_position_request, rejected_response, valid_observation, ObservationBuilder,
};

#[test]
fn test_all_deterministic_values_are_complete_and_valid() {
    let observation = valid_observation();
    let request = reduce_position_request();
    let trace = proposal_trace();
    let accepted = accepted_receipt();
    let redacted = redacted_observation();

    assert_eq!(observation.validate(), Ok(()));
    assert_eq!(request.validate(), Ok(()));
    assert_eq!(request.observation, observation.reference());
    assert_eq!(trace.observation, observation.reference());
    assert_eq!(accepted.validate(), Ok(()));
    assert_eq!(accepted.status, DecisionStatus::Accepted);
    assert_eq!(redacted.validate(), Ok(()));
    assert_eq!(redacted.retention, RetentionClass::Restricted);
    assert_eq!(redacted.omissions.len(), 1);
}

#[test]
fn test_rejected_and_expired_values_have_exact_outcomes() {
    let ProposalResponse::Receipt(rejected) = rejected_response() else {
        panic!("deterministic rejection must be a receipt");
    };
    let expired = expired_observation();
    let evaluation_time = TimestampNs::new(expired.expires_at.as_u64() + 1);

    assert_eq!(rejected.status, DecisionStatus::Rejected);
    assert_eq!(rejected.error.unwrap().code, ErrorCode::Rejected);
    assert_eq!(expired.validate(), Ok(()));
    let mut same = valid_observation();
    same.id = expired.id.clone();
    same.refresh_digest().unwrap();
    assert_eq!(expired, same);
    assert_eq!(
        expired.validate_at(evaluation_time),
        Err(ObservationError::Expired {
            expires_at: expired.expires_at,
        })
    );
}

#[test]
fn test_builder_sets_every_observation_field() {
    let baseline = valid_observation();
    let id = ObservationId::parse("10000000-0000-4000-8000-000000000014").unwrap();
    let created_at = TimestampNs::new(1_712_400_000_000_001_117);
    let expires_at = TimestampNs::new(1_712_400_031_000_001_219);
    let mut grant = baseline.grant.clone();
    grant.expires_at = TimestampNs::new(1_712_400_061_000_001_323);
    let mut provenance = baseline.provenance.clone();
    provenance[0].version = Some("position-revision-53".to_owned());
    provenance[1].version = Some("instrument-revision-59".to_owned());
    let omissions = vec![FieldOmission {
        field: FieldPath::parse("/payload/live/optional_extension").unwrap(),
        reason: OmissionReason::Unsupported,
    }];
    let mut payload = baseline.payload;
    let ObservationPayload::Live(live) = &mut payload;
    live.positions[0].quantity = Quantity::parse("3.25").unwrap();
    live.instruments[0].quantity_increment = Quantity::parse("0.5").unwrap();

    let actual = ObservationBuilder::new()
        .version(protocol_version())
        .id(id.clone())
        .created_at(created_at)
        .expires_at(expires_at)
        .grant(grant.clone())
        .provenance(provenance.clone())
        .omissions(omissions.clone())
        .retention(RetentionClass::ReferenceOnly)
        .payload(payload.clone())
        .build()
        .unwrap();
    let mut expected = Observation {
        version: protocol_version(),
        id,
        created_at,
        expires_at,
        grant,
        provenance,
        omissions,
        retention: RetentionClass::ReferenceOnly,
        payload,
        digest: ContentDigest::new([0; 32]),
    };
    expected.refresh_digest().unwrap();

    assert_eq!(actual, expected);
}

#[test]
fn test_builder_returns_exact_validation_error() {
    assert_eq!(
        ObservationBuilder::new()
            .version(ProtocolVersion::new(2, 0))
            .build(),
        Err(ObservationError::UnsupportedVersion {
            version: ProtocolVersion::new(2, 0),
        })
    );
}

#[test]
fn test_deterministic_identities_and_values() {
    let observation = valid_observation();
    assert_eq!(
        observation.id.as_str(),
        "10000000-0000-4000-8000-000000000011"
    );
    let accepted = accepted_receipt();
    assert_eq!(
        accepted.intent_id.as_str(),
        "40000000-0000-4000-8000-000000000041"
    );
    assert_eq!(
        accepted
            .correlation
            .engine_correlation_id
            .as_ref()
            .unwrap()
            .as_str(),
        "50000000-0000-4000-8000-000000000041"
    );
    assert_eq!(
        accepted
            .correlation
            .engine_causation_id
            .as_ref()
            .unwrap()
            .as_str(),
        "60000000-0000-4000-8000-000000000041"
    );
    assert_eq!(accepted.created_at.as_u64(), 1_712_400_001_000_000_748);
    let ProposalResponse::Receipt(rejected) = rejected_response() else {
        panic!("deterministic rejection must be a receipt");
    };
    assert_eq!(
        rejected.intent_id.as_str(),
        "40000000-0000-4000-8000-000000000042"
    );
    assert_eq!(rejected.updated_at.as_u64(), 1_712_400_002_000_000_850);
    assert_eq!(
        redacted_observation().id.as_str(),
        "10000000-0000-4000-8000-000000000012"
    );
    assert_eq!(
        expired_observation().id.as_str(),
        "10000000-0000-4000-8000-000000000013"
    );
    assert_eq!(
        ObservationBuilder::default().build().unwrap(),
        valid_observation()
    );
}

#[test]
fn test_redacted_observation_keeps_the_deterministic_scope() {
    let base = valid_observation();
    let redacted = redacted_observation();
    assert_eq!(redacted.created_at, base.created_at);
    assert_eq!(redacted.expires_at, base.expires_at);
    assert_eq!(redacted.grant, base.grant);
    assert_eq!(redacted.provenance, base.provenance);
    let ObservationPayload::Live(live) = &redacted.payload;
    let ObservationPayload::Live(base_live) = &base.payload;
    assert!(live.positions.is_empty());
    assert_eq!(live.instruments, base_live.instruments);
}
