use nautilus_agents::protocol::capability::{
    CapabilityGrant, ObservationCapability, ProposalCapability,
};
use nautilus_agents::protocol::error::{DecisionError, ErrorCode};
use nautilus_agents::protocol::identity::{
    CorrelationId, IdempotencyKey, IntentId, ObservationId, RequestId, TraceId,
};
use nautilus_agents::protocol::live::{
    InstrumentView, LiveIntent, LiveObservation, LiveProposal, LiveProposalRequest, PositionSide,
    PositionView, ReducePosition, RequestError,
};
use nautilus_agents::protocol::observation::{
    FieldOmission, Observation, ObservationError, ObservationPayload, OmissionReason,
    ProvenanceSource, RetentionClass, SourceProvenance,
};
use nautilus_agents::protocol::receipt::{
    CorrelationRefs, DecisionReceipt, DecisionStatus, ReceiptError,
};
use nautilus_agents::protocol::set::OrderedSet;
use nautilus_agents::protocol::value::{
    ContentDigest, FieldPath, InstrumentId, PositionId, Quantity, TimestampNs,
};
use nautilus_agents::protocol::version::{protocol_version, ProtocolVersion};

fn observation() -> Observation {
    let instrument_id = InstrumentId::new("BTCUSDT.BINANCE").unwrap();
    let mut observation = Observation {
        version: protocol_version(),
        id: ObservationId::parse("10000000-0000-4000-8000-000000000001").unwrap(),
        created_at: TimestampNs::new(1_712_400_000_000_000_101),
        expires_at: TimestampNs::new(1_712_400_030_000_000_202),
        grant: CapabilityGrant {
            observations: OrderedSet::from_vec(vec![
                ObservationCapability::PositionSummary,
                ObservationCapability::InstrumentSummary,
            ]),
            proposals: OrderedSet::from_vec(vec![ProposalCapability::ReducePosition]),
            instruments: OrderedSet::from_vec(vec![instrument_id.clone()]),
            expires_at: TimestampNs::new(1_712_400_060_000_000_303),
        },
        provenance: vec![
            SourceProvenance {
                field: FieldPath::new("/payload/live/positions").unwrap(),
                source: ProvenanceSource::PositionState,
                observed_at: TimestampNs::new(1_712_399_999_000_000_404),
                version: Some("position-revision-17".to_string()),
            },
            SourceProvenance {
                field: FieldPath::new("/payload/live/instruments").unwrap(),
                source: ProvenanceSource::InstrumentDefinition,
                observed_at: TimestampNs::new(1_712_399_998_000_000_505),
                version: Some("instrument-revision-23".to_string()),
            },
        ],
        omissions: vec![FieldOmission {
            field: FieldPath::new("/payload/live/positions/0/unrealized_pnl").unwrap(),
            reason: OmissionReason::Unsupported,
        }],
        retention: RetentionClass::Derived,
        payload: ObservationPayload::Live(LiveObservation {
            positions: vec![PositionView {
                position_id: PositionId::new("P-197").unwrap(),
                instrument_id: instrument_id.clone(),
                side: PositionSide::Long,
                quantity: Quantity::new("2.75").unwrap(),
                updated_at: TimestampNs::new(1_712_399_997_000_000_606),
            }],
            instruments: vec![InstrumentView {
                instrument_id,
                quantity_increment: Quantity::new("0.25").unwrap(),
            }],
        }),
        digest: ContentDigest::new([0; 32]),
    };
    observation.refresh_digest().unwrap();
    observation
}

fn request(observation: &Observation) -> LiveProposalRequest {
    LiveProposalRequest {
        version: protocol_version(),
        request_id: RequestId::parse("20000000-0000-4000-8000-000000000002").unwrap(),
        idempotency_key: IdempotencyKey::new("principal-proposal-29").unwrap(),
        observation: observation.reference(),
        agent_trace_id: Some(TraceId::parse("30000000-0000-4000-8000-000000000003").unwrap()),
        proposal: LiveProposal {
            intent: LiveIntent::ReducePosition(ReducePosition {
                position_id: PositionId::new("P-197").unwrap(),
                instrument_id: InstrumentId::new("BTCUSDT.BINANCE").unwrap(),
                quantity: Quantity::new("1.25").unwrap(),
            }),
        },
    }
}

fn receipt(
    observation: &Observation,
    status: DecisionStatus,
    error: Option<DecisionError>,
) -> DecisionReceipt {
    DecisionReceipt {
        version: protocol_version(),
        request_id: RequestId::parse("20000000-0000-4000-8000-000000000002").unwrap(),
        observation: observation.reference(),
        intent_id: IntentId::parse("40000000-0000-4000-8000-000000000004").unwrap(),
        status,
        error,
        correlation: CorrelationRefs {
            engine_correlation_id: Some(
                CorrelationId::parse("50000000-0000-4000-8000-000000000005").unwrap(),
            ),
            engine_causation_id: Some(
                CorrelationId::parse("60000000-0000-4000-8000-000000000006").unwrap(),
            ),
        },
        created_at: TimestampNs::new(1_712_400_001_000_000_707),
        updated_at: TimestampNs::new(1_712_400_002_000_000_808),
    }
}

#[test]
fn test_observation_validation_rejects_each_cross_field_violation() {
    let baseline = observation();
    assert_eq!(baseline.validate(), Ok(()));

    let mut expiry = baseline.clone();
    expiry.expires_at = TimestampNs::new(expiry.created_at.as_u64() - 1);
    expiry.refresh_digest().unwrap();
    assert_eq!(
        expiry.validate(),
        Err(ObservationError::ExpiryBeforeCreation)
    );

    let mut grant_expiry = baseline.clone();
    grant_expiry.grant.expires_at = TimestampNs::new(grant_expiry.expires_at.as_u64() - 1);
    grant_expiry.refresh_digest().unwrap();
    assert_eq!(
        grant_expiry.validate(),
        Err(ObservationError::GrantExpiresBeforeObservation)
    );

    let mut position_capability = baseline.clone();
    position_capability
        .grant
        .observations
        .remove(&ObservationCapability::PositionSummary);
    position_capability.refresh_digest().unwrap();
    assert_eq!(
        position_capability.validate(),
        Err(ObservationError::PositionCapabilityMissing)
    );

    let mut instrument_capability = baseline.clone();
    instrument_capability
        .grant
        .observations
        .remove(&ObservationCapability::InstrumentSummary);
    instrument_capability.refresh_digest().unwrap();
    assert_eq!(
        instrument_capability.validate(),
        Err(ObservationError::InstrumentCapabilityMissing)
    );

    let mut out_of_scope = baseline.clone();
    let ObservationPayload::Live(live) = &mut out_of_scope.payload;
    live.positions[0].instrument_id = InstrumentId::new("ETHUSDT.BINANCE").unwrap();
    out_of_scope.refresh_digest().unwrap();
    assert_eq!(
        out_of_scope.validate(),
        Err(ObservationError::InstrumentOutsideGrant {
            instrument_id: InstrumentId::new("ETHUSDT.BINANCE").unwrap(),
        })
    );

    let mut duplicate_position = baseline.clone();
    let ObservationPayload::Live(live) = &mut duplicate_position.payload;
    live.positions.push(live.positions[0].clone());
    duplicate_position.refresh_digest().unwrap();
    assert_eq!(
        duplicate_position.validate(),
        Err(ObservationError::DuplicatePosition {
            position_id: PositionId::new("P-197").unwrap(),
        })
    );

    let mut duplicate_instrument = baseline.clone();
    let ObservationPayload::Live(live) = &mut duplicate_instrument.payload;
    live.instruments.push(live.instruments[0].clone());
    duplicate_instrument.refresh_digest().unwrap();
    assert_eq!(
        duplicate_instrument.validate(),
        Err(ObservationError::DuplicateInstrument {
            instrument_id: InstrumentId::new("BTCUSDT.BINANCE").unwrap(),
        })
    );

    let mut future_position = baseline.clone();
    let ObservationPayload::Live(live) = &mut future_position.payload;
    live.positions[0].updated_at = TimestampNs::new(future_position.created_at.as_u64() + 1);
    future_position.refresh_digest().unwrap();
    assert_eq!(
        future_position.validate(),
        Err(ObservationError::PositionUpdatedAfterCreation {
            position_id: PositionId::new("P-197").unwrap(),
        })
    );

    let mut digest = baseline;
    digest.retention = RetentionClass::Restricted;
    assert!(matches!(
        digest.validate(),
        Err(ObservationError::DigestMismatch { .. })
    ));
}

#[test]
fn test_receipt_status_and_error_contract_for_every_status() {
    let observation = observation();
    let rejected_error = DecisionError {
        code: ErrorCode::Rejected,
        message: "fresh position no longer permits the reduction".to_string(),
        retryable: false,
    };
    let dispatch_error = DecisionError {
        code: ErrorCode::DispatchFailed,
        message: "dispatch result is not yet known".to_string(),
        retryable: true,
    };

    let cases = [
        (DecisionStatus::Accepted, None),
        (DecisionStatus::Rejected, Some(rejected_error)),
        (DecisionStatus::Authorized, None),
        (DecisionStatus::NotDispatched, Some(dispatch_error.clone())),
        (DecisionStatus::Dispatched, None),
        (DecisionStatus::DispatchUnknown, Some(dispatch_error)),
        (DecisionStatus::Completed, None),
    ];
    for (status, error) in cases {
        let receipt = receipt(&observation, status, error);
        assert_eq!(receipt.validate(), Ok(()), "status: {status:?}");
    }

    let missing = receipt(&observation, DecisionStatus::Rejected, None);
    assert_eq!(
        missing.validate(),
        Err(ReceiptError::MissingError {
            status: DecisionStatus::Rejected,
        })
    );

    let unexpected = receipt(
        &observation,
        DecisionStatus::Accepted,
        Some(DecisionError {
            code: ErrorCode::Rejected,
            message: "not valid for this status".to_string(),
            retryable: false,
        }),
    );
    assert_eq!(
        unexpected.validate(),
        Err(ReceiptError::UnexpectedError {
            status: DecisionStatus::Accepted,
        })
    );

    let incompatible = [
        (DecisionStatus::Rejected, ErrorCode::CommitFailed),
        (DecisionStatus::NotDispatched, ErrorCode::Rejected),
        (DecisionStatus::DispatchUnknown, ErrorCode::CommitFailed),
    ];
    for (status, code) in incompatible {
        let receipt = receipt(
            &observation,
            status,
            Some(DecisionError {
                code,
                message: format!("{code:?} is incompatible with {status:?}"),
                retryable: false,
            }),
        );
        assert_eq!(
            receipt.validate(),
            Err(ReceiptError::ErrorCodeMismatch { status, code })
        );
    }
}

#[test]
fn test_request_version_validation() {
    let observation = observation();
    let mut request = request(&observation);
    assert_eq!(request.validate(), Ok(()));
    request.version = ProtocolVersion::new(2, 0);
    assert!(request.validate().is_err());
}

#[test]
fn test_request_version_error_names_the_version() {
    let observation = observation();
    let mut request = request(&observation);
    request.version = ProtocolVersion::new(2, 7);
    let error = request.validate().unwrap_err();
    assert_eq!(
        error,
        RequestError::UnsupportedVersion {
            version: ProtocolVersion::new(2, 7)
        }
    );
    assert_eq!(
        error.message(),
        "unsupported protocol version ProtocolVersion { major: 2, minor: 7 }"
    );
}

#[test]
fn test_protocol_version_support() {
    assert!(protocol_version().is_supported());
    assert!(!ProtocolVersion::new(2, 0).is_supported());
    assert!(!ProtocolVersion::new(1, 1).is_supported());
    assert!(!ProtocolVersion::new(0, 0).is_supported());
    assert_eq!(protocol_version(), ProtocolVersion::new(1, 0));
}

#[test]
fn test_refreshed_digest_passes_only_the_digest_check() {
    let mut observation = observation();
    observation.expires_at = TimestampNs::new(observation.created_at.as_u64() - 1);
    assert!(matches!(
        observation.validate(),
        Err(ObservationError::ExpiryBeforeCreation)
    ));
    observation.refresh_digest().unwrap();
    assert_eq!(
        observation.validate(),
        Err(ObservationError::ExpiryBeforeCreation)
    );
    observation.expires_at = TimestampNs::new(observation.created_at.as_u64() + 1);
    assert!(matches!(
        observation.validate(),
        Err(ObservationError::DigestMismatch { .. })
    ));
    observation.refresh_digest().unwrap();
    assert_eq!(observation.validate(), Ok(()));
}

#[test]
fn test_validate_at_reports_expiry_after_validation() {
    let observation = observation();
    assert_eq!(observation.validate_at(observation.expires_at), Ok(()));
    let later = TimestampNs::new(observation.expires_at.as_u64() + 1);
    assert_eq!(
        observation.validate_at(later),
        Err(ObservationError::Expired {
            expires_at: observation.expires_at
        })
    );
    assert_eq!(
        ObservationError::Expired {
            expires_at: observation.expires_at
        }
        .message(),
        "observation expired at 1712400030000000202"
    );
}

#[test]
fn test_contract_covers_the_implemented_protocol() {
    assert_eq!(
        nautilus_agents::conformance::contract_version(),
        protocol_version()
    );
}

#[test]
fn test_fresh_identities_are_version_four() {
    for _ in 0..16 {
        let trace = TraceId::new();
        let text = trace.as_str();
        assert_eq!(&text[14..15], "4");
        assert!(matches!(&text[19..20], "8" | "9" | "a" | "b"));
        assert_eq!(TraceId::parse(text), Ok(trace.clone()));
    }
}
