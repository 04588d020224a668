use nautilus_agents::assurance::advisory::{
    AdvisoryCode, AdvisoryFinding, AdvisoryReport, AdvisorySeverity, AdvisoryValidator,
};
use nautilus_agents::protocol::live::{LiveIntent, LiveProposal, ReducePosition};
use nautilus_agents::protocol::observation::{
    FieldOmission, Observation, ObservationPayload, OmissionReason, RetentionClass,
};
use nautilus_agents::protocol::value::{FieldPath, InstrumentId, PositionId, Quantity, TimestampNs};
use nautilus_agents::protocol::version::ProtocolVersion;
use nautilus_agents::testing::{reduce_position_request, valid_observation};

fn finding(code: AdvisoryCode, field: &str, message: &str) -> AdvisoryFinding {
    AdvisoryFinding {
        code,
        severity: AdvisorySeverity::Error,
        field: FieldPath::parse(field).unwrap(),
        message: message.to_owned(),
    }
}

fn case() -> (Observation, LiveProposal) {
    (valid_observation(), reduce_position_request().proposal)
}

#[test]
fn test_clear_report() {
    let (observation, proposal) = case();
    let report = AdvisoryValidator.evaluate(&observation, &proposal, observation.created_at);
    assert_eq!(report, AdvisoryReport { findings: vec![] });
    assert!(report.is_clear());
}

#[test]
fn test_version_and_expiry_findings() {
    let (mut observation, proposal) = case();
    observation.version = ProtocolVersion::new(2, 7);
    observation.refresh_digest().unwrap();
    let now = TimestampNs::new(observation.expires_at.as_u64() + 1);

    let report = AdvisoryValidator.evaluate(&observation, &proposal, now);

    assert_eq!(
        report,
        AdvisoryReport {
            findings: vec![
                finding(
                    AdvisoryCode::UnsupportedVersion,
                    "/version",
                    "the observation protocol version is unsupported",
                ),
                finding(
                    AdvisoryCode::ExpiredObservation,
                    "/expires_at",
                    "the observation has expired",
                ),
            ],
        }
    );
}

#[test]
fn test_digest_finding() {
    let (mut observation, proposal) = case();
    observation.retention = RetentionClass::ReferenceOnly;

    let report = AdvisoryValidator.evaluate(&observation, &proposal, observation.created_at);

    assert_eq!(
        report,
        AdvisoryReport {
            findings: vec![finding(
                AdvisoryCode::DigestMismatch,
                "/digest",
                "the observation digest does not match its content",
            )],
        }
    );
}

#[test]
fn test_omission_finding() {
    let (mut observation, proposal) = case();
    observation.omissions.push(FieldOmission {
        field: FieldPath::parse("/payload/live/positions/0/quantity").unwrap(),
        reason: OmissionReason::Redacted,
    });
    observation.refresh_digest().unwrap();

    let report = AdvisoryValidator.evaluate(&observation, &proposal, observation.created_at);

    assert_eq!(
        report,
        AdvisoryReport {
            findings: vec![AdvisoryFinding {
                code: AdvisoryCode::RequiredFieldOmitted,
                severity: AdvisorySeverity::Error,
                field: FieldPath::parse("/payload/live/positions/0/quantity").unwrap(),
                message: "the observation omits data needed to check the proposal".to_owned(),
            }],
        }
    );
}

#[test]
fn test_nonessential_omission_remains_clear() {
    let (mut observation, proposal) = case();
    observation.omissions.push(FieldOmission {
        field: FieldPath::parse("/payload/live/positions/0/unrealized_pnl").unwrap(),
        reason: OmissionReason::Unsupported,
    });
    observation.refresh_digest().unwrap();

    let report = AdvisoryValidator.evaluate(&observation, &proposal, observation.created_at);

    assert_eq!(report, AdvisoryReport { findings: vec![] });
    assert!(report.is_clear());
}

#[test]
fn test_position_identity_finding() {
    let (observation, mut proposal) = case();
    let LiveIntent::ReducePosition(reduction) = &mut proposal.intent;
    reduction.position_id = PositionId::parse("P-404").unwrap();

    let report = AdvisoryValidator.evaluate(&observation, &proposal, observation.created_at);

    assert_eq!(
        report,
        AdvisoryReport {
            findings: vec![finding(
                AdvisoryCode::PositionMissing,
                "/proposal/intent/reduce_position/position_id",
                "the proposed position does not appear in the observation",
            )],
        }
    );
}

#[test]
fn test_instrument_identity_findings() {
    let (observation, mut proposal) = case();
    let LiveIntent::ReducePosition(reduction) = &mut proposal.intent;
    reduction.instrument_id = InstrumentId::parse("ETHUSDT.BINANCE").unwrap();

    let report = AdvisoryValidator.evaluate(&observation, &proposal, observation.created_at);

    assert_eq!(
        report,
        AdvisoryReport {
            findings: vec![
                finding(
                    AdvisoryCode::PositionInstrumentMismatch,
                    "/proposal/intent/reduce_position/instrument_id",
                    "the proposed instrument differs from the observed position instrument",
                ),
                finding(
                    AdvisoryCode::InstrumentMissing,
                    "/proposal/intent/reduce_position/instrument_id",
                    "the proposed instrument does not appear in the observation",
                ),
            ],
        }
    );
}

#[test]
fn test_missing_instrument_view_finding() {
    let (mut observation, proposal) = case();
    let ObservationPayload::Live(live) = &mut observation.payload;
    live.instruments.clear();
    observation.refresh_digest().unwrap();

    let report = AdvisoryValidator.evaluate(&observation, &proposal, observation.created_at);

    assert_eq!(
        report,
        AdvisoryReport {
            findings: vec![finding(
                AdvisoryCode::InstrumentMissing,
                "/proposal/intent/reduce_position/instrument_id",
                "the proposed instrument does not appear in the observation",
            )],
        }
    );
}

#[test]
fn test_quantity_findings() {
    let (observation, mut proposal) = case();
    let LiveIntent::ReducePosition(reduction) = &mut proposal.intent;
    reduction.quantity = Quantity::parse("3").unwrap();

    let report = AdvisoryValidator.evaluate(&observation, &proposal, observation.created_at);

    assert_eq!(
        report,
        AdvisoryReport {
            findings: vec![finding(
                AdvisoryCode::QuantityExceedsPosition,
                "/proposal/intent/reduce_position/quantity",
                "the reduction exceeds the observed open position quantity",
            )],
        }
    );

    let LiveIntent::ReducePosition(reduction) = &mut proposal.intent;
    *reduction = ReducePosition {
        position_id: PositionId::parse("P-197").unwrap(),
        instrument_id: InstrumentId::parse("BTCUSDT.BINANCE").unwrap(),
        quantity: Quantity::parse("1.1").unwrap(),
    };
    let report = AdvisoryValidator.evaluate(&observation, &proposal, observation.created_at);
    assert_eq!(
        report,
        AdvisoryReport {
            findings: vec![finding(
                AdvisoryCode::QuantityIncrementMismatch,
                "/proposal/intent/reduce_position/quantity",
                "the reduction does not align with the observed quantity increment",
            )],
        }
    );
}

#[test]
fn test_every_finding_of_one_evaluation_in_check_order() {
    let (mut observation, mut proposal) = case();
    observation.version = ProtocolVersion::new(3, 0);
    observation.omissions.push(FieldOmission {
        field: FieldPath::parse("/payload").unwrap(),
        reason: OmissionReason::NotGranted,
    });
    let LiveIntent::ReducePosition(reduction) = &mut proposal.intent;
    reduction.quantity = Quantity::parse("3.1").unwrap();
    let now = TimestampNs::new(observation.expires_at.as_u64() + 1);

    let report = AdvisoryValidator.evaluate(&observation, &proposal, now);

    let codes: Vec<AdvisoryCode> = report.findings.iter().map(|f| f.code).collect();
    assert_eq!(
        codes,
        vec![
            AdvisoryCode::UnsupportedVersion,
            AdvisoryCode::ExpiredObservation,
            AdvisoryCode::DigestMismatch,
            AdvisoryCode::RequiredFieldOmitted,
            AdvisoryCode::QuantityExceedsPosition,
            AdvisoryCode::QuantityIncrementMismatch,
        ]
    );
    assert!(!report.is_clear());
}

#[test]
fn test_required_omission_paths() {
    let required = [
        "/payload",
        "/payload/live",
        "/payload/live/positions",
        "/payload/live/instruments",
        "/payload/live/positions/0",
        "/payload/live/instruments/",
        "/payload/live/positions/7/position_id",
        "/payload/live/positions/0/instrument_id",
        "/payload/live/positions/0/quantity",
        "/payload/live/instruments/0/instrument_id",
        "/payload/live/instruments/0/quantity_increment",
    ];
    let optional = [
        "",
        "/",
        "/grant",
        "/payload/other",
        "/payload/live/orders",
        "/payload/live/positions/0/side",
        "/payload/live/instruments/0/quantity",
        "/payload/live/positions/0/quantity/extra",
        "payload",
    ];
    for path in required {
        let (mut observation, proposal) = case();
        observation.omissions.push(FieldOmission {
            field: FieldPath::parse(path).unwrap_or_else(|_| panic!("path {path}")),
            reason: OmissionReason::Redacted,
        });
        observation.refresh_digest().unwrap();
        let report = AdvisoryValidator.evaluate(&observation, &proposal, observation.created_at);
        assert_eq!(report.findings.len(), 1, "path: {path}");
        assert_eq!(report.findings[0].code, AdvisoryCode::RequiredFieldOmitted);
        assert_eq!(report.findings[0].field.as_str(), path);
    }
    for path in optional {
        let Ok(field) = FieldPath::parse(path) else {
            continue;
        };
        let (mut observation, proposal) = case();
        observation.omissions.push(FieldOmission {
            field,
            reason: OmissionReason::Redacted,
        });
        observation.refresh_digest().unwrap();
        let report = AdvisoryValidator.evaluate(&observation, &proposal, observation.created_at);
        assert!(report.is_clear(), "path: {path}");
    }
}
