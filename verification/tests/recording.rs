use std::io::ErrorKind;
use std::path::PathBuf;

use nautilus_agents::assurance::recording::{
    redacted_record, ObservationCapture, ObservationRecord, ObservationRedactor, RecorderConfig,
    RecordingError, TraceRecorder,
};
use nautilus_agents::protocol::observation::{
    FieldOmission, Observation, ObservationPayload, OmissionReason, RetentionClass,
};
use nautilus_agents::protocol::value::FieldPath;
use nautilus_agents::testing::valid_observation;

struct SafeRedactor;

impl ObservationRedactor for SafeRedactor {
    fn redact(&self, observation: &Observation) -> Result<Observation, String> {
        let mut redacted = observation.clone();
        let ObservationPayload::Live(live) = &mut redacted.payload;
        live.positions.clear();
        redacted.omissions.push(FieldOmission {
            field: FieldPath::parse("/payload/live/positions").unwrap(),
            reason: OmissionReason::Redacted,
        });
        redacted.retention = RetentionClass::Derived;
        redacted.refresh_digest().unwrap();
        Ok(redacted)
    }
}

struct FailingRedactor;

impl ObservationRedactor for FailingRedactor {
    fn redact(&self, _observation: &Observation) -> Result<Observation, String> {
        Err("redaction policy failed".to_owned())
    }
}

struct InvalidRedactor;

impl ObservationRedactor for InvalidRedactor {
    fn redact(&self, observation: &Observation) -> Result<Observation, String> {
        let mut invalid = observation.clone();
        invalid.retention = RetentionClass::ReferenceOnly;
        Ok(invalid)
    }
}

struct RestrictedRedactor;

impl ObservationRedactor for RestrictedRedactor {
    fn redact(&self, observation: &Observation) -> Result<Observation, String> {
        let mut restricted = observation.clone();
        restricted.retention = RetentionClass::Restricted;
        restricted.refresh_digest().unwrap();
        Ok(restricted)
    }
}

struct EchoRedactor;

impl ObservationRedactor for EchoRedactor {
    fn redact(&self, observation: &Observation) -> Result<Observation, String> {
        Err(observation.id.as_str().to_owned())
    }
}

#[test]
fn test_redactor_receives_the_recorded_observation() {
    let observation = valid_observation();
    let recorder =
        TraceRecorder::with_redactor(path(), capture(ObservationCapture::Redacted), EchoRedactor);
    assert_eq!(
        recorder.observation_record(&observation),
        Err(RecordingError::Redaction {
            message: observation.id.as_str().to_owned(),
        })
    );
}

fn path() -> PathBuf {
    PathBuf::from("records.jsonl")
}

fn capture(mode: ObservationCapture) -> RecorderConfig {
    RecorderConfig {
        observation_capture: mode,
    }
}

#[test]
fn test_default_records_reference_without_payload() {
    let observation = valid_observation();
    let recorder = TraceRecorder::new(path(), RecorderConfig::default());
    assert_eq!(
        recorder.config().observation_capture,
        ObservationCapture::ReferenceOnly
    );
    assert_eq!(
        recorder.observation_record(&observation),
        Ok(ObservationRecord::Reference(observation.reference()))
    );
    assert_eq!(recorder.path(), &path());
}

#[test]
fn test_trace_and_full_observation_use_separate_record_kinds() {
    let observation = valid_observation();
    let recorder = TraceRecorder::new(path(), capture(ObservationCapture::Full));
    let record = recorder.observation_record(&observation).unwrap();
    assert_eq!(record, ObservationRecord::Full(observation.reference()));
    assert_ne!(record, ObservationRecord::Reference(observation.reference()));
}

#[test]
fn test_restricted_full_capture_leaves_existing_record_unchanged() {
    let mut observation = valid_observation();
    let recorder = TraceRecorder::new(path(), capture(ObservationCapture::Full));
    observation.retention = RetentionClass::Restricted;
    observation.refresh_digest().unwrap();
    assert_eq!(
        recorder.observation_record(&observation),
        Err(RecordingError::ForbiddenRetention {
            capture: ObservationCapture::Full,
            retention: RetentionClass::Restricted,
        })
    );
}

#[test]
fn test_redacted_capture_records_only_validated_redactor_output() {
    let observation = valid_observation();
    let redacted = SafeRedactor.redact(&observation).unwrap();
    let recorder =
        TraceRecorder::with_redactor(path(), capture(ObservationCapture::Redacted), SafeRedactor);
    assert_eq!(
        recorder.observation_record(&observation),
        Ok(ObservationRecord::Redacted {
            reference: observation.reference(),
            observation: redacted,
        })
    );
}

#[test]
fn test_redaction_failures_leave_existing_record_unchanged() {
    let observation = valid_observation();

    let missing = TraceRecorder::new(path(), capture(ObservationCapture::Redacted));
    assert_eq!(
        missing.observation_record(&observation),
        Err(RecordingError::RedactorRequired)
    );

    let failing = TraceRecorder::with_redactor(
        path(),
        capture(ObservationCapture::Redacted),
        FailingRedactor,
    );
    assert_eq!(
        failing.observation_record(&observation),
        Err(RecordingError::Redaction {
            message: "redaction policy failed".to_owned(),
        })
    );

    let invalid = TraceRecorder::with_redactor(
        path(),
        capture(ObservationCapture::Redacted),
        InvalidRedactor,
    );
    assert_eq!(
        invalid.observation_record(&observation),
        Err(RecordingError::InvalidRedaction {
            message: "observation digest mismatch".to_owned(),
        })
    );
}

#[test]
fn test_restricted_redactor_output_leaves_existing_record_unchanged() {
    let observation = valid_observation();
    let restricted = TraceRecorder::with_redactor(
        path(),
        capture(ObservationCapture::Redacted),
        RestrictedRedactor,
    );
    assert_eq!(
        restricted.observation_record(&observation),
        Err(RecordingError::ForbiddenRetention {
            capture: ObservationCapture::Redacted,
            retention: RetentionClass::Restricted,
        })
    );
}

#[test]
fn test_redacted_record_reports_structural_faults() {
    let observation = valid_observation();
    let mut redacted = observation.clone();
    redacted.expires_at = observation.created_at;
    redacted.grant.expires_at = observation.created_at;
    redacted.created_at = nautilus_agents::protocol::value::TimestampNs::new(
        observation.created_at.as_u64() + 1,
    );
    redacted.refresh_digest().unwrap();
    assert_eq!(
        redacted_record(&observation, Ok(redacted)),
        Err(RecordingError::InvalidRedaction {
            message: "observation expiry precedes creation".to_owned(),
        })
    );
}

#[test]
fn test_recording_error_messages() {
    assert_eq!(
        RecordingError::RedactorRequired.message(),
        "redacted observation capture requires an ObservationRedactor"
    );
    assert_eq!(
        RecordingError::ForbiddenRetention {
            capture: ObservationCapture::Full,
            retention: RetentionClass::Restricted,
        }
        .message(),
        "Full capture cannot record Restricted observation data"
    );
    assert_eq!(
        RecordingError::Redaction {
            message: "redaction policy failed".to_owned()
        }
        .message(),
        "observation redaction failed: redaction policy failed"
    );
    assert_eq!(
        RecordingError::InvalidRedaction {
            message: "observation digest mismatch".to_owned()
        }
        .message(),
        "redacted observation is invalid: observation digest mismatch"
    );
    assert_eq!(
        RecordingError::Serialization {
            message: "key must be a string".to_owned()
        }
        .message(),
        "record serialization failed: key must be a string"
    );
    assert_eq!(
        RecordingError::Io {
            kind: ErrorKind::IsADirectory,
            message: "Is a directory (os error 21)".to_owned(),
        }
        .message(),
        "recording I/O failed (IsADirectory): Is a directory (os error 21)"
    );
}
