//! Retention-aware recording decisions for agent-side evidence.
//!
//! A recorder decides what one observation record holds: its reference, the full observation,
//! or a validated redaction. The host serializes the chosen record as one JSON line and appends
//! it to the recorder's path.
use std::io::ErrorKind;
use std::path::PathBuf;
use vstd::prelude::*;

use crate::protocol::observation::{
    content_digest_text, observation_error_text, structural_fault, Observation, ObservationRef,
    RetentionClass,
};

verus! {

/// A filesystem path (std `PathBuf`), carried through unchanged.
#[verifier::external_type_specification]
#[verifier::external_body]
pub struct ExPathBuf(PathBuf);

/// The category of an I/O error (std `io::ErrorKind`), carried through unchanged.
#[verifier::external_type_specification]
#[verifier::external_body]
pub struct ExErrorKind(ErrorKind);

/// Selects how observation data is captured by a trace recorder.
#[derive(Clone, Copy, Debug, PartialEq, Eq, Structural)]
pub enum ObservationCapture {
    /// Records only the observation identity and digest.
    ReferenceOnly,
    /// Records a separately validated transformation supplied by the caller.
    Redacted,
    /// Records the full observation unless its retention class forbids it.
    Full,
}

impl Default for ObservationCapture {
    fn default() -> (r: Self)
        ensures
            r == ObservationCapture::ReferenceOnly,
    {
        ObservationCapture::ReferenceOnly
    }
}

/// Configures observation capture for a trace recorder.
#[derive(Clone, Copy, Debug, PartialEq, Eq, Structural)]
pub struct RecorderConfig {
    /// The explicit observation capture mode.
    pub observation_capture: ObservationCapture,
}

impl Default for RecorderConfig {
    fn default() -> (r: Self)
        ensures
            r.observation_capture == ObservationCapture::ReferenceOnly,
    {
        RecorderConfig { observation_capture: ObservationCapture::ReferenceOnly }
    }
}

/// Transforms an observation into a separately validated recordable observation.
pub trait ObservationRedactor: Send + Sync {
    /// Whether `result` is an answer this redactor may give for `observation`. A redactor may
    /// state what its redaction of an observation is; one that states nothing may give any
    /// answer.
    open spec fn may_redact(&self, observation: Observation, result: Result<Observation, String>) -> bool {
        true
    }

    /// Produces a redacted observation or a human-readable local error.
    fn redact(&self, observation: &Observation) -> (r: Result<Observation, String>)
        ensures
            self.may_redact(*observation, r),
    ;
}

/// Reports an agent-side recording failure.
#[derive(Debug, PartialEq, Eq)]
pub enum RecordingError {
    /// A filesystem operation failed before the target could be replaced.
    Io {
        /// The stable standard-library I/O category.
        kind: ErrorKind,
        /// A human-readable local explanation.
        message: String,
    },
    /// A record could not be encoded as JSON.
    Serialization {
        /// A human-readable serialization explanation.
        message: String,
    },
    /// Redacted capture was selected without a redactor.
    RedactorRequired,
    /// The caller-supplied redactor failed.
    Redaction {
        /// The caller-supplied redaction explanation.
        message: String,
    },
    /// The caller-supplied redacted observation failed protocol validation.
    InvalidRedaction {
        /// The protocol validation explanation.
        message: String,
    },
    /// The selected capture mode would retain restricted observation data.
    ForbiddenRetention {
        /// The selected capture mode.
        capture: ObservationCapture,
        /// The observation retention class.
        retention: RetentionClass,
    },
}

impl Clone for RecordingError {
    fn clone(&self) -> (r: Self)
        ensures
            r == *self,
    {
        match self {
            RecordingError::Io { kind, message } => RecordingError::Io {
                kind: *kind,
                message: message.clone(),
            },
            RecordingError::Serialization { message } => RecordingError::Serialization {
                message: message.clone(),
            },
            RecordingError::RedactorRequired => RecordingError::RedactorRequired,
            RecordingError::Redaction { message } => RecordingError::Redaction {
                message: message.clone(),
            },
            RecordingError::InvalidRedaction { message } => RecordingError::InvalidRedaction {
                message: message.clone(),
            },
            RecordingError::ForbiddenRetention { capture, retention } => {
                RecordingError::ForbiddenRetention { capture: *capture, retention: *retention }
            },
        }
    }
}

/// The `{:?}` text of a capture mode: its variant name.
pub open spec fn capture_debug_text(c: ObservationCapture) -> Seq<char> {
    match c {
        ObservationCapture::ReferenceOnly => "ReferenceOnly"@,
        ObservationCapture::Redacted => "Redacted"@,
        ObservationCapture::Full => "Full"@,
    }
}

/// The `{:?}` text of a retention class: its variant name.
pub open spec fn retention_debug_text(c: RetentionClass) -> Seq<char> {
    match c {
        RetentionClass::ReferenceOnly => "ReferenceOnly"@,
        RetentionClass::Derived => "Derived"@,
        RetentionClass::Restricted => "Restricted"@,
    }
}

/// The explanation of an I/O failure whose category renders as `kind`.
pub open spec fn io_error_text(kind: Seq<char>, message: Seq<char>) -> Seq<char> {
    "recording I/O failed ("@ + kind + "): "@ + message
}

/// The explanation of a recording error; `kind` is the `{:?}` text of an I/O failure's
/// category, which no other variant reads.
pub open spec fn recording_error_text(e: RecordingError, kind: Seq<char>) -> Seq<char> {
    match e {
        RecordingError::Io { message, .. } => io_error_text(kind, message@),
        RecordingError::Serialization { message } => "record serialization failed: "@ + message@,
        RecordingError::RedactorRequired => "redacted observation capture requires an ObservationRedactor"@,
        RecordingError::Redaction { message } => "observation redaction failed: "@ + message@,
        RecordingError::InvalidRedaction { message } => "redacted observation is invalid: "@
            + message@,
        RecordingError::ForbiddenRetention { capture, retention } => capture_debug_text(capture)
            + " capture cannot record "@ + retention_debug_text(retention) + " observation data"@,
    }
}

/// Renders an I/O error category as `{:?}` does (std `<io::ErrorKind as Debug>::fmt`). Nothing
/// is stated of the text: it is std's name for the category.
#[verifier::external_body]
fn error_kind_debug(kind: ErrorKind) -> String {
    format!("{:?}", kind)
}

impl RecordingError {
    /// Returns the human-readable explanation of this error. For an I/O failure the category's
    /// `{:?}` text stands in the parentheses.
    pub fn message(&self) -> (r: String)
        ensures
            exists|kind: Seq<char>| r@ == #[trigger] recording_error_text(*self, kind),
            !(*self is Io) ==> r@ == recording_error_text(*self, Seq::empty()),
    {
        let mut out = String::new();
        match self {
            RecordingError::Io { kind, message } => {
                let kind_text = error_kind_debug(*kind);
                out.append("recording I/O failed (");
                out.append(kind_text.as_str());
                out.append("): ");
                out.append(message.as_str());
                assert(out@ =~= recording_error_text(*self, kind_text@));
            },
            RecordingError::Serialization { message } => {
                out.append("record serialization failed: ");
                out.append(message.as_str());
            },
            RecordingError::RedactorRequired => {
                out.append("redacted observation capture requires an ObservationRedactor");
            },
            RecordingError::Redaction { message } => {
                out.append("observation redaction failed: ");
                out.append(message.as_str());
            },
            RecordingError::InvalidRedaction { message } => {
                out.append("redacted observation is invalid: ");
                out.append(message.as_str());
            },
            RecordingError::ForbiddenRetention { capture, retention } => {
                match capture {
                    ObservationCapture::ReferenceOnly => out.append("ReferenceOnly"),
                    ObservationCapture::Redacted => out.append("Redacted"),
                    ObservationCapture::Full => out.append("Full"),
                }
                out.append(" capture cannot record ");
                match retention {
                    RetentionClass::ReferenceOnly => out.append("ReferenceOnly"),
                    RetentionClass::Derived => out.append("Derived"),
                    RetentionClass::Restricted => out.append("Restricted"),
                }
                out.append(" observation data");
            },
        }
        assert(!(*self is Io) ==> out@ =~= recording_error_text(*self, Seq::empty()));
        out
    }
}

/// Records agent traces and explicitly selected observation data as JSONL.
///
/// Use one recorder per path. Concurrent recorders are not coordinated and may overwrite each
/// other's latest append.
pub struct TraceRecorder {
    path: PathBuf,
    config: RecorderConfig,
    redactor: Option<Box<dyn ObservationRedactor>>,
}

/// The observation data one record holds.
#[derive(Debug, PartialEq, Eq)]
pub enum ObservationRecord {
    /// Only the observation's reference.
    Reference(ObservationRef),
    /// The full observation, under its reference.
    Full(ObservationRef),
    /// A validated redaction, under the source observation's reference.
    Redacted {
        /// The source observation's reference.
        reference: ObservationRef,
        /// The validated redacted observation.
        observation: Observation,
    },
}

impl TraceRecorder {
    /// The capture configuration of this recorder.
    pub closed spec fn held_config(&self) -> RecorderConfig {
        self.config
    }

    /// The redactor this recorder holds, if any.
    pub closed spec fn held_redactor(&self) -> Option<Box<dyn ObservationRedactor>> {
        self.redactor
    }

    /// The path this recorder appends to.
    pub closed spec fn held_path(&self) -> PathBuf {
        self.path
    }

    /// Creates a recorder without an observation redactor.
    pub fn new(path: PathBuf, config: RecorderConfig) -> (r: Self)
        ensures
            r.held_path() == path,
            r.held_config() == config,
            r.held_redactor() is None,
    {
        TraceRecorder { path, config, redactor: None }
    }

    /// Creates a recorder with a caller-supplied observation redactor.
    pub fn with_redactor<R: ObservationRedactor + 'static>(
        path: PathBuf,
        config: RecorderConfig,
        redactor: R,
    ) -> (r: Self)
        ensures
            r.held_path() == path,
            r.held_config() == config,
            r.held_redactor() is Some,
    {
        let boxed: Box<dyn ObservationRedactor> = Box::new(redactor);
        TraceRecorder { path, config, redactor: Some(boxed) }
    }

    /// The path this recorder appends to.
    pub fn path(&self) -> (r: &PathBuf)
        ensures
            *r == self.held_path(),
    {
        &self.path
    }

    /// The capture configuration of this recorder.
    pub fn config(&self) -> (r: RecorderConfig)
        ensures
            r == self.held_config(),
    {
        self.config
    }

    /// Decides the record of one observation under the configured capture mode, asking the
    /// redactor to redact this observation for redacted capture. Whatever the redactor answers
    /// for it, the record is the one [`redacted_record`] decides for that answer.
    pub fn observation_record(&self, observation: &Observation) -> (r: Result<
        ObservationRecord,
        RecordingError,
    >)
        ensures
            match self.held_config().observation_capture {
                ObservationCapture::ReferenceOnly => r == Ok::<ObservationRecord, RecordingError>(
                    ObservationRecord::Reference(reference_of(*observation)),
                ),
                ObservationCapture::Full => full_capture_outcome(*observation, r),
                ObservationCapture::Redacted => match self.held_redactor() {
                    Some(redactor) => exists|redaction: Result<Observation, String>|
                        redactor.may_redact(*observation, redaction)
                            && #[trigger] redaction_outcome(*observation, redaction, r),
                    None => r == Err::<ObservationRecord, RecordingError>(
                        RecordingError::RedactorRequired,
                    ),
                },
            },
    {
        match self.config.observation_capture {
            ObservationCapture::ReferenceOnly => Ok(
                ObservationRecord::Reference(observation.reference()),
            ),
            ObservationCapture::Redacted => {
                match &self.redactor {
                    None => Err(RecordingError::RedactorRequired),
                    Some(redactor) => {
                        let redaction = redactor.redact(observation);
                        let ghost given = redaction;
                        let r = redacted_record(observation, redaction);
                        assert(redaction_outcome(*observation, given, r));
                        r
                    },
                }
            },
            ObservationCapture::Full => {
                if observation.retention == RetentionClass::Restricted {
                    return Err(
                        RecordingError::ForbiddenRetention {
                            capture: ObservationCapture::Full,
                            retention: observation.retention,
                        },
                    );
                }
                Ok(ObservationRecord::Full(observation.reference()))
            },
        }
    }
}

/// The reference of an observation: its identity and digest.
pub open spec fn reference_of(o: Observation) -> ObservationRef {
    ObservationRef { id: o.id, digest: o.digest }
}

/// The explanation of a failed validation, or nothing when the observation is valid.
pub open spec fn validation_message(o: Observation) -> Option<Seq<char>> {
    match structural_fault(o) {
        Some(e) => Some(observation_error_text(e)),
        None => if content_digest_text(o) == o.digest@ {
            None
        } else {
            Some("observation digest mismatch"@)
        },
    }
}

/// Full capture records the observation unless its retention class is restricted.
pub open spec fn full_capture_outcome(
    o: Observation,
    r: Result<ObservationRecord, RecordingError>,
) -> bool {
    if o.retention == RetentionClass::Restricted {
        r == Err::<ObservationRecord, RecordingError>(
            RecordingError::ForbiddenRetention {
                capture: ObservationCapture::Full,
                retention: RetentionClass::Restricted,
            },
        )
    } else {
        r == Ok::<ObservationRecord, RecordingError>(ObservationRecord::Full(reference_of(o)))
    }
}

/// The record of a redaction: the redactor's error, the redaction's validation error, a
/// refusal of restricted data, or the validated redaction under the source observation's reference.
pub open spec fn redaction_outcome(
    o: Observation,
    redaction: Result<Observation, String>,
    r: Result<ObservationRecord, RecordingError>,
) -> bool {
    match redaction {
        Err(message) => r == Err::<ObservationRecord, RecordingError>(
            RecordingError::Redaction { message },
        ),
        Ok(redacted) => match validation_message(redacted) {
            Some(text) => r matches Err(RecordingError::InvalidRedaction { message })
                && message@ == text,
            None => if redacted.retention == RetentionClass::Restricted {
                r == Err::<ObservationRecord, RecordingError>(
                    RecordingError::ForbiddenRetention {
                        capture: ObservationCapture::Redacted,
                        retention: RetentionClass::Restricted,
                    },
                )
            } else {
                r == Ok::<ObservationRecord, RecordingError>(
                    ObservationRecord::Redacted {
                        reference: reference_of(o),
                        observation: redacted,
                    },
                )
            },
        },
    }
}

/// No record holds restricted data, and a redacted record holds only an observation that passes
/// protocol validation; every record carries the source observation's reference.
pub proof fn lemma_records_respect_retention(
    o: Observation,
    redaction: Result<Observation, String>,
    full: Result<ObservationRecord, RecordingError>,
    redacted: Result<ObservationRecord, RecordingError>,
)
    requires
        full_capture_outcome(o, full),
        redaction_outcome(o, redaction, redacted),
    ensures
        full matches Ok(ObservationRecord::Full(reference)) ==> o.retention
            != RetentionClass::Restricted && reference == reference_of(o),
        redacted matches Ok(record) ==> (record matches ObservationRecord::Redacted {
            reference,
            observation,
        } && observation.retention != RetentionClass::Restricted && validation_message(
            observation,
        ) is None && reference == reference_of(o)),
{
}

/// Decides the record of a redactor's result for `observation`.
pub fn redacted_record(observation: &Observation, redaction: Result<Observation, String>) -> (r:
    Result<ObservationRecord, RecordingError>)
    ensures
        redaction_outcome(*observation, redaction, r),
{
    let redacted = match redaction {
        Ok(redacted) => redacted,
        Err(message) => {
            return Err(RecordingError::Redaction { message });
        },
    };
    match redacted.validate() {
        Ok(()) => {},
        Err(e) => {
            return Err(RecordingError::InvalidRedaction { message: e.message() });
        },
    }
    if redacted.retention == RetentionClass::Restricted {
        return Err(
            RecordingError::ForbiddenRetention {
                capture: ObservationCapture::Redacted,
                retention: redacted.retention,
            },
        );
    }
    Ok(ObservationRecord::Redacted { reference: observation.reference(), observation: redacted })
}

} // verus!
