//! NautilusTrader-scoped observations, provenance, omissions and retention metadata.
use vstd::prelude::*;

use crate::protocol::canonical::{observation_content_bytes, observation_content_json, sha256_bytes, sha256_of};
use crate::protocol::capability::{CapabilityGrant, ObservationCapability};
use crate::protocol::identity::ObservationId;
use crate::protocol::live::{LiveObservation, PositionView};
use crate::protocol::set::SetKey;
use crate::protocol::value::{
    digest_text, ContentDigest, FieldPath, InstrumentId, PositionId, TimestampNs,
};
use crate::protocol::version::{supported_version, version_debug_text, ProtocolVersion};
use crate::text::{decimal_chars, push_decimal};

verus! {

/// Reports a structural or digest error in an observation.
#[derive(Clone, Debug, PartialEq, Eq)]
pub enum ObservationError {
    /// The observation uses an unsupported protocol version.
    UnsupportedVersion {
        /// The unsupported version.
        version: ProtocolVersion,
    },
    /// The observation expires before it is created.
    ExpiryBeforeCreation,
    /// The disclosed grant expires before the observation.
    GrantExpiresBeforeObservation,
    /// A position summary is present without its observation capability.
    PositionCapabilityMissing,
    /// An instrument summary is present without its observation capability.
    InstrumentCapabilityMissing,
    /// A view refers to an instrument outside the disclosed scope.
    InstrumentOutsideGrant {
        /// The out-of-scope instrument.
        instrument_id: InstrumentId,
    },
    /// A position identity appears more than once.
    DuplicatePosition {
        /// The duplicate position.
        position_id: PositionId,
    },
    /// An instrument summary appears more than once.
    DuplicateInstrument {
        /// The duplicate instrument.
        instrument_id: InstrumentId,
    },
    /// A position update claims a time after observation creation.
    PositionUpdatedAfterCreation {
        /// The invalid position.
        position_id: PositionId,
    },
    /// The observation digest does not cover its current content.
    DigestMismatch {
        /// The digest calculated from current content.
        expected: ContentDigest,
        /// The digest supplied with the observation.
        actual: ContentDigest,
    },
    /// The observation has expired for the supplied evaluation time.
    Expired {
        /// The observation expiry time.
        expires_at: TimestampNs,
    },
    /// Canonical observation serialization failed.
    Canonicalization {
        /// The serialization error.
        message: String,
    },
}

/// Contains one complete, versioned observation constructed by NautilusTrader.
#[derive(Clone, Debug, PartialEq, Eq)]
pub struct Observation {
    /// The external protocol version.
    pub version: ProtocolVersion,
    /// The observation identity.
    pub id: ObservationId,
    /// The observation construction time.
    pub created_at: TimestampNs,
    /// The last time the observation may be used.
    pub expires_at: TimestampNs,
    /// The effective scope disclosed for this observation.
    pub grant: CapabilityGrant,
    /// The source and time for disclosed fields.
    pub provenance: Vec<SourceProvenance>,
    /// The fields NautilusTrader withheld or could not provide.
    pub omissions: Vec<FieldOmission>,
    /// The recording sensitivity assigned by NautilusTrader.
    pub retention: RetentionClass,
    /// The protocol payload.
    pub payload: ObservationPayload,
    /// The canonical SHA-256 digest over every other field.
    pub digest: ContentDigest,
}

/// Links a request or trace to exact observation content.
#[derive(Debug, PartialEq, Eq)]
pub struct ObservationRef {
    /// The observation identity.
    pub id: ObservationId,
    /// The exact observation content digest.
    pub digest: ContentDigest,
}

impl Clone for ObservationRef {
    fn clone(&self) -> (r: Self)
        ensures
            r == *self,
    {
        ObservationRef { id: self.id.clone(), digest: self.digest.clone() }
    }
}

/// Associates one field path with its source and observation time.
#[derive(Clone, Debug, PartialEq, Eq)]
pub struct SourceProvenance {
    /// The field or subtree supplied by the source.
    pub field: FieldPath,
    /// The source category.
    pub source: ProvenanceSource,
    /// The time the source value was observed.
    pub observed_at: TimestampNs,
    /// An optional source version or revision.
    pub version: Option<String>,
}

/// Names the authoritative source category for a public field.
#[derive(Clone, Copy, Debug, PartialEq, Eq, Hash, Structural)]
pub enum ProvenanceSource {
    /// NautilusTrader's fresh position state.
    PositionState,
    /// NautilusTrader's instrument definition.
    InstrumentDefinition,
}

/// Records why NautilusTrader did not disclose a field or subtree.
#[derive(Debug, PartialEq, Eq)]
pub struct FieldOmission {
    /// The omitted field or subtree.
    pub field: FieldPath,
    /// The omission reason.
    pub reason: OmissionReason,
}

impl Clone for FieldOmission {
    fn clone(&self) -> (r: Self)
        ensures
            r == *self,
    {
        FieldOmission { field: self.field.clone(), reason: self.reason }
    }
}

/// Explains why an observation field is absent.
#[derive(Clone, Copy, Debug, PartialEq, Eq, Hash, Structural)]
pub enum OmissionReason {
    /// The effective grant did not include the field.
    NotGranted,
    /// NautilusTrader could not obtain the field.
    Unavailable,
    /// NautilusTrader redacted the field.
    Redacted,
    /// The current protocol cannot represent the field.
    Unsupported,
}

/// Classifies observation data for caller-controlled recording.
#[derive(Clone, Copy, Debug, PartialEq, Eq, Hash, Structural)]
pub enum RetentionClass {
    /// Callers should retain only an observation reference.
    ReferenceOnly,
    /// Callers may retain the derived public payload under their policy.
    Derived,
    /// Callers must not record the full observation through the library recorder.
    Restricted,
}

/// Contains the protocol-specific observation domain.
#[derive(Clone, Debug, PartialEq, Eq)]
pub enum ObservationPayload {
    /// Contains the live proposal-authoring view.
    Live(LiveObservation),
}

/// The live view of a payload.
pub open spec fn live_view(p: ObservationPayload) -> LiveObservation {
    match p {
        ObservationPayload::Live(live) => live,
    }
}

/// The human-readable explanation of an observation error.
pub open spec fn observation_error_text(e: ObservationError) -> Seq<char> {
    match e {
        ObservationError::UnsupportedVersion { version } => "unsupported protocol version "@
            + version_debug_text(version),
        ObservationError::ExpiryBeforeCreation => "observation expiry precedes creation"@,
        ObservationError::GrantExpiresBeforeObservation => "capability grant expires before observation"@,
        ObservationError::PositionCapabilityMissing => "position summaries are present without a disclosed capability"@,
        ObservationError::InstrumentCapabilityMissing => "instrument summaries are present without a disclosed capability"@,
        ObservationError::InstrumentOutsideGrant { instrument_id } => "instrument "@ + instrument_id@
            + " is outside the disclosed grant"@,
        ObservationError::DuplicatePosition { position_id } => "duplicate position "@ + position_id@,
        ObservationError::DuplicateInstrument { instrument_id } => "duplicate instrument "@
            + instrument_id@,
        ObservationError::PositionUpdatedAfterCreation { position_id } => "position "@ + position_id@
            + " was updated after observation creation"@,
        ObservationError::DigestMismatch { .. } => "observation digest mismatch"@,
        ObservationError::Expired { expires_at } => "observation expired at "@ + decimal_chars(
            expires_at@ as nat,
        ),
        ObservationError::Canonicalization { message } => "canonical observation serialization failed: "@
            + message@,
    }
}

impl ObservationError {
    /// Returns the human-readable explanation of this error.
    pub fn message(&self) -> (r: String)
        ensures
            r@ == observation_error_text(*self),
    {
        let mut out = String::new();
        match self {
            ObservationError::UnsupportedVersion { version } => {
                out.append("unsupported protocol version ");
                version.push_debug_text(&mut out);
            },
            ObservationError::ExpiryBeforeCreation => {
                out.append("observation expiry precedes creation");
            },
            ObservationError::GrantExpiresBeforeObservation => {
                out.append("capability grant expires before observation");
            },
            ObservationError::PositionCapabilityMissing => {
                out.append("position summaries are present without a disclosed capability");
            },
            ObservationError::InstrumentCapabilityMissing => {
                out.append("instrument summaries are present without a disclosed capability");
            },
            ObservationError::InstrumentOutsideGrant { instrument_id } => {
                out.append("instrument ");
                out.append(instrument_id.as_str());
                out.append(" is outside the disclosed grant");
            },
            ObservationError::DuplicatePosition { position_id } => {
                out.append("duplicate position ");
                out.append(position_id.as_str());
            },
            ObservationError::DuplicateInstrument { instrument_id } => {
                out.append("duplicate instrument ");
                out.append(instrument_id.as_str());
            },
            ObservationError::PositionUpdatedAfterCreation { position_id } => {
                out.append("position ");
                out.append(position_id.as_str());
                out.append(" was updated after observation creation");
            },
            ObservationError::DigestMismatch { .. } => {
                out.append("observation digest mismatch");
            },
            ObservationError::Expired { expires_at } => {
                out.append("observation expired at ");
                push_decimal(&mut out, expires_at.as_u64() as u128);
            },
            ObservationError::Canonicalization { message } => {
                out.append("canonical observation serialization failed: ");
                out.append(message.as_str());
            },
        }
        assert(out@ =~= observation_error_text(*self));
        out
    }
}

/// The first violation among the checks of position `i`: its instrument lies outside the
/// grant, an earlier position has its identity, or it was updated after creation.
pub open spec fn position_entry_fault(o: Observation, i: int) -> Option<ObservationError> {
    let positions = live_view(o.payload).positions@;
    let p = positions[i];
    if !o.grant.instruments.has_key(p.instrument_id.key()) {
        Some(ObservationError::InstrumentOutsideGrant { instrument_id: p.instrument_id })
    } else if exists|j: int| 0 <= j < i && (#[trigger] positions[j]).position_id@ == p.position_id@ {
        Some(ObservationError::DuplicatePosition { position_id: p.position_id })
    } else if p.updated_at@ > o.created_at@ {
        Some(ObservationError::PositionUpdatedAfterCreation { position_id: p.position_id })
    } else {
        None
    }
}

/// The first violation among positions `0..n`, in order.
pub open spec fn positions_fault(o: Observation, n: int) -> Option<ObservationError>
    decreases n,
{
    if n <= 0 {
        None
    } else {
        match positions_fault(o, n - 1) {
            Some(e) => Some(e),
            None => position_entry_fault(o, n - 1),
        }
    }
}

/// The first violation among the checks of instrument view `i`: its instrument lies outside the
/// grant, or an earlier view has the same instrument.
pub open spec fn instrument_entry_fault(o: Observation, i: int) -> Option<ObservationError> {
    let instruments = live_view(o.payload).instruments@;
    let v = instruments[i];
    if !o.grant.instruments.has_key(v.instrument_id.key()) {
        Some(ObservationError::InstrumentOutsideGrant { instrument_id: v.instrument_id })
    } else if exists|j: int|
        0 <= j < i && (#[trigger] instruments[j]).instrument_id@ == v.instrument_id@ {
        Some(ObservationError::DuplicateInstrument { instrument_id: v.instrument_id })
    } else {
        None
    }
}

/// The first violation among instrument views `0..n`, in order.
pub open spec fn instruments_fault(o: Observation, n: int) -> Option<ObservationError>
    decreases n,
{
    if n <= 0 {
        None
    } else {
        match instruments_fault(o, n - 1) {
            Some(e) => Some(e),
            None => instrument_entry_fault(o, n - 1),
        }
    }
}

proof fn lemma_positions_fault_stable(o: Observation, m: int, n: int)
    requires
        0 <= m <= n,
        positions_fault(o, m) is Some,
    ensures
        positions_fault(o, n) == positions_fault(o, m),
    decreases n,
{
    if n > m {
        lemma_positions_fault_stable(o, m, n - 1);
    }
}

proof fn lemma_instruments_fault_stable(o: Observation, m: int, n: int)
    requires
        0 <= m <= n,
        instruments_fault(o, m) is Some,
    ensures
        instruments_fault(o, n) == instruments_fault(o, m),
    decreases n,
{
    if n > m {
        lemma_instruments_fault_stable(o, m, n - 1);
    }
}

/// Views are disclosed only under their observation capability.
pub open spec fn capabilities_cover_payload(o: Observation) -> bool {
    let live = live_view(o.payload);
    &&& !(live.positions@.len() > 0 && !o.grant.observations.has_key(
        ObservationCapability::PositionSummary.key(),
    ))
    &&& !(live.instruments@.len() > 0 && !o.grant.observations.has_key(
        ObservationCapability::InstrumentSummary.key(),
    ))
}

/// The first violation of the live payload against the grant.
pub open spec fn payload_fault(o: Observation) -> Option<ObservationError> {
    let live = live_view(o.payload);
    if live.positions@.len() > 0 && !o.grant.observations.has_key(
        ObservationCapability::PositionSummary.key(),
    ) {
        Some(ObservationError::PositionCapabilityMissing)
    } else if live.instruments@.len() > 0 && !o.grant.observations.has_key(
        ObservationCapability::InstrumentSummary.key(),
    ) {
        Some(ObservationError::InstrumentCapabilityMissing)
    } else if positions_fault(o, live.positions@.len() as int) is Some {
        positions_fault(o, live.positions@.len() as int)
    } else {
        instruments_fault(o, live.instruments@.len() as int)
    }
}

/// The first structural violation of an observation, in check order; the digest is checked
/// separately.
pub open spec fn structural_fault(o: Observation) -> Option<ObservationError> {
    if !supported_version(o.version) {
        Some(ObservationError::UnsupportedVersion { version: o.version })
    } else if o.expires_at@ < o.created_at@ {
        Some(ObservationError::ExpiryBeforeCreation)
    } else if o.grant.expires_at@ < o.expires_at@ {
        Some(ObservationError::GrantExpiresBeforeObservation)
    } else {
        payload_fault(o)
    }
}

/// The digest text of an observation's content: SHA-256 of the canonical JSON of every field
/// except the digest.
pub open spec fn content_digest_text(o: Observation) -> Seq<char> {
    digest_text(sha256_of(observation_content_json(o)))
}

/// The outcome of structural and digest validation.
pub open spec fn validation_outcome(o: Observation, r: Result<(), ObservationError>) -> bool {
    match structural_fault(o) {
        Some(e) => r == Err::<(), ObservationError>(e),
        None => if content_digest_text(o) == o.digest@ {
            r is Ok
        } else {
            r matches Err(ObservationError::DigestMismatch { expected, actual })
                && expected@ == content_digest_text(o) && actual == o.digest
        },
    }
}

proof fn lemma_faults_ignore_digest(o: Observation, r: Observation, n: int)
    requires
        r == (Observation { digest: r.digest, ..o }),
    ensures
        positions_fault(r, n) == positions_fault(o, n),
        instruments_fault(r, n) == instruments_fault(o, n),
    decreases n,
{
    if n > 0 {
        lemma_faults_ignore_digest(o, r, n - 1);
        assert(position_entry_fault(r, n - 1) == position_entry_fault(o, n - 1));
        assert(instrument_entry_fault(r, n - 1) == instrument_entry_fault(o, n - 1));
    }
}

/// The digest covers every field but itself: an observation whose digest was set to the
/// content digest of its other fields passes the digest check, and its structural checks are
/// those of the observation it was refreshed from.
pub proof fn lemma_refreshed_digest_checks(o: Observation, refreshed: Observation)
    requires
        refreshed == (Observation { digest: refreshed.digest, ..o }),
        refreshed.digest@ == content_digest_text(o),
    ensures
        content_digest_text(refreshed) == refreshed.digest@,
        structural_fault(refreshed) == structural_fault(o),
        validation_outcome(refreshed, Ok::<(), ObservationError>(())) <==> structural_fault(o) is None,
{
    assert(observation_content_json(refreshed) == observation_content_json(o));
    let live = live_view(o.payload);
    lemma_faults_ignore_digest(o, refreshed, live.positions@.len() as int);
    lemma_faults_ignore_digest(o, refreshed, live.instruments@.len() as int);
    assert(payload_fault(refreshed) == payload_fault(o));
}

/// The position checks of the first `n` positions: each lies in the grant and was updated no
/// later than the observation's creation, and no two share an identity.
pub open spec fn position_checks(o: Observation, n: int) -> bool {
    let ps = live_view(o.payload).positions@;
    &&& forall|i: int| 0 <= i < n ==> position_in_scope(o, #[trigger] ps[i])
    &&& forall|i: int, j: int|
        #![trigger ps[i], ps[j]]
        0 <= i < j < n ==> ps[i].position_id@ != ps[j].position_id@
}

/// A position lies in the grant and was updated no later than the observation's creation.
pub open spec fn position_in_scope(o: Observation, p: PositionView) -> bool {
    o.grant.instruments.has_key(p.instrument_id.key()) && p.updated_at@ <= o.created_at@
}

/// The instrument checks of the first `n` instrument views: each lies in the grant, and no two
/// share an instrument.
pub open spec fn instrument_checks(o: Observation, n: int) -> bool {
    let vs = live_view(o.payload).instruments@;
    &&& forall|i: int|
        0 <= i < n ==> o.grant.instruments.has_key(#[trigger] vs[i].instrument_id.key())
    &&& forall|i: int, j: int|
        #![trigger vs[i], vs[j]]
        0 <= i < j < n ==> vs[i].instrument_id@ != vs[j].instrument_id@
}

/// Every check of a valid observation: a supported version, creation no later than expiry,
/// expiry no later than the grant's, each disclosed view under its observation capability, the
/// position and instrument checks, and a digest that covers the content.
pub open spec fn observation_checks_hold(o: Observation) -> bool {
    let live = live_view(o.payload);
    &&& supported_version(o.version)
    &&& o.created_at@ <= o.expires_at@
    &&& o.expires_at@ <= o.grant.expires_at@
    &&& live.positions@.len() > 0 ==> o.grant.observations.has_key(
        ObservationCapability::PositionSummary.key(),
    )
    &&& live.instruments@.len() > 0 ==> o.grant.observations.has_key(
        ObservationCapability::InstrumentSummary.key(),
    )
    &&& position_checks(o, live.positions@.len() as int)
    &&& instrument_checks(o, live.instruments@.len() as int)
    &&& content_digest_text(o) == o.digest@
}

proof fn lemma_positions_fault_none(o: Observation, n: int)
    requires
        0 <= n <= live_view(o.payload).positions@.len(),
    ensures
        (positions_fault(o, n) is None) == position_checks(o, n),
    decreases n,
{
    if n > 0 {
        let ps = live_view(o.payload).positions@;
        let k = n - 1;
        lemma_positions_fault_none(o, k);
        if positions_fault(o, n) is None {
            assert(positions_fault(o, k) is None);
            assert(position_entry_fault(o, k) is None);
            assert(o.grant.instruments.has_key(ps[k].instrument_id.key()));
            assert(position_in_scope(o, ps[k]));
            assert forall|i: int, j: int| #![trigger ps[i], ps[j]] 0 <= i < j < n implies ps[i].position_id@
                != ps[j].position_id@ by {
                if j == k && ps[i].position_id@ == ps[k].position_id@ {
                    assert(0 <= i < k && ps[i].position_id@ == ps[k].position_id@);
                }
            }
        } else if position_checks(o, n) {
            assert forall|i: int| 0 <= i < k implies position_in_scope(o, #[trigger] ps[i]) by {
                assert(0 <= i < n);
            }
            assert forall|i: int, j: int| #![trigger ps[i], ps[j]] 0 <= i < j < k implies ps[i].position_id@
                != ps[j].position_id@ by {
                assert(0 <= i < j < n);
            }
            assert(position_checks(o, k));
            assert(position_in_scope(o, ps[k]));
            assert(!exists|j: int| 0 <= j < k && (#[trigger] ps[j]).position_id@ == ps[k].position_id@) by {
                assert forall|j: int| 0 <= j < k implies (#[trigger] ps[j]).position_id@ != ps[k].position_id@ by {
                    assert(ps[j] == ps[j] && ps[k] == ps[k]);
                }
            }
            assert(position_entry_fault(o, k) is None);
        }
    }
}

proof fn lemma_instruments_fault_none(o: Observation, n: int)
    requires
        0 <= n <= live_view(o.payload).instruments@.len(),
    ensures
        (instruments_fault(o, n) is None) == instrument_checks(o, n),
    decreases n,
{
    if n > 0 {
        let vs = live_view(o.payload).instruments@;
        let k = n - 1;
        lemma_instruments_fault_none(o, k);
        if instruments_fault(o, n) is None {
            assert(instruments_fault(o, k) is None);
            assert(instrument_entry_fault(o, k) is None);
            assert(o.grant.instruments.has_key(vs[k].instrument_id.key()));
            assert forall|i: int, j: int| #![trigger vs[i], vs[j]] 0 <= i < j < n implies vs[i].instrument_id@
                != vs[j].instrument_id@ by {
                if j == k && vs[i].instrument_id@ == vs[k].instrument_id@ {
                    assert(0 <= i < k && vs[i].instrument_id@ == vs[k].instrument_id@);
                }
            }
        } else if instrument_checks(o, n) {
            assert(instrument_checks(o, k));
            assert(o.grant.instruments.has_key(vs[k].instrument_id.key()));
            assert(!exists|j: int| 0 <= j < k && (#[trigger] vs[j]).instrument_id@ == vs[k].instrument_id@) by {
                assert forall|j: int| 0 <= j < k implies (#[trigger] vs[j]).instrument_id@ != vs[k].instrument_id@ by {
                    assert(vs[j] == vs[j] && vs[k] == vs[k]);
                }
            }
            assert(instrument_entry_fault(o, k) is None);
        }
    }
}

/// An observation validates exactly when every one of its checks holds.
pub proof fn lemma_validation_checks(o: Observation)
    ensures
        validation_outcome(o, Ok::<(), ObservationError>(())) == observation_checks_hold(o),
        (structural_fault(o) is None && content_digest_text(o) == o.digest@)
            == observation_checks_hold(o),
{
    let live = live_view(o.payload);
    lemma_positions_fault_none(o, live.positions@.len() as int);
    lemma_instruments_fault_none(o, live.instruments@.len() as int);
}

impl Observation {
    /// Validates structural invariants and the content digest.
    pub fn validate(&self) -> (r: Result<(), ObservationError>)
        ensures
            validation_outcome(*self, r),
    {
        if !self.version.is_supported() {
            return Err(ObservationError::UnsupportedVersion { version: self.version });
        }
        if self.expires_at.as_u64() < self.created_at.as_u64() {
            return Err(ObservationError::ExpiryBeforeCreation);
        }
        if self.grant.expires_at.as_u64() < self.expires_at.as_u64() {
            return Err(ObservationError::GrantExpiresBeforeObservation);
        }
        self.validate_live_payload()?;
        let expected = self.computed_digest()?;
        if !expected.same_as(&self.digest) {
            return Err(
                ObservationError::DigestMismatch { expected, actual: self.digest.clone() },
            );
        }
        Ok(())
    }

    /// Validates the observation and checks it against an evaluation time.
    pub fn validate_at(&self, now: TimestampNs) -> (r: Result<(), ObservationError>)
        ensures
            structural_fault(*self) is Some || content_digest_text(*self) != self.digest@
                ==> validation_outcome(*self, r),
            structural_fault(*self) is None && content_digest_text(*self) == self.digest@ ==> (
            if now@ > self.expires_at@ {
                r == Err::<(), ObservationError>(
                    ObservationError::Expired { expires_at: self.expires_at },
                )
            } else {
                r is Ok
            }),
    {
        self.validate()?;
        if now.as_u64() > self.expires_at.as_u64() {
            return Err(ObservationError::Expired { expires_at: self.expires_at });
        }
        Ok(())
    }

    /// Computes the canonical digest excluding the `digest` field itself.
    pub fn computed_digest(&self) -> (r: Result<ContentDigest, ObservationError>)
        ensures
            r matches Ok(d) && d@ == content_digest_text(*self),
    {
        let bytes = observation_content_bytes(self);
        Ok(sha256_bytes(bytes.as_slice()))
    }

    /// Recomputes the content digest after local synthetic-data changes.
    pub fn refresh_digest(&mut self) -> (r: Result<(), ObservationError>)
        ensures
            r is Ok,
            final(self).digest@ == content_digest_text(*old(self)),
            final(self).version == old(self).version,
            final(self).id == old(self).id,
            final(self).created_at == old(self).created_at,
            final(self).expires_at == old(self).expires_at,
            final(self).grant == old(self).grant,
            final(self).provenance == old(self).provenance,
            final(self).omissions == old(self).omissions,
            final(self).retention == old(self).retention,
            final(self).payload == old(self).payload,
    {
        let digest = self.computed_digest()?;
        self.digest = digest;
        Ok(())
    }

    /// Returns the stable reference carried by traces and requests.
    pub fn reference(&self) -> (r: ObservationRef)
        ensures
            r.id == self.id,
            r.digest == self.digest,
    {
        ObservationRef { id: self.id.clone(), digest: self.digest.clone() }
    }

    fn validate_live_payload(&self) -> (r: Result<(), ObservationError>)
        ensures
            match payload_fault(*self) {
                Some(e) => r == Err::<(), ObservationError>(e),
                None => r is Ok,
            },
    {
        let ObservationPayload::Live(live) = &self.payload;
        if live.positions.len() > 0 && !self.grant.observations.contains(
            &ObservationCapability::PositionSummary,
        ) {
            return Err(ObservationError::PositionCapabilityMissing);
        }
        if live.instruments.len() > 0 && !self.grant.observations.contains(
            &ObservationCapability::InstrumentSummary,
        ) {
            return Err(ObservationError::InstrumentCapabilityMissing);
        }
        let mut i: usize = 0;
        while i < live.positions.len()
            invariant
                live_view(self.payload) == *live,
                capabilities_cover_payload(*self),
                i <= live.positions@.len(),
                positions_fault(*self, i as int) is None,
            decreases live.positions@.len() - i,
        {
            let position = &live.positions[i];
            if !self.grant.instruments.contains(&position.instrument_id) {
                proof {
                    lemma_positions_fault_stable(*self, i + 1, live.positions@.len() as int);
                }
                return Err(
                    ObservationError::InstrumentOutsideGrant {
                        instrument_id: position.instrument_id.clone(),
                    },
                );
            }
            let mut j: usize = 0;
            while j < i
                invariant
                    live_view(self.payload) == *live,
                    i < live.positions@.len(),
                    j <= i,
                    *position == live.positions@[i as int],
                    capabilities_cover_payload(*self),
                    positions_fault(*self, i as int) is None,
                    self.grant.instruments.has_key(position.instrument_id.key()),
                    forall|k: int| 0 <= k < j ==> (#[trigger] live.positions@[k]).position_id@
                        != position.position_id@,
                decreases i - j,
            {
                if live.positions[j].position_id.same_as(&position.position_id) {
                    proof {
                        assert(live.positions@[j as int].position_id@ == position.position_id@);
                        lemma_positions_fault_stable(*self, i + 1, live.positions@.len() as int);
                    }
                    return Err(
                        ObservationError::DuplicatePosition {
                            position_id: position.position_id.clone(),
                        },
                    );
                }
                j = j + 1;
            }
            if position.updated_at.as_u64() > self.created_at.as_u64() {
                proof {
                    lemma_positions_fault_stable(*self, i + 1, live.positions@.len() as int);
                }
                return Err(
                    ObservationError::PositionUpdatedAfterCreation {
                        position_id: position.position_id.clone(),
                    },
                );
            }
            i = i + 1;
        }
        let mut i: usize = 0;
        while i < live.instruments.len()
            invariant
                live_view(self.payload) == *live,
                capabilities_cover_payload(*self),
                i <= live.instruments@.len(),
                positions_fault(*self, live.positions@.len() as int) is None,
                instruments_fault(*self, i as int) is None,
            decreases live.instruments@.len() - i,
        {
            let instrument = &live.instruments[i];
            if !self.grant.instruments.contains(&instrument.instrument_id) {
                proof {
                    lemma_instruments_fault_stable(*self, i + 1, live.instruments@.len() as int);
                }
                return Err(
                    ObservationError::InstrumentOutsideGrant {
                        instrument_id: instrument.instrument_id.clone(),
                    },
                );
            }
            let mut j: usize = 0;
            while j < i
                invariant
                    live_view(self.payload) == *live,
                    i < live.instruments@.len(),
                    j <= i,
                    *instrument == live.instruments@[i as int],
                    capabilities_cover_payload(*self),
                    positions_fault(*self, live.positions@.len() as int) is None,
                    instruments_fault(*self, i as int) is None,
                    self.grant.instruments.has_key(instrument.instrument_id.key()),
                    forall|k: int| 0 <= k < j ==> (#[trigger] live.instruments@[k]).instrument_id@
                        != instrument.instrument_id@,
                decreases i - j,
            {
                if live.instruments[j].instrument_id.same_as(&instrument.instrument_id) {
                    proof {
                        assert(live.instruments@[j as int].instrument_id@ == instrument.instrument_id@);
                        lemma_instruments_fault_stable(*self, i + 1, live.instruments@.len() as int);
                    }
                    return Err(
                        ObservationError::DuplicateInstrument {
                            instrument_id: instrument.instrument_id.clone(),
                        },
                    );
                }
                j = j + 1;
            }
            i = i + 1;
        }
        Ok(())
    }
}

} // verus!
