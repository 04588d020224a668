//! Deterministic protocol values for consumer tests.
use vstd::prelude::*;
use vstd::pervasive::unreached;

use crate::protocol::capability::{
    text_key, CapabilityGrant, ObservationCapability, ProposalCapability,
};
use crate::assurance::trace::{AgentTrace, PolicyMetadata, TraceOutcome};
use crate::protocol::decimal::pow10;
use crate::protocol::error::{DecisionError, ErrorCode};
use crate::protocol::identity::{
    idempotency_key_fault, is_uuid_text, CorrelationId, IdempotencyKey, IntentId, ObservationId,
    RequestId, TraceId,
};
use crate::protocol::receipt::{
    receipt_fault, spec_error_matches_status, status_requires_error, CorrelationRefs,
    DecisionReceipt, DecisionStatus, ProposalResponse,
};
use crate::protocol::live::{
    InstrumentView, LiveIntent, LiveObservation, LiveProposal, LiveProposalRequest, PositionSide,
    PositionView, ReducePosition,
};
use crate::protocol::observation::{
    content_digest_text, lemma_refreshed_digest_checks, live_view, structural_fault,
    FieldOmission, Observation, ObservationError, ObservationPayload, ObservationRef,
    OmissionReason, ProvenanceSource,
    RetentionClass, SourceProvenance,
};
use crate::protocol::set::{OrderedSet, SetKey};
use crate::protocol::value::{
    dot_index, fraction_part, has_two_dots, identifier_fault, quantity_fault, ContentDigest,
    FieldPath, InstrumentId, PositionId, Quantity, TimestampNs, field_path_format,
    lemma_plain_pointer,
};
use crate::protocol::version::{protocol_version, spec_protocol_version, ProtocolVersion};
use crate::text::{
    chars_of, decimal_chars, decimal_string, digit_char, is_control_char, is_digit_char, owned,
    push_char,
};

verus! {

broadcast use vstd::seq::group_seq_axioms;

// ---------------------------------------------------------------------------------------------
// Literal values
// ---------------------------------------------------------------------------------------------

/// Printable ASCII: from space to tilde.
pub open spec fn printable_ascii(v: Seq<char>) -> bool {
    forall|i: int| 0 <= i < v.len() ==> ' ' <= #[trigger] v[i] && v[i] <= '~'
}

proof fn lemma_printable_identifier(v: Seq<char>)
    requires
        0 < v.len() <= 255,
        printable_ascii(v),
    ensures
        identifier_fault(v) is None,
{
    assert(vstd::utf8::is_ascii_chars(v));
    vstd::utf8::is_ascii_chars_encode_utf8(v);
    assert forall|i: int| 0 <= i < v.len() implies !is_control_char(#[trigger] v[i]) by {
        assert(' ' <= v[i] && v[i] <= '~');
    }
}

proof fn lemma_short_quantity(v: Seq<char>)
    requires
        v.len() == 4,
        is_digit_char(v[0]),
        v[1] == '.',
        is_digit_char(v[2]),
        is_digit_char(v[3]),
        v[3] != '0',
    ensures
        quantity_fault(v) is None,
{
    assert(v.drop_first()[0] == '.');
    assert(dot_index(v.drop_first()) == 0);
    assert(dot_index(v) == 1);
    assert(!v.contains('e') && !v.contains('E')) by {
        assert forall|i: int| 0 <= i < v.len() implies v[i] != 'e' && v[i] != 'E' by {
            assert(i == 0 || i == 1 || i == 2 || i == 3);
        }
    }
    assert forall|i: int| 0 <= i < v.len() implies is_digit_char(#[trigger] v[i]) || v[i] == '.' by {
        assert(i == 0 || i == 1 || i == 2 || i == 3);
    }
    assert(!has_two_dots(v)) by {
        assert forall|i: int, j: int| 0 <= i < j < v.len() implies !(v[i] == '.' && v[j] == '.') by {
            assert(i == 0 || i == 1 || i == 2);
            assert(j == 1 || j == 2 || j == 3);
        }
    }
    assert(fraction_part(v) =~= v.skip(2));
    assert(fraction_part(v).last() == v[3]);
}

fn instrument_id(text: &str) -> (r: InstrumentId)
    requires
        identifier_fault(text@) is None,
    ensures
        r@ == text@,
{
    match InstrumentId::parse(text) {
        Ok(id) => id,
        Err(_) => unreached(),
    }
}

fn position_id(text: &str) -> (r: PositionId)
    requires
        identifier_fault(text@) is None,
    ensures
        r@ == text@,
{
    match PositionId::parse(text) {
        Ok(id) => id,
        Err(_) => unreached(),
    }
}

fn quantity(text: &str) -> (r: Quantity)
    requires
        quantity_fault(text@) is None,
    ensures
        r@ == text@,
{
    match Quantity::parse(text) {
        Ok(q) => q,
        Err(_) => unreached(),
    }
}

fn field_path(text: &str) -> (r: FieldPath)
    requires
        field_path_format(text@),
    ensures
        r@ == text@,
{
    match FieldPath::parse(text) {
        Ok(p) => p,
        Err(_) => unreached(),
    }
}

fn observation_id(text: &str) -> (r: ObservationId)
    requires
        is_uuid_text(text@),
    ensures
        r@ == text@,
{
    match ObservationId::parse(text) {
        Ok(id) => id,
        Err(_) => unreached(),
    }
}

// ---------------------------------------------------------------------------------------------
// The deterministic observation
// ---------------------------------------------------------------------------------------------

/// The deterministic grant: both observation categories, position reductions, one instrument.
pub open spec fn is_base_grant(g: CapabilityGrant) -> bool {
    &&& forall|x: Seq<int>|
        g.observations.has_key(x) <==> (x == ObservationCapability::PositionSummary.key() || x
            == ObservationCapability::InstrumentSummary.key())
    &&& forall|x: Seq<int>| g.proposals.has_key(x) <==> x == ProposalCapability::ReducePosition.key()
    &&& forall|x: Seq<int>| g.instruments.has_key(x) <==> x == text_key("BTCUSDT.BINANCE"@)
    &&& g.expires_at@ == 1_712_400_060_000_000_303u64
}

/// One provenance entry with the given field, source, time and source version.
pub open spec fn is_provenance(
    p: SourceProvenance,
    field: Seq<char>,
    source: ProvenanceSource,
    observed_at: u64,
    version: Seq<char>,
) -> bool {
    &&& p.field@ == field
    &&& p.source == source
    &&& p.observed_at@ == observed_at
    &&& p.version matches Some(v) && v@ == version
}

/// The deterministic provenance of the position and instrument views.
pub open spec fn is_base_provenance(ps: Seq<SourceProvenance>) -> bool {
    &&& ps.len() == 2
    &&& is_provenance(
        ps[0],
        "/payload/live/positions"@,
        ProvenanceSource::PositionState,
        1_712_399_999_000_000_404u64,
        "position-revision-17"@,
    )
    &&& is_provenance(
        ps[1],
        "/payload/live/instruments"@,
        ProvenanceSource::InstrumentDefinition,
        1_712_399_998_000_000_505u64,
        "instrument-revision-23"@,
    )
}

/// The deterministic position view.
pub open spec fn is_base_position(p: PositionView) -> bool {
    &&& p.position_id@ == "P-197"@
    &&& p.instrument_id@ == "BTCUSDT.BINANCE"@
    &&& p.side == PositionSide::Long
    &&& p.quantity@ == "2.75"@
    &&& p.updated_at@ == 1_712_399_997_000_000_606u64
}

/// The deterministic instrument view.
pub open spec fn is_base_instrument(v: InstrumentView) -> bool {
    &&& v.instrument_id@ == "BTCUSDT.BINANCE"@
    &&& v.quantity_increment@ == "0.25"@
}

/// The deterministic live payload: one position and its instrument.
pub open spec fn is_base_payload(live: LiveObservation) -> bool {
    &&& live.positions@.len() == 1
    &&& is_base_position(live.positions@[0])
    &&& live.instruments@.len() == 1
    &&& is_base_instrument(live.instruments@[0])
}

/// The deterministic version, times and grant.
pub open spec fn is_base_frame(o: Observation) -> bool {
    &&& o.version == spec_protocol_version()
    &&& o.created_at@ == 1_712_400_000_000_000_101u64
    &&& o.expires_at@ == 1_712_400_030_000_000_202u64
    &&& is_base_grant(o.grant)
}

/// The deterministic content of every field but the digest.
pub open spec fn is_base_content(o: Observation) -> bool {
    &&& is_base_body(o)
    &&& o.id@ == "10000000-0000-4000-8000-000000000011"@
}

/// The deterministic content of every field but the identity and the digest.
pub open spec fn is_base_body(o: Observation) -> bool {
    &&& is_base_frame(o)
    &&& is_base_provenance(o.provenance@)
    &&& o.omissions@.len() == 0
    &&& o.retention == RetentionClass::Derived
    &&& is_base_payload(live_view(o.payload))
}

/// A valid observation: no structural fault, and a digest that covers its content.
#[verifier::opaque]
pub open spec fn is_valid(o: Observation) -> bool {
    structural_fault(o) is None && o.digest@ == content_digest_text(o)
}

proof fn lemma_base_structure(o: Observation)
    requires
        is_base_frame(o),
        is_base_payload(live_view(o.payload)),
    ensures
        structural_fault(o) is None,
{
    let live = live_view(o.payload);
    let p = live.positions@[0];
    let v = live.instruments@[0];
    assert(o.grant.observations.has_key(ObservationCapability::PositionSummary.key()));
    assert(o.grant.observations.has_key(ObservationCapability::InstrumentSummary.key()));
    assert(o.grant.instruments.has_key(p.instrument_id.key()));
    assert(o.grant.instruments.has_key(v.instrument_id.key()));
    assert(crate::protocol::observation::positions_fault(o, 0) is None);
    assert(crate::protocol::observation::position_entry_fault(o, 0) is None);
    assert(crate::protocol::observation::positions_fault(o, 1) is None);
    assert(crate::protocol::observation::instruments_fault(o, 0) is None);
    assert(crate::protocol::observation::instrument_entry_fault(o, 0) is None);
    assert(crate::protocol::observation::instruments_fault(o, 1) is None);
}

fn base_grant() -> (r: CapabilityGrant)
    ensures
        is_base_grant(r),
{
    proof {
        reveal_strlit("BTCUSDT.BINANCE");
        lemma_printable_identifier("BTCUSDT.BINANCE"@);
    }
    let instrument = instrument_id("BTCUSDT.BINANCE");
    let observations = OrderedSet::from_vec(
        vec![ObservationCapability::PositionSummary, ObservationCapability::InstrumentSummary],
    );
    let proposals = OrderedSet::from_vec(vec![ProposalCapability::ReducePosition]);
    let instruments = OrderedSet::from_vec(vec![instrument]);
    let r = CapabilityGrant {
        observations,
        proposals,
        instruments,
        expires_at: TimestampNs::new(1_712_400_060_000_000_303),
    };
    proof {
        assert forall|x: Seq<int>|
            r.observations.has_key(x) <==> (x == ObservationCapability::PositionSummary.key() || x
                == ObservationCapability::InstrumentSummary.key()) by {
            let s = seq![ObservationCapability::PositionSummary, ObservationCapability::InstrumentSummary];
            if x == ObservationCapability::PositionSummary.key() {
                assert(s[0].key() == x);
            }
            if x == ObservationCapability::InstrumentSummary.key() {
                assert(s[1].key() == x);
            }
        }
        assert forall|x: Seq<int>| r.proposals.has_key(x) <==> x == ProposalCapability::ReducePosition.key() by {
            if x == ProposalCapability::ReducePosition.key() {
                assert(seq![ProposalCapability::ReducePosition][0].key() == x);
            }
        }
        assert forall|x: Seq<int>| r.instruments.has_key(x) <==> x == text_key("BTCUSDT.BINANCE"@) by {
            if x == text_key("BTCUSDT.BINANCE"@) {
                assert(seq![instrument][0].key() == x);
            }
        }
    }
    r
}

fn base_observation() -> (r: Observation)
    ensures
        is_base_content(r),
{
    proof {
        reveal_strlit("BTCUSDT.BINANCE");
        lemma_printable_identifier("BTCUSDT.BINANCE"@);
        reveal_strlit("P-197");
        lemma_printable_identifier("P-197"@);
        reveal_strlit("2.75");
        lemma_short_quantity("2.75"@);
        reveal_strlit("0.25");
        lemma_short_quantity("0.25"@);
        reveal_strlit("/payload/live/positions");
        lemma_plain_pointer("/payload/live/positions"@);
        reveal_strlit("/payload/live/instruments");
        lemma_plain_pointer("/payload/live/instruments"@);
        reveal_strlit("10000000-0000-4000-8000-000000000011");
    }
    let digest = ContentDigest::new([0u8; 32]);
    let r = Observation {
        version: protocol_version(),
        id: observation_id("10000000-0000-4000-8000-000000000011"),
        created_at: TimestampNs::new(1_712_400_000_000_000_101),
        expires_at: TimestampNs::new(1_712_400_030_000_000_202),
        grant: base_grant(),
        provenance: vec![
            SourceProvenance {
                field: field_path("/payload/live/positions"),
                source: ProvenanceSource::PositionState,
                observed_at: TimestampNs::new(1_712_399_999_000_000_404),
                version: Some(owned("position-revision-17")),
            },
            SourceProvenance {
                field: field_path("/payload/live/instruments"),
                source: ProvenanceSource::InstrumentDefinition,
                observed_at: TimestampNs::new(1_712_399_998_000_000_505),
                version: Some(owned("instrument-revision-23")),
            },
        ],
        omissions: Vec::new(),
        retention: RetentionClass::Derived,
        payload: ObservationPayload::Live(
            LiveObservation {
                positions: vec![
                    PositionView {
                        position_id: position_id("P-197"),
                        instrument_id: instrument_id("BTCUSDT.BINANCE"),
                        side: PositionSide::Long,
                        quantity: quantity("2.75"),
                        updated_at: TimestampNs::new(1_712_399_997_000_000_606),
                    },
                ],
                instruments: vec![
                    InstrumentView {
                        instrument_id: instrument_id("BTCUSDT.BINANCE"),
                        quantity_increment: quantity("0.25"),
                    },
                ],
            },
        ),
        digest,
    };
    r
}

// ---------------------------------------------------------------------------------------------
// The observation builder
// ---------------------------------------------------------------------------------------------

/// Builds a validated observation from deterministic or caller-supplied fields.
pub struct ObservationBuilder {
    observation: Observation,
}

impl ObservationBuilder {
    /// The observation under construction; its digest is refreshed by [`Self::build`].
    pub closed spec fn draft(&self) -> Observation {
        self.observation
    }

    /// Creates a builder populated with distinct deterministic field values.
    pub fn new() -> (r: Self)
        ensures
            is_base_content(r.draft()),
    {
        ObservationBuilder { observation: base_observation() }
    }

    /// Sets the protocol version.
    pub fn version(self, version: ProtocolVersion) -> (r: Self)
        ensures
            r.draft() == (Observation { version, ..self.draft() }),
    {
        let mut observation = self.observation;
        observation.version = version;
        ObservationBuilder { observation }
    }

    /// Sets the observation identity.
    pub fn id(self, id: ObservationId) -> (r: Self)
        ensures
            r.draft() == (Observation { id, ..self.draft() }),
    {
        let mut observation = self.observation;
        observation.id = id;
        ObservationBuilder { observation }
    }

    /// Sets the construction time.
    pub fn created_at(self, created_at: TimestampNs) -> (r: Self)
        ensures
            r.draft() == (Observation { created_at, ..self.draft() }),
    {
        let mut observation = self.observation;
        observation.created_at = created_at;
        ObservationBuilder { observation }
    }

    /// Sets the expiry time.
    pub fn expires_at(self, expires_at: TimestampNs) -> (r: Self)
        ensures
            r.draft() == (Observation { expires_at, ..self.draft() }),
    {
        let mut observation = self.observation;
        observation.expires_at = expires_at;
        ObservationBuilder { observation }
    }

    /// Sets the disclosed capability grant.
    pub fn grant(self, grant: CapabilityGrant) -> (r: Self)
        ensures
            r.draft() == (Observation { grant, ..self.draft() }),
    {
        let mut observation = self.observation;
        observation.grant = grant;
        ObservationBuilder { observation }
    }

    /// Sets field provenance.
    pub fn provenance(self, provenance: Vec<SourceProvenance>) -> (r: Self)
        ensures
            r.draft() == (Observation { provenance, ..self.draft() }),
    {
        let mut observation = self.observation;
        observation.provenance = provenance;
        ObservationBuilder { observation }
    }

    /// Sets explicit field omissions.
    pub fn omissions(self, omissions: Vec<FieldOmission>) -> (r: Self)
        ensures
            r.draft() == (Observation { omissions, ..self.draft() }),
    {
        let mut observation = self.observation;
        observation.omissions = omissions;
        ObservationBuilder { observation }
    }

    /// Sets the recording retention class.
    pub fn retention(self, retention: RetentionClass) -> (r: Self)
        ensures
            r.draft() == (Observation { retention, ..self.draft() }),
    {
        let mut observation = self.observation;
        observation.retention = retention;
        ObservationBuilder { observation }
    }

    /// Sets the protocol payload.
    pub fn payload(self, payload: ObservationPayload) -> (r: Self)
        ensures
            r.draft() == (Observation { payload, ..self.draft() }),
    {
        let mut observation = self.observation;
        observation.payload = payload;
        ObservationBuilder { observation }
    }

    /// Recomputes the digest and validates the complete observation. With a fresh digest only a
    /// structural fault can fail the validation.
    pub fn build(self) -> (r: Result<Observation, ObservationError>)
        ensures
            match r {
                Ok(o) => o == (Observation { digest: o.digest, ..self.draft() }) && is_valid(o),
                Err(e) => structural_fault(self.draft()) == Some(e),
            },
    {
        let mut observation = self.observation;
        let ghost draft = observation;
        observation.refresh_digest()?;
        proof {
            lemma_refreshed_digest_checks(draft, observation);
        }
        observation.validate()?;
        proof {
            reveal(is_valid);
        }
        Ok(observation)
    }
}

impl Default for ObservationBuilder {
    fn default() -> (r: Self)
        ensures
            is_base_content(r.draft()),
    {
        Self::new()
    }
}

/// Returns one fully populated valid live observation.
pub fn valid_observation() -> (r: Observation)
    ensures
        is_base_content(r),
        is_valid(r),
{
    let builder = ObservationBuilder::new();
    proof {
        lemma_base_structure(builder.draft());
    }
    match builder.build() {
        Ok(observation) => observation,
        Err(_) => unreached(),
    }
}

// ---------------------------------------------------------------------------------------------
// Requests, traces and receipts
// ---------------------------------------------------------------------------------------------

proof fn lemma_printable_key(v: Seq<char>)
    requires
        0 < v.len() <= 128,
        printable_ascii(v),
    ensures
        idempotency_key_fault(v) is None,
{
    assert(vstd::utf8::is_ascii_chars(v));
    vstd::utf8::is_ascii_chars_encode_utf8(v);
}

fn request_id(text: &str) -> (r: RequestId)
    requires
        is_uuid_text(text@),
    ensures
        r@ == text@,
{
    match RequestId::parse(text) {
        Ok(id) => id,
        Err(_) => unreached(),
    }
}

fn trace_id(text: &str) -> (r: TraceId)
    requires
        is_uuid_text(text@),
    ensures
        r@ == text@,
{
    match TraceId::parse(text) {
        Ok(id) => id,
        Err(_) => unreached(),
    }
}

fn intent_id(text: &str) -> (r: IntentId)
    requires
        is_uuid_text(text@),
    ensures
        r@ == text@,
{
    match IntentId::parse(text) {
        Ok(id) => id,
        Err(_) => unreached(),
    }
}

fn correlation_id(text: &str) -> (r: CorrelationId)
    requires
        is_uuid_text(text@),
    ensures
        r@ == text@,
{
    match CorrelationId::parse(text) {
        Ok(id) => id,
        Err(_) => unreached(),
    }
}

/// The deterministic reduction: 1.25 of position P-197 on BTCUSDT.BINANCE.
pub open spec fn is_base_proposal(p: LiveProposal) -> bool {
    match p.intent {
        LiveIntent::ReducePosition(r) => r.position_id@ == "P-197"@ && r.instrument_id@
            == "BTCUSDT.BINANCE"@ && r.quantity@ == "1.25"@,
    }
}

/// A reference to a valid observation with the deterministic content.
#[verifier::opaque]
pub open spec fn refers_to_valid_base(r: ObservationRef) -> bool {
    exists|o: Observation| #[trigger] is_valid(o) && is_base_content(o) && r.id == o.id && r.digest
        == o.digest
}

fn base_proposal() -> (r: LiveProposal)
    ensures
        is_base_proposal(r),
{
    proof {
        reveal_strlit("P-197");
        lemma_printable_identifier("P-197"@);
        reveal_strlit("BTCUSDT.BINANCE");
        lemma_printable_identifier("BTCUSDT.BINANCE"@);
        reveal_strlit("1.25");
        lemma_short_quantity("1.25"@);
    }
    LiveProposal {
        intent: LiveIntent::ReducePosition(
            ReducePosition {
                position_id: position_id("P-197"),
                instrument_id: instrument_id("BTCUSDT.BINANCE"),
                quantity: quantity("1.25"),
            },
        ),
    }
}

fn valid_reference() -> (r: ObservationRef)
    ensures
        refers_to_valid_base(r),
        r.id@ == "10000000-0000-4000-8000-000000000011"@,
{
    let observation = valid_observation();
    let r = observation.reference();
    proof {
        reveal(refers_to_valid_base);
        assert(is_valid(observation));
    }
    r
}

/// Returns one fully populated semantic position-reduction request.
pub fn reduce_position_request() -> (r: LiveProposalRequest)
    ensures
        r.version == spec_protocol_version(),
        r.request_id@ == "20000000-0000-4000-8000-000000000021"@,
        r.idempotency_key@ == "principal-proposal-29"@,
        refers_to_valid_base(r.observation),
        r.agent_trace_id matches Some(t) && t@ == "30000000-0000-4000-8000-000000000031"@,
        is_base_proposal(r.proposal),
{
    proof {
        reveal_strlit("20000000-0000-4000-8000-000000000021");
        reveal_strlit("30000000-0000-4000-8000-000000000031");
        reveal_strlit("principal-proposal-29");
        lemma_printable_key("principal-proposal-29"@);
    }
    let key = match IdempotencyKey::parse("principal-proposal-29") {
        Ok(key) => key,
        Err(_) => unreached(),
    };
    LiveProposalRequest {
        version: protocol_version(),
        request_id: request_id("20000000-0000-4000-8000-000000000021"),
        idempotency_key: key,
        observation: valid_reference(),
        agent_trace_id: Some(trace_id("30000000-0000-4000-8000-000000000031")),
        proposal: base_proposal(),
    }
}

/// Returns one fully populated proposal trace.
pub fn proposal_trace() -> (r: AgentTrace)
    ensures
        r.version == spec_protocol_version(),
        r.trace_id@ == "30000000-0000-4000-8000-000000000032"@,
        refers_to_valid_base(r.observation),
        r.policy.name@ == "defensive-reducer"@,
        r.policy.version@ == "policy-3.7.11"@,
        r.started_at@ == 1_712_400_000_100_000_101u64,
        r.completed_at@ == 1_712_400_000_200_000_202u64,
        r.outcome matches TraceOutcome::Proposed(p) && is_base_proposal(p),
{
    proof {
        reveal_strlit("30000000-0000-4000-8000-000000000032");
    }
    let request = reduce_position_request();
    AgentTrace {
        version: protocol_version(),
        trace_id: trace_id("30000000-0000-4000-8000-000000000032"),
        observation: request.observation,
        policy: PolicyMetadata {
            name: owned("defensive-reducer"),
            version: owned("policy-3.7.11"),
        },
        started_at: TimestampNs::new(1_712_400_000_100_000_101),
        completed_at: TimestampNs::new(1_712_400_000_200_000_202),
        outcome: TraceOutcome::Proposed(request.proposal),
    }
}

/// The decimal text of `n` padded with leading zeroes to `width` characters.
pub open spec fn padded_decimal(n: nat, width: nat) -> Seq<char> {
    Seq::new((width - decimal_chars(n).len()) as nat, |i: int| '0') + decimal_chars(n)
}

proof fn lemma_decimal_chars_digits(n: nat)
    ensures
        decimal_chars(n).len() >= 1,
        forall|i: int| 0 <= i < decimal_chars(n).len() ==> is_digit_char(#[trigger] decimal_chars(n)[i]),
    decreases n,
{
    assert(is_digit_char(digit_char(n % 10))) by {
        assert(48 <= n % 10 + 48 < 58);
    }
    if n >= 10 {
        lemma_decimal_chars_digits(n / 10);
    }
}

proof fn lemma_decimal_chars_len(n: nat, k: nat)
    requires
        k >= 1,
        n < pow10(k),
    ensures
        decimal_chars(n).len() <= k,
    decreases k,
{
    if n >= 10 {
        assert(k >= 2) by {
            if k == 1 {
                assert(pow10(1) == 10 * pow10(0));
            }
        }
        assert(pow10(k) == 10 * pow10((k - 1) as nat));
        assert(n / 10 < pow10((k - 1) as nat));
        lemma_decimal_chars_len(n / 10, (k - 1) as nat);
    }
}

fn push_padded_decimal(out: &mut String, n: u64, width: usize)
    requires
        n < pow10(width as nat),
        width >= 1,
    ensures
        final(out)@ == old(out)@ + padded_decimal(n as nat, width as nat),
{
    proof {
        lemma_decimal_chars_len(n as nat, width as nat);
    }
    let digits = decimal_string(n as u128);
    let length = chars_of(digits.as_str()).len();
    let mut pad: usize = 0;
    let ghost start = out@;
    while pad + length < width
        invariant
            length == decimal_chars(n as nat).len(),
            length <= width,
            pad + length <= width,
            out@ == start + Seq::new(pad as nat, |i: int| '0'),
        decreases width - pad,
    {
        push_char(out, '0');
        assert(out@ =~= start + Seq::new((pad + 1) as nat, |i: int| '0'));
        pad = pad + 1;
    }
    out.append(digits.as_str());
    assert(out@ =~= start + padded_decimal(n as nat, width as nat));
}

/// The UUID text of a deterministic receipt identity: a fixed prefix and a zero-padded offset.
pub open spec fn offset_uuid(prefix: Seq<char>, offset: nat) -> Seq<char> {
    prefix + padded_decimal(offset, 12)
}

fn offset_uuid_text(prefix: &str, offset: u64) -> (r: String)
    requires
        prefix@.len() == 24,
        forall|i: int| 0 <= i < 24 ==> #[trigger] prefix@[i] == (if i == 8 || i == 13 || i == 18 || i == 23 {
            '-'
        } else {
            prefix@[i]
        }) && (i == 8 || i == 13 || i == 18 || i == 23 || crate::protocol::value::is_lower_hex(prefix@[i])),
        offset < 1_000_000_000_000u64,
    ensures
        r@ == offset_uuid(prefix@, offset as nat),
        is_uuid_text(r@),
{
    assert(pow10(12) == 1_000_000_000_000nat) by {
        reveal_with_fuel(pow10, 13);
    }
    let mut r = owned(prefix);
    push_padded_decimal(&mut r, offset, 12);
    proof {
        lemma_decimal_chars_len(offset as nat, 12);
        lemma_decimal_chars_digits(offset as nat);
        let d = decimal_chars(offset as nat);
        let p = padded_decimal(offset as nat, 12);
        assert(p.len() == 12);
        assert forall|i: int| 0 <= i < 12 implies is_digit_char(#[trigger] p[i]) by {
            let z = (12 - d.len()) as int;
            if i >= z {
                assert(p[i] == d[i - z]);
            }
        }
        assert forall|i: int| 0 <= i < 36 implies (if crate::protocol::identity::is_uuid_hyphen_position(i) {
            #[trigger] r@[i] == '-'
        } else {
            crate::protocol::value::is_lower_hex(r@[i])
        }) by {
            if i >= 24 {
                assert(r@[i] == p[i - 24]);
                assert(is_digit_char(p[i - 24]));
            } else {
                assert(r@[i] == prefix@[i]);
            }
        }
    }
    r
}

/// The deterministic receipt fields for a status and identity offset.
pub open spec fn is_deterministic_receipt(r: DecisionReceipt, offset: nat) -> bool {
    &&& r.version == spec_protocol_version()
    &&& r.request_id@ == "20000000-0000-4000-8000-000000000021"@
    &&& refers_to_valid_base(r.observation)
    &&& r.intent_id@ == offset_uuid("40000000-0000-4000-8000-"@, offset)
    &&& r.correlation.engine_correlation_id matches Some(c) && c@ == offset_uuid(
        "50000000-0000-4000-8000-"@,
        offset,
    )
    &&& r.correlation.engine_causation_id matches Some(c) && c@ == offset_uuid(
        "60000000-0000-4000-8000-"@,
        offset,
    )
    &&& r.created_at@ == 1_712_400_001_000_000_707 + offset
    &&& r.updated_at@ == 1_712_400_002_000_000_808 + offset
    &&& receipt_fault(r) is None
}

fn receipt(status: DecisionStatus, error: Option<DecisionError>, offset: u64) -> (r: DecisionReceipt)
    requires
        offset < 1_000_000_000_000u64,
        status_requires_error(status) <==> error is Some,
        error matches Some(e) ==> spec_error_matches_status(status, e.code),
    ensures
        is_deterministic_receipt(r, offset as nat),
        r.status == status,
        r.error == error,
{
    proof {
        reveal_strlit("20000000-0000-4000-8000-000000000021");
        reveal_strlit("40000000-0000-4000-8000-");
        reveal_strlit("50000000-0000-4000-8000-");
        reveal_strlit("60000000-0000-4000-8000-");
    }
    let receipt = DecisionReceipt {
        version: protocol_version(),
        request_id: request_id("20000000-0000-4000-8000-000000000021"),
        observation: valid_reference(),
        intent_id: intent_id(offset_uuid_text("40000000-0000-4000-8000-", offset).as_str()),
        status,
        error,
        correlation: CorrelationRefs {
            engine_correlation_id: Some(
                correlation_id(offset_uuid_text("50000000-0000-4000-8000-", offset).as_str()),
            ),
            engine_causation_id: Some(
                correlation_id(offset_uuid_text("60000000-0000-4000-8000-", offset).as_str()),
            ),
        },
        created_at: TimestampNs::new(1_712_400_001_000_000_707 + offset),
        updated_at: TimestampNs::new(1_712_400_002_000_000_808 + offset),
    };
    match receipt.validate() {
        Ok(()) => {},
        Err(_) => unreached(),
    }
    receipt
}

/// Returns one fully populated accepted decision receipt.
pub fn accepted_receipt() -> (r: DecisionReceipt)
    ensures
        is_deterministic_receipt(r, 41),
        r.status == DecisionStatus::Accepted,
        r.error is None,
{
    receipt(DecisionStatus::Accepted, None, 41)
}

/// The deterministic rejection: a rejected receipt whose error says the fresh position state no
/// longer permits the proposal, without a retry hint.
pub open spec fn is_deterministic_rejection(r: DecisionReceipt) -> bool {
    &&& is_deterministic_receipt(r, 42)
    &&& r.status == DecisionStatus::Rejected
    &&& match r.error {
        Some(e) => e.code == ErrorCode::Rejected && e.message@
            == "fresh position state no longer permits the proposal"@ && !e.retryable,
        None => false,
    }
}

/// Returns one fully populated decision-path rejection response.
pub fn rejected_response() -> (r: ProposalResponse)
    ensures
        r matches ProposalResponse::Receipt(receipt) && is_deterministic_rejection(receipt),
{
    ProposalResponse::Receipt(
        receipt(
            DecisionStatus::Rejected,
            Some(
                DecisionError {
                    code: ErrorCode::Rejected,
                    message: owned("fresh position state no longer permits the proposal"),
                    retryable: false,
                },
            ),
            42,
        ),
    )
}

// ---------------------------------------------------------------------------------------------
// Redacted and expired observations
// ---------------------------------------------------------------------------------------------

proof fn lemma_withheld_positions_structure(o: Observation)
    requires
        is_base_frame(o),
        live_view(o.payload).positions@.len() == 0,
        live_view(o.payload).instruments@.len() == 1,
        is_base_instrument(live_view(o.payload).instruments@[0]),
    ensures
        structural_fault(o) is None,
{
    let v = live_view(o.payload).instruments@[0];
    assert(o.grant.observations.has_key(ObservationCapability::InstrumentSummary.key()));
    assert(o.grant.instruments.has_key(v.instrument_id.key()));
    assert(crate::protocol::observation::positions_fault(o, 0) is None);
    assert(crate::protocol::observation::instruments_fault(o, 0) is None);
    assert(crate::protocol::observation::instrument_entry_fault(o, 0) is None);
    assert(crate::protocol::observation::instruments_fault(o, 1) is None);
}

/// Returns one valid observation with explicit redaction metadata: its positions are withheld
/// and it may not be recorded in full.
pub fn redacted_observation() -> (r: Observation)
    ensures
        is_valid(r),
        r.digest@ == content_digest_text(r),
        r.id@ == "10000000-0000-4000-8000-000000000012"@,
        is_base_frame(r),
        is_base_provenance(r.provenance@),
        live_view(r.payload).positions@.len() == 0,
        live_view(r.payload).instruments@.len() == 1,
        is_base_instrument(live_view(r.payload).instruments@[0]),
        r.omissions@.len() == 1,
        r.omissions@[0].field@ == "/payload/live/positions"@,
        r.omissions@[0].reason == OmissionReason::Redacted,
        r.retention == RetentionClass::Restricted,
{
    proof {
        reveal_strlit("10000000-0000-4000-8000-000000000012");
        reveal_strlit("/payload/live/positions");
        lemma_plain_pointer("/payload/live/positions"@);
    }
    let mut observation = valid_observation();
    let ghost base = observation;
    observation.id = observation_id("10000000-0000-4000-8000-000000000012");
    let ObservationPayload::Live(live) = observation.payload;
    let mut live = live;
    live.positions = Vec::new();
    observation.payload = ObservationPayload::Live(live);
    observation.omissions = vec![
        FieldOmission {
            field: field_path("/payload/live/positions"),
            reason: OmissionReason::Redacted,
        },
    ];
    observation.retention = RetentionClass::Restricted;
    let ghost draft = observation;
    proof {
        lemma_withheld_positions_structure(draft);
    }
    match observation.refresh_digest() {
        Ok(()) => {},
        Err(_) => unreached(),
    }
    proof {
        lemma_refreshed_digest_checks(draft, observation);
        reveal(is_valid);
    }
    observation
}

/// Returns one structurally valid observation that is expired at any evaluation time after its
/// expiry: the deterministic observation under another identity, with its digest refreshed.
pub fn expired_observation() -> (r: Observation)
    ensures
        is_valid(r),
        r.digest@ == content_digest_text(r),
        r.id@ == "10000000-0000-4000-8000-000000000013"@,
        is_base_body(r),
        r.expires_at@ == 1_712_400_030_000_000_202u64,
{
    proof {
        reveal_strlit("10000000-0000-4000-8000-000000000013");
    }
    let mut observation = valid_observation();
    let ghost base = observation;
    observation.id = observation_id("10000000-0000-4000-8000-000000000013");
    let ghost draft = observation;
    match observation.refresh_digest() {
        Ok(()) => {},
        Err(_) => unreached(),
    }
    proof {
        lemma_base_structure(draft);
        lemma_refreshed_digest_checks(draft, observation);
        reveal(is_valid);
    }
    observation
}

} // verus!
