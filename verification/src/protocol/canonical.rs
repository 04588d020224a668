//! RFC 8785 (JSON Canonicalization Scheme) encoding of observation content and SHA-256
//! content digests.
//!
//! Objects list their members in ascending order of member name (every name here is ASCII, so
//! this is the UTF-16 code unit order RFC 8785 asks for); strings escape `"`, `\` and the
//! control bytes below 0x20 and copy every other UTF-8 byte; integers are written in decimal.
use vstd::prelude::*;
use vstd::utf8::{encode_utf8, is_ascii_chars, is_ascii_chars_encode_utf8};

use crate::protocol::capability::{CapabilityGrant, ObservationCapability, ProposalCapability};
use crate::protocol::live::{InstrumentView, LiveObservation, PositionSide, PositionView};
use crate::protocol::observation::{
    live_view, FieldOmission, Observation, OmissionReason, ProvenanceSource, RetentionClass,
    SourceProvenance,
};
use crate::protocol::value::{digest_text, ContentDigest, InstrumentId, TimestampNs};
use crate::protocol::version::ProtocolVersion;
use crate::text::{decimal_bytes, push_decimal_bytes};

verus! {

broadcast use vstd::seq::group_seq_axioms;

// ---------------------------------------------------------------------------------------------
// JSON text
// ---------------------------------------------------------------------------------------------

/// The ASCII byte of a lowercase hexadecimal digit.
pub open spec fn hex_byte(d: nat) -> u8 {
    if d < 10 {
        (d + 48) as u8
    } else {
        (d + 87) as u8
    }
}

/// The JSON string escape of one UTF-8 byte.
pub open spec fn escape_byte(b: u8) -> Seq<u8> {
    if b == 34 {
        seq![92u8, 34u8]
    } else if b == 92 {
        seq![92u8, 92u8]
    } else if b == 8 {
        seq![92u8, 98u8]
    } else if b == 9 {
        seq![92u8, 116u8]
    } else if b == 10 {
        seq![92u8, 110u8]
    } else if b == 12 {
        seq![92u8, 102u8]
    } else if b == 13 {
        seq![92u8, 114u8]
    } else if b < 32 {
        seq![92u8, 117u8, 48u8, 48u8, hex_byte((b / 16) as nat), hex_byte((b % 16) as nat)]
    } else {
        seq![b]
    }
}

/// The JSON string escape of a UTF-8 byte sequence.
pub open spec fn escape_bytes(s: Seq<u8>) -> Seq<u8>
    decreases s.len(),
{
    if s.len() == 0 {
        Seq::empty()
    } else {
        escape_bytes(s.drop_last()) + escape_byte(s.last())
    }
}

/// A JSON string.
pub open spec fn json_string(text: Seq<char>) -> Seq<u8> {
    seq![34u8] + escape_bytes(encode_utf8(text)) + seq![34u8]
}

/// A JSON integer.
pub open spec fn json_number(n: nat) -> Seq<u8> {
    decimal_bytes(n)
}

/// A timestamp, written as a JSON string of its decimal nanoseconds.
pub open spec fn json_timestamp(n: nat) -> Seq<u8> {
    seq![34u8] + decimal_bytes(n) + seq![34u8]
}

/// The JSON `null` literal.
pub open spec fn json_null() -> Seq<u8> {
    seq![110u8, 117u8, 108u8, 108u8]
}

/// One object member: a name, a colon and a value.
pub open spec fn json_member(name: Seq<char>, value: Seq<u8>) -> Seq<u8> {
    json_string(name) + seq![58u8] + value
}

/// Items separated by commas.
pub open spec fn json_join(items: Seq<Seq<u8>>) -> Seq<u8>
    decreases items.len(),
{
    if items.len() == 0 {
        Seq::empty()
    } else if items.len() == 1 {
        items[0]
    } else {
        json_join(items.drop_last()) + seq![44u8] + items.last()
    }
}

/// A JSON array of encoded items.
pub open spec fn json_array(items: Seq<Seq<u8>>) -> Seq<u8> {
    seq![91u8] + json_join(items) + seq![93u8]
}

/// A JSON object of encoded members.
pub open spec fn json_object(members: Seq<Seq<u8>>) -> Seq<u8> {
    seq![123u8] + json_join(members) + seq![125u8]
}

/// The byte views of a vector of byte vectors.
pub open spec fn byte_views(items: Seq<Vec<u8>>) -> Seq<Seq<u8>> {
    items.map_values(|item: Vec<u8>| item@)
}

fn push_hex_byte(out: &mut Vec<u8>, d: u8)
    requires
        d < 16,
    ensures
        final(out)@ == old(out)@.push(hex_byte(d as nat)),
{
    if d < 10 {
        out.push(d + 48);
    } else {
        out.push(d + 87);
    }
}

fn push_escaped_byte(out: &mut Vec<u8>, b: u8)
    ensures
        final(out)@ == old(out)@ + escape_byte(b),
{
    if b == 34 {
        out.push(92);
        out.push(34);
    } else if b == 92 {
        out.push(92);
        out.push(92);
    } else if b == 8 {
        out.push(92);
        out.push(98);
    } else if b == 9 {
        out.push(92);
        out.push(116);
    } else if b == 10 {
        out.push(92);
        out.push(110);
    } else if b == 12 {
        out.push(92);
        out.push(102);
    } else if b == 13 {
        out.push(92);
        out.push(114);
    } else if b < 32 {
        out.push(92);
        out.push(117);
        out.push(48);
        out.push(48);
        push_hex_byte(out, b / 16);
        push_hex_byte(out, b % 16);
    } else {
        out.push(b);
    }
    assert(out@ =~= old(out)@ + escape_byte(b));
}

/// Encodes a JSON string.
pub fn json_string_bytes(text: &str) -> (r: Vec<u8>)
    ensures
        r@ == json_string(text@),
{
    let bytes = text.as_bytes();
    let mut out: Vec<u8> = Vec::new();
    out.push(34);
    let mut i: usize = 0;
    proof {
        assert(bytes@.take(0) =~= Seq::<u8>::empty());
    }
    while i < bytes.len()
        invariant
            bytes@ == encode_utf8(text@),
            i <= bytes@.len(),
            out@ == seq![34u8] + escape_bytes(bytes@.take(i as int)),
        decreases bytes@.len() - i,
    {
        push_escaped_byte(&mut out, bytes[i]);
        proof {
            assert(bytes@.take(i + 1).drop_last() =~= bytes@.take(i as int));
            assert(out@ =~= seq![34u8] + escape_bytes(bytes@.take(i + 1)));
        }
        i = i + 1;
    }
    out.push(34);
    proof {
        assert(bytes@.take(bytes@.len() as int) =~= bytes@);
        assert(out@ =~= json_string(text@));
    }
    out
}

/// Encodes a JSON integer.
pub fn json_number_bytes(n: u64) -> (r: Vec<u8>)
    ensures
        r@ == json_number(n as nat),
{
    let mut out: Vec<u8> = Vec::new();
    push_decimal_bytes(&mut out, n as u128);
    assert(out@ =~= json_number(n as nat));
    out
}

/// Encodes a timestamp as a JSON string of decimal nanoseconds.
pub fn json_timestamp_bytes(t: TimestampNs) -> (r: Vec<u8>)
    ensures
        r@ == json_timestamp(t@ as nat),
{
    let mut out: Vec<u8> = Vec::new();
    out.push(34);
    push_decimal_bytes(&mut out, t.as_u64() as u128);
    out.push(34);
    assert(out@ =~= json_timestamp(t@ as nat));
    out
}

/// Encodes the JSON `null` literal.
pub fn json_null_bytes() -> (r: Vec<u8>)
    ensures
        r@ == json_null(),
{
    let mut out: Vec<u8> = Vec::new();
    out.push(110);
    out.push(117);
    out.push(108);
    out.push(108);
    assert(out@ =~= json_null());
    out
}

/// Encodes one object member.
pub fn json_member_bytes(name: &str, value: Vec<u8>) -> (r: Vec<u8>)
    ensures
        r@ == json_member(name@, value@),
{
    let mut out = json_string_bytes(name);
    out.push(58);
    let mut i: usize = 0;
    let ghost start = out@;
    while i < value.len()
        invariant
            i <= value@.len(),
            out@ == start + value@.take(i as int),
        decreases value@.len() - i,
    {
        out.push(value[i]);
        assert(out@ =~= start + value@.take(i + 1));
        i = i + 1;
    }
    assert(value@.take(value@.len() as int) =~= value@);
    assert(out@ =~= json_member(name@, value@));
    out
}

/// Encodes items between `open` and `close`, separated by commas.
fn json_sequence_bytes(items: &Vec<Vec<u8>>, open: u8, close: u8) -> (r: Vec<u8>)
    ensures
        r@ == seq![open] + json_join(byte_views(items@)) + seq![close],
{
    let mut out: Vec<u8> = Vec::new();
    out.push(open);
    let mut k: usize = 0;
    proof {
        assert(byte_views(items@).take(0) =~= Seq::<Seq<u8>>::empty());
    }
    while k < items.len()
        invariant
            k <= items@.len(),
            out@ == seq![open] + json_join(byte_views(items@).take(k as int)),
        decreases items@.len() - k,
    {
        let ghost before = out@;
        if k > 0 {
            out.push(44);
        }
        let item = &items[k];
        let mut i: usize = 0;
        let ghost start = out@;
        while i < item.len()
            invariant
                i <= item@.len(),
                out@ == start + item@.take(i as int),
            decreases item@.len() - i,
        {
            out.push(item[i]);
            assert(out@ =~= start + item@.take(i + 1));
            i = i + 1;
        }
        proof {
            assert(item@.take(item@.len() as int) =~= item@);
            let views = byte_views(items@);
            assert(views.take(k + 1).drop_last() =~= views.take(k as int));
            assert(views.take(k + 1).last() == item@);
            if k == 0 {
                assert(out@ =~= seq![open] + json_join(views.take(k + 1)));
            } else {
                assert(out@ =~= seq![open] + json_join(views.take(k + 1)));
            }
        }
        k = k + 1;
    }
    out.push(close);
    proof {
        assert(byte_views(items@).take(items@.len() as int) =~= byte_views(items@));
        assert(out@ =~= seq![open] + json_join(byte_views(items@)) + seq![close]);
    }
    out
}

/// Encodes a JSON array of encoded items.
pub fn json_array_bytes(items: &Vec<Vec<u8>>) -> (r: Vec<u8>)
    ensures
        r@ == json_array(byte_views(items@)),
{
    json_sequence_bytes(items, 91, 93)
}

/// Encodes a JSON object of encoded members.
pub fn json_object_bytes(members: &Vec<Vec<u8>>) -> (r: Vec<u8>)
    ensures
        r@ == json_object(byte_views(members@)),
{
    json_sequence_bytes(members, 123, 125)
}

// ---------------------------------------------------------------------------------------------
// Observation content
// ---------------------------------------------------------------------------------------------

pub open spec fn instrument_ids_json(s: Seq<InstrumentId>) -> Seq<Seq<u8>> {
    s.map_values(|x: InstrumentId| json_string(x@))
}

pub open spec fn observation_capabilities_json(s: Seq<ObservationCapability>) -> Seq<Seq<u8>> {
    s.map_values(|c: ObservationCapability| observation_capability_json(c))
}

pub open spec fn proposal_capabilities_json(s: Seq<ProposalCapability>) -> Seq<Seq<u8>> {
    s.map_values(|c: ProposalCapability| proposal_capability_json(c))
}

pub open spec fn instrument_views_json(s: Seq<InstrumentView>) -> Seq<Seq<u8>> {
    s.map_values(|x: InstrumentView| instrument_json(x))
}

pub open spec fn position_views_json(s: Seq<PositionView>) -> Seq<Seq<u8>> {
    s.map_values(|x: PositionView| position_json(x))
}

pub open spec fn omissions_json(s: Seq<FieldOmission>) -> Seq<Seq<u8>> {
    s.map_values(|x: FieldOmission| omission_json(x))
}

pub open spec fn provenances_json(s: Seq<SourceProvenance>) -> Seq<Seq<u8>> {
    s.map_values(|x: SourceProvenance| provenance_json(x))
}

/// `{"major":..,"minor":..}`
pub open spec fn version_json(v: ProtocolVersion) -> Seq<u8> {
    json_object(
        seq![
            json_member("major"@, json_number(v.major as nat)),
            json_member("minor"@, json_number(v.minor as nat)),
        ],
    )
}

pub open spec fn observation_capability_json(c: ObservationCapability) -> Seq<u8> {
    match c {
        ObservationCapability::PositionSummary => json_string("position_summary"@),
        ObservationCapability::InstrumentSummary => json_string("instrument_summary"@),
    }
}

pub open spec fn proposal_capability_json(c: ProposalCapability) -> Seq<u8> {
    match c {
        ProposalCapability::ReducePosition => json_string("reduce_position"@),
    }
}

pub open spec fn provenance_source_json(s: ProvenanceSource) -> Seq<u8> {
    match s {
        ProvenanceSource::PositionState => json_string("position_state"@),
        ProvenanceSource::InstrumentDefinition => json_string("instrument_definition"@),
    }
}

pub open spec fn omission_reason_json(r: OmissionReason) -> Seq<u8> {
    match r {
        OmissionReason::NotGranted => json_string("not_granted"@),
        OmissionReason::Unavailable => json_string("unavailable"@),
        OmissionReason::Redacted => json_string("redacted"@),
        OmissionReason::Unsupported => json_string("unsupported"@),
    }
}

pub open spec fn retention_json(r: RetentionClass) -> Seq<u8> {
    match r {
        RetentionClass::ReferenceOnly => json_string("reference_only"@),
        RetentionClass::Derived => json_string("derived"@),
        RetentionClass::Restricted => json_string("restricted"@),
    }
}

pub open spec fn position_side_json(s: PositionSide) -> Seq<u8> {
    match s {
        PositionSide::Long => json_string("long"@),
        PositionSide::Short => json_string("short"@),
    }
}

/// A character that a JSON string carries unescaped, as its one ASCII byte.
pub open spec fn plain_json_char(c: char) -> bool {
    ' ' <= c <= '~' && c != '"' && c != '\\'
}

/// Bytes at or above 0x20, other than `"` and `\`, are copied into a JSON string unchanged.
pub proof fn lemma_escape_plain_bytes(s: Seq<u8>)
    requires
        forall|i: int| 0 <= i < s.len() ==> 32 <= #[trigger] s[i] && s[i] != 34 && s[i] != 92,
    ensures
        escape_bytes(s) == s,
    decreases s.len(),
{
    if s.len() > 0 {
        lemma_escape_plain_bytes(s.drop_last());
        assert(s.drop_last() + seq![s.last()] =~= s);
    }
}

/// A text of plain printable ASCII characters is written as a JSON string byte for byte,
/// between two quotation marks.
pub proof fn lemma_json_string_plain(t: Seq<char>)
    requires
        forall|i: int| 0 <= i < t.len() ==> plain_json_char(#[trigger] t[i]),
    ensures
        json_string(t) == seq![34u8] + t.map_values(|c: char| c as u8) + seq![34u8],
{
    assert(is_ascii_chars(t));
    is_ascii_chars_encode_utf8(t);
    let e = encode_utf8(t);
    assert(e =~= t.map_values(|c: char| c as u8));
    assert forall|i: int| 0 <= i < e.len() implies 32 <= #[trigger] e[i] && e[i] != 34 && e[i]
        != 92 by {
        assert(plain_json_char(t[i]));
        assert(e[i] == t[i] as u8);
    }
    lemma_escape_plain_bytes(e);
}

/// A position's side is written as the JSON string of its snake_case name, `"long"` or
/// `"short"`, so two sides never share an encoding.
pub proof fn lemma_position_side_json(s: PositionSide, t: PositionSide)
    ensures
        position_side_json(PositionSide::Long) == seq![34u8, 108u8, 111u8, 110u8, 103u8, 34u8],
        position_side_json(PositionSide::Short) == seq![
            34u8,
            115u8,
            104u8,
            111u8,
            114u8,
            116u8,
            34u8,
        ],
        position_side_json(s) == position_side_json(t) ==> s == t,
{
    reveal_strlit("long");
    reveal_strlit("short");
    let long = "long"@;
    let short = "short"@;
    assert forall|i: int| 0 <= i < long.len() implies plain_json_char(#[trigger] long[i]) by {}
    assert forall|i: int| 0 <= i < short.len() implies plain_json_char(#[trigger] short[i]) by {}
    lemma_json_string_plain(long);
    lemma_json_string_plain(short);
    assert(json_string(long) =~= seq![34u8, 108u8, 111u8, 110u8, 103u8, 34u8]);
    assert(json_string(short) =~= seq![34u8, 115u8, 104u8, 111u8, 114u8, 116u8, 34u8]);
}

/// `{"expires_at":..,"instruments":[..],"observations":[..],"proposals":[..]}`
pub open spec fn grant_json(g: CapabilityGrant) -> Seq<u8> {
    json_object(
        seq![
            json_member("expires_at"@, json_timestamp(g.expires_at@ as nat)),
            json_member(
                "instruments"@,
                json_array(instrument_ids_json(g.instruments.elements())),
            ),
            json_member(
                "observations"@,
                json_array(observation_capabilities_json(g.observations.elements())),
            ),
            json_member(
                "proposals"@,
                json_array(proposal_capabilities_json(g.proposals.elements())),
            ),
        ],
    )
}

/// `{"field":..,"observed_at":..,"source":..,"version":..}`
pub open spec fn provenance_json(p: SourceProvenance) -> Seq<u8> {
    json_object(
        seq![
            json_member("field"@, json_string(p.field@)),
            json_member("observed_at"@, json_timestamp(p.observed_at@ as nat)),
            json_member("source"@, provenance_source_json(p.source)),
            json_member(
                "version"@,
                match p.version {
                    Some(v) => json_string(v@),
                    None => json_null(),
                },
            ),
        ],
    )
}

/// `{"field":..,"reason":..}`
pub open spec fn omission_json(o: FieldOmission) -> Seq<u8> {
    json_object(
        seq![
            json_member("field"@, json_string(o.field@)),
            json_member("reason"@, omission_reason_json(o.reason)),
        ],
    )
}

/// `{"instrument_id":..,"position_id":..,"quantity":..,"side":..,"updated_at":..}`
pub open spec fn position_json(p: PositionView) -> Seq<u8> {
    json_object(
        seq![
            json_member("instrument_id"@, json_string(p.instrument_id@)),
            json_member("position_id"@, json_string(p.position_id@)),
            json_member("quantity"@, json_string(p.quantity@)),
            json_member("side"@, position_side_json(p.side)),
            json_member("updated_at"@, json_timestamp(p.updated_at@ as nat)),
        ],
    )
}

/// `{"instrument_id":..,"quantity_increment":..}`
pub open spec fn instrument_json(i: InstrumentView) -> Seq<u8> {
    json_object(
        seq![
            json_member("instrument_id"@, json_string(i.instrument_id@)),
            json_member("quantity_increment"@, json_string(i.quantity_increment@)),
        ],
    )
}

/// `{"live":{"instruments":[..],"positions":[..]}}`
pub open spec fn payload_json(live: LiveObservation) -> Seq<u8> {
    json_object(
        seq![
            json_member(
                "live"@,
                json_object(
                    seq![
                        json_member(
                            "instruments"@,
                            json_array(instrument_views_json(live.instruments@)),
                        ),
                        json_member(
                            "positions"@,
                            json_array(position_views_json(live.positions@)),
                        ),
                    ],
                ),
            ),
        ],
    )
}

/// The canonical JSON of every observation field except the digest itself.
pub open spec fn observation_content_json(o: Observation) -> Seq<u8> {
    json_object(
        seq![
            json_member("created_at"@, json_timestamp(o.created_at@ as nat)),
            json_member("expires_at"@, json_timestamp(o.expires_at@ as nat)),
            json_member("grant"@, grant_json(o.grant)),
            json_member("id"@, json_string(o.id@)),
            json_member(
                "omissions"@,
                json_array(omissions_json(o.omissions@)),
            ),
            json_member("payload"@, payload_json(live_view(o.payload))),
            json_member(
                "provenance"@,
                json_array(provenances_json(o.provenance@)),
            ),
            json_member("retention"@, retention_json(o.retention)),
            json_member("version"@, version_json(o.version)),
        ],
    )
}

// ---------------------------------------------------------------------------------------------
// Observation content encoders
// ---------------------------------------------------------------------------------------------

fn version_json_bytes(v: ProtocolVersion) -> (r: Vec<u8>)
    ensures
        r@ == version_json(v),
{
    let mut members: Vec<Vec<u8>> = Vec::new();
    members.push(json_member_bytes("major", json_number_bytes(v.major as u64)));
    members.push(json_member_bytes("minor", json_number_bytes(v.minor as u64)));
    let r = json_object_bytes(&members);
    assert(byte_views(members@) =~= seq![
        json_member("major"@, json_number(v.major as nat)),
        json_member("minor"@, json_number(v.minor as nat)),
    ]);
    r
}

fn observation_capability_json_bytes(c: ObservationCapability) -> (r: Vec<u8>)
    ensures
        r@ == observation_capability_json(c),
{
    match c {
        ObservationCapability::PositionSummary => json_string_bytes("position_summary"),
        ObservationCapability::InstrumentSummary => json_string_bytes("instrument_summary"),
    }
}

fn proposal_capability_json_bytes(c: ProposalCapability) -> (r: Vec<u8>)
    ensures
        r@ == proposal_capability_json(c),
{
    match c {
        ProposalCapability::ReducePosition => json_string_bytes("reduce_position"),
    }
}

fn provenance_source_json_bytes(s: ProvenanceSource) -> (r: Vec<u8>)
    ensures
        r@ == provenance_source_json(s),
{
    match s {
        ProvenanceSource::PositionState => json_string_bytes("position_state"),
        ProvenanceSource::InstrumentDefinition => json_string_bytes("instrument_definition"),
    }
}

fn omission_reason_json_bytes(r: OmissionReason) -> (out: Vec<u8>)
    ensures
        out@ == omission_reason_json(r),
{
    match r {
        OmissionReason::NotGranted => json_string_bytes("not_granted"),
        OmissionReason::Unavailable => json_string_bytes("unavailable"),
        OmissionReason::Redacted => json_string_bytes("redacted"),
        OmissionReason::Unsupported => json_string_bytes("unsupported"),
    }
}

fn retention_json_bytes(r: RetentionClass) -> (out: Vec<u8>)
    ensures
        out@ == retention_json(r),
{
    match r {
        RetentionClass::ReferenceOnly => json_string_bytes("reference_only"),
        RetentionClass::Derived => json_string_bytes("derived"),
        RetentionClass::Restricted => json_string_bytes("restricted"),
    }
}

fn position_side_json_bytes(s: PositionSide) -> (r: Vec<u8>)
    ensures
        r@ == position_side_json(s),
{
    match s {
        PositionSide::Long => json_string_bytes("long"),
        PositionSide::Short => json_string_bytes("short"),
    }
}

fn grant_json_bytes(g: &CapabilityGrant) -> (r: Vec<u8>)
    ensures
        r@ == grant_json(*g),
{
    let mut instruments: Vec<Vec<u8>> = Vec::new();
    let mut i: usize = 0;
    let ghost ins = g.instruments.elements();
    while i < g.instruments.len()
        invariant
            ins == g.instruments.elements(),
            i <= ins.len(),
            instruments@.len() == i,
            forall|k: int| 0 <= k < i ==> #[trigger] instruments@[k]@ == json_string(ins[k]@),
        decreases ins.len() - i,
    {
        let item = json_string_bytes(g.instruments.get(i).as_str());
        instruments.push(item);
        
        i = i + 1;
    }
    assert(byte_views(instruments@) =~= instrument_ids_json(ins));
    let mut observations: Vec<Vec<u8>> = Vec::new();
    let mut i: usize = 0;
    let ghost obs = g.observations.elements();
    while i < g.observations.len()
        invariant
            obs == g.observations.elements(),
            i <= obs.len(),
            observations@.len() == i,
            forall|k: int| 0 <= k < i ==> #[trigger] observations@[k]@ == observation_capability_json(obs[k]),
        decreases obs.len() - i,
    {
        let item = observation_capability_json_bytes(*g.observations.get(i));
        observations.push(item);
        
        i = i + 1;
    }
    assert(byte_views(observations@) =~= observation_capabilities_json(obs));
    let mut proposals: Vec<Vec<u8>> = Vec::new();
    let mut i: usize = 0;
    let ghost pro = g.proposals.elements();
    while i < g.proposals.len()
        invariant
            pro == g.proposals.elements(),
            i <= pro.len(),
            proposals@.len() == i,
            forall|k: int| 0 <= k < i ==> #[trigger] proposals@[k]@ == proposal_capability_json(pro[k]),
        decreases pro.len() - i,
    {
        let item = proposal_capability_json_bytes(*g.proposals.get(i));
        proposals.push(item);
        
        i = i + 1;
    }
    assert(byte_views(proposals@) =~= proposal_capabilities_json(pro));
    let mut members: Vec<Vec<u8>> = Vec::new();
    members.push(json_member_bytes("expires_at", json_timestamp_bytes(g.expires_at)));
    members.push(json_member_bytes("instruments", json_array_bytes(&instruments)));
    members.push(json_member_bytes("observations", json_array_bytes(&observations)));
    members.push(json_member_bytes("proposals", json_array_bytes(&proposals)));
    let r = json_object_bytes(&members);
    assert(byte_views(members@) =~= seq![
        json_member("expires_at"@, json_timestamp(g.expires_at@ as nat)),
        json_member("instruments"@, json_array(instrument_ids_json(ins))),
        json_member("observations"@, json_array(observation_capabilities_json(obs))),
        json_member("proposals"@, json_array(proposal_capabilities_json(pro))),
    ]);
    r
}

fn provenance_json_bytes(p: &SourceProvenance) -> (r: Vec<u8>)
    ensures
        r@ == provenance_json(*p),
{
    let version = match &p.version {
        Some(v) => json_string_bytes(v.as_str()),
        None => json_null_bytes(),
    };
    let mut members: Vec<Vec<u8>> = Vec::new();
    members.push(json_member_bytes("field", json_string_bytes(p.field.as_str())));
    members.push(json_member_bytes("observed_at", json_timestamp_bytes(p.observed_at)));
    members.push(json_member_bytes("source", provenance_source_json_bytes(p.source)));
    members.push(json_member_bytes("version", version));
    let r = json_object_bytes(&members);
    assert(byte_views(members@) =~= seq![
        json_member("field"@, json_string(p.field@)),
        json_member("observed_at"@, json_timestamp(p.observed_at@ as nat)),
        json_member("source"@, provenance_source_json(p.source)),
        json_member("version"@, match p.version {
            Some(v) => json_string(v@),
            None => json_null(),
        }),
    ]);
    r
}

fn omission_json_bytes(o: &FieldOmission) -> (r: Vec<u8>)
    ensures
        r@ == omission_json(*o),
{
    let mut members: Vec<Vec<u8>> = Vec::new();
    members.push(json_member_bytes("field", json_string_bytes(o.field.as_str())));
    members.push(json_member_bytes("reason", omission_reason_json_bytes(o.reason)));
    let r = json_object_bytes(&members);
    assert(byte_views(members@) =~= seq![
        json_member("field"@, json_string(o.field@)),
        json_member("reason"@, omission_reason_json(o.reason)),
    ]);
    r
}

fn position_json_bytes(p: &PositionView) -> (r: Vec<u8>)
    ensures
        r@ == position_json(*p),
{
    let mut members: Vec<Vec<u8>> = Vec::new();
    members.push(json_member_bytes("instrument_id", json_string_bytes(p.instrument_id.as_str())));
    members.push(json_member_bytes("position_id", json_string_bytes(p.position_id.as_str())));
    members.push(json_member_bytes("quantity", json_string_bytes(p.quantity.as_str())));
    members.push(json_member_bytes("side", position_side_json_bytes(p.side)));
    members.push(json_member_bytes("updated_at", json_timestamp_bytes(p.updated_at)));
    let r = json_object_bytes(&members);
    assert(byte_views(members@) =~= seq![
        json_member("instrument_id"@, json_string(p.instrument_id@)),
        json_member("position_id"@, json_string(p.position_id@)),
        json_member("quantity"@, json_string(p.quantity@)),
        json_member("side"@, position_side_json(p.side)),
        json_member("updated_at"@, json_timestamp(p.updated_at@ as nat)),
    ]);
    r
}

fn instrument_json_bytes(i: &InstrumentView) -> (r: Vec<u8>)
    ensures
        r@ == instrument_json(*i),
{
    let mut members: Vec<Vec<u8>> = Vec::new();
    members.push(json_member_bytes("instrument_id", json_string_bytes(i.instrument_id.as_str())));
    members.push(
        json_member_bytes("quantity_increment", json_string_bytes(i.quantity_increment.as_str())),
    );
    let r = json_object_bytes(&members);
    assert(byte_views(members@) =~= seq![
        json_member("instrument_id"@, json_string(i.instrument_id@)),
        json_member("quantity_increment"@, json_string(i.quantity_increment@)),
    ]);
    r
}

fn payload_json_bytes(live: &LiveObservation) -> (r: Vec<u8>)
    ensures
        r@ == payload_json(*live),
{
    let mut instruments: Vec<Vec<u8>> = Vec::new();
    let mut i: usize = 0;
    while i < live.instruments.len()
        invariant
            i <= live.instruments@.len(),
            instruments@.len() == i,
            forall|k: int| 0 <= k < i ==> #[trigger] instruments@[k]@ == instrument_json(live.instruments@[k]),
        decreases live.instruments@.len() - i,
    {
        let item = instrument_json_bytes(&live.instruments[i]);
        instruments.push(item);
        
        i = i + 1;
    }
    assert(byte_views(instruments@) =~= instrument_views_json(live.instruments@));
    let mut positions: Vec<Vec<u8>> = Vec::new();
    let mut i: usize = 0;
    while i < live.positions.len()
        invariant
            i <= live.positions@.len(),
            positions@.len() == i,
            forall|k: int| 0 <= k < i ==> #[trigger] positions@[k]@ == position_json(live.positions@[k]),
        decreases live.positions@.len() - i,
    {
        let item = position_json_bytes(&live.positions[i]);
        positions.push(item);
        
        i = i + 1;
    }
    assert(byte_views(positions@) =~= position_views_json(live.positions@));
    let mut inner: Vec<Vec<u8>> = Vec::new();
    inner.push(json_member_bytes("instruments", json_array_bytes(&instruments)));
    inner.push(json_member_bytes("positions", json_array_bytes(&positions)));
    let live_object = json_object_bytes(&inner);
    let mut outer: Vec<Vec<u8>> = Vec::new();
    outer.push(json_member_bytes("live", live_object));
    let r = json_object_bytes(&outer);
    assert(byte_views(inner@) =~= seq![
        json_member("instruments"@, json_array(instrument_views_json(live.instruments@))),
        json_member("positions"@, json_array(position_views_json(live.positions@))),
    ]);
    assert(byte_views(outer@) =~= seq![json_member("live"@, json_object(byte_views(inner@)))]);
    r
}

/// Encodes every observation field except the digest as canonical JSON.
pub fn observation_content_bytes(o: &Observation) -> (r: Vec<u8>)
    ensures
        r@ == observation_content_json(*o),
{
    let mut omissions: Vec<Vec<u8>> = Vec::new();
    let mut i: usize = 0;
    while i < o.omissions.len()
        invariant
            i <= o.omissions@.len(),
            omissions@.len() == i,
            forall|k: int| 0 <= k < i ==> #[trigger] omissions@[k]@ == omission_json(o.omissions@[k]),
        decreases o.omissions@.len() - i,
    {
        let item = omission_json_bytes(&o.omissions[i]);
        omissions.push(item);
        
        i = i + 1;
    }
    assert(byte_views(omissions@) =~= omissions_json(o.omissions@));
    let mut provenance: Vec<Vec<u8>> = Vec::new();
    let mut i: usize = 0;
    while i < o.provenance.len()
        invariant
            i <= o.provenance@.len(),
            provenance@.len() == i,
            forall|k: int| 0 <= k < i ==> #[trigger] provenance@[k]@ == provenance_json(o.provenance@[k]),
        decreases o.provenance@.len() - i,
    {
        let item = provenance_json_bytes(&o.provenance[i]);
        provenance.push(item);
        
        i = i + 1;
    }
    assert(byte_views(provenance@) =~= provenances_json(o.provenance@));
    let payload = match &o.payload {
        crate::protocol::observation::ObservationPayload::Live(live) => payload_json_bytes(live),
    };
    let mut members: Vec<Vec<u8>> = Vec::new();
    members.push(json_member_bytes("created_at", json_timestamp_bytes(o.created_at)));
    members.push(json_member_bytes("expires_at", json_timestamp_bytes(o.expires_at)));
    members.push(json_member_bytes("grant", grant_json_bytes(&o.grant)));
    members.push(json_member_bytes("id", json_string_bytes(o.id.as_str())));
    members.push(json_member_bytes("omissions", json_array_bytes(&omissions)));
    members.push(json_member_bytes("payload", payload));
    members.push(json_member_bytes("provenance", json_array_bytes(&provenance)));
    members.push(json_member_bytes("retention", retention_json_bytes(o.retention)));
    members.push(json_member_bytes("version", version_json_bytes(o.version)));
    let r = json_object_bytes(&members);
    assert(byte_views(members@) =~= seq![
        json_member("created_at"@, json_timestamp(o.created_at@ as nat)),
        json_member("expires_at"@, json_timestamp(o.expires_at@ as nat)),
        json_member("grant"@, grant_json(o.grant)),
        json_member("id"@, json_string(o.id@)),
        json_member("omissions"@, json_array(omissions_json(o.omissions@))),
        json_member("payload"@, payload_json(live_view(o.payload))),
        json_member("provenance"@, json_array(provenances_json(o.provenance@))),
        json_member("retention"@, retention_json(o.retention)),
        json_member("version"@, version_json(o.version)),
    ]);
    r
}

// ---------------------------------------------------------------------------------------------
// SHA-256
// ---------------------------------------------------------------------------------------------

/// The SHA-256 digest of a byte sequence.
pub uninterp spec fn sha256_of(bytes: Seq<u8>) -> Seq<u8>;

/// Hashes bytes with the `sha2` crate (`Sha256::digest`); the 32 digest bytes are what
/// [`sha256_of`] names for the input.
#[verifier::external_body]
fn sha256_digest(bytes: &[u8]) -> (r: [u8; 32])
    ensures
        r@ == sha256_of(bytes@),
{
    <sha2::Sha256 as sha2::Digest>::digest(bytes).into()
}

/// Computes SHA-256 over bytes that are already canonical.
pub fn sha256_bytes(bytes: &[u8]) -> (r: ContentDigest)
    ensures
        r@ == digest_text(sha256_of(bytes@)),
{
    ContentDigest::new(sha256_digest(bytes))
}

} // verus!
