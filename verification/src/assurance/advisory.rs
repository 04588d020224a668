//! Advisory-only checks for semantic position-reduction proposals.
//!
//! A clear report is local evidence only. NautilusTrader revalidates every input and may reject a
//! proposal after every advisory check is clear.
use vstd::prelude::*;
use vstd::arithmetic::div_mod::{lemma_fundamental_div_mod, lemma_mod_multiples_basic};
use vstd::pervasive::unreached;

use crate::protocol::decimal::{lemma_pow10_positive, pow10};
use crate::protocol::live::{
    InstrumentView, LiveIntent, LiveObservation, LiveProposal, PositionView, ReducePosition,
};
use crate::protocol::observation::{
    content_digest_text, live_view, FieldOmission, Observation, ObservationPayload,
};
use crate::protocol::value::{
    common_scale, field_path_format, lemma_compare_at_scale, lemma_integer_quantity_units,
    lemma_plain_pointer, lemma_units_rescale, quantity_scale, quantity_units, units_at_scale,
    FieldPath, InstrumentId, PositionId, TimestampNs,
};
use crate::protocol::version::supported_version;
use crate::text::{chars_equal, chars_of, decimal_chars, owned};

verus! {

/// Runs local checks without granting production authority.
#[derive(Clone, Copy, Debug, Default)]
pub struct AdvisoryValidator;

/// Contains every local finding for one advisory evaluation.
#[derive(Clone, Debug, PartialEq, Eq)]
pub struct AdvisoryReport {
    /// The local findings in deterministic check order.
    pub findings: Vec<AdvisoryFinding>,
}

/// Describes one local advisory finding.
#[derive(Clone, Debug, PartialEq, Eq)]
pub struct AdvisoryFinding {
    /// The stable local finding code.
    pub code: AdvisoryCode,
    /// The local severity.
    pub severity: AdvisorySeverity,
    /// The public field associated with the finding when one exists.
    pub field: FieldPath,
    /// A human-readable local explanation.
    pub message: String,
}

/// Classifies local advisory finding severity.
#[derive(Clone, Copy, Debug, PartialEq, Eq, Hash, Structural)]
pub enum AdvisorySeverity {
    /// The proposal cannot be checked safely from the supplied public values.
    Error,
}

/// Enumerates stable local advisory finding categories.
#[derive(Clone, Copy, Debug, PartialEq, Eq, Hash, Structural)]
pub enum AdvisoryCode {
    /// The observation protocol version is unsupported.
    UnsupportedVersion,
    /// The observation has expired.
    ExpiredObservation,
    /// The observation digest does not match its content.
    DigestMismatch,
    /// A disclosed omission covers data needed by the proposal.
    RequiredFieldOmitted,
    /// The proposed position does not appear in the observation.
    PositionMissing,
    /// The proposed instrument does not appear in the observation.
    InstrumentMissing,
    /// The proposed instrument differs from the observed position instrument.
    PositionInstrumentMismatch,
    /// The reduction exceeds the observed open position quantity.
    QuantityExceedsPosition,
    /// The reduction does not align with the observed quantity increment.
    QuantityIncrementMismatch,
}

/// A finding as plain values: code, severity, field path text and message text.
pub type FindingView = (AdvisoryCode, AdvisorySeverity, Seq<char>, Seq<char>);

impl View for AdvisoryFinding {
    type V = FindingView;

    open spec fn view(&self) -> FindingView {
        (self.code, self.severity, self.field@, self.message@)
    }
}

/// The plain views of a sequence of findings, in order.
pub open spec fn finding_views(fs: Seq<AdvisoryFinding>) -> Seq<FindingView> {
    Seq::new(fs.len(), |i: int| fs[i]@)
}

impl View for AdvisoryReport {
    type V = Seq<FindingView>;

    open spec fn view(&self) -> Seq<FindingView> {
        finding_views(self.findings@)
    }
}

/// One error finding with its field and message.
pub open spec fn note(code: AdvisoryCode, field: Seq<char>, message: Seq<char>) -> FindingView {
    (code, AdvisorySeverity::Error, field, message)
}

// ---------------------------------------------------------------------------------------------
// Omissions that hide data the checks need
// ---------------------------------------------------------------------------------------------

/// The `/`-separated segments of a text, as `str::split('/')` yields them.
pub open spec fn split_slash(v: Seq<char>) -> Seq<Seq<char>>
    decreases v.len(),
{
    if v.len() == 0 {
        seq![Seq::<char>::empty()]
    } else {
        let init = split_slash(v.drop_last());
        if v.last() == '/' {
            init.push(Seq::<char>::empty())
        } else {
            init.update(init.len() - 1, init.last().push(v.last()))
        }
    }
}

/// Names a live payload collection.
pub open spec fn live_collection(s: Seq<char>) -> bool {
    s == "positions"@ || s == "instruments"@
}

/// Names an entry field of a live collection that a reduction check reads.
pub open spec fn required_entry_field(collection: Seq<char>, field: Seq<char>) -> bool {
    if collection == "positions"@ {
        field == "position_id"@ || field == "instrument_id"@ || field == "quantity"@
    } else {
        collection == "instruments"@ && (field == "instrument_id"@ || field
            == "quantity_increment"@)
    }
}

/// The segments after the leading `/` address the live payload, one of its collections, one
/// entry, or one entry field that a reduction check reads.
pub open spec fn required_segments(s: Seq<Seq<char>>) -> bool {
    &&& 1 <= s.len() <= 5
    &&& s[0] == "payload"@
    &&& s.len() >= 2 ==> s[1] == "live"@
    &&& s.len() >= 3 ==> live_collection(s[2])
    &&& s.len() == 5 ==> required_entry_field(s[2], s[4])
}

/// Whether an omitted path covers data needed to check a reduction.
pub open spec fn required_omission(path: Seq<char>) -> bool {
    required_segments(split_slash(path).skip(1))
}

/// The text views of collected segments.
pub open spec fn segment_views(v: Seq<Vec<char>>) -> Seq<Seq<char>> {
    Seq::new(v.len(), |i: int| v[i]@)
}

fn path_segments(v: &Vec<char>) -> (r: Vec<Vec<char>>)
    ensures
        segment_views(r@) == split_slash(v@),
        r@.len() >= 1,
{
    let mut done: Vec<Vec<char>> = Vec::new();
    let mut current: Vec<char> = Vec::new();
    let mut i: usize = 0;
    assert(v@.take(0) =~= Seq::<char>::empty());
    assert(segment_views(done@).push(current@) =~= split_slash(v@.take(0)));
    while i < v.len()
        invariant
            i <= v@.len(),
            segment_views(done@).push(current@) == split_slash(v@.take(i as int)),
        decreases v@.len() - i,
    {
        let c = v[i];
        let ghost before = segment_views(done@).push(current@);
        assert(v@.take(i + 1).drop_last() =~= v@.take(i as int));
        assert(v@.take(i + 1).last() == c);
        if c == '/' {
            let finished = current;
            current = Vec::new();
            done.push(finished);
            assert(segment_views(done@).push(current@) =~= before.push(Seq::<char>::empty()));
        } else {
            current.push(c);
            assert(segment_views(done@).push(current@) =~= before.update(
                before.len() - 1,
                before.last().push(c),
            ));
        }
        i = i + 1;
    }
    assert(v@.take(v@.len() as int) =~= v@);
    done.push(current);
    assert(segment_views(done@) =~= split_slash(v@));
    done
}

fn omission_is_required(path: &str) -> (r: bool)
    ensures
        r == required_omission(path@),
{
    let v = chars_of(path);
    let segments = path_segments(&v);
    let ghost s = split_slash(path@).skip(1);
    let n = segments.len();
    assert(s.len() == n - 1);
    if n < 2 || n > 6 {
        return false;
    }
    assert(s[0] == segments@[1]@);
    if !chars_equal(&segments[1], "payload") {
        return false;
    }
    if n >= 3 {
        assert(s[1] == segments@[2]@);
        if !chars_equal(&segments[2], "live") {
            return false;
        }
    }
    if n >= 4 {
        assert(s[2] == segments@[3]@);
        if !(chars_equal(&segments[3], "positions") || chars_equal(&segments[3], "instruments")) {
            return false;
        }
    }
    if n == 6 {
        assert(s[4] == segments@[5]@);
        let field = &segments[5];
        if chars_equal(&segments[3], "positions") {
            return chars_equal(field, "position_id") || chars_equal(field, "instrument_id")
                || chars_equal(field, "quantity");
        } else {
            return chars_equal(&segments[3], "instruments") && (chars_equal(field, "instrument_id")
                || chars_equal(field, "quantity_increment"));
        }
    }
    true
}

// ---------------------------------------------------------------------------------------------
// The findings of one evaluation
// ---------------------------------------------------------------------------------------------

/// Whether quantity text `a` is numerically greater than `b`.
pub open spec fn quantity_greater(a: Seq<char>, b: Seq<char>) -> bool {
    units_at_scale(a, common_scale(a, b)) > units_at_scale(b, common_scale(a, b))
}

/// Whether quantity text `a` is a whole multiple of `increment`.
pub open spec fn quantity_multiple(a: Seq<char>, increment: Seq<char>) -> bool {
    units_at_scale(a, common_scale(a, increment)) % units_at_scale(
        increment,
        common_scale(a, increment),
    ) == 0
}

/// A reduction exceeds a position only when it is strictly larger in value: `a` exceeds `b`
/// exactly when `units(a) / 10^scale(a) > units(b) / 10^scale(b)`, no quantity exceeds itself,
/// exceeding is never mutual, and on whole quantities `n` exceeds `m` exactly when `n > m`.
pub proof fn lemma_exceeds_is_strictly_greater(a: Seq<char>, b: Seq<char>, n: nat, m: nat)
    ensures
        quantity_greater(a, b) == (quantity_units(a) * pow10(quantity_scale(b)) > quantity_units(
            b,
        ) * pow10(quantity_scale(a))),
        !quantity_greater(a, a),
        !(quantity_greater(a, b) && quantity_greater(b, a)),
        quantity_greater(decimal_chars(n), decimal_chars(m)) == (n > m),
{
    assert(common_scale(a, b) == common_scale(b, a));
    let t = quantity_scale(a) + quantity_scale(b);
    lemma_compare_at_scale(a, b, t);
    assert((t - quantity_scale(a)) as nat == quantity_scale(b));
    assert((t - quantity_scale(b)) as nat == quantity_scale(a));
    assert(units_at_scale(a, t) == quantity_units(a) * pow10(quantity_scale(b)));
    assert(units_at_scale(b, t) == quantity_units(b) * pow10(quantity_scale(a)));
    lemma_integer_quantity_units(n);
    lemma_integer_quantity_units(m);
    let x = decimal_chars(n);
    let y = decimal_chars(m);
    assert(common_scale(x, y) == 0);
    assert(pow10(0) == 1);
    assert(units_at_scale(x, 0) == quantity_units(x) * pow10(0));
    assert(units_at_scale(y, 0) == quantity_units(y) * pow10(0));
    assert(quantity_units(x) * 1 == n);
    assert(quantity_units(y) * 1 == m);
}

/// With a nonzero increment, `a` is a whole multiple of `increment` exactly when
/// `units(a) * 10^scale(increment)` is divisible by `units(increment) * 10^scale(a)`: when the
/// value of `a` divided by the value of `increment` is a whole number.
pub proof fn lemma_multiple_is_whole_ratio(a: Seq<char>, increment: Seq<char>)
    requires
        quantity_units(increment) > 0,
    ensures
        quantity_multiple(a, increment) == ((quantity_units(a) * pow10(quantity_scale(increment)))
            % (quantity_units(increment) * pow10(quantity_scale(a))) == 0),
{
    let s = common_scale(a, increment);
    let t = quantity_scale(a) + quantity_scale(increment);
    lemma_units_rescale(a, s, t);
    lemma_units_rescale(increment, s, t);
    lemma_pow10_positive((t - s) as nat);
    lemma_pow10_positive((s - quantity_scale(increment)) as nat);
    let p = pow10((t - s) as nat);
    let x = units_at_scale(a, s);
    let y = units_at_scale(increment, s);
    let u = quantity_units(increment);
    let q = pow10((s - quantity_scale(increment)) as nat);
    assert(y == u * q);
    assert(u * q > 0) by (nonlinear_arith)
        requires
            u > 0,
            q > 0,
    ;
    lemma_divisible_scaled(x as int, y as int, p as int);
    assert((t - quantity_scale(a)) as nat == quantity_scale(increment));
    assert((t - quantity_scale(increment)) as nat == quantity_scale(a));
}

proof fn lemma_divisible_scaled(x: int, y: int, p: int)
    requires
        x >= 0,
        y > 0,
        p > 0,
    ensures
        (x % y == 0) == ((x * p) % (y * p) == 0),
{
    assert(y * p > 0) by (nonlinear_arith)
        requires
            y > 0,
            p > 0,
    ;
    if x % y == 0 {
        lemma_fundamental_div_mod(x, y);
        let q = x / y;
        assert(x * p == q * (y * p)) by (nonlinear_arith)
            requires
                x == y * q + 0,
        ;
        lemma_mod_multiples_basic(q, y * p);
    }
    if (x * p) % (y * p) == 0 {
        lemma_fundamental_div_mod(x * p, y * p);
        let q = (x * p) / (y * p);
        assert(x == q * y) by (nonlinear_arith)
            requires
                x * p == (y * p) * q + 0,
                p > 0,
        ;
        lemma_mod_multiples_basic(q, y);
    }
}

/// The first position view with the given position identity.
pub open spec fn first_position(ps: Seq<PositionView>, id: Seq<char>) -> Option<PositionView>
    decreases ps.len(),
{
    if ps.len() == 0 {
        None
    } else if ps[0].position_id@ == id {
        Some(ps[0])
    } else {
        first_position(ps.skip(1), id)
    }
}

/// The first instrument view with the given instrument identity.
pub open spec fn first_instrument(vs: Seq<InstrumentView>, id: Seq<char>) -> Option<
    InstrumentView,
>
    decreases vs.len(),
{
    if vs.len() == 0 {
        None
    } else if vs[0].instrument_id@ == id {
        Some(vs[0])
    } else {
        first_instrument(vs.skip(1), id)
    }
}

/// The reduction carried by a live proposal.
pub open spec fn proposed_reduction(p: LiveProposal) -> ReducePosition {
    match p.intent {
        LiveIntent::ReducePosition(r) => r,
    }
}

/// The version finding.
pub open spec fn version_notes(o: Observation) -> Seq<FindingView> {
    if supported_version(o.version) {
        seq![]
    } else {
        seq![
            note(
                AdvisoryCode::UnsupportedVersion,
                "/version"@,
                "the observation protocol version is unsupported"@,
            ),
        ]
    }
}

/// The expiry finding for an evaluation time.
pub open spec fn expiry_notes(o: Observation, now: TimestampNs) -> Seq<FindingView> {
    if now@ > o.expires_at@ {
        seq![note(AdvisoryCode::ExpiredObservation, "/expires_at"@, "the observation has expired"@)]
    } else {
        seq![]
    }
}

/// The digest finding.
pub open spec fn digest_notes(o: Observation) -> Seq<FindingView> {
    if content_digest_text(o) == o.digest@ {
        seq![]
    } else {
        seq![
            note(
                AdvisoryCode::DigestMismatch,
                "/digest"@,
                "the observation digest does not match its content"@,
            ),
        ]
    }
}

/// One finding per omission, in order, that covers data a reduction check reads.
pub open spec fn omission_notes(oms: Seq<FieldOmission>) -> Seq<FindingView>
    decreases oms.len(),
{
    if oms.len() == 0 {
        seq![]
    } else {
        let earlier = omission_notes(oms.drop_last());
        if required_omission(oms.last().field@) {
            earlier.push(
                note(
                    AdvisoryCode::RequiredFieldOmitted,
                    oms.last().field@,
                    "the observation omits data needed to check the proposal"@,
                ),
            )
        } else {
            earlier
        }
    }
}

/// The quantity findings for a reduction of `held` with the instrument's `increment`.
pub open spec fn quantity_notes(q: Seq<char>, held: Seq<char>, increment: Seq<char>) -> Seq<
    FindingView,
> {
    (if quantity_greater(q, held) {
        seq![
            note(
                AdvisoryCode::QuantityExceedsPosition,
                "/proposal/intent/reduce_position/quantity"@,
                "the reduction exceeds the observed open position quantity"@,
            ),
        ]
    } else {
        seq![]
    }) + (if !quantity_multiple(q, increment) {
        seq![
            note(
                AdvisoryCode::QuantityIncrementMismatch,
                "/proposal/intent/reduce_position/quantity"@,
                "the reduction does not align with the observed quantity increment"@,
            ),
        ]
    } else {
        seq![]
    })
}

/// The findings of a reduction against the live views: the position must be observed, carry the
/// proposed instrument, the instrument must be observed, and the quantity must neither exceed
/// the position nor miss the increment.
pub open spec fn reduction_notes(live: LiveObservation, r: ReducePosition) -> Seq<FindingView> {
    match first_position(live.positions@, r.position_id@) {
        None => seq![
            note(
                AdvisoryCode::PositionMissing,
                "/proposal/intent/reduce_position/position_id"@,
                "the proposed position does not appear in the observation"@,
            ),
        ],
        Some(p) => {
            let mismatch = if p.instrument_id@ != r.instrument_id@ {
                seq![
                    note(
                        AdvisoryCode::PositionInstrumentMismatch,
                        "/proposal/intent/reduce_position/instrument_id"@,
                        "the proposed instrument differs from the observed position instrument"@,
                    ),
                ]
            } else {
                seq![]
            };
            match first_instrument(live.instruments@, r.instrument_id@) {
                None => mismatch.push(
                    note(
                        AdvisoryCode::InstrumentMissing,
                        "/proposal/intent/reduce_position/instrument_id"@,
                        "the proposed instrument does not appear in the observation"@,
                    ),
                ),
                Some(v) => mismatch + quantity_notes(
                    r.quantity@,
                    p.quantity@,
                    v.quantity_increment@,
                ),
            }
        },
    }
}

/// Every finding of one evaluation, in check order.
pub open spec fn advisory_findings(o: Observation, p: LiveProposal, now: TimestampNs) -> Seq<
    FindingView,
> {
    version_notes(o) + expiry_notes(o, now) + digest_notes(o) + omission_notes(o.omissions@)
        + reduction_notes(live_view(o.payload), proposed_reduction(p))
}

proof fn lemma_views_push(fs: Seq<AdvisoryFinding>, f: AdvisoryFinding)
    ensures
        finding_views(fs.push(f)) == finding_views(fs).push(f@),
{
    assert(finding_views(fs.push(f)) =~= finding_views(fs).push(f@));
}

fn push_finding(findings: &mut Vec<AdvisoryFinding>, f: AdvisoryFinding)
    ensures
        finding_views(final(findings)@) == finding_views(old(findings)@).push(f@),
{
    proof {
        lemma_views_push(findings@, f);
    }
    findings.push(f);
}

fn finding(code: AdvisoryCode, field: &str, message: &str) -> (r: AdvisoryFinding)
    requires
        field_path_format(field@),
    ensures
        r@ == note(code, field@, message@),
{
    let path = match FieldPath::parse(field) {
        Ok(p) => p,
        Err(_) => unreached(),
    };
    AdvisoryFinding { code, severity: AdvisorySeverity::Error, field: path, message: owned(message) }
}

fn find_position(positions: &Vec<PositionView>, id: &PositionId) -> (r: Option<usize>)
    ensures
        match r {
            Some(k) => k < positions@.len() && first_position(positions@, id@) == Some(
                positions@[k as int],
            ),
            None => first_position(positions@, id@) is None,
        },
{
    let mut i: usize = 0;
    assert(positions@.skip(0) =~= positions@);
    while i < positions.len()
        invariant
            i <= positions@.len(),
            first_position(positions@, id@) == first_position(positions@.skip(i as int), id@),
        decreases positions@.len() - i,
    {
        let ghost rest = positions@.skip(i as int);
        assert(rest[0] == positions@[i as int]);
        if positions[i].position_id.same_as(id) {
            return Some(i);
        }
        assert(rest.skip(1) =~= positions@.skip(i + 1));
        i = i + 1;
    }
    assert(positions@.skip(i as int) =~= Seq::<PositionView>::empty());
    None
}

fn find_instrument(instruments: &Vec<InstrumentView>, id: &InstrumentId) -> (r: Option<usize>)
    ensures
        match r {
            Some(k) => k < instruments@.len() && first_instrument(instruments@, id@) == Some(
                instruments@[k as int],
            ),
            None => first_instrument(instruments@, id@) is None,
        },
{
    let mut i: usize = 0;
    assert(instruments@.skip(0) =~= instruments@);
    while i < instruments.len()
        invariant
            i <= instruments@.len(),
            first_instrument(instruments@, id@) == first_instrument(
                instruments@.skip(i as int),
                id@,
            ),
        decreases instruments@.len() - i,
    {
        let ghost rest = instruments@.skip(i as int);
        assert(rest[0] == instruments@[i as int]);
        if instruments[i].instrument_id.same_as(id) {
            return Some(i);
        }
        assert(rest.skip(1) =~= instruments@.skip(i + 1));
        i = i + 1;
    }
    assert(instruments@.skip(i as int) =~= Seq::<InstrumentView>::empty());
    None
}

fn evaluate_reduction(
    observation: &Observation,
    reduction: &ReducePosition,
    findings: &mut Vec<AdvisoryFinding>,
)
    ensures
        finding_views(final(findings)@) == finding_views(old(findings)@) + reduction_notes(
            live_view(observation.payload),
            *reduction,
        ),
{
    let ObservationPayload::Live(live) = &observation.payload;
    let ghost start = finding_views(findings@);
    let position = match find_position(&live.positions, &reduction.position_id) {
        Some(k) => &live.positions[k],
        None => {
            proof {
                reveal_strlit("/proposal/intent/reduce_position/position_id");
                lemma_plain_pointer("/proposal/intent/reduce_position/position_id"@);
            }
            push_finding(
                findings,
                finding(
                    AdvisoryCode::PositionMissing,
                    "/proposal/intent/reduce_position/position_id",
                    "the proposed position does not appear in the observation",
                ),
            );
            return ;
        },
    };
    if !position.instrument_id.same_as(&reduction.instrument_id) {
        proof {
            reveal_strlit("/proposal/intent/reduce_position/instrument_id");
            lemma_plain_pointer("/proposal/intent/reduce_position/instrument_id"@);
        }
        push_finding(
            findings,
            finding(
                AdvisoryCode::PositionInstrumentMismatch,
                "/proposal/intent/reduce_position/instrument_id",
                "the proposed instrument differs from the observed position instrument",
            ),
        );
    }
    let ghost after_mismatch = finding_views(findings@);
    let instrument = match find_instrument(&live.instruments, &reduction.instrument_id) {
        Some(k) => &live.instruments[k],
        None => {
            proof {
                reveal_strlit("/proposal/intent/reduce_position/instrument_id");
                lemma_plain_pointer("/proposal/intent/reduce_position/instrument_id"@);
            }
            push_finding(
                findings,
                finding(
                    AdvisoryCode::InstrumentMissing,
                    "/proposal/intent/reduce_position/instrument_id",
                    "the proposed instrument does not appear in the observation",
                ),
            );
            assert(finding_views(findings@) =~= start + reduction_notes(
                live_view(observation.payload),
                *reduction,
            ));
            return ;
        },
    };
    if reduction.quantity.order_against(&position.quantity) == 1 {
        proof {
            reveal_strlit("/proposal/intent/reduce_position/quantity");
            lemma_plain_pointer("/proposal/intent/reduce_position/quantity"@);
        }
        push_finding(
            findings,
            finding(
                AdvisoryCode::QuantityExceedsPosition,
                "/proposal/intent/reduce_position/quantity",
                "the reduction exceeds the observed open position quantity",
            ),
        );
    }
    if !reduction.quantity.is_multiple_of(&instrument.quantity_increment) {
        proof {
            reveal_strlit("/proposal/intent/reduce_position/quantity");
            lemma_plain_pointer("/proposal/intent/reduce_position/quantity"@);
        }
        push_finding(
            findings,
            finding(
                AdvisoryCode::QuantityIncrementMismatch,
                "/proposal/intent/reduce_position/quantity",
                "the reduction does not align with the observed quantity increment",
            ),
        );
    }
    assert(finding_views(findings@) =~= start + reduction_notes(
        live_view(observation.payload),
        *reduction,
    ));
}

impl AdvisoryValidator {
    /// Checks one proposal against one exact observation and evaluation time.
    pub fn evaluate(&self, observation: &Observation, proposal: &LiveProposal, now: TimestampNs) -> (r:
        AdvisoryReport)
        ensures
            r@ == advisory_findings(*observation, *proposal, now),
    {
        let mut findings: Vec<AdvisoryFinding> = Vec::new();
        if !observation.version.is_supported() {
            proof {
                reveal_strlit("/version");
                lemma_plain_pointer("/version"@);
            }
            push_finding(
                &mut findings,
                finding(
                    AdvisoryCode::UnsupportedVersion,
                    "/version",
                    "the observation protocol version is unsupported",
                ),
            );
        }
        if now.as_u64() > observation.expires_at.as_u64() {
            proof {
                reveal_strlit("/expires_at");
                lemma_plain_pointer("/expires_at"@);
            }
            push_finding(
                &mut findings,
                finding(AdvisoryCode::ExpiredObservation, "/expires_at", "the observation has expired"),
            );
        }
        proof {
            reveal_strlit("/digest");
            lemma_plain_pointer("/digest"@);
        }
        match observation.computed_digest() {
            Ok(expected) => {
                if !expected.same_as(&observation.digest) {
                    push_finding(
                        &mut findings,
                        finding(
                            AdvisoryCode::DigestMismatch,
                            "/digest",
                            "the observation digest does not match its content",
                        ),
                    );
                }
            },
            Err(e) => {
                let mut message = owned("the observation digest cannot be computed: ");
                message.append(e.message().as_str());
                push_finding(&mut findings, finding(AdvisoryCode::DigestMismatch, "/digest", message.as_str()));
            },
        }
        let ghost checked = finding_views(findings@);
        assert(checked =~= version_notes(*observation) + expiry_notes(*observation, now) + digest_notes(
            *observation,
        ));
        let mut i: usize = 0;
        assert(observation.omissions@.take(0) =~= Seq::<FieldOmission>::empty());
        assert(checked + omission_notes(observation.omissions@.take(0)) =~= checked);
        while i < observation.omissions.len()
            invariant
                i <= observation.omissions@.len(),
                finding_views(findings@) == checked + omission_notes(
                    observation.omissions@.take(i as int),
                ),
            decreases observation.omissions@.len() - i,
        {
            let omission = &observation.omissions[i];
            let ghost before = finding_views(findings@);
            assert(observation.omissions@.take(i + 1).drop_last() =~= observation.omissions@.take(
                i as int,
            ));
            assert(observation.omissions@.take(i + 1).last() == *omission);
            if omission_is_required(omission.field.as_str()) {
                push_finding(
                    &mut findings,
                    AdvisoryFinding {
                        code: AdvisoryCode::RequiredFieldOmitted,
                        severity: AdvisorySeverity::Error,
                        field: omission.field.clone(),
                        message: owned("the observation omits data needed to check the proposal"),
                    },
                );
                assert(finding_views(findings@) =~= checked + omission_notes(
                    observation.omissions@.take(i + 1),
                ));
            }
            i = i + 1;
        }
        assert(observation.omissions@.take(i as int) =~= observation.omissions@);
        let ghost omitted = finding_views(findings@);
        match &proposal.intent {
            LiveIntent::ReducePosition(reduction) => {
                evaluate_reduction(observation, reduction, &mut findings);
            },
        }
        assert(finding_views(findings@) =~= advisory_findings(*observation, *proposal, now));
        AdvisoryReport { findings }
    }
}

/// Whether no omission covers data a reduction check reads.
pub open spec fn no_required_omission(oms: Seq<FieldOmission>) -> bool {
    forall|i: int| 0 <= i < oms.len() ==> !required_omission(#[trigger] oms[i].field@)
}

/// The conditions under which a reduction passes every local check.
pub open spec fn reduction_checks_pass(live: LiveObservation, r: ReducePosition) -> bool {
    match first_position(live.positions@, r.position_id@) {
        None => false,
        Some(p) => match first_instrument(live.instruments@, r.instrument_id@) {
            None => false,
            Some(v) => p.instrument_id@ == r.instrument_id@ && !quantity_greater(
                r.quantity@,
                p.quantity@,
            ) && quantity_multiple(r.quantity@, v.quantity_increment@),
        },
    }
}

proof fn lemma_omission_notes_empty(oms: Seq<FieldOmission>)
    ensures
        (omission_notes(oms).len() == 0) == no_required_omission(oms),
    decreases oms.len(),
{
    if oms.len() > 0 {
        let init = oms.drop_last();
        lemma_omission_notes_empty(init);
        if no_required_omission(oms) {
            assert forall|i: int| 0 <= i < init.len() implies !required_omission(
                #[trigger] init[i].field@,
            ) by {
                assert(init[i] == oms[i]);
            }
            assert(oms.last() == oms[oms.len() - 1]);
        } else if omission_notes(oms).len() == 0 {
            let i = choose|i: int| 0 <= i < oms.len() && required_omission(#[trigger] oms[i].field@);
            if i < oms.len() - 1 {
                assert(init[i] == oms[i]);
            }
        }
    }
}

/// A report is clear exactly when the observation's version is supported, it has not expired
/// at the evaluation time, its digest covers its content, no omission hides data the checks
/// read, and the reduction names an observed position with the proposed instrument, an observed
/// instrument, and a quantity within the position and on the increment.
pub proof fn lemma_clear_report(o: Observation, p: LiveProposal, now: TimestampNs)
    ensures
        (advisory_findings(o, p, now).len() == 0) == (supported_version(o.version) && now@
            <= o.expires_at@ && content_digest_text(o) == o.digest@ && no_required_omission(
            o.omissions@,
        ) && reduction_checks_pass(live_view(o.payload), proposed_reduction(p))),
{
    lemma_omission_notes_empty(o.omissions@);
}

impl AdvisoryReport {
    /// Returns true when no local finding was produced.
    pub fn is_clear(&self) -> (r: bool)
        ensures
            r == (self@.len() == 0),
    {
        self.findings.len() == 0
    }
}

} // verus!
