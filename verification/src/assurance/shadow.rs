//! Side-by-side comparison of local proposal policy outcomes.
use vstd::prelude::*;
use vstd::pervasive::unreached;

use crate::assurance::trace::{AgentFailure, TraceOutcome};
use crate::authoring::runner::{ProposalRunner, RunnerConfig};
use crate::protocol::live::{LiveIntent, LiveProposal, ReducePosition};
use crate::protocol::observation::Observation;
use crate::protocol::value::{field_path_format, lemma_plain_pointer, FieldPath};
use crate::text::str_equal;

verus! {

/// Evaluates two proposal policies against the same observation.
pub struct ShadowEvaluator<A, B> {
    baseline: ProposalRunner<A>,
    candidate: ProposalRunner<B>,
}

impl<A, B> ShadowEvaluator<A, B> {
    /// The runner of the baseline policy.
    pub closed spec fn held_baseline(&self) -> ProposalRunner<A> {
        self.baseline
    }

    /// The runner of the candidate policy.
    pub closed spec fn held_candidate(&self) -> ProposalRunner<B> {
        self.candidate
    }

    /// Creates a side-by-side local policy evaluator.
    pub fn new(
        baseline: A,
        baseline_config: RunnerConfig,
        candidate: B,
        candidate_config: RunnerConfig,
    ) -> (r: Self)
        ensures
            r.held_baseline().held_policy() == baseline,
            r.held_baseline().held_config() == baseline_config,
            r.held_candidate().held_policy() == candidate,
            r.held_candidate().held_config() == candidate_config,
    {
        ShadowEvaluator {
            baseline: ProposalRunner::new(baseline, baseline_config),
            candidate: ProposalRunner::new(candidate, candidate_config),
        }
    }

    /// Returns the runner of the baseline policy.
    pub fn baseline(&self) -> (r: &ProposalRunner<A>)
        ensures
            *r == self.held_baseline(),
    {
        &self.baseline
    }

    /// Returns the runner of the candidate policy.
    pub fn candidate(&self) -> (r: &ProposalRunner<B>)
        ensures
            *r == self.held_candidate(),
    {
        &self.candidate
    }
}

/// Names one recorded or synthetic observation used for local comparison.
#[derive(Clone, Debug, PartialEq, Eq)]
pub struct ShadowCase {
    /// The caller-defined case name.
    pub name: String,
    /// The exact observation supplied to both policies.
    pub observation: Observation,
}

/// Contains both local outcomes and every differing outcome field.
#[derive(Clone, Debug, PartialEq, Eq)]
pub struct ShadowResult {
    /// The caller-defined case name.
    pub case: String,
    /// The baseline policy outcome.
    pub baseline: TraceOutcome,
    /// The candidate policy outcome.
    pub candidate: TraceOutcome,
    /// The public outcome fields that differ.
    pub differing_fields: Vec<FieldPath>,
}

/// The text views of field paths, in order.
pub open spec fn path_views(ps: Seq<FieldPath>) -> Seq<Seq<char>> {
    Seq::new(ps.len(), |i: int| ps[i]@)
}

/// The path when a condition holds, else nothing.
pub open spec fn path_if(cond: bool, path: Seq<char>) -> Seq<Seq<char>> {
    if cond {
        seq![path]
    } else {
        seq![]
    }
}

/// The reduction of a proposal.
pub open spec fn reduction_of(p: LiveProposal) -> ReducePosition {
    match p.intent {
        LiveIntent::ReducePosition(r) => r,
    }
}

/// The reduction fields that differ between two proposals, in field order.
pub open spec fn proposal_differences(a: LiveProposal, b: LiveProposal) -> Seq<Seq<char>> {
    let x = reduction_of(a);
    let y = reduction_of(b);
    path_if(x.position_id@ != y.position_id@, "/outcome/proposed/intent/reduce_position/position_id"@)
        + path_if(
        x.instrument_id@ != y.instrument_id@,
        "/outcome/proposed/intent/reduce_position/instrument_id"@,
    ) + path_if(x.quantity@ != y.quantity@, "/outcome/proposed/intent/reduce_position/quantity"@)
}

/// The failure fields that differ between two failures, in field order.
pub open spec fn failure_differences(a: AgentFailure, b: AgentFailure) -> Seq<Seq<char>> {
    path_if(a.kind != b.kind, "/outcome/failed/kind"@) + path_if(
        a.message@ != b.message@,
        "/outcome/failed/message"@,
    )
}

/// The public outcome fields that differ: field by field for two outcomes of one variant, the
/// whole outcome for two variants.
pub open spec fn outcome_differences(a: TraceOutcome, b: TraceOutcome) -> Seq<Seq<char>> {
    match (a, b) {
        (TraceOutcome::NoProposal, TraceOutcome::NoProposal) => seq![],
        (TraceOutcome::Proposed(x), TraceOutcome::Proposed(y)) => proposal_differences(x, y),
        (TraceOutcome::Failed(x), TraceOutcome::Failed(y)) => failure_differences(x, y),
        _ => seq!["/outcome"@],
    }
}

fn path(value: &str) -> (r: FieldPath)
    requires
        field_path_format(value@),
    ensures
        r@ == value@,
{
    match FieldPath::parse(value) {
        Ok(p) => p,
        Err(_) => unreached(),
    }
}

fn push_path(fields: &mut Vec<FieldPath>, p: FieldPath)
    ensures
        path_views(final(fields)@) == path_views(old(fields)@).push(p@),
{
    proof {
        assert(path_views(fields@.push(p)) =~= path_views(fields@).push(p@));
    }
    fields.push(p);
}

fn differing_fields(baseline: &TraceOutcome, candidate: &TraceOutcome) -> (r: Vec<FieldPath>)
    ensures
        path_views(r@) == outcome_differences(*baseline, *candidate),
{
    match (baseline, candidate) {
        (TraceOutcome::NoProposal, TraceOutcome::NoProposal) => {
            let fields: Vec<FieldPath> = Vec::new();
            assert(path_views(fields@) =~= Seq::<Seq<char>>::empty());
            fields
        },
        (TraceOutcome::Proposed(a), TraceOutcome::Proposed(b)) => {
            let (LiveIntent::ReducePosition(x), LiveIntent::ReducePosition(y)) = (&a.intent, &b.intent);
            let mut fields: Vec<FieldPath> = Vec::new();
            assert(path_views(fields@) =~= Seq::<Seq<char>>::empty());
            if !x.position_id.same_as(&y.position_id) {
                proof {
                    reveal_strlit("/outcome/proposed/intent/reduce_position/position_id");
                    lemma_plain_pointer("/outcome/proposed/intent/reduce_position/position_id"@);
                }
                push_path(&mut fields, path("/outcome/proposed/intent/reduce_position/position_id"));
            }
            if !x.instrument_id.same_as(&y.instrument_id) {
                proof {
                    reveal_strlit("/outcome/proposed/intent/reduce_position/instrument_id");
                    lemma_plain_pointer("/outcome/proposed/intent/reduce_position/instrument_id"@);
                }
                push_path(
                    &mut fields,
                    path("/outcome/proposed/intent/reduce_position/instrument_id"),
                );
            }
            if !x.quantity.same_as(&y.quantity) {
                proof {
                    reveal_strlit("/outcome/proposed/intent/reduce_position/quantity");
                    lemma_plain_pointer("/outcome/proposed/intent/reduce_position/quantity"@);
                }
                push_path(&mut fields, path("/outcome/proposed/intent/reduce_position/quantity"));
            }
            assert(path_views(fields@) =~= outcome_differences(*baseline, *candidate));
            fields
        },
        (TraceOutcome::Failed(a), TraceOutcome::Failed(b)) => {
            let mut fields: Vec<FieldPath> = Vec::new();
            assert(path_views(fields@) =~= Seq::<Seq<char>>::empty());
            if a.kind != b.kind {
                proof {
                    reveal_strlit("/outcome/failed/kind");
                    lemma_plain_pointer("/outcome/failed/kind"@);
                }
                push_path(&mut fields, path("/outcome/failed/kind"));
            }
            if !str_equal(a.message.as_str(), b.message.as_str()) {
                proof {
                    reveal_strlit("/outcome/failed/message");
                    lemma_plain_pointer("/outcome/failed/message"@);
                }
                push_path(&mut fields, path("/outcome/failed/message"));
            }
            assert(path_views(fields@) =~= outcome_differences(*baseline, *candidate));
            fields
        },
        _ => {
            proof {
                reveal_strlit("/outcome");
                lemma_plain_pointer("/outcome"@);
            }
            let mut fields: Vec<FieldPath> = Vec::new();
            assert(path_views(fields@) =~= Seq::<Seq<char>>::empty());
            push_path(&mut fields, path("/outcome"));
            assert(path_views(fields@) =~= outcome_differences(*baseline, *candidate));
            fields
        },
    }
}

impl ShadowResult {
    /// Compares the two local outcomes of one case.
    pub fn compare(case: &ShadowCase, baseline: TraceOutcome, candidate: TraceOutcome) -> (r: Self)
        ensures
            r.case@ == case.name@,
            r.baseline == baseline,
            r.candidate == candidate,
            path_views(r.differing_fields@) == outcome_differences(baseline, candidate),
    {
        let differing_fields = differing_fields(&baseline, &candidate);
        ShadowResult { case: case.name.clone(), baseline, candidate, differing_fields }
    }

    /// Returns true when both complete local outcomes match.
    pub fn is_match(&self) -> (r: bool)
        ensures
            r == (self.differing_fields@.len() == 0),
    {
        self.differing_fields.len() == 0
    }
}

/// Two outcomes are the same as far as their public fields show: both without a proposal, both
/// proposing reductions with the same position, instrument and quantity text, or both failing
/// with the same kind and message text.
pub open spec fn same_outcome(a: TraceOutcome, b: TraceOutcome) -> bool {
    match (a, b) {
        (TraceOutcome::NoProposal, TraceOutcome::NoProposal) => true,
        (TraceOutcome::Proposed(x), TraceOutcome::Proposed(y)) => {
            let p = reduction_of(x);
            let q = reduction_of(y);
            p.position_id@ == q.position_id@ && p.instrument_id@ == q.instrument_id@
                && p.quantity@ == q.quantity@
        },
        (TraceOutcome::Failed(x), TraceOutcome::Failed(y)) => x.kind == y.kind && x.message@
            == y.message@,
        _ => false,
    }
}

/// No field differs exactly when the two outcomes are the same in every public field; equal
/// outcomes in particular never differ.
pub proof fn lemma_no_differences_iff_same_outcome(a: TraceOutcome, b: TraceOutcome)
    ensures
        (outcome_differences(a, b).len() == 0) == same_outcome(a, b),
        a == b ==> outcome_differences(a, b).len() == 0,
{
}

/// A result built by [`ShadowResult::compare`] matches exactly when its two outcomes are the
/// same in every public field.
pub proof fn lemma_match_iff_same_outcome(r: ShadowResult)
    requires
        path_views(r.differing_fields@) == outcome_differences(r.baseline, r.candidate),
    ensures
        (r.differing_fields@.len() == 0) == same_outcome(r.baseline, r.candidate),
{
    lemma_no_differences_iff_same_outcome(r.baseline, r.candidate);
    assert(path_views(r.differing_fields@).len() == r.differing_fields@.len());
}

/// Comparing an outcome with itself finds no differing field.
pub proof fn lemma_self_comparison_matches(o: TraceOutcome)
    ensures
        outcome_differences(o, o).len() == 0,
{
}

/// Comparison is symmetric: swapping baseline and candidate finds the same fields.
pub proof fn lemma_comparison_symmetric(a: TraceOutcome, b: TraceOutcome)
    ensures
        outcome_differences(a, b) == outcome_differences(b, a),
{
}

/// Outcomes of different variants differ exactly in the whole outcome.
pub proof fn lemma_variant_difference(a: TraceOutcome, b: TraceOutcome)
    requires
        !(a is NoProposal && b is NoProposal),
        !(a is Proposed && b is Proposed),
        !(a is Failed && b is Failed),
    ensures
        outcome_differences(a, b) == seq!["/outcome"@],
{
}

/// Each path reported for two proposals names a reduction field that really differs: the
/// position path exactly when the position identities differ, the instrument path exactly when
/// the instruments differ, the quantity path exactly when the quantities differ. Nothing else is
/// reported, no path twice, and the paths come in field order: position first, quantity last.
pub proof fn lemma_proposal_paths_name_differing_fields(x: LiveProposal, y: LiveProposal)
    ensures
        ({
            let d = outcome_differences(TraceOutcome::Proposed(x), TraceOutcome::Proposed(y));
            let p = reduction_of(x);
            let q = reduction_of(y);
            let pos = "/outcome/proposed/intent/reduce_position/position_id"@;
            let ins = "/outcome/proposed/intent/reduce_position/instrument_id"@;
            let qty = "/outcome/proposed/intent/reduce_position/quantity"@;
            &&& d.contains(pos) == (p.position_id@ != q.position_id@)
            &&& d.contains(ins) == (p.instrument_id@ != q.instrument_id@)
            &&& d.contains(qty) == (p.quantity@ != q.quantity@)
            &&& forall|i: int| 0 <= i < d.len() ==> #[trigger] d[i] == pos || d[i] == ins || d[i]
                == qty
            &&& d.no_duplicates()
            &&& d.contains(pos) ==> d[0] == pos
            &&& d.contains(qty) ==> d.last() == qty
        }),
{
    reveal_strlit("/outcome/proposed/intent/reduce_position/position_id");
    reveal_strlit("/outcome/proposed/intent/reduce_position/instrument_id");
    reveal_strlit("/outcome/proposed/intent/reduce_position/quantity");
    let pos = "/outcome/proposed/intent/reduce_position/position_id"@;
    let ins = "/outcome/proposed/intent/reduce_position/instrument_id"@;
    let qty = "/outcome/proposed/intent/reduce_position/quantity"@;
    assert(pos.len() != ins.len() && pos.len() != qty.len() && ins.len() != qty.len());
    let p = reduction_of(x);
    let q = reduction_of(y);
    let a = path_if(p.position_id@ != q.position_id@, pos);
    let b = path_if(p.instrument_id@ != q.instrument_id@, ins);
    let c = path_if(p.quantity@ != q.quantity@, qty);
    let d = outcome_differences(TraceOutcome::Proposed(x), TraceOutcome::Proposed(y));
    assert(d == a + b + c);
    assert(d.contains(pos) == (p.position_id@ != q.position_id@)) by {
        if p.position_id@ != q.position_id@ {
            assert(d[0] == pos);
        }
    }
    assert(d.contains(ins) == (p.instrument_id@ != q.instrument_id@)) by {
        if p.instrument_id@ != q.instrument_id@ {
            assert(d[a.len() as int] == ins);
        }
    }
    assert(d.contains(qty) == (p.quantity@ != q.quantity@)) by {
        if p.quantity@ != q.quantity@ {
            assert(d[(a.len() + b.len()) as int] == qty);
        }
    }
}

/// Each path reported for two failures names a field that really differs: the kind path
/// exactly when the kinds differ, the message path exactly when the messages differ, nothing
/// else, no path twice, and the kind before the message.
pub proof fn lemma_failure_paths_name_differing_fields(x: AgentFailure, y: AgentFailure)
    ensures
        ({
            let d = outcome_differences(TraceOutcome::Failed(x), TraceOutcome::Failed(y));
            let kind = "/outcome/failed/kind"@;
            let message = "/outcome/failed/message"@;
            &&& d.contains(kind) == (x.kind != y.kind)
            &&& d.contains(message) == (x.message@ != y.message@)
            &&& forall|i: int| 0 <= i < d.len() ==> #[trigger] d[i] == kind || d[i] == message
            &&& d.no_duplicates()
            &&& d.contains(kind) ==> d[0] == kind
        }),
{
    reveal_strlit("/outcome/failed/kind");
    reveal_strlit("/outcome/failed/message");
    let kind = "/outcome/failed/kind"@;
    let message = "/outcome/failed/message"@;
    assert(kind.len() != message.len());
    let a = path_if(x.kind != y.kind, kind);
    let b = path_if(x.message@ != y.message@, message);
    let d = outcome_differences(TraceOutcome::Failed(x), TraceOutcome::Failed(y));
    assert(d == a + b);
    assert(d.contains(kind) == (x.kind != y.kind)) by {
        if x.kind != y.kind {
            assert(d[0] == kind);
        }
    }
    assert(d.contains(message) == (x.message@ != y.message@)) by {
        if x.message@ != y.message@ {
            assert(d[a.len() as int] == message);
        }
    }
}

} // verus!
