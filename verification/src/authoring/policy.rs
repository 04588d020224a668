//! Proposal policy outcomes and local policy errors.
use vstd::prelude::*;

use crate::protocol::live::LiveProposal;
use crate::protocol::value::FieldPath;
use crate::text::{debug_str, str_debug_text};

verus! {

/// Captures the complete successful result of a local policy evaluation.
#[derive(Debug, PartialEq, Eq)]
pub enum ProposalDecision {
    /// The policy produced one semantic proposal.
    Propose(LiveProposal),
    /// The policy deliberately produced no proposal.
    NoProposal,
}

impl Clone for ProposalDecision {
    fn clone(&self) -> (r: Self)
        ensures
            r == *self,
    {
        match self {
            ProposalDecision::Propose(proposal) => ProposalDecision::Propose(proposal.clone()),
            ProposalDecision::NoProposal => ProposalDecision::NoProposal,
        }
    }
}

/// Reports a local policy evaluation error.
#[derive(Clone, Debug, PartialEq, Eq)]
pub enum ProposalError {
    /// The observation lacks fields required by the policy.
    InsufficientObservation {
        /// The missing public field paths.
        fields: Vec<FieldPath>,
    },
    /// The policy encountered an internal error.
    Internal {
        /// A human-readable local explanation.
        message: String,
    },
}

/// The `{:?}` text of one field path: `FieldPath("...")`.
pub open spec fn field_path_debug(p: Seq<char>) -> Seq<char> {
    "FieldPath("@ + str_debug_text(p) + ")"@
}

/// The `{:?}` texts of field paths joined by `, `.
pub open spec fn field_list_items(fs: Seq<FieldPath>) -> Seq<char>
    decreases fs.len(),
{
    if fs.len() == 0 {
        Seq::empty()
    } else if fs.len() == 1 {
        field_path_debug(fs[0]@)
    } else {
        field_list_items(fs.drop_last()) + ", "@ + field_path_debug(fs.last()@)
    }
}

/// The `{:?}` text of a list of field paths: `[FieldPath("..."), ...]`.
pub open spec fn field_list_debug(fs: Seq<FieldPath>) -> Seq<char> {
    "["@ + field_list_items(fs) + "]"@
}

/// The human-readable explanation of a policy error.
pub open spec fn proposal_error_text(e: ProposalError) -> Seq<char> {
    match e {
        ProposalError::InsufficientObservation { fields } => "observation lacks required fields: "@
            + field_list_debug(fields@),
        ProposalError::Internal { message } => message@,
    }
}

impl ProposalError {
    /// Returns the human-readable explanation of this error.
    pub fn message(&self) -> (r: String)
        ensures
            r@ == proposal_error_text(*self),
    {
        match self {
            ProposalError::InsufficientObservation { fields } => {
                let mut out = String::new();
                out.append("observation lacks required fields: ");
                out.append("[");
                let mut i: usize = 0;
                while i < fields.len()
                    invariant
                        i <= fields@.len(),
                        out@ == "observation lacks required fields: "@ + "["@ + field_list_items(
                            fields@.take(i as int),
                        ),
                    decreases fields@.len() - i,
                {
                    let ghost before = out@;
                    assert(fields@.take(i + 1).drop_last() =~= fields@.take(i as int));
                    assert(fields@.take(i + 1).last() == fields@[i as int]);
                    if i > 0 {
                        out.append(", ");
                    }
                    out.append("FieldPath(");
                    out.append(debug_str(fields[i].as_str()).as_str());
                    out.append(")");
                    proof {
                        if i == 0 {
                            assert(fields@.take(1) =~= seq![fields@[0]]);
                        }
                    }
                    assert(out@ =~= "observation lacks required fields: "@ + "["@ + field_list_items(
                        fields@.take(i + 1),
                    ));
                    i = i + 1;
                }
                out.append("]");
                assert(fields@.take(i as int) =~= fields@);
                assert(out@ =~= proposal_error_text(*self));
                out
            },
            ProposalError::Internal { message } => message.clone(),
        }
    }
}

} // verus!
