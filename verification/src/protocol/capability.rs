//! Descriptive capability vocabulary disclosed by NautilusTrader.
use vstd::prelude::*;

use crate::protocol::set::{
    key_less, lemma_key_less_skip, lemma_rank_keys, strictly_sorted, OrderedSet, SetKey,
};
use crate::protocol::value::{InstrumentId, TimestampNs};
use crate::text::chars_of;

verus! {

broadcast use vstd::seq::group_seq_axioms;

/// Names an observation category that NautilusTrader may disclose.
#[derive(Clone, Copy, Debug, PartialEq, Eq, Hash, PartialOrd, Ord, Structural)]
pub enum ObservationCapability {
    /// Includes scoped position summaries.
    PositionSummary,
    /// Includes scoped instrument summaries.
    InstrumentSummary,
}

impl SetKey for ObservationCapability {
    open spec fn key(&self) -> Seq<int> {
        match self {
            ObservationCapability::PositionSummary => seq![0int],
            ObservationCapability::InstrumentSummary => seq![1int],
        }
    }

    fn compare_keys(&self, other: &Self) -> (r: i8) {
        let a: i8 = match self {
            ObservationCapability::PositionSummary => 0,
            ObservationCapability::InstrumentSummary => 1,
        };
        let b: i8 = match other {
            ObservationCapability::PositionSummary => 0,
            ObservationCapability::InstrumentSummary => 1,
        };
        proof {
            lemma_rank_keys(a as int, b as int);
        }
        if a < b {
            -1
        } else if a == b {
            0
        } else {
            1
        }
    }

    fn copy_value(&self) -> (r: Self) {
        *self
    }
}

/// Names a semantic proposal category that NautilusTrader may accept.
#[derive(Clone, Copy, Debug, PartialEq, Eq, Hash, PartialOrd, Ord, Structural)]
pub enum ProposalCapability {
    /// Includes position-reduction proposals.
    ReducePosition,
}

impl SetKey for ProposalCapability {
    open spec fn key(&self) -> Seq<int> {
        seq![0int]
    }

    fn compare_keys(&self, other: &Self) -> (r: i8) {
        proof {
            lemma_rank_keys(0, 0);
        }
        0
    }

    fn copy_value(&self) -> (r: Self) {
        *self
    }
}

/// The ordering key of a text: its Unicode scalar values.
pub open spec fn text_key(v: Seq<char>) -> Seq<int> {
    v.map_values(|c: char| (c as u32) as int)
}

impl SetKey for InstrumentId {
    open spec fn key(&self) -> Seq<int> {
        text_key(self@)
    }

    fn compare_keys(&self, other: &Self) -> (r: i8) {
        let a = chars_of(self.as_str());
        let b = chars_of(other.as_str());
        let ghost ka = text_key(self@);
        let ghost kb = text_key(other@);
        let mut i: usize = 0;
        while i < a.len() && i < b.len()
            invariant
                a@ == self@,
                b@ == other@,
                ka == text_key(self@),
                kb == text_key(other@),
                i <= a@.len(),
                i <= b@.len(),
                forall|j: int| 0 <= j < i ==> a@[j] == b@[j],
            decreases a@.len() - i,
        {
            if a[i] != b[i] {
                proof {
                    lemma_key_less_skip(ka, kb, i as int);
                    lemma_key_less_skip(kb, ka, i as int);
                    assert(ka.skip(i as int)[0] == (a@[i as int] as u32) as int);
                    assert(kb.skip(i as int)[0] == (b@[i as int] as u32) as int);
                    vstd::utf8::char_u32_cast(a@[i as int], a@[i as int] as u32);
                    vstd::utf8::char_u32_cast(b@[i as int], b@[i as int] as u32);
                    assert((a@[i as int] as u32) != (b@[i as int] as u32));
                    assert(ka != kb) by {
                        assert(ka[i as int] != kb[i as int]);
                    }
                }
                if (a[i] as u32) < (b[i] as u32) {
                    return -1;
                } else {
                    return 1;
                }
            }
            i = i + 1;
        }
        proof {
            lemma_key_less_skip(ka, kb, i as int);
            lemma_key_less_skip(kb, ka, i as int);
            if a@.len() == b@.len() {
                assert(a@ =~= b@);
            } else {
                assert(ka.len() != kb.len());
            }
        }
        if a.len() < b.len() {
            -1
        } else if a.len() == b.len() {
            0
        } else {
            1
        }
    }

    fn copy_value(&self) -> (r: Self) {
        self.clone()
    }
}

/// Texts `a` and `b` agree on their first `k` characters, and there `a` ends while `b` goes
/// on, or `a` has the character with the smaller Unicode scalar value.
pub open spec fn differs_first_at(a: Seq<char>, b: Seq<char>, k: int) -> bool {
    &&& 0 <= k <= a.len()
    &&& k <= b.len()
    &&& a.take(k) == b.take(k)
    &&& (k == a.len() && k < b.len()) || (k < a.len() && k < b.len() && (a[k] as u32) < (
        b[k] as u32))
}

/// Text `a` comes strictly before text `b` in lexicographic order of Unicode scalar values.
pub open spec fn text_precedes(a: Seq<char>, b: Seq<char>) -> bool {
    exists|k: int| differs_first_at(a, b, k)
}

/// The ordering key of a text orders texts lexicographically by Unicode scalar value.
pub proof fn lemma_text_key_order(a: Seq<char>, b: Seq<char>)
    ensures
        key_less(text_key(a), text_key(b)) == text_precedes(a, b),
    decreases a.len(),
{
    let ka = text_key(a);
    let kb = text_key(b);
    if a.len() == 0 {
        if b.len() > 0 {
            assert(a.take(0) =~= b.take(0));
            assert(differs_first_at(a, b, 0));
        }
    } else if b.len() == 0 {
    } else if a[0] != b[0] {
        vstd::utf8::char_u32_cast(a[0], a[0] as u32);
        vstd::utf8::char_u32_cast(b[0], b[0] as u32);
        assert(ka[0] == (a[0] as u32) as int);
        assert(kb[0] == (b[0] as u32) as int);
        if (a[0] as u32) < (b[0] as u32) {
            assert(a.take(0) =~= b.take(0));
            assert(differs_first_at(a, b, 0));
        } else {
            assert forall|k: int| !#[trigger] differs_first_at(a, b, k) by {
                if 0 < k <= a.len() && k <= b.len() && a.take(k) == b.take(k) {
                    assert(a.take(k)[0] == b.take(k)[0]);
                }
            }
        }
    } else {
        let a1 = a.drop_first();
        let b1 = b.drop_first();
        lemma_text_key_order(a1, b1);
        assert(ka.drop_first() =~= text_key(a1));
        assert(kb.drop_first() =~= text_key(b1));
        assert(ka[0] == kb[0]);
        if text_precedes(a1, b1) {
            let k = choose|k: int| differs_first_at(a1, b1, k);
            assert(a.take(k + 1) =~= seq![a[0]] + a1.take(k));
            assert(b.take(k + 1) =~= seq![b[0]] + b1.take(k));
            assert(differs_first_at(a, b, k + 1));
        }
        if text_precedes(a, b) {
            let k = choose|k: int| differs_first_at(a, b, k);
            assert(k >= 1);
            assert(a1.take(k - 1) =~= a.take(k).drop_first());
            assert(b1.take(k - 1) =~= b.take(k).drop_first());
            assert(differs_first_at(a1, b1, k - 1));
        }
    }
}

/// The instruments of a set come in ascending text order: each one's text precedes every later
/// one's, character by character on Unicode scalar values.
pub proof fn lemma_instruments_in_text_order(set: OrderedSet<InstrumentId>)
    requires
        strictly_sorted(set.elements()),
    ensures
        forall|i: int, j: int|
            0 <= i < j < set.elements().len() ==> text_precedes(
                #[trigger] set.elements()[i]@,
                #[trigger] set.elements()[j]@,
            ),
{
    let s = set.elements();
    assert forall|i: int, j: int| 0 <= i < j < s.len() implies text_precedes(
        #[trigger] s[i]@,
        #[trigger] s[j]@,
    ) by {
        assert(key_less(s[i].key(), s[j].key()));
        lemma_text_key_order(s[i]@, s[j]@);
    }
}

/// Observation capabilities are kept in declaration order: in a set, any two elements are a
/// position summary followed by an instrument summary, so neither occurs twice.
pub proof fn lemma_observation_capabilities_in_declaration_order(
    set: OrderedSet<ObservationCapability>,
)
    requires
        strictly_sorted(set.elements()),
    ensures
        forall|i: int, j: int|
            0 <= i < j < set.elements().len() ==> (#[trigger] set.elements()[i]) is PositionSummary
                && (#[trigger] set.elements()[j]) is InstrumentSummary,
{
    let s = set.elements();
    assert forall|i: int, j: int| 0 <= i < j < s.len() implies (#[trigger] s[i]) is PositionSummary
        && (#[trigger] s[j]) is InstrumentSummary by {
        assert(key_less(s[i].key(), s[j].key()));
        reveal_with_fuel(key_less, 2);
        assert(s[i].key().drop_first() =~= Seq::<int>::empty());
        assert(s[j].key().drop_first() =~= Seq::<int>::empty());
    }
}

/// Describes the effective scope disclosed with one observation.
#[derive(Debug, PartialEq, Eq)]
pub struct CapabilityGrant {
    /// The observation categories disclosed in the payload.
    pub observations: OrderedSet<ObservationCapability>,
    /// The proposal categories NautilusTrader may consider.
    pub proposals: OrderedSet<ProposalCapability>,
    /// The instruments covered by the grant.
    pub instruments: OrderedSet<InstrumentId>,
    /// The time at which the disclosed grant expires.
    pub expires_at: TimestampNs,
}

impl Clone for CapabilityGrant {
    fn clone(&self) -> (r: Self)
        ensures
            r.observations.elements() == self.observations.elements(),
            r.proposals.elements() == self.proposals.elements(),
            r.instruments.elements() == self.instruments.elements(),
            r.expires_at == self.expires_at,
    {
        CapabilityGrant {
            observations: self.observations.copy_set(),
            proposals: self.proposals.copy_set(),
            instruments: self.instruments.copy_set(),
            expires_at: self.expires_at,
        }
    }
}

} // verus!
