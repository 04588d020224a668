//! Numeric ordering of quantities.
use core::cmp::Ordering;
use vstd::prelude::*;
use vstd::std_specs::cmp::PartialOrdSpecImpl;

use crate::protocol::value::{
    common_scale, lemma_canonical_quantity_unique, lemma_compare_at_scale, quantity_fault,
    quantity_scale, units_at_scale, Quantity,
};

verus! {

/// The numeric order of two quantity texts, compared at their common scale.
pub open spec fn quantity_ordering(a: Seq<char>, b: Seq<char>) -> Ordering {
    let s = common_scale(a, b);
    if units_at_scale(a, s) < units_at_scale(b, s) {
        Ordering::Less
    } else if units_at_scale(a, s) == units_at_scale(b, s) {
        Ordering::Equal
    } else {
        Ordering::Greater
    }
}

impl Quantity {
    /// Compares two quantities by numeric value.
    pub fn compare(&self, other: &Self) -> (r: Ordering)
        ensures
            r == quantity_ordering(self@, other@),
    {
        let o = self.order_against(other);
        if o == -1 {
            Ordering::Less
        } else if o == 0 {
            Ordering::Equal
        } else {
            Ordering::Greater
        }
    }
}

/// Every quantity is equal to itself.
pub proof fn lemma_quantity_ordering_reflexive(a: Seq<char>)
    ensures
        quantity_ordering(a, a) == Ordering::Equal,
{
}

/// Swapping the operands reverses the order.
pub proof fn lemma_quantity_ordering_antisymmetric(a: Seq<char>, b: Seq<char>)
    ensures
        (quantity_ordering(a, b) == Ordering::Less) == (quantity_ordering(b, a) == Ordering::Greater),
        (quantity_ordering(a, b) == Ordering::Equal) == (quantity_ordering(b, a) == Ordering::Equal),
{
    assert(common_scale(a, b) == common_scale(b, a));
}

/// The order is transitive, for strict and for equal steps.
pub proof fn lemma_quantity_ordering_transitive(a: Seq<char>, b: Seq<char>, c: Seq<char>)
    ensures
        quantity_ordering(a, b) == Ordering::Less && quantity_ordering(b, c) == Ordering::Less
            ==> quantity_ordering(a, c) == Ordering::Less,
        quantity_ordering(a, b) == Ordering::Equal && quantity_ordering(b, c) == Ordering::Equal
            ==> quantity_ordering(a, c) == Ordering::Equal,
{
    let t = if common_scale(a, b) >= quantity_scale(c) {
        common_scale(a, b)
    } else {
        quantity_scale(c)
    };
    lemma_compare_at_scale(a, b, t);
    lemma_compare_at_scale(b, c, t);
    lemma_compare_at_scale(a, c, t);
}

/// For canonical quantities the numeric order agrees with text equality: two quantities compare
/// equal exactly when their texts are the same.
pub proof fn lemma_quantity_order_matches_text(a: Seq<char>, b: Seq<char>)
    requires
        quantity_fault(a) is None,
        quantity_fault(b) is None,
    ensures
        (quantity_ordering(a, b) == Ordering::Equal) == (a == b),
{
    if quantity_ordering(a, b) == Ordering::Equal {
        lemma_canonical_quantity_unique(a, b);
    }
}

impl PartialOrd for Quantity {
    fn partial_cmp(&self, other: &Self) -> (r: Option<Ordering>) {
        Some(self.compare(other))
    }
}

impl PartialOrdSpecImpl for Quantity {
    open spec fn obeys_partial_cmp_spec() -> bool {
        true
    }

    open spec fn partial_cmp_spec(&self, other: &Self) -> Option<Ordering> {
        Some(quantity_ordering(self@, other@))
    }
}

} // verus!
