//! Ordered sets of protocol values, kept sorted and free of duplicates.
//!
//! Elements are ordered lexicographically by an integer key sequence; for enumerations the key
//! is the declaration rank, for identifiers the Unicode scalar values of the text (the order of
//! `String` comparison).
use vstd::prelude::*;

verus! {

broadcast use vstd::seq::group_seq_axioms;

/// Strict lexicographic order on key sequences (a proper prefix is smaller).
pub open spec fn key_less(a: Seq<int>, b: Seq<int>) -> bool
    decreases a.len(),
{
    if a.len() == 0 {
        b.len() > 0
    } else if b.len() == 0 {
        false
    } else if a[0] < b[0] {
        true
    } else if a[0] > b[0] {
        false
    } else {
        key_less(a.drop_first(), b.drop_first())
    }
}

/// Three-way comparison of key sequences: -1, 0 or 1.
pub open spec fn key_compare(a: Seq<int>, b: Seq<int>) -> int {
    if key_less(a, b) {
        -1
    } else if a == b {
        0
    } else {
        1
    }
}

pub proof fn lemma_key_less_irreflexive(a: Seq<int>)
    ensures
        !key_less(a, a),
    decreases a.len(),
{
    if a.len() > 0 {
        lemma_key_less_irreflexive(a.drop_first());
    }
}

pub proof fn lemma_key_less_total(a: Seq<int>, b: Seq<int>)
    ensures
        a == b || key_less(a, b) || key_less(b, a),
        !(key_less(a, b) && key_less(b, a)),
    decreases a.len(),
{
    if a.len() > 0 && b.len() > 0 && a[0] == b[0] {
        lemma_key_less_total(a.drop_first(), b.drop_first());
        if a.drop_first() == b.drop_first() {
            assert forall|i: int| 0 <= i < a.len() implies a[i] == b[i] by {
                if i > 0 {
                    assert(a[i] == a.drop_first()[i - 1]);
                    assert(b[i] == b.drop_first()[i - 1]);
                }
            }
            assert(a =~= b);
        }
    } else if a.len() == 0 && b.len() == 0 {
        assert(a =~= b);
    }
}

pub proof fn lemma_key_less_transitive(a: Seq<int>, b: Seq<int>, c: Seq<int>)
    requires
        key_less(a, b),
        key_less(b, c),
    ensures
        key_less(a, c),
    decreases a.len(),
{
    if a.len() > 0 && b.len() > 0 && c.len() > 0 && a[0] == b[0] && b[0] == c[0] {
        lemma_key_less_transitive(a.drop_first(), b.drop_first(), c.drop_first());
    }
}

/// Equal prefixes up to `i` reduce the comparison to the suffixes.
pub proof fn lemma_key_less_skip(a: Seq<int>, b: Seq<int>, i: int)
    requires
        0 <= i <= a.len(),
        i <= b.len(),
        forall|j: int| 0 <= j < i ==> a[j] == b[j],
    ensures
        key_less(a, b) == key_less(a.skip(i), b.skip(i)),
    decreases i,
{
    if i > 0 {
        lemma_key_less_skip(a.drop_first(), b.drop_first(), i - 1);
        assert(a.drop_first().skip(i - 1) =~= a.skip(i));
        assert(b.drop_first().skip(i - 1) =~= b.skip(i));
    } else {
        assert(a.skip(0) =~= a);
        assert(b.skip(0) =~= b);
    }
}

/// Single-element keys compare by their element.
pub proof fn lemma_rank_keys(a: int, b: int)
    ensures
        key_compare(seq![a], seq![b]) == (if a < b {
            -1
        } else if a == b {
            0
        } else {
            1
        }),
{
    let x = seq![a];
    let y = seq![b];
    assert(x.drop_first() =~= Seq::<int>::empty());
    assert(y.drop_first() =~= Seq::<int>::empty());
    assert(!key_less(Seq::<int>::empty(), Seq::<int>::empty()));
    if a == b {
        assert(x =~= y);
    } else {
        assert(x[0] != y[0]);
    }
}

/// A value that can be kept in an [`OrderedSet`].
pub trait SetKey: Sized {
    /// The ordering key of the value.
    spec fn key(&self) -> Seq<int>;

    /// Compares the keys of two values: -1, 0 or 1.
    fn compare_keys(&self, other: &Self) -> (r: i8)
        ensures
            r == key_compare(self.key(), other.key()),
    ;

    /// Returns an equal copy of the value.
    fn copy_value(&self) -> (r: Self)
        ensures
            r == *self,
    ;
}

/// Whether some element of `s` has the key `x`.
pub open spec fn seq_has_key<T: SetKey>(s: Seq<T>, x: Seq<int>) -> bool {
    exists|i: int| 0 <= i < s.len() && #[trigger] s[i].key() == x
}

/// Strictly increasing keys.
pub open spec fn strictly_sorted<T: SetKey>(s: Seq<T>) -> bool {
    forall|i: int, j: int| 0 <= i < j < s.len() ==> key_less(#[trigger] s[i].key(), #[trigger] s[j].key())
}

/// A set of values kept in increasing key order without duplicate keys.
#[derive(Debug, PartialEq, Eq, Hash)]
pub struct OrderedSet<T: SetKey> {
    items: Vec<T>,
}

impl<T: SetKey> OrderedSet<T> {
    #[verifier::type_invariant]
    spec fn well_formed(self) -> bool {
        strictly_sorted(self.items@)
    }

    /// The elements in increasing key order.
    pub closed spec fn elements(&self) -> Seq<T> {
        self.items@
    }

    /// Whether some element has the key of `x`.
    pub open spec fn has_key(&self, x: Seq<int>) -> bool {
        seq_has_key(self.elements(), x)
    }

    /// The elements of every set are strictly increasing by key.
    pub fn sorted(&self)
        ensures
            strictly_sorted(self.elements()),
    {
        proof {
            use_type_invariant(self);
        }
    }

    /// Creates an empty set.
    pub fn new() -> (r: Self)
        ensures
            r.elements().len() == 0,
    {
        OrderedSet { items: Vec::new() }
    }

    /// Creates a set holding every value of `values` (later duplicates are dropped).
    pub fn from_vec(values: Vec<T>) -> (r: Self)
        ensures
            forall|x: Seq<int>| r.has_key(x) <==> exists|i: int|
                0 <= i < values@.len() && #[trigger] values@[i].key() == x,
    {
        let mut set = Self::new();
        let mut i: usize = 0;
        while i < values.len()
            invariant
                i <= values@.len(),
                forall|x: Seq<int>| set.has_key(x) <==> exists|j: int|
                    0 <= j < i && #[trigger] values@[j].key() == x,
            decreases values@.len() - i,
        {
            let value = values[i].copy_value();
            set.insert(value);
            proof {
                assert forall|x: Seq<int>| set.has_key(x) <==> exists|j: int|
                    0 <= j < i + 1 && #[trigger] values@[j].key() == x by {
                    if x == values@[i as int].key() {
                        assert(values@[i as int].key() == x);
                    }
                }
            }
            i = i + 1;
        }
        set
    }

    /// The number of elements.
    pub fn len(&self) -> (r: usize)
        ensures
            r == self.elements().len(),
    {
        self.items.len()
    }

    /// Whether the set is empty.
    pub fn is_empty(&self) -> (r: bool)
        ensures
            r == (self.elements().len() == 0),
    {
        self.items.len() == 0
    }

    /// The element at `index` in increasing key order.
    pub fn get(&self, index: usize) -> (r: &T)
        requires
            index < self.elements().len(),
        ensures
            *r == self.elements()[index as int],
    {
        &self.items[index]
    }

    /// Returns whether some element has the key of `value`.
    pub fn contains(&self, value: &T) -> (r: bool)
        ensures
            r == self.has_key(value.key()),
    {
        let mut i: usize = 0;
        while i < self.items.len()
            invariant
                i <= self.items@.len(),
                self.items@ == self.elements(),
                forall|j: int| 0 <= j < i ==> #[trigger] self.items@[j].key() != value.key(),
            decreases self.items@.len() - i,
        {
            if self.items[i].compare_keys(value) == 0 {
                proof {
                    lemma_key_less_irreflexive(value.key());
                }
                return true;
            }
            proof {
                lemma_key_less_irreflexive(value.key());
            }
            i = i + 1;
        }
        false
    }

    /// Adds `value` unless an element with its key is present; returns whether it was added.
    pub fn insert(&mut self, value: T) -> (r: bool)
        ensures
            r == !old(self).has_key(value.key()),
            forall|x: Seq<int>| final(self).has_key(x) <==> (old(self).has_key(x) || x == value.key()),
    {
        proof {
            use_type_invariant(&*self);
        }
        let mut i: usize = 0;
        while i < self.items.len() && self.items[i].compare_keys(&value) == -1
            invariant
                i <= self.items@.len(),
                self.items@ == old(self).elements(),
                strictly_sorted(self.items@),
                forall|j: int| 0 <= j < i ==> key_less(#[trigger] self.items@[j].key(), value.key()),
            decreases self.items@.len() - i,
        {
            i = i + 1;
        }
        let ghost before = self.items@;
        if i < self.items.len() && self.items[i].compare_keys(&value) == 0 {
            proof {
                assert(old(self).elements()[i as int].key() == value.key());
            }
            return false;
        }
        proof {
            if i < before.len() {
                lemma_key_less_total(before[i as int].key(), value.key());
            }
            assert forall|j: int| 0 <= j < before.len() implies #[trigger] before[j].key() != value.key() by {
                if j < i {
                    lemma_key_less_irreflexive(value.key());
                } else if j > i {
                    lemma_key_less_transitive(value.key(), before[i as int].key(), before[j].key());
                    lemma_key_less_irreflexive(value.key());
                } else {
                }
            }
        }
        let ghost added = value.key();
        let mut items: Vec<T> = Vec::new();
        std::mem::swap(&mut items, &mut self.items);
        items.insert(i, value);
        proof {
            let after = items@;
            assert forall|a: int, b: int| 0 <= a < b < after.len() implies key_less(
                #[trigger] after[a].key(),
                #[trigger] after[b].key(),
            ) by {
                if b < i {
                } else if b == i {
                } else if a < i {
                    assert(after[b] == before[b - 1]);
                    lemma_key_less_total(before[i as int].key(), added);
                    if b - 1 > i {
                        lemma_key_less_transitive(added, before[i as int].key(), before[b - 1].key());
                    }
                    lemma_key_less_transitive(after[a].key(), added, after[b].key());
                } else if a == i {
                    assert(after[b] == before[b - 1]);
                    lemma_key_less_total(before[i as int].key(), added);
                    if b - 1 > i {
                        lemma_key_less_transitive(added, before[i as int].key(), before[b - 1].key());
                    }
                } else {
                    assert(after[a] == before[a - 1]);
                    assert(after[b] == before[b - 1]);
                }
            }
            assert forall|x: Seq<int>| seq_has_key(after, x) <==> (#[trigger] seq_has_key(before, x)
                || x == added) by {
                if seq_has_key(before, x) {
                    let j = choose|j: int| 0 <= j < before.len() && #[trigger] before[j].key() == x;
                    if j < i {
                        assert(after[j] == before[j]);
                    } else {
                        assert(after[j + 1] == before[j]);
                    }
                }
                if x == added {
                    assert(after[i as int].key() == x);
                }
                if seq_has_key(after, x) {
                    let j = choose|j: int| 0 <= j < after.len() && #[trigger] after[j].key() == x;
                    if j < i {
                        assert(before[j] == after[j]);
                    } else if j > i {
                        assert(before[j - 1] == after[j]);
                    }
                }
            }
        }
        let ghost after = items@;
        self.items = items;
        assert(self.elements() == after);
        assert(old(self).elements() == before);
        assert forall|x: Seq<int>| self.has_key(x) <==> (old(self).has_key(x) || x == added) by {
            assert(seq_has_key(after, x) <==> (seq_has_key(before, x) || x == added));
        }
        true
    }

    /// Removes the element with the key of `value`; returns whether one was present.
    pub fn remove(&mut self, value: &T) -> (r: bool)
        ensures
            r == old(self).has_key(value.key()),
            forall|x: Seq<int>| final(self).has_key(x) <==> (old(self).has_key(x) && x != value.key()),
    {
        proof {
            use_type_invariant(&*self);
        }
        let mut i: usize = 0;
        while i < self.items.len()
            invariant
                i <= self.items@.len(),
                self.items@ == old(self).elements(),
                strictly_sorted(self.items@),
                forall|j: int| 0 <= j < i ==> #[trigger] self.items@[j].key() != value.key(),
            decreases self.items@.len() - i,
        {
            if self.items[i].compare_keys(value) == 0 {
                let ghost before = self.items@;
                proof {
                    lemma_key_less_irreflexive(value.key());
                    assert forall|j: int| 0 <= j < before.len() && j != i implies #[trigger] before[j].key() != value.key() by {
                        if j < i {
                            lemma_key_less_irreflexive(value.key());
                        } else {
                            lemma_key_less_irreflexive(value.key());
                        }
                    }
                }
                let mut items: Vec<T> = Vec::new();
                std::mem::swap(&mut items, &mut self.items);
                items.remove(i);
                proof {
                    let after = items@;
                    assert forall|a: int, b: int| 0 <= a < b < after.len() implies key_less(
                        #[trigger] after[a].key(),
                        #[trigger] after[b].key(),
                    ) by {
                        if a < i && b >= i {
                            assert(after[b] == before[b + 1]);
                        } else if a >= i {
                            assert(after[a] == before[a + 1]);
                            assert(after[b] == before[b + 1]);
                        }
                    }
                    assert forall|x: Seq<int>| seq_has_key(after, x) <==> (#[trigger] seq_has_key(
                        before,
                        x,
                    ) && x != value.key()) by {
                        if seq_has_key(before, x) && x != value.key() {
                            let j = choose|j: int| 0 <= j < before.len() && #[trigger] before[j].key() == x;
                            if j < i {
                                assert(after[j] == before[j]);
                            } else {
                                assert(j != i);
                                assert(after[j - 1] == before[j]);
                            }
                        }
                        if seq_has_key(after, x) {
                            let j = choose|j: int| 0 <= j < after.len() && #[trigger] after[j].key() == x;
                            if j < i {
                                assert(before[j] == after[j]);
                            } else {
                                assert(before[j + 1] == after[j]);
                                lemma_key_less_irreflexive(x);
                            }
                        }
                    }
                }
                self.items = items;
                return true;
            }
            proof {
                lemma_key_less_irreflexive(value.key());
            }
            i = i + 1;
        }
        proof {
            assert forall|x: Seq<int>| #[trigger] old(self).has_key(x) implies x != value.key() by {
                let j = choose|j: int| 0 <= j < self.items@.len() && #[trigger] self.items@[j].key() == x;
            }
        }
        false
    }

    /// Returns an equal copy of the set.
    pub fn copy_set(&self) -> (r: Self)
        ensures
            r.elements() == self.elements(),
    {
        proof {
            use_type_invariant(self);
        }
        let mut items: Vec<T> = Vec::new();
        let mut i: usize = 0;
        while i < self.items.len()
            invariant
                i <= self.items@.len(),
                items@ == self.items@.take(i as int),
            decreases self.items@.len() - i,
        {
            items.push(self.items[i].copy_value());
            assert(items@ =~= self.items@.take(i + 1));
            i = i + 1;
        }
        assert(items@ =~= self.items@);
        OrderedSet { items }
    }
}

impl<T: SetKey> Clone for OrderedSet<T> {
    fn clone(&self) -> (r: Self)
        ensures
            r.elements() == self.elements(),
    {
        self.copy_set()
    }
}

} // verus!
