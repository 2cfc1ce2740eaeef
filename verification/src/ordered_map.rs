//! A map kept in the order of its keys.
//!
//! Listings served to operators must not reorder themselves between two readings of one state, so
//! every keyed collection of the daemon keeps its entries sorted by key. The map is specified as a
//! mathematical map from what a key denotes to the value stored under it, and its entries as a
//! sequence in strictly increasing key order.

use crate::text::{compare_text, lemma_text_order, text_before, Rank};
use vstd::prelude::*;

verus! {

/// A type whose values can serve as keys: its views are totally ordered.
pub trait OrderedKey: View + Sized {
    /// Strict order on what keys denote.
    spec fn before(a: Self::V, b: Self::V) -> bool;

    /// The order is a strict total order.
    proof fn order_laws(a: Self::V, b: Self::V, c: Self::V)
        ensures
            !Self::before(a, a),
            Self::before(a, b) && Self::before(b, c) ==> Self::before(a, c),
            a == b || Self::before(a, b) || Self::before(b, a),
    ;

    /// Where one key stands relative to another.
    fn rank_against(&self, other: &Self) -> (rank: Rank)
        ensures
            match rank {
                Rank::Before => Self::before(self@, other@),
                Rank::Same => self@ == other@,
                Rank::After => Self::before(other@, self@),
            },
    ;

    /// A second key denoting the same thing.
    fn copy_key(&self) -> (copy: Self)
        ensures
            copy@ == self@,
    ;
}

impl OrderedKey for String {
    open spec fn before(a: Seq<char>, b: Seq<char>) -> bool {
        text_before(a, b)
    }

    proof fn order_laws(a: Seq<char>, b: Seq<char>, c: Seq<char>) {
        lemma_text_order(a, b, c);
    }

    fn rank_against(&self, other: &Self) -> (rank: Rank) {
        compare_text(self.as_str(), other.as_str())
    }

    fn copy_key(&self) -> (copy: Self) {
        self.clone()
    }
}

/// Entries sorted by strictly increasing key.
#[verifier::reject_recursive_types(K)]
#[verifier::reject_recursive_types(V)]
#[derive(Debug, PartialEq)]
pub struct OrderedMap<K: OrderedKey, V> {
    entries: Vec<(K, V)>,
}

/// Whether entries are in strictly increasing key order.
pub open spec fn sorted_by_key<K: OrderedKey, V>(entries: Seq<(K, V)>) -> bool {
    forall|i: int, j: int|
        0 <= i < j < entries.len() ==> K::before(#[trigger] entries[i].0@, #[trigger] entries[j].0@)
}

/// Whether some entry has this key.
pub open spec fn holds_key<K: OrderedKey, V>(entries: Seq<(K, V)>, key: K::V) -> bool {
    exists|i: int| 0 <= i < entries.len() && (#[trigger] entries[i]).0@ == key
}

/// The map that a sequence of entries denotes.
pub open spec fn map_of<K: OrderedKey, V>(entries: Seq<(K, V)>) -> Map<K::V, V> {
    Map::new(
        |key: K::V| holds_key(entries, key),
        |key: K::V|
            entries[choose|i: int| 0 <= i < entries.len() && (#[trigger] entries[i]).0@ == key].1,
    )
}

/// In sorted entries, the value under an entry's key is that entry's value.
pub proof fn lemma_map_of_entry<K: OrderedKey, V>(entries: Seq<(K, V)>, i: int)
    requires
        sorted_by_key(entries),
        0 <= i < entries.len(),
    ensures
        map_of(entries).contains_key(entries[i].0@),
        map_of(entries)[entries[i].0@] == entries[i].1,
{
    let key = entries[i].0@;
    assert(holds_key(entries, key));
    let j = choose|j: int| 0 <= j < entries.len() && (#[trigger] entries[j]).0@ == key;
    K::order_laws(key, key, key);
    if j < i {
        assert(K::before(entries[j].0@, entries[i].0@));
    } else if i < j {
        assert(K::before(entries[i].0@, entries[j].0@));
    }
}

/// Sorted entries denote a finite map with one key for each entry.
pub proof fn lemma_map_of_size<K: OrderedKey, V>(entries: Seq<(K, V)>)
    requires
        sorted_by_key(entries),
    ensures
        map_of(entries).dom().finite(),
        map_of(entries).len() == entries.len(),
    decreases entries.len(),
{
    if entries.len() == 0 {
        assert(map_of(entries).dom() =~= Set::<K::V>::empty());
    } else {
        let last = entries.len() - 1;
        let rest = entries.remove(last);
        lemma_removed(entries, last);
        lemma_map_of_size(rest);
        lemma_map_of_entry(entries, last);
        assert(map_of(entries).dom() =~= map_of(rest).dom().insert(entries[last].0@));
    }
}

impl<K: OrderedKey, V> View for OrderedMap<K, V> {
    type V = Map<K::V, V>;

    open spec fn view(&self) -> Map<K::V, V> {
        map_of(self.listed())
    }
}

impl<K: OrderedKey, V: Clone> Clone for OrderedMap<K, V> {
    fn clone(&self) -> (copy: Self)
        ensures
            copy.listed().len() == self.listed().len(),
            forall|i: int|
                0 <= i < self.listed().len() ==> (#[trigger] copy.listed()[i]).0@
                    == self.listed()[i].0@ && cloned(self.listed()[i].1, copy.listed()[i].1),
    {
        proof {
            use_type_invariant(self);
        }
        let mut entries: Vec<(K, V)> = Vec::new();
        let mut i: usize = 0;
        while i < self.entries.len()
            invariant
                i <= self.entries.len(),
                entries.len() == i,
                forall|j: int|
                    0 <= j < i ==> (#[trigger] entries@[j]).0@ == self.entries@[j].0@ && cloned(
                        self.entries@[j].1,
                        entries@[j].1,
                    ),
            decreases self.entries.len() - i,
        {
            entries.push((self.entries[i].0.copy_key(), self.entries[i].1.clone()));
            i = i + 1;
        }
        proof {
            assert forall|p: int, q: int| 0 <= p < q < entries@.len() implies K::before(
                #[trigger] entries@[p].0@,
                #[trigger] entries@[q].0@,
            ) by {
                assert(K::before(self.entries@[p].0@, self.entries@[q].0@));
            }
        }
        OrderedMap { entries }
    }
}

impl<K: OrderedKey, V> OrderedMap<K, V> {
    #[verifier::type_invariant]
    spec fn in_order(self) -> bool {
        sorted_by_key(self.entries@)
    }

    /// The entries, in key order.
    pub closed spec fn listed(&self) -> Seq<(K, V)> {
        self.entries@
    }

    /// An empty map.
    pub fn new() -> (map: Self)
        ensures
            map@ == Map::<K::V, V>::empty(),
            map.listed() == Seq::<(K, V)>::empty(),
    {
        let map = OrderedMap { entries: Vec::new() };
        assert(map@ =~= Map::<K::V, V>::empty());
        map
    }

    /// How many entries there are.
    pub fn len(&self) -> (count: usize)
        ensures
            count == self.listed().len(),
            count == self@.len(),
            self@.dom().finite(),
            sorted_by_key(self.listed()),
    {
        proof {
            use_type_invariant(self);
            lemma_map_of_size(self.listed());
        }
        self.entries.len()
    }

    /// Whether there are no entries.
    pub fn is_empty(&self) -> (empty: bool)
        ensures
            empty == (self.listed().len() == 0),
            empty == (self@ =~= Map::<K::V, V>::empty()),
    {
        proof {
            use_type_invariant(self);
            if self.listed().len() > 0 {
                lemma_map_of_entry(self.listed(), 0);
            }
        }
        self.entries.len() == 0
    }

    /// The entry at a position in key order.
    pub fn entry_at(&self, i: usize) -> (entry: (&K, &V))
        requires
            i < self.listed().len(),
        ensures
            *entry.0 == self.listed()[i as int].0,
            *entry.1 == self.listed()[i as int].1,
            sorted_by_key(self.listed()),
            self@.contains_key(entry.0@),
            self@[entry.0@] == *entry.1,
    {
        proof {
            use_type_invariant(self);
            lemma_map_of_entry(self.listed(), i as int);
        }
        (&self.entries[i].0, &self.entries[i].1)
    }

    /// The first position whose key is not before `key`.
    fn seat(&self, key: &K) -> (at: usize)
        ensures
            at <= self.listed().len(),
            forall|i: int| 0 <= i < at ==> K::before((#[trigger] self.listed()[i]).0@, key@),
            forall|i: int|
                at <= i < self.listed().len() ==> !K::before(
                    (#[trigger] self.listed()[i]).0@,
                    key@,
                ),
    {
        proof {
            use_type_invariant(self);
        }
        let mut low: usize = 0;
        let mut high: usize = self.entries.len();
        while low < high
            invariant
                low <= high <= self.entries@.len(),
                sorted_by_key(self.entries@),
                forall|i: int| 0 <= i < low ==> K::before((#[trigger] self.entries@[i]).0@, key@),
                forall|i: int|
                    high <= i < self.entries@.len() ==> !K::before(
                        (#[trigger] self.entries@[i]).0@,
                        key@,
                    ),
            decreases high - low,
        {
            let middle: usize = low + (high - low) / 2;
            let rank = self.entries[middle].0.rank_against(key);
            match rank {
                Rank::Before => {
                    proof {
                        assert forall|i: int| 0 <= i < middle + 1 implies K::before(
                            (#[trigger] self.entries@[i]).0@,
                            key@,
                        ) by {
                            K::order_laws(
                                self.entries@[i].0@,
                                self.entries@[middle as int].0@,
                                key@,
                            );
                        }
                    }
                    low = middle + 1;
                },
                _ => {
                    proof {
                        assert forall|i: int| middle <= i < self.entries@.len() implies !K::before(
                            (#[trigger] self.entries@[i]).0@,
                            key@,
                        ) by {
                            let m = self.entries@[middle as int].0@;
                            let e = self.entries@[i].0@;
                            K::order_laws(m, e, key@);
                            K::order_laws(key@, m, key@);
                            K::order_laws(m, key@, m);
                        }
                    }
                    high = middle;
                },
            }
        }
        low
    }

    /// The position of a key.
    pub fn position(&self, key: &K) -> (found: Option<usize>)
        ensures
            match found {
                Some(i) => {
                    &&& i < self.listed().len()
                    &&& self.listed()[i as int].0@ == key@
                    &&& self@.contains_key(key@)
                    &&& self@[key@] == self.listed()[i as int].1
                },
                None => !self@.contains_key(key@),
            },
    {
        let at = self.seat(key);
        proof {
            use_type_invariant(self);
        }
        if at < self.entries.len() {
            let rank = self.entries[at].0.rank_against(key);
            if let Rank::Same = rank {
                proof {
                    lemma_map_of_entry(self.listed(), at as int);
                }
                return Some(at);
            }
            proof {
                assert(K::before(key@, self.entries@[at as int].0@));
            }
        }
        proof {
            assert forall|i: int| 0 <= i < self.listed().len() implies (
            #[trigger] self.listed()[i]).0@ != key@ by {
                K::order_laws(key@, key@, key@);
                if at <= i {
                    K::order_laws(
                        key@,
                        self.entries@[at as int].0@,
                        self.entries@[i].0@,
                    );
                }
            }
            assert(!holds_key(self.listed(), key@));
        }
        None
    }

    /// Whether a key is present.
    pub fn contains(&self, key: &K) -> (present: bool)
        ensures
            present == self@.contains_key(key@),
    {
        self.position(key).is_some()
    }

    /// The value under a key.
    pub fn get(&self, key: &K) -> (found: Option<&V>)
        ensures
            match found {
                Some(value) => self@.contains_key(key@) && self@[key@] == *value,
                None => !self@.contains_key(key@),
            },
    {
        match self.position(key) {
            Some(i) => Some(&self.entries[i].1),
            None => None,
        }
    }

    /// Stores a value under a key, replacing what was there.
    pub fn insert(&mut self, key: K, value: V)
        ensures
            final(self)@ == old(self)@.insert(key@, value),
            sorted_by_key(final(self).listed()),
    {
        proof {
            use_type_invariant(&*self);
        }
        let at = self.seat(&key);
        let present: bool = if at < self.entries.len() {
            match self.entries[at].0.rank_against(&key) {
                Rank::Same => true,
                _ => false,
            }
        } else {
            false
        };
        let mut entries: Vec<(K, V)> = Vec::new();
        std::mem::swap(&mut entries, &mut self.entries);
        let ghost before = entries@;
        if present {
            entries.set(at, (key, value));
            proof {
                lemma_replaced(before, at as int, key, value);
            }
        } else {
            entries.insert(at, (key, value));
            proof {
                assert(at < before.len() ==> K::before(key@, before[at as int].0@)) by {
                    if at < before.len() {
                        K::order_laws(before[at as int].0@, key@, key@);
                    }
                }
                lemma_inserted(before, at as int, key, value);
            }
        }
        self.entries = entries;
        assert(self@ =~= old(self)@.insert(key@, value));
    }

    /// Removes the entry at a position in key order and returns its value.
    pub fn remove_at(&mut self, i: usize) -> (value: V)
        requires
            i < old(self).listed().len(),
        ensures
            final(self).listed() == old(self).listed().remove(i as int),
            final(self)@ == old(self)@.remove(old(self).listed()[i as int].0@),
            value == old(self).listed()[i as int].1,
            old(self)@.contains_key(old(self).listed()[i as int].0@),
    {
        proof {
            use_type_invariant(&*self);
            lemma_map_of_entry(self.listed(), i as int);
        }
        let mut entries: Vec<(K, V)> = Vec::new();
        std::mem::swap(&mut entries, &mut self.entries);
        let ghost before = entries@;
        let (_key, value) = entries.remove(i);
        proof {
            lemma_removed(before, i as int);
        }
        self.entries = entries;
        value
    }

    /// Removes a key and returns the value that was under it.
    pub fn remove(&mut self, key: &K) -> (removed: Option<V>)
        ensures
            final(self)@ == old(self)@.remove(key@),
            match removed {
                Some(value) => old(self)@.contains_key(key@) && old(self)@[key@] == value,
                None => !old(self)@.contains_key(key@),
            },
    {
        match self.position(key) {
            Some(i) => Some(self.remove_at(i)),
            None => {
                assert(self@ =~= self@.remove(key@));
                None
            },
        }
    }
}

proof fn lemma_replaced<K: OrderedKey, V>(entries: Seq<(K, V)>, at: int, key: K, value: V)
    requires
        sorted_by_key(entries),
        0 <= at < entries.len(),
        entries[at].0@ == key@,
    ensures
        sorted_by_key(entries.update(at, (key, value))),
        map_of(entries.update(at, (key, value))) =~= map_of(entries).insert(key@, value),
{
    let after = entries.update(at, (key, value));
    assert forall|i: int| 0 <= i < entries.len() implies (#[trigger] after[i]).0@
        == entries[i].0@ by {}
    assert forall|i: int, j: int| 0 <= i < j < after.len() implies K::before(
        #[trigger] after[i].0@,
        #[trigger] after[j].0@,
    ) by {
        assert(K::before(entries[i].0@, entries[j].0@));
    }
    lemma_map_of_entry(after, at);
    assert forall|k: K::V| map_of(after).contains_key(k) == map_of(entries).insert(
        key@,
        value,
    ).contains_key(k) by {
        if holds_key(after, k) {
            let i = choose|i: int| 0 <= i < after.len() && (#[trigger] after[i]).0@ == k;
            assert(entries[i].0@ == k);
        }
        if holds_key(entries, k) {
            let i = choose|i: int| 0 <= i < entries.len() && (#[trigger] entries[i]).0@ == k;
            assert(after[i].0@ == k);
        }
    }
    assert forall|k: K::V| map_of(after).contains_key(k) implies map_of(after)[k] == map_of(
        entries,
    ).insert(key@, value)[k] by {
        let i = choose|i: int| 0 <= i < after.len() && (#[trigger] after[i]).0@ == k;
        lemma_map_of_entry(after, i);
        lemma_map_of_entry(entries, i);
    }
}

proof fn lemma_inserted<K: OrderedKey, V>(entries: Seq<(K, V)>, at: int, key: K, value: V)
    requires
        sorted_by_key(entries),
        0 <= at <= entries.len(),
        forall|i: int| 0 <= i < at ==> K::before((#[trigger] entries[i]).0@, key@),
        at < entries.len() ==> K::before(key@, entries[at].0@),
    ensures
        sorted_by_key(entries.insert(at, (key, value))),
        map_of(entries.insert(at, (key, value))) =~= map_of(entries).insert(key@, value),
{
    let after = entries.insert(at, (key, value));
    assert forall|i: int| at <= i < entries.len() implies K::before(
        key@,
        (#[trigger] entries[i]).0@,
    ) by {
        if at < i {
            K::order_laws(key@, entries[at].0@, entries[i].0@);
        }
    }
    assert forall|i: int, j: int| 0 <= i < j < after.len() implies K::before(
        #[trigger] after[i].0@,
        #[trigger] after[j].0@,
    ) by {
        let p = if i < at { i } else { i - 1 };
        let q = if j < at { j } else { j - 1 };
        if i != at && j != at {
            assert(K::before(entries[p].0@, entries[q].0@));
        } else if i == at {
            assert(K::before(key@, entries[q].0@));
        } else {
            assert(K::before(entries[p].0@, key@));
        }
    }
    assert forall|k: K::V| map_of(after).contains_key(k) == map_of(entries).insert(
        key@,
        value,
    ).contains_key(k) by {
        if holds_key(after, k) {
            let i = choose|i: int| 0 <= i < after.len() && (#[trigger] after[i]).0@ == k;
            if i < at {
                assert(entries[i].0@ == k);
            } else if i > at {
                assert(entries[i - 1].0@ == k);
            }
        }
        if holds_key(entries, k) {
            let i = choose|i: int| 0 <= i < entries.len() && (#[trigger] entries[i]).0@ == k;
            if i < at {
                assert(after[i].0@ == k);
            } else {
                assert(after[i + 1].0@ == k);
            }
        }
        assert(after[at].0@ == key@);
    }
    assert forall|k: K::V| map_of(after).contains_key(k) implies map_of(after)[k] == map_of(
        entries,
    ).insert(key@, value)[k] by {
        let i = choose|i: int| 0 <= i < after.len() && (#[trigger] after[i]).0@ == k;
        lemma_map_of_entry(after, i);
        K::order_laws(key@, key@, key@);
        if i < at {
            lemma_map_of_entry(entries, i);
            assert(K::before(entries[i].0@, key@));
        } else if i > at {
            lemma_map_of_entry(entries, i - 1);
            assert(K::before(key@, entries[i - 1].0@));
        }
    }
}

/// Dropping an entry from sorted entries drops exactly its key.
pub proof fn lemma_removed<K: OrderedKey, V>(entries: Seq<(K, V)>, at: int)
    requires
        sorted_by_key(entries),
        0 <= at < entries.len(),
    ensures
        sorted_by_key(entries.remove(at)),
        map_of(entries.remove(at)) =~= map_of(entries).remove(entries[at].0@),
{
    let after = entries.remove(at);
    let key = entries[at].0@;
    assert forall|i: int, j: int| 0 <= i < j < after.len() implies K::before(
        #[trigger] after[i].0@,
        #[trigger] after[j].0@,
    ) by {
        let p = if i < at { i } else { i + 1 };
        let q = if j < at { j } else { j + 1 };
        assert(K::before(entries[p].0@, entries[q].0@));
    }
    K::order_laws(key, key, key);
    assert forall|k: K::V| map_of(after).contains_key(k) == map_of(entries).remove(
        key,
    ).contains_key(k) by {
        if holds_key(after, k) {
            let i = choose|i: int| 0 <= i < after.len() && (#[trigger] after[i]).0@ == k;
            let p = if i < at { i } else { i + 1 };
            assert(entries[p].0@ == k);
            if p < at {
                assert(K::before(entries[p].0@, entries[at].0@));
            } else {
                assert(K::before(entries[at].0@, entries[p].0@));
            }
        }
        if holds_key(entries, k) && k != key {
            let i = choose|i: int| 0 <= i < entries.len() && (#[trigger] entries[i]).0@ == k;
            if i < at {
                assert(after[i].0@ == k);
            } else {
                assert(after[i - 1].0@ == k);
            }
        }
    }
    assert forall|k: K::V| map_of(after).contains_key(k) implies map_of(after)[k] == map_of(
        entries,
    ).remove(key)[k] by {
        let i = choose|i: int| 0 <= i < after.len() && (#[trigger] after[i]).0@ == k;
        lemma_map_of_entry(after, i);
        lemma_map_of_entry(entries, if i < at { i } else { i + 1 });
    }
}

} // verus!
