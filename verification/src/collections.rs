//! Ordered maps and sets keyed by byte strings: the `BTreeMap` and
//! `BTreeSet` of the ledger models whose keys are digests and addresses,
//! held in vectors kept sorted. vstd specifies std's ordered collections
//! only for keys that obey its model of `Ord`, which it states for numbers
//! and tuples of them, not for byte strings; the models keyed by numbers
//! use std's `BTreeSet` itself.

use crate::bytes::{bytes_equal, bytes_less, bytes_lt, lemma_bytes_lt_irreflexive, lemma_bytes_lt_total, lemma_bytes_lt_transitive};
use crate::store::items::{
    has_key, items_map, key_index, lemma_key_index, lemma_sorted_insert, lemma_sorted_remove,
    lemma_sorted_update, sorted_keys,
};
use vstd::pervasive::VecAdditionalExecFns;
use vstd::prelude::*;

verus! {

/// The key-value pairs of byte strings and values that a vector holds.
pub open spec fn entries_of<V>(v: Seq<(Vec<u8>, V)>) -> Seq<(Seq<u8>, V)> {
    v.map_values(|e: (Vec<u8>, V)| (e.0@, e.1))
}

/// A sorted sequence of pairs stands for a map with as many keys as pairs.
pub proof fn lemma_items_map_len<V>(s: Seq<(Seq<u8>, V)>)
    requires
        sorted_keys(s),
    ensures
        items_map(s).dom().finite(),
        items_map(s).dom().len() == s.len(),
    decreases s.len(),
{
    if s.len() == 0 {
        assert(items_map(s).dom() =~= Set::<Seq<u8>>::empty());
    } else {
        let d = s.drop_last();
        assert(sorted_keys(d)) by {
            assert forall|i: int, j: int| 0 <= i < j < d.len() implies bytes_lt(#[trigger] d[i].0, #[trigger] d[j].0) by {
                assert(d[i] == s[i] && d[j] == s[j]);
            }
        }
        lemma_items_map_len(d);
        let k = s.last().0;
        assert(s == d.insert(d.len() as int, (k, s.last().1)));
        lemma_sorted_insert(d, d.len() as int, k, s.last().1);
        assert forall|j: int| 0 <= j < d.len() implies bytes_lt(#[trigger] d[j].0, k) by {
            assert(d[j] == s[j]);
        }
        assert(items_map(s).dom() =~= items_map(d).dom().insert(k));
    }
}

/// `ByteMap` is an ordered map from byte strings to values.
#[derive(PartialEq, Eq, PartialOrd, Ord, Debug, Hash)]
pub struct ByteMap<V> {
    entries: Vec<(Vec<u8>, V)>,
}

impl<V> View for ByteMap<V> {
    type V = Map<Seq<u8>, V>;

    open spec fn view(&self) -> Map<Seq<u8>, V> {
        items_map(self.items())
    }
}

impl<V> ByteMap<V> {
    /// The pairs of the map, ordered by key.
    pub closed spec fn items(&self) -> Seq<(Seq<u8>, V)> {
        entries_of(self.entries@)
    }

    /// The keys are ordered and unique.
    #[verifier::type_invariant]
    spec fn wf(&self) -> bool {
        sorted_keys(self.items())
    }
}

impl<V> ByteMap<V> {
    /// An empty map.
    pub fn new() -> (r: ByteMap<V>)
        ensures
            r@ == Map::<Seq<u8>, V>::empty(),
            r.items().len() == 0,
    {
        let r = ByteMap { entries: Vec::new() };
        assert(r.items() =~= Seq::<(Seq<u8>, V)>::empty());
        assert(r@ =~= Map::<Seq<u8>, V>::empty());
        r
    }

    /// The keys of a well-formed map, in order, are its domain.
    proof fn lemma_items(&self)
        requires
            sorted_keys(self.items()),
        ensures
            sorted_keys(self.items()),
            self@.dom().finite(),
            self@.dom().len() == self.items().len(),
            forall|i: int| 0 <= i < self.items().len() ==> #[trigger] self@.contains_key(self.items()[i].0)
                && self@[self.items()[i].0] == self.items()[i].1,
            forall|k: Seq<u8>| #[trigger] self@.contains_key(k) ==> exists|i: int| 0 <= i < self.items().len()
                && (#[trigger] self.items()[i]).0 == k,
    {
        lemma_items_map_len(self.items());
        assert forall|i: int| 0 <= i < self.items().len() implies #[trigger] self@.contains_key(self.items()[i].0)
            && self@[self.items()[i].0] == self.items()[i].1 by {
            lemma_key_index(self.items(), i);
        }
    }

    /// The number of keys; the keys in order are the domain of the map.
    pub fn len(&self) -> (r: usize)
        ensures
            r == self@.len(),
            r == self.items().len(),
            sorted_keys(self.items()),
            self@.dom().finite(),
            forall|i: int| #![trigger self.items()[i]] 0 <= i < self.items().len() ==> self@.contains_key(self.items()[i].0)
                && self@[self.items()[i].0] == self.items()[i].1,
            forall|k: Seq<u8>| #[trigger] self@.contains_key(k) ==> exists|i: int| 0 <= i < self.items().len()
                && (#[trigger] self.items()[i]).0 == k,
    {
        proof {
            use_type_invariant(self);
            self.lemma_items();
        }
        self.entries.len()
    }

    /// Whether the map has no key.
    pub fn is_empty(&self) -> (r: bool)
        ensures
            r == (self@.len() == 0),
    {
        self.len() == 0
    }

    /// The `i`th key, in key order.
    pub fn key_at(&self, i: usize) -> (r: &[u8])
        requires
            i < self.items().len(),
        ensures
            r@ == self.items()[i as int].0,
    {
        self.entries[i].0.as_slice()
    }

    /// The `i`th value, in key order, by reference.
    pub fn value_ref(&self, i: usize) -> (r: &V)
        requires
            i < self.items().len(),
        ensures
            *r == self.items()[i as int].1,
    {
        &self.entries[i].1
    }

    /// The first index whose key does not come before `key`, and whether
    /// its key is `key`.
    fn find(&self, key: &[u8]) -> (r: (usize, bool))
        ensures
            r.0 <= self.items().len(),
            forall|j: int| 0 <= j < r.0 ==> bytes_lt(#[trigger] self.items()[j].0, key@),
            r.1 <==> self@.contains_key(key@),
            r.1 ==> r.0 < self.items().len() && self.items()[r.0 as int].0 == key@ && self@[key@]
                == self.items()[r.0 as int].1,
            !r.1 ==> (r.0 < self.items().len() ==> bytes_lt(key@, self.items()[r.0 as int].0)),
    {
        proof {
            use_type_invariant(self);
        }
        let ghost s = self.items();
        let mut i: usize = 0;
        while i < self.entries.len() && bytes_less(self.entries[i].0.as_slice(), key)
            invariant
                s == self.items(),
                s == entries_of(self.entries@),
                i <= self.entries@.len(),
                forall|j: int| 0 <= j < i ==> bytes_lt(#[trigger] s[j].0, key@),
            decreases self.entries@.len() - i,
        {
            i += 1;
        }
        let found = i < self.entries.len() && bytes_equal(self.entries[i].0.as_slice(), key);
        proof {
            if found {
                lemma_key_index(s, i as int);
            } else {
                if i < s.len() {
                    lemma_bytes_lt_total(key@, s[i as int].0);
                }
                if has_key(s, key@) {
                    let j = choose|j: int| 0 <= j < s.len() && (#[trigger] s[j]).0 == key@;
                    lemma_bytes_lt_irreflexive(key@);
                    if j > i {
                        assert(bytes_lt(s[i as int].0, s[j].0));
                        lemma_bytes_lt_transitive(key@, s[i as int].0, s[j].0);
                    }
                }
            }
        }
        (i, found)
    }

    /// Whether the map has the key.
    pub fn contains(&self, key: &[u8]) -> (r: bool)
        ensures
            r == self@.contains_key(key@),
    {
        let (_i, found) = self.find(key);
        found
    }

    /// The value of the key, by reference, if the map has it.
    pub fn get_ref(&self, key: &[u8]) -> (r: Option<&V>)
        ensures
            match r {
                Some(v) => self@.contains_key(key@) && *v == self@[key@],
                None => !self@.contains_key(key@),
            },
    {
        let (i, found) = self.find(key);
        if found {
            Some(&self.entries[i].1)
        } else {
            None
        }
    }

    /// Maps the key to the value, in place of any value it had.
    pub fn insert(&mut self, key: &[u8], value: V)
        ensures
            final(self)@ == old(self)@.insert(key@, value),
    {
        proof {
            use_type_invariant(&*self);
        }
        let ghost s = self.items();
        let (i, found) = self.find(key);
        let item = (crate::bytes::copy_bytes(key), value);
        let mut entries: Vec<(Vec<u8>, V)> = Vec::new();
        std::mem::swap(&mut entries, &mut self.entries);
        assert(entries_of(entries@) == s);
        if found {
            entries.set(i, item);
            proof {
                assert(entries_of(entries@) =~= s.update(i as int, (key@, value)));
                lemma_sorted_update(s, i as int, value);
            }
        } else {
            entries.insert(i, item);
            proof {
                assert(entries_of(entries@) =~= s.insert(i as int, (key@, value)));
                lemma_sorted_insert(s, i as int, key@, value);
            }
        }
        *self = ByteMap { entries };
    }

    /// Removes the key, and tells whether the map had it.
    pub fn remove(&mut self, key: &[u8]) -> (r: bool)
        ensures
            r == old(self)@.contains_key(key@),
            final(self)@ == old(self)@.remove(key@),
    {
        proof {
            use_type_invariant(&*self);
        }
        let ghost s = self.items();
        let (i, found) = self.find(key);
        if !found {
            assert(old(self)@.remove(key@) =~= old(self)@);
            return false;
        }
        let mut entries: Vec<(Vec<u8>, V)> = Vec::new();
        std::mem::swap(&mut entries, &mut self.entries);
        assert(entries_of(entries@) == s);
        entries.remove(i);
        proof {
            assert(entries_of(entries@) =~= s.remove(i as int));
            lemma_sorted_remove(s, i as int);
        }
        *self = ByteMap { entries };
        true
    }

    /// Removes every key.
    pub fn clear(&mut self)
        ensures
            final(self)@ == Map::<Seq<u8>, V>::empty(),
            final(self).items().len() == 0,
    {
        *self = ByteMap::new();
    }
}

impl<V: Copy> ByteMap<V> {
    /// The `i`th value, in key order.
    pub fn value_at(&self, i: usize) -> (r: V)
        requires
            i < self.items().len(),
        ensures
            r == self.items()[i as int].1,
    {
        self.entries[i].1
    }

    /// The value of the key, if the map has it.
    pub fn get(&self, key: &[u8]) -> (r: Option<V>)
        ensures
            match r {
                Some(v) => self@.contains_key(key@) && v == self@[key@],
                None => !self@.contains_key(key@),
            },
    {
        let (i, found) = self.find(key);
        if found {
            Some(self.entries[i].1)
        } else {
            None
        }
    }

}

impl<V: Copy> Clone for ByteMap<V> {
    /// A copy of the map.
    fn clone(&self) -> (r: ByteMap<V>)
        ensures
            r@ == self@,
            r.items() == self.items(),
    {
        proof {
            use_type_invariant(self);
        }
        let mut entries: Vec<(Vec<u8>, V)> = Vec::new();
        let mut i: usize = 0;
        while i < self.entries.len()
            invariant
                i <= self.entries@.len(),
                entries_of(entries@) == entries_of(self.entries@).take(i as int),
            decreases self.entries@.len() - i,
        {
            let item = (crate::bytes::copy_bytes(self.entries[i].0.as_slice()), self.entries[i].1);
            let ghost prev = entries_of(entries@);
            entries.push(item);
            assert(entries_of(entries@) =~= prev.push((self.entries@[i as int].0@, self.entries@[i as int].1)));
            i += 1;
            assert(entries_of(entries@) =~= entries_of(self.entries@).take(i as int));
        }
        assert(entries_of(self.entries@).take(i as int) =~= entries_of(self.entries@));
        ByteMap { entries }
    }
}

impl<V> Default for ByteMap<V> {
    /// An empty map.
    fn default() -> (r: ByteMap<V>)
        ensures
            r@ == Map::<Seq<u8>, V>::empty(),
    {
        ByteMap::new()
    }
}

/// `ByteSet` is an ordered set of byte strings.
#[derive(PartialEq, Eq, PartialOrd, Ord, Debug, Hash)]
pub struct ByteSet {
    map: ByteMap<()>,
}

impl View for ByteSet {
    type V = Set<Seq<u8>>;

    open spec fn view(&self) -> Set<Seq<u8>> {
        self.members()@.dom()
    }
}

impl ByteSet {
    /// The map from the members to nothing.
    pub closed spec fn members(&self) -> ByteMap<()> {
        self.map
    }

    /// The members of the set, in order.
    pub open spec fn elems(&self) -> Seq<Seq<u8>> {
        self.members().items().map_values(|e: (Seq<u8>, ())| e.0)
    }

    /// An empty set.
    pub fn new() -> (r: ByteSet)
        ensures
            r@ == Set::<Seq<u8>>::empty(),
            r.elems().len() == 0,
    {
        let r = ByteSet { map: ByteMap::new() };
        assert(r@ =~= Set::<Seq<u8>>::empty());
        r
    }

    /// The members of a well-formed set, in order, are the set.
    proof fn lemma_elems(&self)
        requires
            sorted_keys(self.members().items()),
        ensures
            self@.finite(),
            self@.len() == self.elems().len(),
            forall|i: int| 0 <= i < self.elems().len() ==> #[trigger] self@.contains(self.elems()[i]),
            forall|k: Seq<u8>| #[trigger] self@.contains(k) ==> exists|i: int| 0 <= i < self.elems().len()
                && #[trigger] self.elems()[i] == k,
            forall|i: int, j: int| 0 <= i < j < self.elems().len() ==> bytes_lt(#[trigger] self.elems()[i], #[trigger] self.elems()[j]),
    {
        self.members().lemma_items();
        let s = self.members().items();
        assert forall|k: Seq<u8>| #[trigger] self@.contains(k) implies exists|i: int| 0 <= i < self.elems().len()
            && #[trigger] self.elems()[i] == k by {
            let i = choose|i: int| 0 <= i < s.len() && (#[trigger] s[i]).0 == k;
            assert(self.elems()[i] == k);
        }
    }

    /// The number of members; the members in order are the set.
    pub fn len(&self) -> (r: usize)
        ensures
            r == self@.len(),
            r == self.elems().len(),
            self@.finite(),
            forall|i: int| 0 <= i < self.elems().len() ==> #[trigger] self@.contains(self.elems()[i]),
            forall|k: Seq<u8>| #[trigger] self@.contains(k) ==> exists|i: int| 0 <= i < self.elems().len()
                && #[trigger] self.elems()[i] == k,
            forall|i: int, j: int| 0 <= i < j < self.elems().len() ==> bytes_lt(#[trigger] self.elems()[i], #[trigger] self.elems()[j]),
    {
        let r = self.map.len();
        proof {
            self.lemma_elems();
        }
        r
    }

    /// Whether the set has no member.
    pub fn is_empty(&self) -> (r: bool)
        ensures
            r == (self@.len() == 0),
    {
        self.len() == 0
    }

    /// The `i`th member, in order.
    pub fn at(&self, i: usize) -> (r: &[u8])
        requires
            i < self.elems().len(),
        ensures
            r@ == self.elems()[i as int],
    {
        self.map.key_at(i)
    }

    /// Whether the set has the member.
    pub fn contains(&self, key: &[u8]) -> (r: bool)
        ensures
            r == self@.contains(key@),
    {
        self.map.contains(key)
    }

    /// Adds a member.
    pub fn insert(&mut self, key: &[u8])
        ensures
            final(self)@ == old(self)@.insert(key@),
    {
        let mut map = ByteMap::new();
        std::mem::swap(&mut map, &mut self.map);
        map.insert(key, ());
        self.map = map;
        assert(final(self)@ =~= old(self)@.insert(key@));
    }

    /// Removes a member, and tells whether the set had it.
    pub fn remove(&mut self, key: &[u8]) -> (r: bool)
        ensures
            r == old(self)@.contains(key@),
            final(self)@ == old(self)@.remove(key@),
    {
        let mut map = ByteMap::new();
        std::mem::swap(&mut map, &mut self.map);
        let r = map.remove(key);
        self.map = map;
        assert(final(self)@ =~= old(self)@.remove(key@));
        r
    }

    /// Removes every member.
    pub fn clear(&mut self)
        ensures
            final(self)@ == Set::<Seq<u8>>::empty(),
    {
        *self = ByteSet::new();
    }

    /// Whether every member of this set is one of `other`.
    pub fn is_subset_of(&self, other: &ByteSet) -> (r: bool)
        ensures
            r == self@.subset_of(other@),
    {
        let n = self.len();
        let mut i: usize = 0;
        while i < n
            invariant
                n == self.elems().len(),
                i <= n,
                forall|j: int| 0 <= j < i ==> other@.contains(#[trigger] self.elems()[j]),
            decreases n - i,
        {
            if !other.contains(self.at(i)) {
                assert(self@.contains(self.elems()[i as int]));
                return false;
            }
            i += 1;
        }
        proof {
            assert forall|k: Seq<u8>| #[trigger] self@.contains(k) implies other@.contains(k) by {
                let j = choose|j: int| 0 <= j < self.elems().len() && #[trigger] self.elems()[j] == k;
            }
        }
        true
    }

    /// Whether the two sets have the same members.
    pub fn same_members(&self, other: &ByteSet) -> (r: bool)
        ensures
            r == (self@ == other@),
    {
        let n = self.len();
        let m = other.len();
        if n != m {
            return false;
        }
        let mut i: usize = 0;
        while i < n
            invariant
                n == self.elems().len(),
                i <= n,
                forall|j: int| 0 <= j < i ==> other@.contains(#[trigger] self.elems()[j]),
            decreases n - i,
        {
            if !other.contains(self.at(i)) {
                assert(self@.contains(self.elems()[i as int]));
                return false;
            }
            i += 1;
        }
        proof {
            assert forall|k: Seq<u8>| #[trigger] self@.contains(k) implies other@.contains(k) by {
                let j = choose|j: int| 0 <= j < self.elems().len() && #[trigger] self.elems()[j] == k;
            }
            vstd::set_lib::lemma_subset_equality(self@, other@);
        }
        true
    }
}

impl Clone for ByteSet {
    /// A copy of the set.
    fn clone(&self) -> (r: ByteSet)
        ensures
            r@ == self@,
    {
        ByteSet { map: self.map.clone() }
    }
}

impl Default for ByteSet {
    /// An empty set.
    fn default() -> (r: ByteSet)
        ensures
            r@ == Set::<Seq<u8>>::empty(),
    {
        ByteSet::new()
    }
}

} // verus!
