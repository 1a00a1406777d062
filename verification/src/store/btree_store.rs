//! `BTreeStore`: an in-memory store that keeps its pairs ordered by key.

use crate::bytes::{bytes_equal, bytes_less, bytes_lt, copy_bytes, lemma_bytes_lt_total};
use crate::store::error::{Error, Result};
use crate::store::traits::{MemoryStore, Store};
use crate::store::items::{
    has_key, in_query_range, in_remove_range, items_map, key_sum, kept_items, lemma_key_index,
    lemma_sorted_insert, lemma_sorted_remove, lemma_sorted_update, lemma_sums_bound, lemma_sums_push,
    lemma_sums_remove, lemma_sums_take, lemma_sums_update, query_values, range_count, range_valid,
    skip_first, sorted_keys, take_first, value_sum, window,
};
use vstd::pervasive::VecAdditionalExecFns;
use vstd::prelude::*;

verus! {

/// The byte strings that an optional slice holds.
pub open spec fn opt_bytes(o: Option<&[u8]>) -> Option<Seq<u8>> {
    match o {
        Some(b) => Some(b@),
        None => None,
    }
}

/// The byte strings that a sequence of vectors holds.
pub open spec fn views_of(vs: Seq<Vec<u8>>) -> Seq<Seq<u8>> {
    vs.map_values(|v: Vec<u8>| v@)
}

/// The pairs of byte strings that a sequence of pairs of vectors holds.
pub open spec fn items_of(db: Seq<(Vec<u8>, Vec<u8>)>) -> Seq<(Seq<u8>, Seq<u8>)> {
    db.map_values(|e: (Vec<u8>, Vec<u8>)| (e.0@, e.1@))
}

/// The store holds the same pairs, sizes and limits as before.
pub open spec fn unchanged(old: BTreeStore, new: BTreeStore) -> bool {
    &&& new.items() == old.items()
    &&& new.keys_total() == old.keys_total()
    &&& new.values_total() == old.values_total()
    &&& new.value_limit() == old.value_limit()
    &&& new.size_limit() == old.size_limit()
}

/// The limits of the store are as before.
pub open spec fn same_limits(old: BTreeStore, new: BTreeStore) -> bool {
    &&& new.value_limit() == old.value_limit()
    &&& new.size_limit() == old.size_limit()
}

/// What `get` returns: the value of the key, or `NotFound`.
pub open spec fn get_outcome(s: BTreeStore, key: Seq<u8>, r: Result<Vec<u8>>) -> bool {
    match r {
        Ok(v) => s@.contains_key(key) && v@ == s@[key],
        Err(e) => e is NotFound && !s@.contains_key(key),
    }
}

/// The size of the store once the key maps to the value: a pair that the
/// key held before no longer counts.
pub open spec fn size_after(s: BTreeStore, key: Seq<u8>, value: Seq<u8>) -> int {
    if s@.contains_key(key) {
        s.size_total() - s@[key].len() + value.len()
    } else {
        s.size_total() + key.len() + value.len()
    }
}

/// A pair fits in the store: the value is within the value limit, and the
/// store with the pair is within the size limit.
pub open spec fn insert_fits(s: BTreeStore, key: Seq<u8>, value: Seq<u8>) -> bool {
    value.len() <= s.value_limit() && size_after(s, key, value) <= s.size_limit()
}

/// The store after writing a pair: the key maps to the value, and the
/// sizes are those of the pairs it now holds.
pub open spec fn written(old: BTreeStore, new: BTreeStore, key: Seq<u8>, value: Seq<u8>) -> bool {
    &&& new@ == old@.insert(key, value)
    &&& new.keys_total() == old.keys_total() + (if old@.contains_key(key) { 0 } else { key.len() })
    &&& new.values_total() == old.values_total() + value.len() - (if old@.contains_key(key) {
        old@[key].len()
    } else {
        0
    })
    &&& new.size_total() == size_after(old, key, value)
    &&& same_limits(old, new)
}

/// What `insert` does: it writes the pair where it fits, else it fails
/// with `InvalidSize` and leaves the store as it was.
pub open spec fn insert_outcome(old: BTreeStore, new: BTreeStore, key: Seq<u8>, value: Seq<u8>, r: Result<()>) -> bool {
    &&& (r is Ok <==> insert_fits(old, key, value))
    &&& match r {
        Ok(()) => written(old, new, key, value),
        Err(e) => e is InvalidSize && unchanged(old, new),
    }
}

/// What `create` does: it writes a pair whose key is absent and that fits;
/// it fails with `AlreadyFound` on a present key, else with `InvalidSize`.
pub open spec fn create_outcome(old: BTreeStore, new: BTreeStore, key: Seq<u8>, value: Seq<u8>, r: Result<()>) -> bool {
    &&& (r is Ok <==> (!old@.contains_key(key) && insert_fits(old, key, value)))
    &&& match r {
        Ok(()) => written(old, new, key, value),
        Err(e) => unchanged(old, new) && if old@.contains_key(key) {
            e is AlreadyFound
        } else {
            e is InvalidSize
        },
    }
}

/// What `update` does: it writes a pair whose key is present and that
/// fits; it fails with `NotFound` on an absent key, else with `InvalidSize`.
pub open spec fn update_outcome(old: BTreeStore, new: BTreeStore, key: Seq<u8>, value: Seq<u8>, r: Result<()>) -> bool {
    &&& (r is Ok <==> (old@.contains_key(key) && insert_fits(old, key, value)))
    &&& match r {
        Ok(()) => written(old, new, key, value),
        Err(e) => unchanged(old, new) && if !old@.contains_key(key) {
            e is NotFound
        } else {
            e is InvalidSize
        },
    }
}

/// What `remove` does: it removes a present key and takes the sizes of the
/// key and of its value from the accounted sizes; it fails with `NotFound`
/// on an absent key.
pub open spec fn remove_outcome(old: BTreeStore, new: BTreeStore, key: Seq<u8>, r: Result<()>) -> bool {
    &&& (r is Ok <==> old@.contains_key(key))
    &&& match r {
        Ok(()) => {
            &&& new@ == old@.remove(key)
            &&& new.keys_total() == old.keys_total() - key.len()
            &&& new.values_total() == old.values_total() - old@[key].len()
            &&& same_limits(old, new)
        },
        Err(e) => e is NotFound && unchanged(old, new),
    }
}

/// What `query` returns: the values of the keys in the query range, in key
/// order, from the `skip`th on and at most `count` of them; `InvalidRange`
/// for a refused range.
pub open spec fn query_outcome(s: BTreeStore, from: Option<Seq<u8>>, to: Option<Seq<u8>>, count: Option<u32>, skip: Option<u32>, r: Result<Vec<Vec<u8>>>) -> bool {
    match r {
        Ok(vs) => range_valid(from, to) && views_of(vs@) == window(query_values(s.items(), from, to), skip, count),
        Err(e) => e is InvalidRange && !range_valid(from, to),
    }
}

/// What `count` returns: the number of keys in the query range past the
/// first `skip`, as a `u32`; `InvalidRange` for a refused range.
pub open spec fn count_outcome(s: BTreeStore, from: Option<Seq<u8>>, to: Option<Seq<u8>>, skip: Option<u32>, r: Result<u32>) -> bool {
    match r {
        Ok(n) => range_valid(from, to) && n == (skip_first(query_values(s.items(), from, to), skip).len() as u32),
        Err(e) => e is InvalidRange && !range_valid(from, to),
    }
}

/// The number that a `skip` stands for.
pub open spec fn skip_count(skip: Option<u32>) -> nat {
    match skip {
        Some(k) => k as nat,
        None => 0,
    }
}

/// What `remove_range` does: it removes the pairs in the remove range past
/// the first `skip` of them, and takes their sizes from the accounted
/// sizes; `InvalidRange` for a refused range.
pub open spec fn remove_range_outcome(old: BTreeStore, new: BTreeStore, from: Option<Seq<u8>>, to: Option<Seq<u8>>, skip: Option<u32>, r: Result<()>) -> bool {
    let kept = kept_items(old.items(), from, to, skip_count(skip));
    match r {
        Ok(()) => {
            &&& range_valid(from, to)
            &&& new.items() == kept
            &&& new.keys_total() == old.keys_total() - (key_sum(old.items()) - key_sum(kept))
            &&& new.values_total() == old.values_total() - (value_sum(old.items()) - value_sum(kept))
            &&& same_limits(old, new)
        },
        Err(e) => e is InvalidRange && !range_valid(from, to) && unchanged(old, new),
    }
}

/// The store after `clear`: no pair, no accounted size, the same limits.
pub open spec fn cleared(old: BTreeStore, new: BTreeStore) -> bool {
    &&& new.items() == Seq::<(Seq<u8>, Seq<u8>)>::empty()
    &&& new.keys_total() == 0
    &&& new.values_total() == 0
    &&& same_limits(old, new)
}

/// The values of `vals` at the positions that `picks` names, in order.
pub open spec fn picked(vals: Seq<Seq<u8>>, picks: Seq<u32>) -> Seq<Seq<u8>>
    decreases vals.len(),
{
    if vals.len() == 0 {
        Seq::empty()
    } else {
        let rest = picked(vals.drop_last(), picks);
        if picks.contains((vals.len() - 1) as u32) {
            rest.push(vals.last())
        } else {
            rest
        }
    }
}

/// The number of values that `sample` draws from: the number of keys in the
/// query range past the first `count`, as `count` with that skip gives it.
pub open spec fn sample_len(s: BTreeStore, from: Option<Seq<u8>>, to: Option<Seq<u8>>, count: u32) -> u32 {
    skip_first(query_values(s.items(), from, to), Some(count)).len() as u32
}

/// What `sample` returns: among the values of the query range, those at
/// the positions that `picks` names below `sample_len`, the bound that the
/// positions are drawn under; `InvalidRange` for a refused range.
pub open spec fn sample_outcome(s: BTreeStore, from: Option<Seq<u8>>, to: Option<Seq<u8>>, count: u32, picks: Seq<u32>, r: Result<Vec<Vec<u8>>>) -> bool {
    match r {
        Ok(vs) => range_valid(from, to) && views_of(vs@) == picked(
            take_first(query_values(s.items(), from, to), Some(sample_len(s, from, to, count))),
            picks,
        ),
        Err(e) => e is InvalidRange && !range_valid(from, to),
    }
}

/// `BTreeStore` is a `Store` held in memory, whose pairs are kept ordered
/// by key, in a vector kept sorted: vstd specifies std's `BTreeMap` only
/// for keys that obey its model of `Ord`, which it states for numbers and
/// tuples of them, not for byte strings.
pub struct BTreeStore {
    db: Vec<(Vec<u8>, Vec<u8>)>,
    max_value_size: u32,
    max_size: u32,
    keys_size: u32,
    values_size: u32,
}

impl View for BTreeStore {
    type V = Map<Seq<u8>, Seq<u8>>;

    open spec fn view(&self) -> Map<Seq<u8>, Seq<u8>> {
        items_map(self.items())
    }
}

impl BTreeStore {
    /// The pairs of the store, ordered by key.
    pub closed spec fn items(&self) -> Seq<(Seq<u8>, Seq<u8>)> {
        items_of(self.db@)
    }

    /// The total length of the keys of the store.
    pub open spec fn keys_total(&self) -> nat {
        key_sum(self.items())
    }

    /// The total length of the values of the store.
    pub open spec fn values_total(&self) -> nat {
        value_sum(self.items())
    }

    /// The greatest size of a value.
    pub closed spec fn value_limit(&self) -> u32 {
        self.max_value_size
    }

    /// The greatest size of the store.
    pub closed spec fn size_limit(&self) -> u32 {
        self.max_size
    }

    /// The total length of the keys and values of the store.
    pub open spec fn size_total(&self) -> int {
        (self.keys_total() + self.values_total()) as int
    }

    /// The keys are ordered and unique, and the accounted sizes are those of
    /// the pairs and fit in a `u32`.
    #[verifier::type_invariant]
    spec fn wf(&self) -> bool {
        &&& sorted_keys(self.items())
        &&& key_sum(self.items()) == self.keys_size
        &&& value_sum(self.items()) == self.values_size
        &&& self.keys_size + self.values_size <= u32::MAX
    }

    /// `new` creates a new `BTreeStore`.
    pub fn new(max_value_size: u32, max_size: u32) -> (r: Result<BTreeStore>)
        ensures
            match r {
                Ok(s) => {
                    &&& max_value_size <= max_size
                    &&& s.items() == Seq::<(Seq<u8>, Seq<u8>)>::empty()
                    &&& s.keys_total() == 0
                    &&& s.values_total() == 0
                    &&& s.value_limit() == max_value_size
                    &&& s.size_limit() == max_size
                },
                Err(e) => e is InvalidSize && max_size < max_value_size,
            },
    {
        if max_size < max_value_size {
            return Err(Error::InvalidSize);
        }
        let store = BTreeStore { db: Vec::new(), max_value_size, max_size, keys_size: 0, values_size: 0 };
        assert(store.items() =~= Seq::<(Seq<u8>, Seq<u8>)>::empty());
        Ok(store)
    }

    /// `size` returns the size of the `BTreeStore`.
    pub fn size(&self) -> (r: u32)
        ensures
            r == self.size_total(),
    {
        proof {
            use_type_invariant(self);
        }
        self.keys_size + self.values_size
    }

    /// The first index whose key does not come before `key`, and whether
    /// its key is `key`.
    fn find(&self, key: &[u8]) -> (r: (usize, bool))
        ensures
            r.0 <= self.items().len(),
            forall|j: int| 0 <= j < r.0 ==> bytes_lt(#[trigger] self.items()[j].0, key@),
            r.0 < self.items().len() ==> !bytes_lt(self.items()[r.0 as int].0, key@),
            r.1 <==> (r.0 < self.items().len() && self.items()[r.0 as int].0 == key@),
            r.1 <==> self@.contains_key(key@),
            r.1 ==> self@[key@] == self.items()[r.0 as int].1,
            !r.1 ==> (r.0 < self.items().len() ==> bytes_lt(key@, self.items()[r.0 as int].0)),
    {
        proof {
            use_type_invariant(self);
        }
        let ghost s = self.items();
        let mut i: usize = 0;
        while i < self.db.len() && bytes_less(self.db[i].0.as_slice(), key)
            invariant
                s == self.items(),
                s == items_of(self.db@),
                i <= self.db@.len(),
                forall|j: int| 0 <= j < i ==> bytes_lt(#[trigger] s[j].0, key@),
            decreases self.db@.len() - i,
        {
            i += 1;
        }
        let found = i < self.db.len() && bytes_equal(self.db[i].0.as_slice(), key);
        proof {
            if found {
                lemma_key_index(s, i as int);
            } else {
                if i < s.len() {
                    lemma_bytes_lt_total(key@, s[i as int].0);
                }
                if has_key(s, key@) {
                    let j = choose|j: int| 0 <= j < s.len() && (#[trigger] s[j]).0 == key@;
                    crate::bytes::lemma_bytes_lt_irreflexive(key@);
                    if j > i {
                        assert(bytes_lt(s[i as int].0, s[j].0));
                        crate::bytes::lemma_bytes_lt_transitive(key@, s[i as int].0, s[j].0);
                    }
                }
            }
        }
        (i, found)
    }

    /// `_lookup` looks up a key-value pair from the `BTreeStore`.
    fn _lookup(&self, key: &[u8]) -> (r: bool)
        ensures
            r == self@.contains_key(key@),
    {
        let (_i, found) = self.find(key);
        found
    }

    /// `_get` gets a key-value pair from the `BTreeStore`.
    fn _get(&self, key: &[u8]) -> (r: Result<Vec<u8>>)
        ensures
            get_outcome(*self, key@, r),
    {
        let (i, found) = self.find(key);
        if found {
            Ok(copy_bytes(self.db[i].1.as_slice()))
        } else {
            Err(Error::NotFound)
        }
    }

    /// `_insert` inserts a binary key-value pair in the `BTreeStore`.
    fn _insert(&mut self, key: &[u8], value: &[u8]) -> (r: Result<()>)
        ensures
            insert_outcome(*old(self), *final(self), key@, value@, r),
    {
        proof {
            use_type_invariant(&*self);
        }
        let ghost s = self.items();
        let (i, found) = self.find(key);
        if value.len() > self.max_value_size as usize {
            return Err(Error::InvalidSize);
        }
        let old_len: u32 = if found {
            proof {
                lemma_sums_bound(s, i as int);
            }
            self.db[i].1.len() as u32
        } else {
            0
        };
        if !found && key.len() > self.max_size as usize {
            return Err(Error::InvalidSize);
        }
        let added_key: u64 = if found {
            0
        } else {
            key.len() as u64
        };
        let total: u64 = self.keys_size as u64 + self.values_size as u64 - old_len as u64 + added_key + value.len() as u64;
        if total > self.max_size as u64 {
            return Err(Error::InvalidSize);
        }
        let item = (copy_bytes(key), copy_bytes(value));
        let keys_size0 = self.keys_size;
        let values_size0 = self.values_size;
        let mut taken = BTreeStore {
            db: Vec::new(),
            max_value_size: self.max_value_size,
            max_size: self.max_size,
            keys_size: 0,
            values_size: 0,
        };
        assert(taken.items() =~= Seq::<(Seq<u8>, Seq<u8>)>::empty());
        std::mem::swap(&mut taken, self);
        let mut db = taken.db;
        assert(items_of(db@) == s);
        if found {
            db.set(i, item);
            proof {
                assert(items_of(db@) =~= s.update(i as int, (key@, value@)));
                lemma_sorted_update(s, i as int, value@);
                lemma_sums_update(s, i as int, (key@, value@));
            }
        } else {
            db.insert(i, item);
            proof {
                assert(items_of(db@) =~= s.insert(i as int, (key@, value@)));
                lemma_sorted_insert(s, i as int, key@, value@);
                crate::store::items::lemma_sums_insert(s, i as int, (key@, value@));
            }
        }
        let keys_size = keys_size0 + added_key as u32;
        let values_size = values_size0 - old_len + value.len() as u32;
        *self = BTreeStore {
            db,
            max_value_size: self.max_value_size,
            max_size: self.max_size,
            keys_size,
            values_size,
        };
        Ok(())
    }

    /// `_create` inserts a non-existing binary key-value pair in the `BTreeStore`.
    fn _create(&mut self, key: &[u8], value: &[u8]) -> (r: Result<()>)
        ensures
            create_outcome(*old(self), *final(self), key@, value@, r),
    {
        if self._lookup(key) {
            return Err(Error::AlreadyFound);
        }
        self._insert(key, value)
    }

    /// `_update` updates an existing key-value pair in the `BTreeStore`.
    pub fn _update(&mut self, key: &[u8], value: &[u8]) -> (r: Result<()>)
        ensures
            update_outcome(*old(self), *final(self), key@, value@, r),
    {
        if !self._lookup(key) {
            return Err(Error::NotFound);
        }
        self._insert(key, value)
    }

    /// `_remove` removes a key-value pair from the `BTreeStore`.
    fn _remove(&mut self, key: &[u8]) -> (r: Result<()>)
        ensures
            remove_outcome(*old(self), *final(self), key@, r),
    {
        proof {
            use_type_invariant(&*self);
        }
        let ghost s = self.items();
        let (i, found) = self.find(key);
        if !found {
            return Err(Error::NotFound);
        }
        let keys_size0 = self.keys_size;
        let values_size0 = self.values_size;
        let mut taken = BTreeStore {
            db: Vec::new(),
            max_value_size: self.max_value_size,
            max_size: self.max_size,
            keys_size: 0,
            values_size: 0,
        };
        assert(taken.items() =~= Seq::<(Seq<u8>, Seq<u8>)>::empty());
        std::mem::swap(&mut taken, self);
        let mut db = taken.db;
        assert(items_of(db@) == s);
        let removed = db.remove(i);
        proof {
            assert(items_of(db@) =~= s.remove(i as int));
            lemma_sorted_remove(s, i as int);
            lemma_sums_remove(s, i as int);
            lemma_sums_bound(s, i as int);
        }
        let keys_size = keys_size0 - removed.0.len() as u32;
        let values_size = values_size0 - removed.1.len() as u32;
        *self = BTreeStore {
            db,
            max_value_size: self.max_value_size,
            max_size: self.max_size,
            keys_size,
            values_size,
        };
        Ok(())
    }

    /// Whether a key lies in the range that a query selects.
    fn in_query_range(k: &[u8], from: Option<&[u8]>, to: Option<&[u8]>) -> (r: bool)
        ensures
            r == in_query_range(k@, opt_bytes(from), opt_bytes(to)),
    {
        match from {
            None => true,
            Some(f) => {
                if bytes_less(k, f) {
                    false
                } else {
                    match to {
                        None => true,
                        Some(t) => bytes_less(k, t),
                    }
                }
            },
        }
    }

    /// Whether a key lies in the range that `remove_range` selects.
    fn in_remove_range(k: &[u8], from: Option<&[u8]>, to: Option<&[u8]>) -> (r: bool)
        ensures
            r == in_remove_range(k@, opt_bytes(from), opt_bytes(to)),
    {
        let above = match from {
            None => true,
            Some(f) => !bytes_less(k, f),
        };
        let below = match to {
            None => true,
            Some(t) => bytes_less(k, t),
        };
        above && below
    }

    /// Whether a range is accepted: it is refused when both bounds are given
    /// and `from` comes after `to`.
    fn range_valid(from: Option<&[u8]>, to: Option<&[u8]>) -> (r: bool)
        ensures
            r == range_valid(opt_bytes(from), opt_bytes(to)),
    {
        match (from, to) {
            (Some(f), Some(t)) => !bytes_less(t, f),
            _ => true,
        }
    }

    /// `_query` returns a list of values from the `BTreeStore`.
    fn _query(&self, from: Option<&[u8]>, to: Option<&[u8]>, count: Option<u32>, skip: Option<u32>) -> (r: Result<
        Vec<Vec<u8>>,
    >)
        ensures
            query_outcome(*self, opt_bytes(from), opt_bytes(to), count, skip, r),
    {
        if !Self::range_valid(from, to) {
            return Err(Error::InvalidRange);
        }
        let ghost s = self.items();
        let ghost f = opt_bytes(from);
        let ghost t = opt_bytes(to);
        let mut res: Vec<Vec<u8>> = Vec::new();
        let mut matched: usize = 0;
        let mut i: usize = 0;
        assert(s.take(0) =~= Seq::<(Seq<u8>, Seq<u8>)>::empty());
        assert(views_of(res@) =~= Seq::<Seq<u8>>::empty());
        while i < self.db.len()
            invariant
                s == self.items(),
                s == items_of(self.db@),
                f == opt_bytes(from),
                t == opt_bytes(to),
                i <= self.db@.len(),
                matched == query_values(s.take(i as int), f, t).len(),
                matched <= i,
                views_of(res@) == window(query_values(s.take(i as int), f, t), skip, count),
            decreases self.db@.len() - i,
        {
            let ghost q = query_values(s.take(i as int), f, t);
            proof {
                crate::store::items::lemma_query_values_take(s, i as int, f, t);
                assert(s[i as int] == (self.db@[i as int].0@, self.db@[i as int].1@));
            }
            if Self::in_query_range(self.db[i].0.as_slice(), from, to) {
                let skip_ok = match skip {
                    None => true,
                    Some(k) => k as usize <= matched,
                };
                let count_ok = match (skip, count) {
                    (Some(_), Some(c)) => res.len() < c as usize,
                    _ => true,
                };
                proof {
                    crate::store::items::lemma_window_push(q, s[i as int].1, skip, count);
                    assert(views_of(res@).len() == res@.len());
                }
                if skip_ok && count_ok {
                    let v = copy_bytes(self.db[i].1.as_slice());
                    res.push(v);
                    assert(views_of(res@) =~= window(q, skip, count).push(s[i as int].1));
                }
                matched += 1;
            }
            i += 1;
        }
        assert(s.take(self.db@.len() as int) =~= s);
        Ok(res)
    }

    /// `_count` returns the count of a list of values from the `BTreeStore`.
    fn _count(&self, from: Option<&[u8]>, to: Option<&[u8]>, skip: Option<u32>) -> (r: Result<u32>)
        ensures
            count_outcome(*self, opt_bytes(from), opt_bytes(to), skip, r),
    {
        if !Self::range_valid(from, to) {
            return Err(Error::InvalidRange);
        }
        let ghost s = self.items();
        let ghost f = opt_bytes(from);
        let ghost t = opt_bytes(to);
        let mut matched: usize = 0;
        let mut i: usize = 0;
        assert(s.take(0) =~= Seq::<(Seq<u8>, Seq<u8>)>::empty());
        while i < self.db.len()
            invariant
                s == self.items(),
                s == items_of(self.db@),
                f == opt_bytes(from),
                t == opt_bytes(to),
                i <= self.db@.len(),
                matched == query_values(s.take(i as int), f, t).len(),
                matched <= i,
            decreases self.db@.len() - i,
        {
            proof {
                crate::store::items::lemma_query_values_take(s, i as int, f, t);
                assert(s[i as int] == (self.db@[i as int].0@, self.db@[i as int].1@));
            }
            let inside = Self::in_query_range(self.db[i].0.as_slice(), from, to);
            assert(inside == in_query_range(s[i as int].0, f, t));
            if inside {
                assert(query_values(s.take(i + 1), f, t).len() == matched + 1);
                matched += 1;
            } else {
                assert(query_values(s.take(i + 1), f, t).len() == matched);
            }
            i += 1;
        }
        assert(s.take(self.db@.len() as int) =~= s);
        let n: usize = match skip {
            None => matched,
            Some(k) => if k as usize >= matched {
                0
            } else {
                matched - k as usize
            },
        };
        let ghost q = query_values(s, f, t);
        assert(n == skip_first(q, skip).len());
        Ok(n as u32)
    }

    /// `_remove_range` removes a range of items from the `BTreeStore`: the
    /// pairs whose key lies in the range, but for the first `skip` of them.
    fn _remove_range(&mut self, from: Option<&[u8]>, to: Option<&[u8]>, skip: Option<u32>) -> (r: Result<()>)
        ensures
            remove_range_outcome(*old(self), *final(self), opt_bytes(from), opt_bytes(to), skip, r),
    {
        proof {
            use_type_invariant(&*self);
        }
        if !Self::range_valid(from, to) {
            return Err(Error::InvalidRange);
        }
        let ghost s = self.items();
        let ghost f = opt_bytes(from);
        let ghost t = opt_bytes(to);
        let skip_n: usize = match skip {
            Some(k) => k as usize,
            None => 0,
        };
        let ghost sk: nat = skip_count(skip);
        let mut kept: Vec<(Vec<u8>, Vec<u8>)> = Vec::new();
        let mut seen: usize = 0;
        let mut removed_keys: u32 = 0;
        let mut removed_values: u32 = 0;
        let mut i: usize = 0;
        assert(s.take(0) =~= Seq::<(Seq<u8>, Seq<u8>)>::empty());
        assert(items_of(kept@) =~= Seq::<(Seq<u8>, Seq<u8>)>::empty());
        while i < self.db.len()
            invariant
                s == self.items(),
                s == items_of(self.db@),
                f == opt_bytes(from),
                t == opt_bytes(to),
                sk == skip_n,
                i <= self.db@.len(),
                seen == range_count(s.take(i as int), f, t),
                seen <= i,
                items_of(kept@) == kept_items(s.take(i as int), f, t, sk),
                key_sum(items_of(kept@)) + removed_keys == key_sum(s.take(i as int)),
                value_sum(items_of(kept@)) + removed_values == value_sum(s.take(i as int)),
                key_sum(s) == self.keys_size,
                value_sum(s) == self.values_size,
                self.keys_size + self.values_size <= u32::MAX,
            decreases self.db@.len() - i,
        {
            proof {
                crate::store::items::lemma_query_values_take(s, i as int, f, t);
                crate::store::items::lemma_kept_items_take(s, i as int, f, t, sk);
                lemma_sums_take(s, i as int);
                crate::store::items::lemma_sums_prefix(s, i + 1);
                assert(s[i as int] == (self.db@[i as int].0@, self.db@[i as int].1@));
            }
            let inside = Self::in_remove_range(self.db[i].0.as_slice(), from, to);
            if inside && seen >= skip_n {
                removed_keys = removed_keys + self.db[i].0.len() as u32;
                removed_values = removed_values + self.db[i].1.len() as u32;
            } else {
                let item = (copy_bytes(self.db[i].0.as_slice()), copy_bytes(self.db[i].1.as_slice()));
                proof {
                    lemma_sums_push(items_of(kept@), (s[i as int].0, s[i as int].1));
                }
                kept.push(item);
                assert(items_of(kept@) =~= kept_items(s.take(i as int), f, t, sk).push(s[i as int]));
            }
            if inside {
                seen += 1;
            }
            i += 1;
        }
        assert(s.take(self.db@.len() as int) =~= s);
        proof {
            crate::store::items::lemma_kept_items_sorted(s, f, t, sk);
        }
        let keys_size = self.keys_size - removed_keys;
        let values_size = self.values_size - removed_values;
        *self = BTreeStore {
            db: kept,
            max_value_size: self.max_value_size,
            max_size: self.max_size,
            keys_size,
            values_size,
        };
        Ok(())
    }

    /// Whether `picks` holds `idx`.
    fn picks_contain(picks: &[u32], idx: u32) -> (r: bool)
        ensures
            r == picks@.contains(idx),
    {
        let mut i: usize = 0;
        while i < picks.len()
            invariant
                i <= picks@.len(),
                forall|j: int| 0 <= j < i ==> picks@[j] != idx,
            decreases picks@.len() - i,
        {
            if picks[i] == idx {
                assert(picks@[i as int] == idx);
                return true;
            }
            i += 1;
        }
        false
    }

    /// `_sample` samples values from the `BTreeStore`.
    fn _sample(&self, from: Option<&[u8]>, to: Option<&[u8]>, count: u32, picks: &[u32]) -> (r: Result<
        Vec<Vec<u8>>,
    >)
        ensures
            sample_outcome(*self, opt_bytes(from), opt_bytes(to), count, picks@, r),
    {
        if !Self::range_valid(from, to) {
            return Err(Error::InvalidRange);
        }
        let len = self._count(from, to, Some(count))?;
        let values = self._query(from, to, Some(len), Some(0))?;
        let ghost vals = views_of(values@);
        proof {
            let q = query_values(self.items(), opt_bytes(from), opt_bytes(to));
            if q.len() > 0 {
                assert(q.skip(0) =~= q);
            }
        }
        let mut res: Vec<Vec<u8>> = Vec::new();
        let mut idx: usize = 0;
        assert(vals.len() <= len);
        assert(vals.take(0) =~= Seq::<Seq<u8>>::empty());
        assert(views_of(res@) =~= Seq::<Seq<u8>>::empty());
        while idx < values.len()
            invariant
                vals == views_of(values@),
                vals.len() <= len,
                idx <= values@.len(),
                views_of(res@) == picked(vals.take(idx as int), picks@),
            decreases values@.len() - idx,
        {
            assert(vals.take(idx + 1).drop_last() =~= vals.take(idx as int));
            if Self::picks_contain(picks, idx as u32) {
                let v = copy_bytes(values[idx].as_slice());
                res.push(v);
                assert(views_of(res@) =~= picked(vals.take(idx as int), picks@).push(vals[idx as int]));
            }
            idx += 1;
        }
        assert(vals.take(values@.len() as int) =~= vals);
        Ok(res)
    }

    /// `_clear` clears the `BTreeStore`.
    fn _clear(&mut self)
        ensures
            cleared(*old(self), *final(self)),
    {
        let store = BTreeStore {
            db: Vec::new(),
            max_value_size: self.max_value_size,
            max_size: self.max_size,
            keys_size: 0,
            values_size: 0,
        };
        assert(store.items() =~= Seq::<(Seq<u8>, Seq<u8>)>::empty());
        *self = store;
    }
}

impl Store for BTreeStore {
    fn keys_size(&self) -> (r: u32)
        ensures
            r == self.keys_total(),
    {
        proof {
            use_type_invariant(self);
        }
        self.keys_size
    }

    fn values_size(&self) -> (r: u32)
        ensures
            r == self.values_total(),
    {
        proof {
            use_type_invariant(self);
        }
        self.values_size
    }

    fn size(&self) -> (r: u32)
        ensures
            r == self.size_total(),
    {
        BTreeStore::size(self)
    }

    fn set_max_value_size(&mut self, size: u32)
        ensures
            final(self).items() == old(self).items(),
            final(self).keys_total() == old(self).keys_total(),
            final(self).values_total() == old(self).values_total(),
            final(self).value_limit() == size,
            final(self).size_limit() == old(self).size_limit(),
    {
        proof {
            use_type_invariant(&*self);
        }
        self.max_value_size = size;
    }

    fn get_max_value_size(&self) -> (r: u32)
        ensures
            r == self.value_limit(),
    {
        self.max_value_size
    }

    fn set_max_size(&mut self, size: u32) -> (r: Result<()>)
        ensures
            r is Ok <==> size >= old(self).value_limit(),
            match r {
                Ok(()) => {
                    &&& final(self).items() == old(self).items()
                    &&& final(self).keys_total() == old(self).keys_total()
                    &&& final(self).values_total() == old(self).values_total()
                    &&& final(self).value_limit() == old(self).value_limit()
                    &&& final(self).size_limit() == size
                },
                Err(e) => e is InvalidSize && unchanged(*old(self), *final(self)),
            },
    {
        proof {
            use_type_invariant(&*self);
        }
        if size < self.max_value_size {
            return Err(Error::InvalidSize);
        }
        self.max_size = size;
        Ok(())
    }

    fn get_max_size(&self) -> (r: u32)
        ensures
            r == self.size_limit(),
    {
        self.max_size
    }

    fn lookup(&self, key: &[u8]) -> (r: Result<bool>)
        ensures
            r == Ok::<bool, Error>(self@.contains_key(key@)),
    {
        Ok(self._lookup(key))
    }

    fn get(&self, key: &[u8]) -> (r: Result<Vec<u8>>)
        ensures
            get_outcome(*self, key@, r),
    {
        self._get(key)
    }

    fn query(&self, from: Option<&[u8]>, to: Option<&[u8]>, count: Option<u32>, skip: Option<u32>) -> (r: Result<
        Vec<Vec<u8>>,
    >)
        ensures
            query_outcome(*self, opt_bytes(from), opt_bytes(to), count, skip, r),
    {
        self._query(from, to, count, skip)
    }

    fn sample(&self, from: Option<&[u8]>, to: Option<&[u8]>, count: u32, picks: &[u32]) -> (r: Result<
        Vec<Vec<u8>>,
    >)
        ensures
            sample_outcome(*self, opt_bytes(from), opt_bytes(to), count, picks@, r),
    {
        self._sample(from, to, count, picks)
    }

    fn count(&self, from: Option<&[u8]>, to: Option<&[u8]>, skip: Option<u32>) -> (r: Result<u32>)
        ensures
            count_outcome(*self, opt_bytes(from), opt_bytes(to), skip, r),
    {
        self._count(from, to, skip)
    }

    fn insert(&mut self, key: &[u8], value: &[u8]) -> (r: Result<()>)
        ensures
            insert_outcome(*old(self), *final(self), key@, value@, r),
    {
        self._insert(key, value)
    }

    fn create(&mut self, key: &[u8], value: &[u8]) -> (r: Result<()>)
        ensures
            create_outcome(*old(self), *final(self), key@, value@, r),
    {
        self._create(key, value)
    }

    fn update(&mut self, key: &[u8], value: &[u8]) -> (r: Result<()>)
        ensures
            update_outcome(*old(self), *final(self), key@, value@, r),
    {
        self._update(key, value)
    }

    fn insert_batch(&mut self, _items: &[(&[u8], &[u8])]) -> (r: Result<()>)
        ensures
            r matches Err(e) && e is NotImplemented,
            unchanged(*old(self), *final(self)),
    {
        Err(Error::NotImplemented)
    }

    fn remove(&mut self, key: &[u8]) -> (r: Result<()>)
        ensures
            remove_outcome(*old(self), *final(self), key@, r),
    {
        self._remove(key)
    }

    fn remove_batch(&mut self, _keys: &[&[u8]]) -> (r: Result<()>)
        ensures
            r matches Err(e) && e is NotImplemented,
            unchanged(*old(self), *final(self)),
    {
        Err(Error::NotImplemented)
    }

    fn remove_range(&mut self, from: Option<&[u8]>, to: Option<&[u8]>, skip: Option<u32>) -> (r: Result<()>)
        ensures
            remove_range_outcome(*old(self), *final(self), opt_bytes(from), opt_bytes(to), skip, r),
    {
        self._remove_range(from, to, skip)
    }

    fn clear(&mut self) -> (r: Result<()>)
        ensures
            r is Ok,
            cleared(*old(self), *final(self)),
    {
        self._clear();
        Ok(())
    }
}

impl MemoryStore for BTreeStore {

}

} // verus!
