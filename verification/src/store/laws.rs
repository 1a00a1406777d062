//! Laws of the stores: what a read gives back of a write, what one call
//! undoes of another, what a cleared store holds.

use crate::store::btree_store::{size_after, cleared, count_outcome, create_outcome, query_outcome, remove_outcome, views_of, written, BTreeStore};
use crate::store::items::{query_values, range_valid, skip_first, values_of, window};
use vstd::prelude::*;

verus! {

/// After a pair is written, reading its key gives its value back, and
/// every other key reads as before.
pub proof fn lemma_read_after_write(old: BTreeStore, new: BTreeStore, key: Seq<u8>, value: Seq<u8>)
    requires
        written(old, new, key, value),
    ensures
        new@.contains_key(key),
        new@[key] == value,
        forall|other: Seq<u8>| other != key ==> (#[trigger] new@.contains_key(other) <==> old@.contains_key(other)),
        forall|other: Seq<u8>| other != key && old@.contains_key(other) ==> #[trigger] new@[other] == old@[other],
{
}

/// Removing a key that was just created gives back the store as it was:
/// the same pairs and the same accounted sizes.
pub proof fn lemma_remove_undoes_create(
    old: BTreeStore,
    mid: BTreeStore,
    new: BTreeStore,
    key: Seq<u8>,
    value: Seq<u8>,
)
    requires
        create_outcome(old, mid, key, value, Ok(())),
        remove_outcome(mid, new, key, Ok(())),
    ensures
        new@ == old@,
        new.keys_total() == old.keys_total(),
        new.values_total() == old.values_total(),
        new.size_total() == old.size_total(),
{
    assert(new@ =~= old@);
}

/// The size of the store is that of the pairs it holds: writing a pair a
/// second time leaves the size as the first write left it.
pub proof fn lemma_rewrite_keeps_size(old: BTreeStore, mid: BTreeStore, new: BTreeStore, key: Seq<u8>, value: Seq<u8>)
    requires
        written(old, mid, key, value),
        written(mid, new, key, value),
    ensures
        new@ == mid@,
        new.size_total() == mid.size_total(),
        mid.size_total() == size_after(old, key, value),
{
    assert(new@ =~= mid@);
}

/// After a key is removed, it is found no more.
pub proof fn lemma_absent_after_remove(old: BTreeStore, new: BTreeStore, key: Seq<u8>)
    requires
        remove_outcome(old, new, key, Ok(())),
    ensures
        !new@.contains_key(key),
{
}

/// A cleared store holds no pair, accounts no size, and every query on it
/// gives nothing.
pub proof fn lemma_cleared_empty(old: BTreeStore, new: BTreeStore, from: Option<Seq<u8>>, to: Option<Seq<u8>>)
    requires
        cleared(old, new),
    ensures
        new@ == Map::<Seq<u8>, Seq<u8>>::empty(),
        new.size_total() == 0,
        query_values(new.items(), from, to) == Seq::<Seq<u8>>::empty(),
{
    assert(new@ =~= Map::<Seq<u8>, Seq<u8>>::empty());
}

/// A query without bounds gives every value, in key order.
pub proof fn lemma_query_unbounded(s: Seq<(Seq<u8>, Seq<u8>)>)
    ensures
        query_values(s, None, None) == values_of(s),
    decreases s.len(),
{
    if s.len() > 0 {
        lemma_query_unbounded(s.drop_last());
        assert(values_of(s) =~= values_of(s.drop_last()).push(s.last().1));
    } else {
        assert(values_of(s) =~= Seq::<Seq<u8>>::empty());
    }
}

/// `count` counts what `query` without a count gives, on the same range and
/// skip, where that number fits in a `u32`.
pub proof fn lemma_count_matches_query(
    s: BTreeStore,
    from: Option<Seq<u8>>,
    to: Option<Seq<u8>>,
    skip: Option<u32>,
    n: u32,
    vs: Vec<Vec<u8>>,
)
    requires
        count_outcome(s, from, to, skip, Ok(n)),
        query_outcome(s, from, to, None, skip, Ok(vs)),
        skip_first(query_values(s.items(), from, to), skip).len() <= u32::MAX,
    ensures
        n == vs@.len(),
{
    assert(views_of(vs@).len() == vs@.len());
}

} // verus!
