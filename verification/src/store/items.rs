//! The mathematical model of an ordered key-value store: a sequence of
//! key-value pairs sorted by key, the map it stands for, the sizes it
//! accounts for, and the ranges that queries select.

use crate::bytes::{bytes_lt, lemma_bytes_lt_irreflexive, lemma_bytes_lt_total, lemma_bytes_lt_transitive};
use vstd::prelude::*;

verus! {

/// The keys of `s` are strictly increasing.
pub open spec fn sorted_keys<V>(s: Seq<(Seq<u8>, V)>) -> bool {
    forall|i: int, j: int| 0 <= i < j < s.len() ==> bytes_lt(#[trigger] s[i].0, #[trigger] s[j].0)
}

/// Some pair of `s` has the key `k`.
pub open spec fn has_key<V>(s: Seq<(Seq<u8>, V)>, k: Seq<u8>) -> bool {
    exists|i: int| 0 <= i < s.len() && (#[trigger] s[i]).0 == k
}

/// The index of a pair of `s` with the key `k`.
pub open spec fn key_index<V>(s: Seq<(Seq<u8>, V)>, k: Seq<u8>) -> int {
    choose|i: int| 0 <= i < s.len() && (#[trigger] s[i]).0 == k
}

/// The map from keys to values that `s` stands for.
pub open spec fn items_map<V>(s: Seq<(Seq<u8>, V)>) -> Map<Seq<u8>, V> {
    Map::new(|k: Seq<u8>| has_key(s, k), |k: Seq<u8>| s[key_index(s, k)].1)
}

/// The sum of the lengths of byte strings.
pub open spec fn lens_sum(s: Seq<Seq<u8>>) -> nat
    decreases s.len(),
{
    if s.len() == 0 {
        0
    } else {
        lens_sum(s.drop_last()) + s.last().len()
    }
}

/// The keys of `s`, in order.
pub open spec fn keys_of(s: Seq<(Seq<u8>, Seq<u8>)>) -> Seq<Seq<u8>> {
    s.map_values(|e: (Seq<u8>, Seq<u8>)| e.0)
}

/// The values of `s`, in order.
pub open spec fn values_of(s: Seq<(Seq<u8>, Seq<u8>)>) -> Seq<Seq<u8>> {
    s.map_values(|e: (Seq<u8>, Seq<u8>)| e.1)
}

/// The total length of the keys of `s`.
pub open spec fn key_sum(s: Seq<(Seq<u8>, Seq<u8>)>) -> nat {
    lens_sum(keys_of(s))
}

/// The total length of the values of `s`.
pub open spec fn value_sum(s: Seq<(Seq<u8>, Seq<u8>)>) -> nat {
    lens_sum(values_of(s))
}

/// Whether a key lies in the range that `query`, `count` and `sample`
/// select: from `from` (included) to `to` (excluded). Without `from`,
/// every key is selected, whatever `to` is.
pub open spec fn in_query_range(k: Seq<u8>, from: Option<Seq<u8>>, to: Option<Seq<u8>>) -> bool {
    match from {
        None => true,
        Some(f) => !bytes_lt(k, f) && match to {
            None => true,
            Some(t) => bytes_lt(k, t),
        },
    }
}

/// Whether a key lies in the range that `remove_range` selects: from
/// `from` (included) to `to` (excluded), each bound where it is given.
pub open spec fn in_remove_range(k: Seq<u8>, from: Option<Seq<u8>>, to: Option<Seq<u8>>) -> bool {
    &&& (from matches Some(f) ==> !bytes_lt(k, f))
    &&& (to matches Some(t) ==> bytes_lt(k, t))
}

/// A range is refused when both bounds are given and `from` comes after `to`.
pub open spec fn range_valid(from: Option<Seq<u8>>, to: Option<Seq<u8>>) -> bool {
    !(from matches Some(f) && to matches Some(t) && bytes_lt(t, f))
}

/// The values of the pairs of `s` whose key lies in the query range, in
/// key order.
pub open spec fn query_values(s: Seq<(Seq<u8>, Seq<u8>)>, from: Option<Seq<u8>>, to: Option<Seq<u8>>) -> Seq<Seq<u8>>
    decreases s.len(),
{
    if s.len() == 0 {
        Seq::empty()
    } else {
        let rest = query_values(s.drop_last(), from, to);
        if in_query_range(s.last().0, from, to) {
            rest.push(s.last().1)
        } else {
            rest
        }
    }
}

/// `s` without its first `skip` elements, where it is given.
pub open spec fn skip_first<A>(s: Seq<A>, skip: Option<u32>) -> Seq<A> {
    match skip {
        None => s,
        Some(k) => if k >= s.len() {
            Seq::empty()
        } else {
            s.skip(k as int)
        },
    }
}

/// At most the first `count` elements of `s`, where it is given.
pub open spec fn take_first<A>(s: Seq<A>, count: Option<u32>) -> Seq<A> {
    match count {
        None => s,
        Some(c) => if c >= s.len() {
            s
        } else {
            s.take(c as int)
        },
    }
}

/// The window of `s` that a query with `skip` and `count` returns: all of
/// `s` without a `skip`, where `count` is not looked at; else `s` past the
/// first `skip` elements, at most `count` of them.
pub open spec fn window<A>(s: Seq<A>, skip: Option<u32>, count: Option<u32>) -> Seq<A> {
    match skip {
        None => s,
        Some(_) => take_first(skip_first(s, skip), count),
    }
}

/// The number of pairs of `s` whose key lies in the remove range.
pub open spec fn range_count(s: Seq<(Seq<u8>, Seq<u8>)>, from: Option<Seq<u8>>, to: Option<Seq<u8>>) -> nat
    decreases s.len(),
{
    if s.len() == 0 {
        0
    } else {
        range_count(s.drop_last(), from, to) + if in_remove_range(s.last().0, from, to) {
            1nat
        } else {
            0nat
        }
    }
}

/// The pairs of `s` that `remove_range` keeps: all but those in the range
/// that come after the first `skip` pairs of the range.
pub open spec fn kept_items(s: Seq<(Seq<u8>, Seq<u8>)>, from: Option<Seq<u8>>, to: Option<Seq<u8>>, skip: nat) -> Seq<(Seq<u8>, Seq<u8>)>
    decreases s.len(),
{
    if s.len() == 0 {
        Seq::empty()
    } else {
        let rest = kept_items(s.drop_last(), from, to, skip);
        if in_remove_range(s.last().0, from, to) && range_count(s.drop_last(), from, to) >= skip {
            rest
        } else {
            rest.push(s.last())
        }
    }
}

/// In a sorted sequence, a key is found at one index only.
pub proof fn lemma_key_index<V>(s: Seq<(Seq<u8>, V)>, i: int)
    requires
        sorted_keys(s),
        0 <= i < s.len(),
    ensures
        has_key(s, s[i].0),
        key_index(s, s[i].0) == i,
        items_map(s).contains_key(s[i].0),
        items_map(s)[s[i].0] == s[i].1,
{
    assert(has_key(s, s[i].0));
    let j = key_index(s, s[i].0);
    lemma_bytes_lt_irreflexive(s[i].0);
    if j < i {
        assert(bytes_lt(s[j].0, s[i].0));
    }
    if j > i {
        assert(bytes_lt(s[i].0, s[j].0));
    }
}

/// The index where a new key goes in a sorted sequence keeps it sorted.
pub proof fn lemma_sorted_insert<V>(s: Seq<(Seq<u8>, V)>, p: int, k: Seq<u8>, v: V)
    requires
        sorted_keys(s),
        0 <= p <= s.len(),
        forall|j: int| 0 <= j < p ==> bytes_lt(#[trigger] s[j].0, k),
        p < s.len() ==> bytes_lt(k, s[p].0),
    ensures
        sorted_keys(s.insert(p, (k, v))),
        !has_key(s, k),
        items_map(s.insert(p, (k, v))) == items_map(s).insert(k, v),
{
    let t = s.insert(p, (k, v));
    assert forall|j: int| p < j < s.len() implies bytes_lt(k, #[trigger] s[j].0) by {
        lemma_bytes_lt_transitive(k, s[p].0, s[j].0);
    }
    assert forall|i: int, j: int| 0 <= i < j < t.len() implies bytes_lt(#[trigger] t[i].0, #[trigger] t[j].0) by {
        if j < p {
            assert(t[i] == s[i] && t[j] == s[j]);
        } else if j == p {
            assert(t[i] == s[i]);
        } else if i < p {
            assert(t[i] == s[i] && t[j] == s[j - 1]);
            if j - 1 == p {
            } else {
                lemma_bytes_lt_transitive(s[i].0, k, s[j - 1].0);
            }
        } else if i == p {
            assert(t[j] == s[j - 1]);
        } else {
            assert(t[i] == s[i - 1] && t[j] == s[j - 1]);
        }
    }
    if has_key(s, k) {
        let j = choose|j: int| 0 <= j < s.len() && (#[trigger] s[j]).0 == k;
        lemma_bytes_lt_irreflexive(k);
        if j >= p {
            assert(bytes_lt(k, s[j].0));
        }
        assert(false);
    }
    let m = items_map(s).insert(k, v);
    assert forall|key: Seq<u8>| #[trigger] items_map(t).contains_key(key) <==> m.contains_key(key) by {
        if has_key(s, key) {
            let j = choose|j: int| 0 <= j < s.len() && (#[trigger] s[j]).0 == key;
            if j < p {
                assert(t[j] == s[j]);
            } else {
                assert(t[j + 1] == s[j]);
            }
        }
        if has_key(t, key) {
            let j = choose|j: int| 0 <= j < t.len() && (#[trigger] t[j]).0 == key;
            if j < p {
                assert(t[j] == s[j]);
            } else if j > p {
                assert(t[j] == s[j - 1]);
            }
        }
        assert(t[p] == (k, v));
    }
    assert forall|key: Seq<u8>| #[trigger] items_map(t).contains_key(key) implies items_map(t)[key] == m[key] by {
        let j = key_index(t, key);
        lemma_key_index(t, j);
        if j < p {
            assert(t[j] == s[j]);
            lemma_key_index(s, j);
        } else if j > p {
            assert(t[j] == s[j - 1]);
            lemma_key_index(s, j - 1);
        }
    }
    assert(items_map(t) =~= m);
}

/// Replacing the value of a pair changes only that value in the map.
pub proof fn lemma_sorted_update<V>(s: Seq<(Seq<u8>, V)>, i: int, v: V)
    requires
        sorted_keys(s),
        0 <= i < s.len(),
    ensures
        sorted_keys(s.update(i, (s[i].0, v))),
        items_map(s.update(i, (s[i].0, v))) == items_map(s).insert(s[i].0, v),
{
    let t = s.update(i, (s[i].0, v));
    let k = s[i].0;
    assert forall|a: int, b: int| 0 <= a < b < t.len() implies bytes_lt(#[trigger] t[a].0, #[trigger] t[b].0) by {
        assert(t[a].0 == s[a].0 && t[b].0 == s[b].0);
    }
    let m = items_map(s).insert(k, v);
    lemma_key_index(s, i);
    assert forall|key: Seq<u8>| #[trigger] items_map(t).contains_key(key) <==> m.contains_key(key) by {
        if has_key(s, key) {
            let j = choose|j: int| 0 <= j < s.len() && (#[trigger] s[j]).0 == key;
            assert(t[j].0 == s[j].0);
        }
        if has_key(t, key) {
            let j = choose|j: int| 0 <= j < t.len() && (#[trigger] t[j]).0 == key;
            assert(t[j].0 == s[j].0);
        }
    }
    assert forall|key: Seq<u8>| #[trigger] items_map(t).contains_key(key) implies items_map(t)[key] == m[key] by {
        let j = key_index(t, key);
        lemma_key_index(t, j);
        lemma_key_index(s, j);
    }
    assert(items_map(t) =~= m);
}

/// Removing a pair removes its key from the map.
pub proof fn lemma_sorted_remove<V>(s: Seq<(Seq<u8>, V)>, i: int)
    requires
        sorted_keys(s),
        0 <= i < s.len(),
    ensures
        sorted_keys(s.remove(i)),
        items_map(s.remove(i)) == items_map(s).remove(s[i].0),
{
    let t = s.remove(i);
    let k = s[i].0;
    assert forall|a: int, b: int| 0 <= a < b < t.len() implies bytes_lt(#[trigger] t[a].0, #[trigger] t[b].0) by {
        if b < i {
            assert(t[a] == s[a] && t[b] == s[b]);
        } else if a < i {
            assert(t[a] == s[a] && t[b] == s[b + 1]);
        } else {
            assert(t[a] == s[a + 1] && t[b] == s[b + 1]);
        }
    }
    let m = items_map(s).remove(k);
    lemma_key_index(s, i);
    lemma_bytes_lt_irreflexive(k);
    assert forall|key: Seq<u8>| #[trigger] items_map(t).contains_key(key) <==> m.contains_key(key) by {
        if has_key(s, key) && key != k {
            let j = choose|j: int| 0 <= j < s.len() && (#[trigger] s[j]).0 == key;
            if j < i {
                assert(t[j] == s[j]);
            } else {
                assert(j != i);
                assert(t[j - 1] == s[j]);
            }
        }
        if has_key(t, key) {
            let j = choose|j: int| 0 <= j < t.len() && (#[trigger] t[j]).0 == key;
            if j < i {
                assert(t[j] == s[j]);
                assert(bytes_lt(s[j].0, k));
            } else {
                assert(t[j] == s[j + 1]);
                assert(bytes_lt(k, s[j + 1].0));
            }
        }
    }
    assert forall|key: Seq<u8>| #[trigger] items_map(t).contains_key(key) implies items_map(t)[key] == m[key] by {
        let j = key_index(t, key);
        lemma_key_index(t, j);
        if j < i {
            assert(t[j] == s[j]);
            lemma_key_index(s, j);
        } else {
            assert(t[j] == s[j + 1]);
            lemma_key_index(s, j + 1);
        }
    }
    assert(items_map(t) =~= m);
}

/// The sum of lengths after inserting a byte string.
pub proof fn lemma_lens_sum_insert(s: Seq<Seq<u8>>, i: int, e: Seq<u8>)
    requires
        0 <= i <= s.len(),
    ensures
        lens_sum(s.insert(i, e)) == lens_sum(s) + e.len(),
    decreases s.len(),
{
    let t = s.insert(i, e);
    if i == s.len() {
        assert(t.drop_last() =~= s);
    } else {
        assert(t.drop_last() =~= s.drop_last().insert(i, e));
        assert(t.last() == s.last());
        lemma_lens_sum_insert(s.drop_last(), i, e);
    }
}

/// The sum of lengths after removing a byte string.
pub proof fn lemma_lens_sum_remove(s: Seq<Seq<u8>>, i: int)
    requires
        0 <= i < s.len(),
    ensures
        lens_sum(s.remove(i)) + s[i].len() == lens_sum(s),
    decreases s.len(),
{
    let t = s.remove(i);
    if i == s.len() - 1 {
        assert(t =~= s.drop_last());
    } else {
        assert(t.drop_last() =~= s.drop_last().remove(i));
        assert(t.last() == s.last());
        lemma_lens_sum_remove(s.drop_last(), i);
    }
}

/// The sum of lengths after replacing a byte string.
pub proof fn lemma_lens_sum_update(s: Seq<Seq<u8>>, i: int, e: Seq<u8>)
    requires
        0 <= i < s.len(),
    ensures
        lens_sum(s.update(i, e)) + s[i].len() == lens_sum(s) + e.len(),
{
    lemma_lens_sum_remove(s, i);
    lemma_lens_sum_insert(s.remove(i), i, e);
    assert(s.remove(i).insert(i, e) =~= s.update(i, e));
}

/// The sum of lengths of a prefix grows by the next element.
pub proof fn lemma_lens_sum_take(s: Seq<Seq<u8>>, i: int)
    requires
        0 <= i < s.len(),
    ensures
        lens_sum(s.take(i + 1)) == lens_sum(s.take(i)) + s[i].len(),
{
    assert(s.take(i + 1).drop_last() =~= s.take(i));
}

/// The key and value sums after inserting a pair.
pub proof fn lemma_sums_insert(s: Seq<(Seq<u8>, Seq<u8>)>, i: int, e: (Seq<u8>, Seq<u8>))
    requires
        0 <= i <= s.len(),
    ensures
        key_sum(s.insert(i, e)) == key_sum(s) + e.0.len(),
        value_sum(s.insert(i, e)) == value_sum(s) + e.1.len(),
{
    assert(keys_of(s.insert(i, e)) =~= keys_of(s).insert(i, e.0));
    assert(values_of(s.insert(i, e)) =~= values_of(s).insert(i, e.1));
    lemma_lens_sum_insert(keys_of(s), i, e.0);
    lemma_lens_sum_insert(values_of(s), i, e.1);
}

/// The key and value sums after removing a pair.
pub proof fn lemma_sums_remove(s: Seq<(Seq<u8>, Seq<u8>)>, i: int)
    requires
        0 <= i < s.len(),
    ensures
        key_sum(s.remove(i)) + s[i].0.len() == key_sum(s),
        value_sum(s.remove(i)) + s[i].1.len() == value_sum(s),
{
    assert(keys_of(s.remove(i)) =~= keys_of(s).remove(i));
    assert(values_of(s.remove(i)) =~= values_of(s).remove(i));
    lemma_lens_sum_remove(keys_of(s), i);
    lemma_lens_sum_remove(values_of(s), i);
}

/// The key and value sums after replacing a pair.
pub proof fn lemma_sums_update(s: Seq<(Seq<u8>, Seq<u8>)>, i: int, e: (Seq<u8>, Seq<u8>))
    requires
        0 <= i < s.len(),
    ensures
        key_sum(s.update(i, e)) + s[i].0.len() == key_sum(s) + e.0.len(),
        value_sum(s.update(i, e)) + s[i].1.len() == value_sum(s) + e.1.len(),
{
    assert(keys_of(s.update(i, e)) =~= keys_of(s).update(i, e.0));
    assert(values_of(s.update(i, e)) =~= values_of(s).update(i, e.1));
    lemma_lens_sum_update(keys_of(s), i, e.0);
    lemma_lens_sum_update(values_of(s), i, e.1);
}

/// The key and value sums of a prefix grow by the next pair.
pub proof fn lemma_sums_take(s: Seq<(Seq<u8>, Seq<u8>)>, i: int)
    requires
        0 <= i < s.len(),
    ensures
        key_sum(s.take(i + 1)) == key_sum(s.take(i)) + s[i].0.len(),
        value_sum(s.take(i + 1)) == value_sum(s.take(i)) + s[i].1.len(),
{
    assert(keys_of(s.take(i + 1)) =~= keys_of(s).take(i + 1));
    assert(keys_of(s.take(i)) =~= keys_of(s).take(i));
    assert(values_of(s.take(i + 1)) =~= values_of(s).take(i + 1));
    assert(values_of(s.take(i)) =~= values_of(s).take(i));
    lemma_lens_sum_take(keys_of(s), i);
    lemma_lens_sum_take(values_of(s), i);
}

/// The sums after appending a pair.
pub proof fn lemma_sums_push(s: Seq<(Seq<u8>, Seq<u8>)>, e: (Seq<u8>, Seq<u8>))
    ensures
        key_sum(s.push(e)) == key_sum(s) + e.0.len(),
        value_sum(s.push(e)) == value_sum(s) + e.1.len(),
{
    assert(s.push(e) =~= s.insert(s.len() as int, e));
    lemma_sums_insert(s, s.len() as int, e);
}

/// A pair's lengths are at most the sums.
pub proof fn lemma_sums_bound(s: Seq<(Seq<u8>, Seq<u8>)>, i: int)
    requires
        0 <= i < s.len(),
    ensures
        s[i].0.len() <= key_sum(s),
        s[i].1.len() <= value_sum(s),
{
    lemma_sums_remove(s, i);
}

/// Appending an element to what a window is taken from appends it to the
/// window, or leaves the window as it was.
pub proof fn lemma_window_push<A>(q: Seq<A>, x: A, skip: Option<u32>, count: Option<u32>)
    ensures
        window(q.push(x), skip, count) == if skip is None || ((skip matches Some(k) && k <= q.len()) && (
        count matches Some(c) ==> window(q, skip, count).len() < c)) {
            window(q, skip, count).push(x)
        } else {
            window(q, skip, count)
        },
{
    let a = skip_first(q, skip);
    let a2 = skip_first(q.push(x), skip);
    if let Some(k) = skip {
        if k <= q.len() {
            if k == q.len() {
                assert(a =~= Seq::<A>::empty());
                assert(a2 =~= seq![x]);
                assert(a2 =~= a.push(x));
            } else {
                assert(a2 =~= a.push(x));
            }
        } else {
            assert(a2 =~= a);
        }
    } else {
        assert(a2 =~= a.push(x));
    }
    if (skip matches Some(k) && k <= q.len()) {
        if let Some(c) = count {
            if c > a.len() {
                assert(take_first(a.push(x), count) =~= take_first(a, count).push(x));
            } else {
                assert(take_first(a.push(x), count) =~= take_first(a, count));
            }
        }
    }
}

/// The values a query selects from a prefix grow by the next pair.
pub proof fn lemma_query_values_take(s: Seq<(Seq<u8>, Seq<u8>)>, i: int, from: Option<Seq<u8>>, to: Option<Seq<u8>>)
    requires
        0 <= i < s.len(),
    ensures
        query_values(s.take(i + 1), from, to) == if in_query_range(s[i].0, from, to) {
            query_values(s.take(i), from, to).push(s[i].1)
        } else {
            query_values(s.take(i), from, to)
        },
        range_count(s.take(i + 1), from, to) == range_count(s.take(i), from, to) + if in_remove_range(s[i].0, from, to) {
            1nat
        } else {
            0nat
        },
{
    assert(s.take(i + 1).drop_last() =~= s.take(i));
}

/// What `remove_range` keeps of a prefix grows by the next pair, or not.
pub proof fn lemma_kept_items_take(s: Seq<(Seq<u8>, Seq<u8>)>, i: int, from: Option<Seq<u8>>, to: Option<Seq<u8>>, skip: nat)
    requires
        0 <= i < s.len(),
    ensures
        kept_items(s.take(i + 1), from, to, skip) == if in_remove_range(s[i].0, from, to) && range_count(s.take(i), from, to) >= skip {
            kept_items(s.take(i), from, to, skip)
        } else {
            kept_items(s.take(i), from, to, skip).push(s[i])
        },
{
    assert(s.take(i + 1).drop_last() =~= s.take(i));
}

/// Every key that `remove_range` keeps comes before a bound of all keys.
proof fn lemma_kept_items_bound(s: Seq<(Seq<u8>, Seq<u8>)>, from: Option<Seq<u8>>, to: Option<Seq<u8>>, skip: nat, x: Seq<u8>)
    requires
        forall|j: int| 0 <= j < s.len() ==> bytes_lt(#[trigger] s[j].0, x),
    ensures
        forall|m: int| 0 <= m < kept_items(s, from, to, skip).len() ==> bytes_lt(
            #[trigger] kept_items(s, from, to, skip)[m].0,
            x,
        ),
    decreases s.len(),
{
    if s.len() > 0 {
        let d = s.drop_last();
        assert forall|j: int| 0 <= j < d.len() implies bytes_lt(#[trigger] d[j].0, x) by {
            assert(d[j] == s[j]);
        }
        lemma_kept_items_bound(d, from, to, skip, x);
        let k = kept_items(s, from, to, skip);
        let kd = kept_items(d, from, to, skip);
        assert forall|m: int| 0 <= m < k.len() implies bytes_lt(#[trigger] k[m].0, x) by {
            if m < kd.len() {
                assert(k[m] == kd[m]);
            } else {
                assert(k[m] == s[s.len() - 1]);
            }
        }
    }
}

/// What `remove_range` keeps of a sorted sequence is sorted.
pub proof fn lemma_kept_items_sorted(s: Seq<(Seq<u8>, Seq<u8>)>, from: Option<Seq<u8>>, to: Option<Seq<u8>>, skip: nat)
    requires
        sorted_keys(s),
    ensures
        sorted_keys(kept_items(s, from, to, skip)),
    decreases s.len(),
{
    if s.len() > 0 {
        let d = s.drop_last();
        assert(sorted_keys(d)) by {
            assert forall|i: int, j: int| 0 <= i < j < d.len() implies bytes_lt(#[trigger] d[i].0, #[trigger] d[j].0) by {
                assert(d[i] == s[i] && d[j] == s[j]);
            }
        }
        lemma_kept_items_sorted(d, from, to, skip);
        assert forall|j: int| 0 <= j < d.len() implies bytes_lt(#[trigger] d[j].0, s.last().0) by {
            assert(d[j] == s[j]);
        }
        lemma_kept_items_bound(d, from, to, skip, s.last().0);
    }
}

/// The sums of a prefix are at most the sums of the whole.
pub proof fn lemma_sums_prefix(s: Seq<(Seq<u8>, Seq<u8>)>, i: int)
    requires
        0 <= i <= s.len(),
    ensures
        key_sum(s.take(i)) <= key_sum(s),
        value_sum(s.take(i)) <= value_sum(s),
    decreases s.len() - i,
{
    if i == s.len() {
        assert(s.take(i) =~= s);
    } else {
        lemma_sums_take(s, i);
        lemma_sums_prefix(s, i + 1);
    }
}

} // verus!
