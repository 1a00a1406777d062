//! How the models are kept in a store: the layout of their keys, and the
//! store operations on their serialized values.
//!
//! A key is the stage, the prefix of the model, then the model's own key:
//! the bytes of a digest, or a number in big-endian order. The values are
//! the serialized models, which the caller encodes and decodes.

use crate::bytes::copy_bytes;
use crate::models::account::{account_outcome, Account};
use crate::models::address::{digest_opt, Address, Digest};
use crate::models::conflict_set::{conflict_set_valid, ConflictSet};
use crate::models::consensus_message::{message_node, message_outcome, message_time, ConsensusMessage};
use crate::models::consensus_params::ConsensusParams;
use crate::models::consensus_state::ConsensusState;
use crate::models::error::{Error, Result};
use crate::models::stage::Stage;
use crate::models::timestamp::{plausible_now, Timestamp};
use crate::models::transaction::{transaction_ok, Transaction};
use crate::models::wallet::Wallet;
use crate::store::btree_store::{same_limits, 
    count_outcome, create_outcome, get_outcome, insert_outcome, opt_bytes, query_outcome, remove_outcome,
    remove_range_outcome, sample_outcome, unchanged, update_outcome, BTreeStore,
};
use crate::store::error::Error as StoreError;
use crate::store::traits::Store;
use byteorder::{BigEndian, WriteBytesExt};
use vstd::prelude::*;

verus! {

broadcast use crate::models::timestamp::lemma_plausible_now_bounds;

/// The key prefix of nodes.
pub const NODE_PREFIX: u8 = 1;

/// The key prefix of accounts.
pub const ACCOUNT_PREFIX: u8 = 2;

/// The key prefix of transactions.
pub const TRANSACTION_PREFIX: u8 = 3;

/// The key prefix of consensus parameters.
pub const CONSENSUS_PARAMS_PREFIX: u8 = 4;

/// The key prefix of conflict sets.
pub const CONFLICT_SET_PREFIX: u8 = 5;

/// The key prefix of consensus states.
pub const CONSENSUS_STATE_PREFIX: u8 = 6;

/// The key prefix of consensus messages.
pub const CONSENSUS_MESSAGE_PREFIX: u8 = 7;

/// The length of a digest key.
pub const DIGEST_LEN: usize = 64;

/// The byte of a stage in keys, by the order of its variants.
pub open spec fn stage_byte(stage: Stage) -> u8 {
    match stage {
        Stage::Development => 0,
        Stage::Testing => 1,
        Stage::Production => 2,
    }
}

/// The key of a model: the stage, the prefix, then the model's own key.
pub open spec fn key_bytes(stage: Stage, prefix: u8, key: Seq<u8>) -> Seq<u8> {
    seq![stage_byte(stage), prefix] + key
}

/// The eight bytes of a number, most significant first.
pub open spec fn be_bytes(n: u64) -> Seq<u8> {
    Seq::new(8, |i: int| ((n as nat / pow256((7 - i) as nat)) % 256) as u8)
}

/// 256 to the power `e`.
pub open spec fn pow256(e: nat) -> nat
    decreases e,
{
    if e == 0 {
        1
    } else {
        256 * pow256((e - 1) as nat)
    }
}

/// The digest whose first bytes are the stage and `prefix`, the rest zero:
/// the bound of the range of a model's keys in a query.
pub open spec fn range_digest(stage: Stage, prefix: u8) -> Seq<u8> {
    seq![stage_byte(stage), prefix] + Seq::new((DIGEST_LEN - 2) as nat, |i: int| 0u8)
}

/// `WriteBytesExt::write_u64::<BigEndian>` of `byteorder` on a vector: it
/// writes the eight bytes of `n`, most significant first, with `write_all`,
/// which on a vector appends them and does not fail.
#[verifier::external_body]
fn write_u64_be(buf: &mut Vec<u8>, n: u64) -> (r: core::result::Result<(), String>)
    ensures
        r is Ok,
        final(buf)@ == old(buf)@ + be_bytes(n),
{
    buf.write_u64::<BigEndian>(n).map_err(|e| e.to_string())
}

/// The byte of a stage in keys.
pub fn stage_to_byte(stage: Stage) -> (r: u8)
    ensures
        r == stage_byte(stage),
{
    match stage {
        Stage::Development => 0,
        Stage::Testing => 1,
        Stage::Production => 2,
    }
}

/// The key of a model whose own key is a digest.
pub fn digest_key(stage: Stage, prefix: u8, key: &[u8]) -> (r: Vec<u8>)
    ensures
        r@ == key_bytes(stage, prefix, key@),
{
    let mut buf: Vec<u8> = Vec::new();
    buf.push(stage_to_byte(stage));
    buf.push(prefix);
    let mut i: usize = 0;
    while i < key.len()
        invariant
            i <= key@.len(),
            buf@ == seq![stage_byte(stage), prefix] + key@.take(i as int),
        decreases key@.len() - i,
    {
        buf.push(key[i]);
        i += 1;
        assert(buf@ =~= seq![stage_byte(stage), prefix] + key@.take(i as int));
    }
    assert(key@.take(key@.len() as int) =~= key@);
    buf
}

/// The key of a model whose own key is a number.
pub fn number_key(stage: Stage, prefix: u8, key: u64) -> (r: Result<Vec<u8>>)
    ensures
        r matches Ok(k) && k@ == key_bytes(stage, prefix, be_bytes(key)),
{
    let mut buf: Vec<u8> = Vec::new();
    buf.push(stage_to_byte(stage));
    buf.push(prefix);
    match write_u64_be(&mut buf, key) {
        Ok(()) => {
            assert(buf@ =~= key_bytes(stage, prefix, be_bytes(key)));
            Ok(buf)
        },
        Err(msg) => Err(Error::IO { msg }),
    }
}

/// The digest that bounds the range of a model's keys in a query.
pub fn range_bound(stage: Stage, prefix: u8) -> (r: Vec<u8>)
    ensures
        r@ == range_digest(stage, prefix),
{
    let mut buf: Vec<u8> = Vec::new();
    buf.push(stage_to_byte(stage));
    buf.push(prefix);
    let mut i: usize = 2;
    while i < DIGEST_LEN
        invariant
            2 <= i <= DIGEST_LEN,
            buf@ == seq![stage_byte(stage), prefix] + Seq::new((i - 2) as nat, |j: int| 0u8),
        decreases DIGEST_LEN - i,
    {
        buf.push(0);
        i += 1;
        assert(buf@ =~= seq![stage_byte(stage), prefix] + Seq::new((i - 2) as nat, |j: int| 0u8));
    }
    buf
}

/// The model error of a store error.
fn from_store(e: StoreError) -> (r: Error)
    ensures
        r is Store,
{
    Error::from_store(&e)
}

/// Looks a key up in the store.
fn stored_lookup(store: &BTreeStore, key: &[u8]) -> (r: Result<bool>)
    ensures
        r == Ok::<bool, Error>(store@.contains_key(key@)),
{
    match store.lookup(key) {
        Ok(found) => Ok(found),
        Err(e) => Err(from_store(e)),
    }
}

/// The value of a key in the store.
fn stored_get(store: &BTreeStore, key: &[u8]) -> (r: Result<Vec<u8>>)
    ensures
        match r {
            Ok(v) => store@.contains_key(key@) && v@ == store@[key@],
            Err(e) => e is Store && !store@.contains_key(key@),
        },
{
    match store.get(key) {
        Ok(v) => Ok(v),
        Err(e) => Err(from_store(e)),
    }
}

/// The values of a range of keys in the store.
fn stored_query(store: &BTreeStore, from: &Vec<u8>, to: &Vec<u8>, count: Option<u32>, skip: Option<u32>) -> (r: Result<
    Vec<Vec<u8>>,
>)
    ensures
        match r {
            Ok(vs) => query_outcome(*store, Some(from@), Some(to@), count, skip, Ok(vs)),
            Err(e) => e is Store && query_outcome(*store, Some(from@), Some(to@), count, skip, Err(StoreError::InvalidRange)),
        },
{
    match store.query(Some(from.as_slice()), Some(to.as_slice()), count, skip) {
        Ok(vs) => Ok(vs),
        Err(e) => Err(from_store(e)),
    }
}

/// The values of an optional range of keys in the store.
fn stored_query_opt(store: &BTreeStore, from: &Option<Vec<u8>>, to: &Option<Vec<u8>>, count: Option<u32>, skip: Option<u32>) -> (r:
    Result<Vec<Vec<u8>>>)
    ensures
        match r {
            Ok(vs) => query_outcome(*store, opt_vec(*from), opt_vec(*to), count, skip, Ok(vs)),
            Err(e) => e is Store && query_outcome(*store, opt_vec(*from), opt_vec(*to), count, skip, Err(StoreError::InvalidRange)),
        },
{
    let f: Option<&[u8]> = match from {
        Some(v) => Some(v.as_slice()),
        None => None,
    };
    let t: Option<&[u8]> = match to {
        Some(v) => Some(v.as_slice()),
        None => None,
    };
    match store.query(f, t, count, skip) {
        Ok(vs) => Ok(vs),
        Err(e) => Err(from_store(e)),
    }
}

/// The number of keys in an optional range of the store.
fn stored_count_opt(store: &BTreeStore, from: &Option<Vec<u8>>, to: &Option<Vec<u8>>, skip: Option<u32>) -> (r: Result<u32>)
    ensures
        match r {
            Ok(n) => count_outcome(*store, opt_vec(*from), opt_vec(*to), skip, Ok(n)),
            Err(e) => e is Store && count_outcome(*store, opt_vec(*from), opt_vec(*to), skip, Err(StoreError::InvalidRange)),
        },
{
    let f: Option<&[u8]> = match from {
        Some(v) => Some(v.as_slice()),
        None => None,
    };
    let t: Option<&[u8]> = match to {
        Some(v) => Some(v.as_slice()),
        None => None,
    };
    match store.count(f, t, skip) {
        Ok(n) => Ok(n),
        Err(e) => Err(from_store(e)),
    }
}

/// The bytes that an optional vector holds.
pub open spec fn opt_vec(o: Option<Vec<u8>>) -> Option<Seq<u8>> {
    match o {
        Some(v) => Some(v@),
        None => None,
    }
}

/// The key of an optional digest, or the given bound.
fn digest_bound(stage: Stage, prefix: u8, key: Option<&Digest>, bound_prefix: u8) -> (r: Vec<u8>)
    ensures
        r@ == match key {
            Some(k) => key_bytes(stage, prefix, k@),
            None => range_digest(stage, bound_prefix),
        },
{
    match key {
        Some(k) => digest_key(stage, prefix, k.as_slice()),
        None => range_bound(stage, bound_prefix),
    }
}

/// The key of an optional digest.
fn digest_key_opt(stage: Stage, prefix: u8, key: Option<&Digest>) -> (r: Option<Vec<u8>>)
    ensures
        opt_vec(r) == match key {
            Some(k) => Some(key_bytes(stage, prefix, k@)),
            None => None::<Seq<u8>>,
        },
{
    match key {
        Some(k) => Some(digest_key(stage, prefix, k.as_slice())),
        None => None,
    }
}

/// The key of an optional number.
fn number_key_opt(stage: Stage, prefix: u8, key: Option<u64>) -> (r: Result<Option<Vec<u8>>>)
    ensures
        r matches Ok(o) && opt_vec(o) == match key {
            Some(k) => Some(key_bytes(stage, prefix, be_bytes(k))),
            None => None::<Seq<u8>>,
        },
{
    match key {
        Some(k) => Ok(Some(number_key(stage, prefix, k)?)),
        None => Ok(None),
    }
}

/// The keys of `prefix` and of the next prefix, two bytes each: the range
/// of a model's keys that `clear` removes.
fn prefix_range(stage: Stage, prefix: u8) -> (r: (Vec<u8>, Vec<u8>))
    requires
        prefix < 255,
    ensures
        r.0@ == seq![stage_byte(stage), prefix],
        r.1@ == seq![stage_byte(stage), (prefix + 1) as u8],
{
    let s = stage_to_byte(stage);
    let mut from: Vec<u8> = Vec::new();
    from.push(s);
    from.push(prefix);
    let mut to: Vec<u8> = Vec::new();
    to.push(s);
    to.push(prefix + 1);
    assert(from@ =~= seq![stage_byte(stage), prefix]);
    assert(to@ =~= seq![stage_byte(stage), (prefix + 1) as u8]);
    (from, to)
}

/// Removes the range of a model's keys from the store.
fn clear_prefix(store: &mut BTreeStore, stage: Stage, prefix: u8) -> (r: Result<()>)
    requires
        prefix < 255,
    ensures
        match r {
            Ok(()) => remove_range_outcome(
                *old(store),
                *final(store),
                Some(seq![stage_byte(stage), prefix]),
                Some(seq![stage_byte(stage), (prefix + 1) as u8]),
                None,
                Ok(()),
            ),
            Err(e) => false,
        },
{
    let (from, to) = prefix_range(stage, prefix);
    proof {
        assert(from@.drop_first() =~= seq![prefix]);
        assert(to@.drop_first() =~= seq![(prefix + 1) as u8]);
        reveal_with_fuel(crate::bytes::bytes_lt, 2);
        assert(!crate::bytes::bytes_lt(to@, from@));
        assert(crate::store::items::range_valid(Some(from@), Some(to@)));
    }
    match store.remove_range(Some(from.as_slice()), Some(to.as_slice()), None) {
        Ok(()) => Ok(()),
        Err(e) => Err(from_store(e)),
    }
}

/// Inserts a key-value pair in the store.
fn stored_insert(store: &mut BTreeStore, key: &[u8], value: &[u8]) -> (r: Result<()>)
    ensures
        match r {
            Ok(()) => insert_outcome(*old(store), *final(store), key@, value@, Ok(())),
            Err(e) => e is Store && exists|se: StoreError| #[trigger] insert_outcome(*old(store), *final(store), key@, value@, Err(se)),
        },
{
    match store.insert(key, value) {
        Ok(()) => Ok(()),
        Err(e) => Err(from_store(e)),
    }
}

/// Creates a key-value pair in the store.
fn stored_create(store: &mut BTreeStore, key: &[u8], value: &[u8]) -> (r: Result<()>)
    ensures
        match r {
            Ok(()) => create_outcome(*old(store), *final(store), key@, value@, Ok(())),
            Err(e) => e is Store && exists|se: StoreError| #[trigger] create_outcome(*old(store), *final(store), key@, value@, Err(se)),
        },
{
    match store.create(key, value) {
        Ok(()) => Ok(()),
        Err(e) => Err(from_store(e)),
    }
}

/// Updates a key-value pair in the store.
fn stored_update(store: &mut BTreeStore, key: &[u8], value: &[u8]) -> (r: Result<()>)
    ensures
        match r {
            Ok(()) => update_outcome(*old(store), *final(store), key@, value@, Ok(())),
            Err(e) => e is Store && exists|se: StoreError| #[trigger] update_outcome(*old(store), *final(store), key@, value@, Err(se)),
        },
{
    match store.update(key, value) {
        Ok(()) => Ok(()),
        Err(e) => Err(from_store(e)),
    }
}

/// Removes a key from the store.
fn stored_remove(store: &mut BTreeStore, key: &[u8]) -> (r: Result<()>)
    ensures
        match r {
            Ok(()) => remove_outcome(*old(store), *final(store), key@, Ok(())),
            Err(e) => e is Store && remove_outcome(*old(store), *final(store), key@, Err(StoreError::NotFound)),
        },
{
    match store.remove(key) {
        Ok(()) => Ok(()),
        Err(e) => Err(from_store(e)),
    }
}

/// Samples the values of a range of keys of the store.
fn stored_sample(store: &BTreeStore, from: &Vec<u8>, to: &Vec<u8>, count: u32, picks: &[u32]) -> (r: Result<Vec<Vec<u8>>>)
    ensures
        match r {
            Ok(vs) => sample_outcome(*store, Some(from@), Some(to@), count, picks@, Ok(vs)),
            Err(e) => e is Store && sample_outcome(*store, Some(from@), Some(to@), count, picks@, Err(StoreError::InvalidRange)),
        },
{
    match store.sample(Some(from.as_slice()), Some(to.as_slice()), count, picks) {
        Ok(vs) => Ok(vs),
        Err(e) => Err(from_store(e)),
    }
}

/// The number of keys in a range of the store.
fn stored_count(store: &BTreeStore, from: &Vec<u8>, to: &Vec<u8>, skip: Option<u32>) -> (r: Result<u32>)
    ensures
        match r {
            Ok(n) => count_outcome(*store, Some(from@), Some(to@), skip, Ok(n)),
            Err(e) => e is Store && count_outcome(*store, Some(from@), Some(to@), skip, Err(StoreError::InvalidRange)),
        },
{
    match store.count(Some(from.as_slice()), Some(to.as_slice()), skip) {
        Ok(n) => Ok(n),
        Err(e) => Err(from_store(e)),
    }
}

/// Samples the values of an optional range of keys of the store.
fn stored_sample_opt(store: &BTreeStore, from: &Option<Vec<u8>>, to: &Option<Vec<u8>>, count: u32, picks: &[u32]) -> (r:
    Result<Vec<Vec<u8>>>)
    ensures
        match r {
            Ok(vs) => sample_outcome(*store, opt_vec(*from), opt_vec(*to), count, picks@, Ok(vs)),
            Err(e) => e is Store && sample_outcome(*store, opt_vec(*from), opt_vec(*to), count, picks@, Err(StoreError::InvalidRange)),
        },
{
    let f: Option<&[u8]> = match from {
        Some(v) => Some(v.as_slice()),
        None => None,
    };
    let t: Option<&[u8]> = match to {
        Some(v) => Some(v.as_slice()),
        None => None,
    };
    match store.sample(f, t, count, picks) {
        Ok(vs) => Ok(vs),
        Err(e) => Err(from_store(e)),
    }
}

/// Inserts key-value pairs in the store in one operation, which this
/// store does not implement: it fails and changes nothing.
fn stored_insert_batch(store: &mut BTreeStore, items: &Vec<(Vec<u8>, Vec<u8>)>) -> (r: Result<()>)
    ensures
        r matches Err(e) && e is Store,
        unchanged(*old(store), *final(store)),
{
    let mut refs: Vec<(&[u8], &[u8])> = Vec::new();
    let mut i: usize = 0;
    while i < items.len()
        invariant
            i <= items@.len(),
        decreases items@.len() - i,
    {
        refs.push((items[i].0.as_slice(), items[i].1.as_slice()));
        i += 1;
    }
    match store.insert_batch(refs.as_slice()) {
        Ok(()) => Ok(()),
        Err(e) => Err(from_store(e)),
    }
}

/// Removes keys from the store in one operation, which this store does not
/// implement: it fails and changes nothing.
fn stored_remove_batch(store: &mut BTreeStore, keys: &Vec<Vec<u8>>) -> (r: Result<()>)
    ensures
        r matches Err(e) && e is Store,
        unchanged(*old(store), *final(store)),
{
    let mut refs: Vec<&[u8]> = Vec::new();
    let mut i: usize = 0;
    while i < keys.len()
        invariant
            i <= keys@.len(),
        decreases keys@.len() - i,
    {
        refs.push(keys[i].as_slice());
        i += 1;
    }
    match store.remove_batch(refs.as_slice()) {
        Ok(()) => Ok(()),
        Err(e) => Err(from_store(e)),
    }
}

/// The bytes of a sequence of keys, as a set.
pub open spec fn keys_set(keys: Seq<Vec<u8>>) -> Set<Seq<u8>> {
    Set::new(|k: Seq<u8>| exists|i: int| 0 <= i < keys.len() && (#[trigger] keys[i])@ == k)
}

/// Each key is in the store, and no key comes twice.
pub open spec fn keys_stored(store: Map<Seq<u8>, Seq<u8>>, keys: Seq<Vec<u8>>) -> bool {
    &&& forall|i: int| 0 <= i < keys.len() ==> store.contains_key(#[trigger] keys[i]@)
    &&& forall|i: int, j: int| 0 <= i < j < keys.len() ==> (#[trigger] keys[i])@ != (#[trigger] keys[j])@
}

/// Removes the keys, one after the other; each must be in the store.
fn stored_remove_all(store: &mut BTreeStore, keys: &Vec<Vec<u8>>) -> (r: Result<()>)
    ensures
        r is Ok ==> final(store)@ == old(store)@.remove_keys(keys_set(keys@)),
        r matches Err(e) ==> e is Store,
        keys_stored(old(store)@, keys@) ==> r is Ok,
{
    let mut i: usize = 0;
    while i < keys.len()
        invariant
            i <= keys@.len(),
            store@ == old(store)@.remove_keys(keys_set(keys@.take(i as int))),
        decreases keys@.len() - i,
    {
        if let Err(e) = stored_remove(store, keys[i].as_slice()) {
            proof {
                if old(store)@.contains_key(keys@[i as int]@) {
                    assert(keys_set(keys@.take(i as int)).contains(keys@[i as int]@));
                    let j = choose|j: int| 0 <= j < i && (#[trigger] keys@.take(i as int)[j])@ == keys@[i as int]@;
                    assert(keys@[j] == keys@.take(i as int)[j]);
                }
            }
            return Err(e);
        }
        proof {
            let next = keys@.take(i + 1);
            assert forall|k: Seq<u8>| keys_set(next).contains(k) <==> keys_set(keys@.take(i as int)).contains(k) || k == keys@[i as int]@ by {
                if keys_set(next).contains(k) {
                    let j = choose|j: int| 0 <= j < next.len() && (#[trigger] next[j])@ == k;
                    if j < i {
                        assert(keys@.take(i as int)[j] == next[j]);
                    }
                }
                if keys_set(keys@.take(i as int)).contains(k) {
                    let j = choose|j: int| 0 <= j < i && (#[trigger] keys@.take(i as int)[j])@ == k;
                    assert(next[j] == keys@.take(i as int)[j]);
                }
                if k == keys@[i as int]@ {
                    assert(next[i as int] == keys@[i as int]);
                }
            }
            assert(store@ =~= old(store)@.remove_keys(keys_set(next)));
        }
        i += 1;
    }
    assert(keys@.take(keys@.len() as int) =~= keys@);
    Ok(())
}

impl Account {
    /// `lookup` looks up an `Account` in the store by address.
    pub fn lookup(store: &BTreeStore, stage: Stage, key: &Address) -> (r: Result<bool>)
        ensures
            r == Ok::<bool, Error>(store@.contains_key(key_bytes(stage, ACCOUNT_PREFIX, key@))),
    {
        let k = digest_key(stage, ACCOUNT_PREFIX, key.as_slice());
        stored_lookup(store, k.as_slice())
    }

    /// `get` returns a serialized `Account` from the store.
    pub fn get(store: &BTreeStore, stage: Stage, key: &Address) -> (r: Result<Vec<u8>>)
        ensures
            get_model(*store, key_bytes(stage, ACCOUNT_PREFIX, key@), r),
    {
        let k = digest_key(stage, ACCOUNT_PREFIX, key.as_slice());
        stored_get(store, k.as_slice())
    }

    /// `query` returns the serialized `Account`s of a range of addresses.
    pub fn query(store: &BTreeStore, stage: Stage, from: Option<&Address>, to: Option<&Address>, count: Option<u32>, skip: Option<u32>) -> (r:
        Result<Vec<Vec<u8>>>)
        ensures
            query_model(*store, opt_key(stage, ACCOUNT_PREFIX, from), opt_key(stage, ACCOUNT_PREFIX, to), count, skip, r),
    {
        let f = digest_key_opt(stage, ACCOUNT_PREFIX, from);
        let t = digest_key_opt(stage, ACCOUNT_PREFIX, to);
        stored_query_opt(store, &f, &t, count, skip)
    }

    /// `count` counts the `Account`s of a range of addresses.
    pub fn count(store: &BTreeStore, stage: Stage, from: Option<&Address>, to: Option<&Address>, skip: Option<u32>) -> (r: Result<u32>)
        ensures
            count_model(*store, opt_key(stage, ACCOUNT_PREFIX, from), opt_key(stage, ACCOUNT_PREFIX, to), skip, r),
    {
        let f = digest_key_opt(stage, ACCOUNT_PREFIX, from);
        let t = digest_key_opt(stage, ACCOUNT_PREFIX, to);
        stored_count_opt(store, &f, &t, skip)
    }

    /// `insert` inserts a serialized `Account` in the store.
    pub fn insert(store: &mut BTreeStore, stage: Stage, key: &Address, value: &[u8]) -> (r: Result<()>)
        ensures
            insert_model(*old(store), *final(store), key_bytes(stage, ACCOUNT_PREFIX, key@), value@, r),
    {
        let k = digest_key(stage, ACCOUNT_PREFIX, key.as_slice());
        stored_insert(store, k.as_slice(), value)
    }

    /// `create` creates a serialized `Account` not yet in the store.
    pub fn create(store: &mut BTreeStore, stage: Stage, key: &Address, value: &[u8]) -> (r: Result<()>)
        ensures
            create_model(*old(store), *final(store), key_bytes(stage, ACCOUNT_PREFIX, key@), value@, r),
    {
        let k = digest_key(stage, ACCOUNT_PREFIX, key.as_slice());
        stored_create(store, k.as_slice(), value)
    }

    /// `update_stored` updates a serialized `Account` in the store.
    pub fn update_stored(store: &mut BTreeStore, stage: Stage, key: &Address, value: &[u8]) -> (r: Result<()>)
        ensures
            update_model(*old(store), *final(store), key_bytes(stage, ACCOUNT_PREFIX, key@), value@, r),
    {
        let k = digest_key(stage, ACCOUNT_PREFIX, key.as_slice());
        stored_update(store, k.as_slice(), value)
    }

    /// `remove` removes an `Account` from the store.
    pub fn remove(store: &mut BTreeStore, stage: Stage, key: &Address) -> (r: Result<()>)
        ensures
            remove_model(*old(store), *final(store), key_bytes(stage, ACCOUNT_PREFIX, key@), r),
    {
        let k = digest_key(stage, ACCOUNT_PREFIX, key.as_slice());
        stored_remove(store, k.as_slice())
    }

    /// `clear` removes the `Account`s of a stage from the store.
    pub fn clear(store: &mut BTreeStore, stage: Stage) -> (r: Result<()>)
        ensures
            clear_model(*old(store), *final(store), stage, ACCOUNT_PREFIX, r),
    {
        clear_prefix(store, stage, ACCOUNT_PREFIX)
    }

    /// `validate_single` validates an `Account` to store at a stage.
    pub fn validate_single(store: &BTreeStore, stage: Stage, value: &Account) -> (r: Result<()>)
        ensures
            exists|now: Timestamp| #[trigger] plausible_now(now) && if value.stage != stage {
                r matches Err(e) && e is InvalidStage
            } else {
                account_outcome(*value, now, r)
            },
    {
        if value.stage != stage {
            let now = Timestamp::now();
            let r = Err(Error::InvalidStage);
            assert(plausible_now(now));
            return r;
        }
        value.validate()
    }
}

/// The keys of the stamped values older than `min`.
pub open spec fn expired(stamps: Seq<(Seq<u8>, Timestamp)>, min: Timestamp) -> Set<Seq<u8>> {
    Set::new(|k: Seq<u8>| exists|i: int| 0 <= i < stamps.len() && (#[trigger] stamps[i]).1.0 < min.0 && stamps[i].0 == k)
}

/// Each key of the stamped values is in the store, and no key comes twice.
pub open spec fn stamps_stored(store: Map<Seq<u8>, Seq<u8>>, stamps: Seq<(Seq<u8>, Timestamp)>) -> bool {
    &&& forall|i: int| 0 <= i < stamps.len() ==> store.contains_key((#[trigger] stamps[i]).0)
    &&& forall|i: int, j: int| 0 <= i < j < stamps.len() ==> (#[trigger] stamps[i]).0 != (#[trigger] stamps[j]).0
}

/// The bytes of the keys of stamped values.
pub open spec fn stamps_view(stamps: Seq<(Vec<u8>, Timestamp)>) -> Seq<(Seq<u8>, Timestamp)> {
    stamps.map_values(|s: (Vec<u8>, Timestamp)| (s.0@, s.1))
}

/// Removes the keys of the stamped values older than `min`; each must be
/// in the store.
fn remove_expired(store: &mut BTreeStore, stamps: &Vec<(Vec<u8>, Timestamp)>, min: Timestamp) -> (r: Result<()>)
    ensures
        r is Ok ==> final(store)@ == old(store)@.remove_keys(expired(stamps_view(stamps@), min)),
        r matches Err(e) ==> e is Store,
        stamps_stored(old(store)@, stamps_view(stamps@)) ==> r is Ok,
{
    let ghost all = stamps_view(stamps@);
    let mut keys: Vec<Vec<u8>> = Vec::new();
    let ghost mut idx: Seq<int> = Seq::empty();
    let mut i: usize = 0;
    assert(keys_set(keys@) =~= expired(all.take(0), min));
    while i < stamps.len()
        invariant
            i <= stamps@.len(),
            all == stamps_view(stamps@),
            keys_set(keys@) == expired(all.take(i as int), min),
            idx.len() == keys@.len(),
            forall|j: int| 0 <= j < idx.len() ==> 0 <= #[trigger] idx[j] < i && keys@[j]@ == all[idx[j]].0,
            forall|j1: int, j2: int| 0 <= j1 < j2 < idx.len() ==> #[trigger] idx[j1] < #[trigger] idx[j2],
        decreases stamps@.len() - i,
    {
        let ghost before = keys@;
        let old_enough = stamps[i].1.0 < min.0;
        if old_enough {
            keys.push(copy_bytes(stamps[i].0.as_slice()));
            proof {
                idx = idx.push(i as int);
            }
        }
        proof {
            let pre = all.take(i as int);
            let post = all.take(i + 1);
            assert(all[i as int] == (stamps@[i as int].0@, stamps@[i as int].1));
            assert forall|k: Seq<u8>| keys_set(keys@).contains(k) <==> expired(post, min).contains(k) by {
                if keys_set(keys@).contains(k) {
                    let j = choose|j: int| 0 <= j < keys@.len() && (#[trigger] keys@[j])@ == k;
                    if j < before.len() {
                        assert(before[j] == keys@[j]);
                        assert(keys_set(before).contains(k));
                        let m = choose|m: int| 0 <= m < pre.len() && (#[trigger] pre[m]).1.0 < min.0 && pre[m].0 == k;
                        assert(post[m] == pre[m]);
                    } else {
                        assert(post[i as int] == all[i as int]);
                    }
                }
                if expired(post, min).contains(k) {
                    let m = choose|m: int| 0 <= m < post.len() && (#[trigger] post[m]).1.0 < min.0 && post[m].0 == k;
                    if m < i {
                        assert(pre[m] == post[m]);
                        assert(expired(pre, min).contains(k));
                        let j = choose|j: int| 0 <= j < before.len() && (#[trigger] before[j])@ == k;
                        assert(keys@[j] == before[j]);
                    } else {
                        assert(keys@[before.len() as int]@ == k);
                    }
                }
            }
            assert(keys_set(keys@) =~= expired(post, min));
        }
        i += 1;
    }
    assert(all.take(stamps@.len() as int) =~= all);
    proof {
        if stamps_stored(old(store)@, all) {
            assert forall|j: int| 0 <= j < keys@.len() implies old(store)@.contains_key(#[trigger] keys@[j]@) by {
                assert(all[idx[j]].0 == keys@[j]@);
            }
            assert forall|j1: int, j2: int| 0 <= j1 < j2 < keys@.len() implies (#[trigger] keys@[j1])@ != (#[trigger] keys@[j2])@ by {
                assert(idx[j1] < idx[j2]);
            }
        }
    }
    stored_remove_all(store, &keys)
}

/// The store keys and times of accounts.
pub open spec fn account_stamps(stage: Stage, accounts: Seq<Account>) -> Seq<(Seq<u8>, Timestamp)> {
    accounts.map_values(|a: Account| (key_bytes(stage, ACCOUNT_PREFIX, a.address@), a.timestamp))
}

/// The given time, or the current time.
fn time_or_now(t: Option<Timestamp>) -> (r: Timestamp)
    ensures
        match t {
            Some(t) => r == t,
            None => plausible_now(r),
        },
{
    match t {
        Some(t) => t,
        None => Timestamp::default(),
    }
}

impl Account {
    /// `key_to_bytes` returns the store key of an `Account` address.
    pub fn key_to_bytes(stage: Stage, key: &Address) -> (r: Result<Vec<u8>>)
        ensures
            r matches Ok(k) && k@ == key_bytes(stage, ACCOUNT_PREFIX, key@),
    {
        Ok(digest_key(stage, ACCOUNT_PREFIX, key.as_slice()))
    }

    /// `sample` samples serialized `Account`s of a range of addresses;
    /// `picks` are the positions drawn at random.
    pub fn sample(store: &BTreeStore, stage: Stage, from: Option<&Address>, to: Option<&Address>, count: u32, picks: &[u32]) -> (r: Result<
        Vec<Vec<u8>>,
    >)
        ensures
            match r {
                Ok(vs) => sample_outcome(*store, opt_key(stage, ACCOUNT_PREFIX, from), opt_key(stage, ACCOUNT_PREFIX, to), count, picks@, Ok(vs)),
                Err(e) => e is Store && sample_outcome(*store, opt_key(stage, ACCOUNT_PREFIX, from), opt_key(stage, ACCOUNT_PREFIX, to), count, picks@, Err(StoreError::InvalidRange)),
            },
    {
        let f = digest_key_opt(stage, ACCOUNT_PREFIX, from);
        let t = digest_key_opt(stage, ACCOUNT_PREFIX, to);
        stored_sample_opt(store, &f, &t, count, picks)
    }

    /// `insert_batch` inserts serialized `Account`s, each under its
    /// address, in one store operation; this store does not implement it.
    pub fn insert_batch(store: &mut BTreeStore, stage: Stage, items: &Vec<(Address, Vec<u8>)>) -> (r: Result<()>)
        ensures
            r matches Err(e) && e is Store,
            unchanged(*old(store), *final(store)),
    {
        let mut batch: Vec<(Vec<u8>, Vec<u8>)> = Vec::new();
        let mut i: usize = 0;
        while i < items.len()
            invariant
                i <= items@.len(),
            decreases items@.len() - i,
        {
            batch.push((digest_key(stage, ACCOUNT_PREFIX, items[i].0.as_slice()), copy_bytes(items[i].1.as_slice())));
            i += 1;
        }
        stored_insert_batch(store, &batch)
    }

    /// `remove_batch` removes `Account`s by address in one store
    /// operation; this store does not implement it.
    pub fn remove_batch(store: &mut BTreeStore, stage: Stage, keys: &Vec<Address>) -> (r: Result<()>)
        ensures
            r matches Err(e) && e is Store,
            unchanged(*old(store), *final(store)),
    {
        let mut batch: Vec<Vec<u8>> = Vec::new();
        let mut i: usize = 0;
        while i < keys.len()
            invariant
                i <= keys@.len(),
            decreases keys@.len() - i,
        {
            batch.push(digest_key(stage, ACCOUNT_PREFIX, keys[i].as_slice()));
            i += 1;
        }
        stored_remove_batch(store, &batch)
    }

    /// `cleanup` removes from the store the `accounts` (those that the
    /// store holds for the stage, decoded by the caller) whose timestamp
    /// precedes `min_time`, or the current time without it.
    pub fn cleanup(store: &mut BTreeStore, stage: Stage, min_time: Option<Timestamp>, accounts: &[Account]) -> (r: Result<()>)
        ensures
            r is Ok ==> match min_time {
                Some(t) => final(store)@ == old(store)@.remove_keys(expired(account_stamps(stage, accounts@), t)),
                None => exists|now: Timestamp| #[trigger] plausible_now(now) && final(store)@ == old(store)@.remove_keys(
                    expired(account_stamps(stage, accounts@), now),
                ),
            },
            r matches Err(e) ==> e is Store,
            stamps_stored(old(store)@, account_stamps(stage, accounts@)) ==> r is Ok,
    {
        let min = time_or_now(min_time);
        let mut stamps: Vec<(Vec<u8>, Timestamp)> = Vec::new();
        let mut i: usize = 0;
        while i < accounts.len()
            invariant
                i <= accounts@.len(),
                stamps@.len() == i,
                stamps_view(stamps@) == account_stamps(stage, accounts@.take(i as int)),
            decreases accounts@.len() - i,
        {
            let ghost before = stamps@;
            stamps.push((digest_key(stage, ACCOUNT_PREFIX, accounts[i].address.as_slice()), accounts[i].timestamp));
            proof {
                assert(accounts@.take(i + 1) =~= accounts@.take(i as int).push(accounts@[i as int]));
                assert(stamps@ =~= before.push(stamps@[i as int]));
                assert(stamps_view(stamps@) =~= stamps_view(before).push(stamps_view(stamps@)[i as int]));
                assert(stamps_view(stamps@) =~= account_stamps(stage, accounts@.take(i + 1)));
            }
            i += 1;
        }
        assert(accounts@.take(accounts@.len() as int) =~= accounts@);
        remove_expired(store, &stamps, min)
    }
}

/// The store key of an optional digest.
pub open spec fn opt_key(stage: Stage, prefix: u8, key: Option<&Digest>) -> Option<Seq<u8>> {
    match key {
        Some(k) => Some(key_bytes(stage, prefix, k@)),
        None => None,
    }
}

/// The store key of an optional digest, or a bound of the model's range.
pub open spec fn key_or_bound(stage: Stage, prefix: u8, key: Option<&Digest>, bound_prefix: u8) -> Seq<u8> {
    match key {
        Some(k) => key_bytes(stage, prefix, k@),
        None => range_digest(stage, bound_prefix),
    }
}

/// What reading a model gives: its serialized value, or a store error
/// where the key is absent.
pub open spec fn get_model(store: BTreeStore, key: Seq<u8>, r: Result<Vec<u8>>) -> bool {
    match r {
        Ok(v) => store@.contains_key(key) && v@ == store@[key],
        Err(e) => e is Store && !store@.contains_key(key),
    }
}

/// What a query of models gives, as `query` of the store does.
pub open spec fn query_model(store: BTreeStore, from: Option<Seq<u8>>, to: Option<Seq<u8>>, count: Option<u32>, skip: Option<u32>, r: Result<Vec<Vec<u8>>>) -> bool {
    match r {
        Ok(vs) => query_outcome(store, from, to, count, skip, Ok(vs)),
        Err(e) => e is Store && query_outcome(store, from, to, count, skip, Err(StoreError::InvalidRange)),
    }
}

/// What counting models gives, as `count` of the store does.
pub open spec fn count_model(store: BTreeStore, from: Option<Seq<u8>>, to: Option<Seq<u8>>, skip: Option<u32>, r: Result<u32>) -> bool {
    match r {
        Ok(n) => count_outcome(store, from, to, skip, Ok(n)),
        Err(e) => e is Store && count_outcome(store, from, to, skip, Err(StoreError::InvalidRange)),
    }
}

/// What inserting a model does, as `insert` of the store does.
pub open spec fn insert_model(old: BTreeStore, new: BTreeStore, key: Seq<u8>, value: Seq<u8>, r: Result<()>) -> bool {
    match r {
        Ok(()) => insert_outcome(old, new, key, value, Ok(())),
        Err(e) => e is Store && exists|se: StoreError| #[trigger] insert_outcome(old, new, key, value, Err(se)),
    }
}

/// What creating a model does, as `create` of the store does.
pub open spec fn create_model(old: BTreeStore, new: BTreeStore, key: Seq<u8>, value: Seq<u8>, r: Result<()>) -> bool {
    match r {
        Ok(()) => create_outcome(old, new, key, value, Ok(())),
        Err(e) => e is Store && exists|se: StoreError| #[trigger] create_outcome(old, new, key, value, Err(se)),
    }
}

/// What updating a model does, as `update` of the store does.
pub open spec fn update_model(old: BTreeStore, new: BTreeStore, key: Seq<u8>, value: Seq<u8>, r: Result<()>) -> bool {
    match r {
        Ok(()) => update_outcome(old, new, key, value, Ok(())),
        Err(e) => e is Store && exists|se: StoreError| #[trigger] update_outcome(old, new, key, value, Err(se)),
    }
}

/// What removing a model does, as `remove` of the store does.
pub open spec fn remove_model(old: BTreeStore, new: BTreeStore, key: Seq<u8>, r: Result<()>) -> bool {
    match r {
        Ok(()) => remove_outcome(old, new, key, Ok(())),
        Err(e) => e is Store && remove_outcome(old, new, key, Err(StoreError::NotFound)),
    }
}

/// What clearing the models of a stage does: it removes the keys from the
/// two bytes of the stage and prefix to those of the next prefix.
pub open spec fn clear_model(old: BTreeStore, new: BTreeStore, stage: Stage, prefix: u8, r: Result<()>) -> bool {
    r is Ok && remove_range_outcome(
        old,
        new,
        Some(seq![stage_byte(stage), prefix]),
        Some(seq![stage_byte(stage), (prefix + 1) as u8]),
        None,
        Ok(()),
    )
}

/// A conflict set may be stored at a stage when it is of that stage,
/// valid, and its account and its transactions are in the store.
pub open spec fn conflict_set_storable(store: BTreeStore, stage: Stage, cs: ConflictSet) -> bool {
    &&& cs.stage == stage
    &&& conflict_set_valid(cs)
    &&& store@.contains_key(key_bytes(stage, ACCOUNT_PREFIX, cs.address@))
    &&& forall|id: Seq<u8>| #[trigger] cs.transactions@.contains(id) ==> store@.contains_key(
        key_bytes(stage, TRANSACTION_PREFIX, id),
    )
    &&& (cs.last matches Some(l) ==> store@.contains_key(key_bytes(stage, TRANSACTION_PREFIX, l@)))
    &&& (cs.preferred matches Some(p) ==> store@.contains_key(key_bytes(stage, TRANSACTION_PREFIX, p@)))
}

impl ConflictSet {
    /// `lookup` looks up a `ConflictSet` in the store by address.
    pub fn lookup(store: &BTreeStore, stage: Stage, key: &Address) -> (r: Result<bool>)
        ensures
            r == Ok::<bool, Error>(store@.contains_key(key_bytes(stage, CONFLICT_SET_PREFIX, key@))),
    {
        let k = digest_key(stage, CONFLICT_SET_PREFIX, key.as_slice());
        stored_lookup(store, k.as_slice())
    }

    /// `get` returns a serialized `ConflictSet` from the store.
    pub fn get(store: &BTreeStore, stage: Stage, key: &Address) -> (r: Result<Vec<u8>>)
        ensures
            get_model(*store, key_bytes(stage, CONFLICT_SET_PREFIX, key@), r),
    {
        let k = digest_key(stage, CONFLICT_SET_PREFIX, key.as_slice());
        stored_get(store, k.as_slice())
    }

    /// `query` returns the serialized `ConflictSet`s of a range of
    /// addresses; a missing bound is the bound of the conflict sets' keys.
    pub fn query(store: &BTreeStore, stage: Stage, from: Option<&Address>, to: Option<&Address>, count: Option<u32>, skip: Option<u32>) -> (r:
        Result<Vec<Vec<u8>>>)
        ensures
            query_model(
                *store,
                Some(key_or_bound(stage, CONFLICT_SET_PREFIX, from, CONFLICT_SET_PREFIX)),
                Some(key_or_bound(stage, CONFLICT_SET_PREFIX, to, (CONFLICT_SET_PREFIX + 1) as u8)),
                count,
                skip,
                r,
            ),
    {
        let f = digest_bound(stage, CONFLICT_SET_PREFIX, from, CONFLICT_SET_PREFIX);
        let t = digest_bound(stage, CONFLICT_SET_PREFIX, to, CONFLICT_SET_PREFIX + 1);
        stored_query(store, &f, &t, count, skip)
    }

    /// `sample` samples serialized `ConflictSet`s of a range of addresses;
    /// `picks` are the positions drawn at random.
    pub fn sample(store: &BTreeStore, stage: Stage, from: Option<&Address>, to: Option<&Address>, count: u32, picks: &[u32]) -> (r: Result<
        Vec<Vec<u8>>,
    >)
        ensures
            match r {
                Ok(vs) => sample_outcome(
                    *store,
                    Some(key_or_bound(stage, CONFLICT_SET_PREFIX, from, CONFLICT_SET_PREFIX)),
                    Some(key_or_bound(stage, CONFLICT_SET_PREFIX, to, (CONFLICT_SET_PREFIX + 1) as u8)),
                    count,
                    picks@,
                    Ok(vs),
                ),
                Err(e) => e is Store && sample_outcome(
                    *store,
                    Some(key_or_bound(stage, CONFLICT_SET_PREFIX, from, CONFLICT_SET_PREFIX)),
                    Some(key_or_bound(stage, CONFLICT_SET_PREFIX, to, (CONFLICT_SET_PREFIX + 1) as u8)),
                    count,
                    picks@,
                    Err(StoreError::InvalidRange),
                ),
            },
    {
        let f = digest_bound(stage, CONFLICT_SET_PREFIX, from, CONFLICT_SET_PREFIX);
        let t = digest_bound(stage, CONFLICT_SET_PREFIX, to, CONFLICT_SET_PREFIX + 1);
        stored_sample(store, &f, &t, count, picks)
    }

    /// `count` counts the `ConflictSet`s of a range of addresses.
    pub fn count(store: &BTreeStore, stage: Stage, from: Option<&Address>, to: Option<&Address>, skip: Option<u32>) -> (r: Result<u32>)
        ensures
            match r {
                Ok(n) => count_outcome(
                    *store,
                    Some(key_or_bound(stage, CONFLICT_SET_PREFIX, from, CONFLICT_SET_PREFIX)),
                    Some(key_or_bound(stage, CONFLICT_SET_PREFIX, to, (CONFLICT_SET_PREFIX + 1) as u8)),
                    skip,
                    Ok(n),
                ),
                Err(e) => e is Store && count_outcome(
                    *store,
                    Some(key_or_bound(stage, CONFLICT_SET_PREFIX, from, CONFLICT_SET_PREFIX)),
                    Some(key_or_bound(stage, CONFLICT_SET_PREFIX, to, (CONFLICT_SET_PREFIX + 1) as u8)),
                    skip,
                    Err(StoreError::InvalidRange),
                ),
            },
    {
        let f = digest_bound(stage, CONFLICT_SET_PREFIX, from, CONFLICT_SET_PREFIX);
        let t = digest_bound(stage, CONFLICT_SET_PREFIX, to, CONFLICT_SET_PREFIX + 1);
        stored_count(store, &f, &t, skip)
    }

    /// Whether the transaction of an optional id is in the store.
    fn stored_transaction(store: &BTreeStore, stage: Stage, id: &Option<Digest>) -> (r: Result<bool>)
        ensures
            r == Ok::<bool, Error>(id matches Some(d) ==> store@.contains_key(key_bytes(stage, TRANSACTION_PREFIX, d@))),
    {
        match id {
            Some(d) => Transaction::lookup(store, stage, d),
            None => Ok(true),
        }
    }

    /// `validate_single` validates a `ConflictSet` to store at a stage: of
    /// that stage, valid, with its account and transactions in the store.
    pub fn validate_single(store: &BTreeStore, stage: Stage, value: &ConflictSet) -> (r: Result<()>)
        ensures
            r is Ok <==> conflict_set_storable(*store, stage, *value),
            match r {
                Err(e) => if value.stage != stage {
                    e is InvalidStage
                } else {
                    e is NotFound
                },
                Ok(()) => true,
            },
    {
        if value.stage != stage {
            return Err(Error::InvalidStage);
        }
        value.validate()?;
        if !Account::lookup(store, stage, &value.address)? {
            return Err(Error::NotFound);
        }
        let n = value.transactions.len();
        let mut i: usize = 0;
        while i < n
            invariant
                value.stage == stage,
                n == value.transactions.elems().len(),
                i <= n,
                forall|j: int| 0 <= j < i ==> store@.contains_key(
                    key_bytes(stage, TRANSACTION_PREFIX, #[trigger] value.transactions.elems()[j]),
                ),
            decreases n - i,
        {
            let id = copy_bytes(value.transactions.at(i));
            if !Transaction::lookup(store, stage, &id)? {
                assert(value.transactions@.contains(value.transactions.elems()[i as int]));
                return Err(Error::NotFound);
            }
            i += 1;
        }
        proof {
            assert forall|id: Seq<u8>| #[trigger] value.transactions@.contains(id) implies store@.contains_key(
                key_bytes(stage, TRANSACTION_PREFIX, id),
            ) by {
                let j = choose|j: int| 0 <= j < value.transactions.elems().len() && #[trigger] value.transactions.elems()[j] == id;
            }
        }
        if !Self::stored_transaction(store, stage, &value.last)? {
            return Err(Error::NotFound);
        }
        if !Self::stored_transaction(store, stage, &value.preferred)? {
            return Err(Error::NotFound);
        }
        Ok(())
    }

    /// `insert` inserts a `ConflictSet`, serialized as `bytes`, in the
    /// store, once validated.
    pub fn insert(store: &mut BTreeStore, stage: Stage, value: &ConflictSet, bytes: &[u8]) -> (r: Result<()>)
        ensures
            conflict_set_storable(*old(store), stage, *value) ==> insert_model(
                *old(store),
                *final(store),
                key_bytes(stage, CONFLICT_SET_PREFIX, value.address@),
                bytes@,
                r,
            ),
            !conflict_set_storable(*old(store), stage, *value) ==> r is Err && *final(store) == *old(store),
    {
        Self::validate_single(store, stage, value)?;
        let k = digest_key(stage, CONFLICT_SET_PREFIX, value.address.as_slice());
        stored_insert(store, k.as_slice(), bytes)
    }

    /// `create` creates a `ConflictSet`, serialized as `bytes`, not yet in
    /// the store, once validated.
    pub fn create(store: &mut BTreeStore, stage: Stage, value: &ConflictSet, bytes: &[u8]) -> (r: Result<()>)
        ensures
            conflict_set_storable(*old(store), stage, *value) ==> create_model(
                *old(store),
                *final(store),
                key_bytes(stage, CONFLICT_SET_PREFIX, value.address@),
                bytes@,
                r,
            ),
            !conflict_set_storable(*old(store), stage, *value) ==> r is Err && *final(store) == *old(store),
    {
        Self::validate_single(store, stage, value)?;
        let k = digest_key(stage, CONFLICT_SET_PREFIX, value.address.as_slice());
        stored_create(store, k.as_slice(), bytes)
    }

    /// `update` updates a `ConflictSet`, serialized as `bytes`, in the
    /// store, once validated.
    pub fn update(store: &mut BTreeStore, stage: Stage, value: &ConflictSet, bytes: &[u8]) -> (r: Result<()>)
        ensures
            conflict_set_storable(*old(store), stage, *value) ==> update_model(
                *old(store),
                *final(store),
                key_bytes(stage, CONFLICT_SET_PREFIX, value.address@),
                bytes@,
                r,
            ),
            !conflict_set_storable(*old(store), stage, *value) ==> r is Err && *final(store) == *old(store),
    {
        Self::validate_single(store, stage, value)?;
        let k = digest_key(stage, CONFLICT_SET_PREFIX, value.address.as_slice());
        stored_update(store, k.as_slice(), bytes)
    }

    /// `remove` removes a `ConflictSet` from the store.
    pub fn remove(store: &mut BTreeStore, stage: Stage, key: &Address) -> (r: Result<()>)
        ensures
            remove_model(*old(store), *final(store), key_bytes(stage, CONFLICT_SET_PREFIX, key@), r),
    {
        let k = digest_key(stage, CONFLICT_SET_PREFIX, key.as_slice());
        stored_remove(store, k.as_slice())
    }

    /// `clear_stored` removes the `ConflictSet`s of a stage from the store.
    pub fn clear_stored(store: &mut BTreeStore, stage: Stage) -> (r: Result<()>)
        ensures
            clear_model(*old(store), *final(store), stage, CONFLICT_SET_PREFIX, r),
    {
        clear_prefix(store, stage, CONFLICT_SET_PREFIX)
    }
}

impl Transaction {
    /// `lookup` looks up a `Transaction` in the store by id.
    pub fn lookup(store: &BTreeStore, stage: Stage, key: &Digest) -> (r: Result<bool>)
        ensures
            r == Ok::<bool, Error>(store@.contains_key(key_bytes(stage, TRANSACTION_PREFIX, key@))),
    {
        let k = digest_key(stage, TRANSACTION_PREFIX, key.as_slice());
        stored_lookup(store, k.as_slice())
    }

    /// `get` returns a serialized `Transaction` from the store.
    pub fn get(store: &BTreeStore, stage: Stage, key: &Digest) -> (r: Result<Vec<u8>>)
        ensures
            get_model(*store, key_bytes(stage, TRANSACTION_PREFIX, key@), r),
    {
        let k = digest_key(stage, TRANSACTION_PREFIX, key.as_slice());
        stored_get(store, k.as_slice())
    }

    /// `query` returns the serialized `Transaction`s of a range of ids; a
    /// missing bound is the bound of the transactions' keys.
    pub fn query(store: &BTreeStore, stage: Stage, from: Option<&Digest>, to: Option<&Digest>, count: Option<u32>, skip: Option<u32>) -> (r:
        Result<Vec<Vec<u8>>>)
        ensures
            query_model(
                *store,
                Some(key_or_bound(stage, TRANSACTION_PREFIX, from, TRANSACTION_PREFIX)),
                Some(key_or_bound(stage, TRANSACTION_PREFIX, to, (TRANSACTION_PREFIX + 1) as u8)),
                count,
                skip,
                r,
            ),
    {
        let f = digest_bound(stage, TRANSACTION_PREFIX, from, TRANSACTION_PREFIX);
        let t = digest_bound(stage, TRANSACTION_PREFIX, to, TRANSACTION_PREFIX + 1);
        stored_query(store, &f, &t, count, skip)
    }

    /// `sample` samples serialized `Transaction`s of a range of ids;
    /// `picks` are the positions drawn at random.
    pub fn sample(store: &BTreeStore, stage: Stage, from: Option<&Digest>, to: Option<&Digest>, count: u32, picks: &[u32]) -> (r: Result<
        Vec<Vec<u8>>,
    >)
        ensures
            match r {
                Ok(vs) => sample_outcome(
                    *store,
                    Some(key_or_bound(stage, TRANSACTION_PREFIX, from, TRANSACTION_PREFIX)),
                    Some(key_or_bound(stage, TRANSACTION_PREFIX, to, (TRANSACTION_PREFIX + 1) as u8)),
                    count,
                    picks@,
                    Ok(vs),
                ),
                Err(e) => e is Store && sample_outcome(
                    *store,
                    Some(key_or_bound(stage, TRANSACTION_PREFIX, from, TRANSACTION_PREFIX)),
                    Some(key_or_bound(stage, TRANSACTION_PREFIX, to, (TRANSACTION_PREFIX + 1) as u8)),
                    count,
                    picks@,
                    Err(StoreError::InvalidRange),
                ),
            },
    {
        let f = digest_bound(stage, TRANSACTION_PREFIX, from, TRANSACTION_PREFIX);
        let t = digest_bound(stage, TRANSACTION_PREFIX, to, TRANSACTION_PREFIX + 1);
        stored_sample(store, &f, &t, count, picks)
    }

    /// `count` counts the `Transaction`s of a range of ids.
    pub fn count(store: &BTreeStore, stage: Stage, from: Option<&Digest>, to: Option<&Digest>, skip: Option<u32>) -> (r: Result<u32>)
        ensures
            match r {
                Ok(n) => count_outcome(
                    *store,
                    Some(key_or_bound(stage, TRANSACTION_PREFIX, from, TRANSACTION_PREFIX)),
                    Some(key_or_bound(stage, TRANSACTION_PREFIX, to, (TRANSACTION_PREFIX + 1) as u8)),
                    skip,
                    Ok(n),
                ),
                Err(e) => e is Store && count_outcome(
                    *store,
                    Some(key_or_bound(stage, TRANSACTION_PREFIX, from, TRANSACTION_PREFIX)),
                    Some(key_or_bound(stage, TRANSACTION_PREFIX, to, (TRANSACTION_PREFIX + 1) as u8)),
                    skip,
                    Err(StoreError::InvalidRange),
                ),
            },
    {
        let f = digest_bound(stage, TRANSACTION_PREFIX, from, TRANSACTION_PREFIX);
        let t = digest_bound(stage, TRANSACTION_PREFIX, to, TRANSACTION_PREFIX + 1);
        stored_count(store, &f, &t, skip)
    }

    /// `validate_single` validates a `Transaction` to store at a stage: of
    /// that stage, valid, and so are the accounts of its inputs.
    pub fn validate_single(store: &BTreeStore, stage: Stage, value: &Transaction) -> (r: Result<()>)
        ensures
            exists|now: Timestamp| #[trigger] plausible_now(now) && (r is Ok <==> transaction_storable_at(stage, *value, now)),
            value.stage != stage ==> (r matches Err(e) && e is InvalidStage),
    {
        let now = Timestamp::now();
        Self::validate_single_at(store, stage, value, now)
    }

    /// `validate_single_at` validates a `Transaction` to store at a stage,
    /// at the time `now`: of that stage, valid, and so are the accounts of
    /// its inputs.
    pub fn validate_single_at(store: &BTreeStore, stage: Stage, value: &Transaction, now: Timestamp) -> (r: Result<()>)
        requires
            plausible_now(now),
        ensures
            r is Ok <==> transaction_storable_at(stage, *value, now),
            value.stage != stage ==> (r matches Err(e) && e is InvalidStage),
    {
        if value.stage != stage {
            return Err(Error::InvalidStage);
        }
        value.validate_at(now)?;
        let n = value.inputs.len();
        let mut i: usize = 0;
        while i < n
            invariant
                plausible_now(now),
                value.stage == stage,
                transaction_ok(*value, now),
                n == value.inputs.items().len(),
                i <= n,
                forall|j: int| 0 <= j < i ==> (#[trigger] value.inputs.items()[j]).1.account.stage == stage,
            decreases n - i,
        {
            if value.inputs.value_ref(i).account.stage != stage {
                return Err(Error::InvalidStage);
            }
            i += 1;
        }
        Ok(())
    }

    /// Stores the accounts of the inputs that the store lacks, serialized
    /// as `accounts` in the order of the inputs; where one fails, removes
    /// again those it stored.
    fn store_accounts(store: &mut BTreeStore, stage: Stage, value: &Transaction, accounts: &Vec<Vec<u8>>) -> (r: Result<()>)
        requires
            accounts@.len() == value.inputs.items().len(),
        ensures
            r is Ok,
            accounts_kept(old(store)@, final(store)@, stage, *value),
            forall|k: Seq<u8>| #[trigger] old(store)@.contains_key(k) ==> final(store)@.contains_key(k) && final(store)@[k] == old(store)@[k],
            final(store)@ == old(store)@ || input_accounts_stored(
                old(store)@,
                final(store)@,
                stage,
                *value,
                accounts@,
                value.inputs.items().len() as int,
            ),
            same_limits(*old(store), *final(store)),
            accounts_fit(*old(store), stage, *value, accounts@) ==> input_accounts_stored(
                old(store)@,
                final(store)@,
                stage,
                *value,
                accounts@,
                value.inputs.items().len() as int,
            ) && final(store).size_total() <= old(store).size_total() + accounts_room(
                stage,
                *value,
                accounts@,
                value.inputs.items().len() as int,
            ),
    {
        let n = value.inputs.len();
        let mut stored: Vec<Vec<u8>> = Vec::new();
        let mut clean = false;
        let mut i: usize = 0;
        while i < n && !clean
            invariant
                n == value.inputs.items().len(),
                accounts@.len() == n,
                i <= n,
                forall|j: int| 0 <= j < stored@.len() ==> key_of_inputs(stage, *value, #[trigger] stored@[j]@),
                accounts_kept(old(store)@, store@, stage, *value),
                forall|k: Seq<u8>| #[trigger] old(store)@.contains_key(k) ==> store@.contains_key(k) && store@[k] == old(store)@[k],
                forall|k: Seq<u8>| #[trigger] store@.contains_key(k) <==> old(store)@.contains_key(k) || exists|m: int|
                    0 <= m < stored@.len() && (#[trigger] stored@[m])@ == k,
                forall|m: int| 0 <= m < stored@.len() ==> !old(store)@.contains_key(#[trigger] stored@[m]@),
                forall|m1: int, m2: int| 0 <= m1 < m2 < stored@.len() ==> (#[trigger] stored@[m1])@ != (#[trigger] stored@[m2])@,
                forall|k: Seq<u8>| #[trigger] store@.contains_key(k) && !old(store)@.contains_key(k) ==> exists|j: int|
                    #[trigger] first_input_with(stage, *value, k, j) && j < i && store@[k] == accounts@[j]@,
                !clean ==> input_accounts_stored(old(store)@, store@, stage, *value, accounts@, i as int),
                same_limits(*old(store), *store),
                store.size_total() <= old(store).size_total() + accounts_room(stage, *value, accounts@, i as int),
                accounts_fit(*old(store), stage, *value, accounts@) ==> !clean,
            decreases n - i,
        {
            let address = value.inputs.value_ref(i).account.address();
            let key = digest_key(stage, ACCOUNT_PREFIX, address.as_slice());
            proof {
                assert(key@ == input_account_key(stage, *value, i as int));
                assert(key_of_inputs(stage, *value, key@)) by {
                    assert(0 <= i < value.inputs.items().len());
                }
            }
            let ghost pre = store@;
            let ghost pre_stored = stored@;
            proof {
                lemma_accounts_room_step(stage, *value, accounts@, i as int);
                lemma_accounts_room_monotone(stage, *value, accounts@, i + 1, n as int);
            }
            let present = match stored_lookup(store, key.as_slice()) {
                Ok(b) => b,
                Err(e) => return Err(e),
            };
            if !present {
                match stored_insert(store, key.as_slice(), accounts[i].as_slice()) {
                    Ok(()) => {
                        stored.push(key);
                        proof {
                            assert(store@ == pre.insert(key@, accounts@[i as int]@));
                            assert forall|m: int| 0 <= m < i implies input_account_key(stage, *value, m) != key@ by {
                                assert(input_account_stored(old(store)@, pre, stage, *value, accounts@, m));
                            }
                            assert(first_input_with(stage, *value, key@, i as int));
                            assert forall|k: Seq<u8>| #[trigger] store@.contains_key(k) <==> old(store)@.contains_key(k) || exists|m: int|
                                0 <= m < stored@.len() && (#[trigger] stored@[m])@ == k by {
                                if k == key@ {
                                    assert(stored@[pre_stored.len() as int]@ == k);
                                } else if pre.contains_key(k) && !old(store)@.contains_key(k) {
                                    let m = choose|m: int| 0 <= m < pre_stored.len() && (#[trigger] pre_stored[m])@ == k;
                                    assert(stored@[m] == pre_stored[m]);
                                } else if exists|m: int| 0 <= m < stored@.len() && (#[trigger] stored@[m])@ == k {
                                    let m = choose|m: int| 0 <= m < stored@.len() && (#[trigger] stored@[m])@ == k;
                                    if m < pre_stored.len() {
                                        assert(stored@[m] == pre_stored[m]);
                                    }
                                }
                            }
                            assert forall|m1: int, m2: int| 0 <= m1 < m2 < stored@.len() implies (#[trigger] stored@[m1])@ != (#[trigger] stored@[m2])@ by {
                                if m2 == pre_stored.len() {
                                    assert(pre.contains_key(stored@[m1]@));
                                }
                            }
                            assert forall|k: Seq<u8>| #[trigger] store@.contains_key(k) && !old(store)@.contains_key(k) implies exists|j: int|
                                #[trigger] first_input_with(stage, *value, k, j) && j < i + 1 && store@[k] == accounts@[j]@ by {
                                if k == key@ {
                                    assert(first_input_with(stage, *value, k, i as int));
                                } else {
                                    let j = choose|j: int| #[trigger] first_input_with(stage, *value, k, j) && j < i && pre[k] == accounts@[j]@;
                                    assert(first_input_with(stage, *value, k, j));
                                }
                            }
                            if !clean {
                                assert forall|m: int| 0 <= m < i + 1 implies #[trigger] input_account_stored(
                                    old(store)@,
                                    store@,
                                    stage,
                                    *value,
                                    accounts@,
                                    m,
                                ) by {
                                    if m == i {
                                        assert(first_input_with(stage, *value, key@, i as int));
                                    } else {
                                        assert(input_account_stored(old(store)@, pre, stage, *value, accounts@, m));
                                        let km = input_account_key(stage, *value, m);
                                        if !old(store)@.contains_key(km) {
                                            let j = choose|j: int| #[trigger] first_input_with(stage, *value, km, j) && pre[km] == accounts@[j]@;
                                            assert(first_input_with(stage, *value, km, j));
                                        }
                                    }
                                }
                            }
                        }
                    },
                    Err(_) => {
                        clean = true;
                    },
                }
            } else {
                proof {
                    if !clean {
                        assert forall|m: int| 0 <= m < i + 1 implies #[trigger] input_account_stored(
                            old(store)@,
                            store@,
                            stage,
                            *value,
                            accounts@,
                            m,
                        ) by {
                            let km = input_account_key(stage, *value, m);
                            if m == i {
                                if !old(store)@.contains_key(km) {
                                    let j = choose|j: int| #[trigger] first_input_with(stage, *value, km, j) && j < i && store@[km] == accounts@[j]@;
                                    assert(first_input_with(stage, *value, km, j));
                                }
                            } else {
                                assert(input_account_stored(old(store)@, store@, stage, *value, accounts@, m));
                            }
                        }
                    }
                }
            }
            i += 1;
        }
        if clean {
            let mut j: usize = 0;
            while j < stored.len()
                invariant
                    j <= stored@.len(),
                    forall|m: int| 0 <= m < stored@.len() ==> key_of_inputs(stage, *value, #[trigger] stored@[m]@),
                    accounts_kept(old(store)@, store@, stage, *value),
                    forall|k: Seq<u8>| #[trigger] old(store)@.contains_key(k) ==> store@.contains_key(k) && store@[k] == old(store)@[k],
                    forall|k: Seq<u8>| #[trigger] store@.contains_key(k) <==> old(store)@.contains_key(k) || exists|m: int|
                        j <= m < stored@.len() && (#[trigger] stored@[m])@ == k,
                    forall|m: int| 0 <= m < stored@.len() ==> !old(store)@.contains_key(#[trigger] stored@[m]@),
                    forall|m1: int, m2: int| 0 <= m1 < m2 < stored@.len() ==> (#[trigger] stored@[m1])@ != (#[trigger] stored@[m2])@,
                    same_limits(*old(store), *store),
                    !accounts_fit(*old(store), stage, *value, accounts@),
                decreases stored@.len() - j,
            {
                let ghost pre = store@;
                proof {
                    assert(store@.contains_key(stored@[j as int]@));
                }
                match stored_remove(store, stored[j].as_slice()) {
                    Ok(()) => {},
                    Err(e) => return Err(e),
                }
                proof {
                    assert(store@ == pre.remove(stored@[j as int]@));
                    assert forall|k: Seq<u8>| #[trigger] store@.contains_key(k) <==> old(store)@.contains_key(k) || exists|m: int|
                        j + 1 <= m < stored@.len() && (#[trigger] stored@[m])@ == k by {
                        if pre.contains_key(k) && !old(store)@.contains_key(k) && k != stored@[j as int]@ {
                            let m = choose|m: int| j <= m < stored@.len() && (#[trigger] stored@[m])@ == k;
                        }
                        if exists|m: int| j + 1 <= m < stored@.len() && (#[trigger] stored@[m])@ == k {
                            let m = choose|m: int| j + 1 <= m < stored@.len() && (#[trigger] stored@[m])@ == k;
                            assert(stored@[j as int]@ != stored@[m]@);
                        }
                    }
                }
                j += 1;
            }
            proof {
                assert(store@ =~= old(store)@);
            }
        }
        Ok(())
    }

    /// `insert` inserts a `Transaction`, serialized as `bytes`, in the
    /// store, once validated, with the accounts of its inputs that the
    /// store lacks, serialized as `accounts` in the order of the inputs.
    pub fn insert(store: &mut BTreeStore, stage: Stage, value: &Transaction, bytes: &[u8], accounts: &Vec<Vec<u8>>) -> (r: Result<()>)
        requires
            accounts@.len() == value.inputs.items().len(),
        ensures
            exists|now: Timestamp| #[trigger] plausible_now(now) && (r is Ok ==> transaction_storable_at(stage, *value, now))
                && (!transaction_storable_at(stage, *value, now) ==> r is Err && *final(store) == *old(store)) && (
                transaction_storable_at(stage, *value, now) && transaction_fits(*old(store), stage, *value, bytes@, accounts@)
                ==> r is Ok),
            r is Ok ==> final(store)@.contains_key(key_bytes(stage, TRANSACTION_PREFIX, value.id@))
                && final(store)@[key_bytes(stage, TRANSACTION_PREFIX, value.id@)] == bytes@,
            transaction_keys_only(old(store)@, final(store)@, stage, *value),
            r is Ok ==> input_accounts_stored(
                old(store)@,
                final(store)@,
                stage,
                *value,
                accounts@,
                value.inputs.items().len() as int,
            ) || final(store)@.remove(key_bytes(stage, TRANSACTION_PREFIX, value.id@)) == old(store)@.remove(
                key_bytes(stage, TRANSACTION_PREFIX, value.id@),
            ),
            r is Ok && accounts_fit(*old(store), stage, *value, accounts@) ==> input_accounts_stored(
                old(store)@,
                final(store)@,
                stage,
                *value,
                accounts@,
                value.inputs.items().len() as int,
            ),
    {
        let now = Timestamp::now();
        Self::insert_at(store, stage, value, bytes, accounts, now)
    }

    /// `insert_at` inserts a `Transaction` as `insert` does, validated at
    /// the time `now`.
    pub fn insert_at(store: &mut BTreeStore, stage: Stage, value: &Transaction, bytes: &[u8], accounts: &Vec<Vec<u8>>, now: Timestamp) -> (r:
        Result<()>)
        requires
            accounts@.len() == value.inputs.items().len(),
            plausible_now(now),
        ensures
            r is Ok ==> transaction_storable_at(stage, *value, now),
            !transaction_storable_at(stage, *value, now) ==> r is Err && *final(store) == *old(store),
            r is Ok ==> final(store)@.contains_key(key_bytes(stage, TRANSACTION_PREFIX, value.id@))
                && final(store)@[key_bytes(stage, TRANSACTION_PREFIX, value.id@)] == bytes@,
            transaction_keys_only(old(store)@, final(store)@, stage, *value),
            transaction_storable_at(stage, *value, now) && transaction_fits(*old(store), stage, *value, bytes@, accounts@)
                ==> r is Ok,
            r is Ok ==> input_accounts_stored(
                old(store)@,
                final(store)@,
                stage,
                *value,
                accounts@,
                value.inputs.items().len() as int,
            ) || final(store)@.remove(key_bytes(stage, TRANSACTION_PREFIX, value.id@)) == old(store)@.remove(
                key_bytes(stage, TRANSACTION_PREFIX, value.id@),
            ),
            r is Ok && accounts_fit(*old(store), stage, *value, accounts@) ==> input_accounts_stored(
                old(store)@,
                final(store)@,
                stage,
                *value,
                accounts@,
                value.inputs.items().len() as int,
            ),
    {
        Self::validate_single_at(store, stage, value, now)?;
        Self::store_accounts(store, stage, value, accounts)?;
        let ghost mid = store@;
        let k = digest_key(stage, TRANSACTION_PREFIX, value.id.as_slice());
        proof {
            lemma_transaction_key_not_account(stage, *value);
        }
        let r = stored_insert(store, k.as_slice(), bytes);
        proof {
            if r is Ok {
                if mid == old(store)@ {
                    assert(store@.remove(k@) =~= old(store)@.remove(k@));
                }
                if input_accounts_stored(old(store)@, mid, stage, *value, accounts@, value.inputs.items().len() as int) {
                    lemma_accounts_stored_after_write(old(store)@, mid, stage, *value, accounts@, k@, bytes@);
                }
            }
        }
        r
    }

    /// `create` creates a `Transaction`, serialized as `bytes`, not yet in
    /// the store, once validated, with the accounts of its inputs that the
    /// store lacks, serialized as `accounts` in the order of the inputs.
    pub fn create(store: &mut BTreeStore, stage: Stage, value: &Transaction, bytes: &[u8], accounts: &Vec<Vec<u8>>) -> (r: Result<()>)
        requires
            accounts@.len() == value.inputs.items().len(),
        ensures
            exists|now: Timestamp| #[trigger] plausible_now(now) && (r is Ok ==> transaction_storable_at(stage, *value, now))
                && (!transaction_storable_at(stage, *value, now) ==> r is Err && *final(store) == *old(store)) && (
                transaction_storable_at(stage, *value, now) && transaction_fits(*old(store), stage, *value, bytes@, accounts@) && !old(store)@.contains_key(key_bytes(stage, TRANSACTION_PREFIX, value.id@))
                ==> r is Ok),
            r is Ok ==> final(store)@.contains_key(key_bytes(stage, TRANSACTION_PREFIX, value.id@))
                && final(store)@[key_bytes(stage, TRANSACTION_PREFIX, value.id@)] == bytes@,
            transaction_keys_only(old(store)@, final(store)@, stage, *value),
            r is Ok ==> input_accounts_stored(
                old(store)@,
                final(store)@,
                stage,
                *value,
                accounts@,
                value.inputs.items().len() as int,
            ) || final(store)@.remove(key_bytes(stage, TRANSACTION_PREFIX, value.id@)) == old(store)@.remove(
                key_bytes(stage, TRANSACTION_PREFIX, value.id@),
            ),
            r is Ok && accounts_fit(*old(store), stage, *value, accounts@) ==> input_accounts_stored(
                old(store)@,
                final(store)@,
                stage,
                *value,
                accounts@,
                value.inputs.items().len() as int,
            ),
    {
        let now = Timestamp::now();
        Self::create_at(store, stage, value, bytes, accounts, now)
    }

    /// `create_at` creates a `Transaction` as `create` does, validated at
    /// the time `now`.
    pub fn create_at(store: &mut BTreeStore, stage: Stage, value: &Transaction, bytes: &[u8], accounts: &Vec<Vec<u8>>, now: Timestamp) -> (r:
        Result<()>)
        requires
            accounts@.len() == value.inputs.items().len(),
            plausible_now(now),
        ensures
            r is Ok ==> transaction_storable_at(stage, *value, now),
            !transaction_storable_at(stage, *value, now) ==> r is Err && *final(store) == *old(store),
            r is Ok ==> final(store)@.contains_key(key_bytes(stage, TRANSACTION_PREFIX, value.id@))
                && final(store)@[key_bytes(stage, TRANSACTION_PREFIX, value.id@)] == bytes@,
            transaction_keys_only(old(store)@, final(store)@, stage, *value),
            transaction_storable_at(stage, *value, now) && transaction_fits(*old(store), stage, *value, bytes@, accounts@)
                && !old(store)@.contains_key(key_bytes(stage, TRANSACTION_PREFIX, value.id@)) ==> r is Ok,
            old(store)@.contains_key(key_bytes(stage, TRANSACTION_PREFIX, value.id@)) ==> r is Err,
            r is Ok ==> input_accounts_stored(
                old(store)@,
                final(store)@,
                stage,
                *value,
                accounts@,
                value.inputs.items().len() as int,
            ) || final(store)@.remove(key_bytes(stage, TRANSACTION_PREFIX, value.id@)) == old(store)@.remove(
                key_bytes(stage, TRANSACTION_PREFIX, value.id@),
            ),
            r is Ok && accounts_fit(*old(store), stage, *value, accounts@) ==> input_accounts_stored(
                old(store)@,
                final(store)@,
                stage,
                *value,
                accounts@,
                value.inputs.items().len() as int,
            ),
    {
        Self::validate_single_at(store, stage, value, now)?;
        Self::store_accounts(store, stage, value, accounts)?;
        let ghost mid = store@;
        let k = digest_key(stage, TRANSACTION_PREFIX, value.id.as_slice());
        proof {
            lemma_transaction_key_not_account(stage, *value);
        }
        let r = stored_create(store, k.as_slice(), bytes);
        proof {
            if r is Ok {
                if mid == old(store)@ {
                    assert(store@.remove(k@) =~= old(store)@.remove(k@));
                }
                if input_accounts_stored(old(store)@, mid, stage, *value, accounts@, value.inputs.items().len() as int) {
                    lemma_accounts_stored_after_write(old(store)@, mid, stage, *value, accounts@, k@, bytes@);
                }
            }
        }
        r
    }

    /// `remove` removes a `Transaction` from the store.
    pub fn remove(store: &mut BTreeStore, stage: Stage, key: &Digest) -> (r: Result<()>)
        ensures
            remove_model(*old(store), *final(store), key_bytes(stage, TRANSACTION_PREFIX, key@), r),
    {
        let k = digest_key(stage, TRANSACTION_PREFIX, key.as_slice());
        stored_remove(store, k.as_slice())
    }

    /// `clear` removes the `Transaction`s of a stage from the store.
    pub fn clear(store: &mut BTreeStore, stage: Stage) -> (r: Result<()>)
        ensures
            clear_model(*old(store), *final(store), stage, TRANSACTION_PREFIX, r),
    {
        clear_prefix(store, stage, TRANSACTION_PREFIX)
    }
}

/// The store key of the account of the `i`th input of `t`.
pub open spec fn input_account_key(stage: Stage, t: Transaction, i: int) -> Seq<u8> {
    key_bytes(stage, ACCOUNT_PREFIX, t.inputs.items()[i].1.account.address@)
}

/// The `j`th input of `t` is the first whose account has the store key `k`.
pub open spec fn first_input_with(stage: Stage, t: Transaction, k: Seq<u8>, j: int) -> bool {
    &&& 0 <= j < t.inputs.items().len()
    &&& input_account_key(stage, t, j) == k
    &&& forall|m: int| 0 <= m < j ==> input_account_key(stage, t, m) != k
}

/// The account of the `i`th input of `t` is in `new`: as it was in `old`,
/// or else serialized as the first input with its key gives it.
pub open spec fn input_account_stored(
    old: Map<Seq<u8>, Seq<u8>>,
    new: Map<Seq<u8>, Seq<u8>>,
    stage: Stage,
    t: Transaction,
    accounts: Seq<Vec<u8>>,
    i: int,
) -> bool {
    let k = input_account_key(stage, t, i);
    &&& new.contains_key(k)
    &&& old.contains_key(k) ==> new[k] == old[k]
    &&& !old.contains_key(k) ==> exists|j: int| #[trigger] first_input_with(stage, t, k, j) && new[k] == accounts[j]@
}

/// The room that the accounts of the first `n` inputs of `t` take at most
/// in a store: the length of each key and of each serialized account.
pub open spec fn accounts_room(stage: Stage, t: Transaction, accounts: Seq<Vec<u8>>, n: int) -> int
    decreases n,
{
    if n <= 0 {
        0
    } else {
        accounts_room(stage, t, accounts, n - 1) + input_account_key(stage, t, n - 1).len() + accounts[n - 1]@.len()
    }
}

/// The accounts of the inputs of `t` fit in the store: each within the
/// value limit, and all of them within the size limit.
pub open spec fn accounts_fit(s: BTreeStore, stage: Stage, t: Transaction, accounts: Seq<Vec<u8>>) -> bool {
    &&& forall|i: int| 0 <= i < accounts.len() ==> (#[trigger] accounts[i])@.len() <= s.value_limit()
    &&& s.size_total() + accounts_room(stage, t, accounts, accounts.len() as int) <= s.size_limit()
}

/// A transaction, serialized as `bytes`, fits in the store with the
/// accounts of its inputs: each value within the value limit, and all the
/// keys and values within the size limit.
pub open spec fn transaction_fits(s: BTreeStore, stage: Stage, t: Transaction, bytes: Seq<u8>, accounts: Seq<Vec<u8>>) -> bool {
    &&& forall|i: int| 0 <= i < accounts.len() ==> (#[trigger] accounts[i])@.len() <= s.value_limit()
    &&& bytes.len() <= s.value_limit()
    &&& s.size_total() + accounts_room(stage, t, accounts, accounts.len() as int) + key_bytes(
        stage,
        TRANSACTION_PREFIX,
        t.id@,
    ).len() + bytes.len() <= s.size_limit()
}

/// The store holds the accounts of all the inputs of `t`.
pub open spec fn accounts_present(store: Map<Seq<u8>, Seq<u8>>, stage: Stage, t: Transaction) -> bool {
    forall|i: int| 0 <= i < t.inputs.items().len() ==> store.contains_key(#[trigger] input_account_key(stage, t, i))
}

/// One more input adds its key and account to the room.
proof fn lemma_accounts_room_step(stage: Stage, t: Transaction, accounts: Seq<Vec<u8>>, i: int)
    requires
        0 <= i,
    ensures
        accounts_room(stage, t, accounts, i + 1) == accounts_room(stage, t, accounts, i) + input_account_key(stage, t, i).len()
            + accounts[i]@.len(),
{
}

/// The room grows with the number of inputs.
proof fn lemma_accounts_room_monotone(stage: Stage, t: Transaction, accounts: Seq<Vec<u8>>, i: int, n: int)
    requires
        0 <= i,
    ensures
        i <= n ==> accounts_room(stage, t, accounts, i) <= accounts_room(stage, t, accounts, n),
    decreases n - i,
{
    if i < n {
        lemma_accounts_room_monotone(stage, t, accounts, i, n - 1);
    }
}

/// Writing a key that is no account key of the inputs of `t` keeps their
/// accounts stored.
proof fn lemma_accounts_stored_after_write(
    old: Map<Seq<u8>, Seq<u8>>,
    mid: Map<Seq<u8>, Seq<u8>>,
    stage: Stage,
    t: Transaction,
    accounts: Seq<Vec<u8>>,
    k: Seq<u8>,
    v: Seq<u8>,
)
    requires
        input_accounts_stored(old, mid, stage, t, accounts, t.inputs.items().len() as int),
        !key_of_inputs(stage, t, k),
    ensures
        input_accounts_stored(old, mid.insert(k, v), stage, t, accounts, t.inputs.items().len() as int),
{
    assert forall|i: int| 0 <= i < t.inputs.items().len() implies #[trigger] input_account_stored(
        old,
        mid.insert(k, v),
        stage,
        t,
        accounts,
        i,
    ) by {
        assert(input_account_stored(old, mid, stage, t, accounts, i));
        assert(k != key_bytes(stage, ACCOUNT_PREFIX, t.inputs.items()[i].1.account.address@));
        let ki = input_account_key(stage, t, i);
        if !old.contains_key(ki) {
            let j = choose|j: int| #[trigger] first_input_with(stage, t, ki, j) && mid[ki] == accounts[j]@;
            assert(first_input_with(stage, t, ki, j));
        }
    }
}

/// The key of a transaction is the key of no account.
proof fn lemma_transaction_key_not_account(stage: Stage, t: Transaction)
    ensures
        !key_of_inputs(stage, t, key_bytes(stage, TRANSACTION_PREFIX, t.id@)),
{
    let k = key_bytes(stage, TRANSACTION_PREFIX, t.id@);
    assert forall|i: int| 0 <= i < t.inputs.items().len() implies k != key_bytes(
        stage,
        ACCOUNT_PREFIX,
        (#[trigger] t.inputs.items()[i]).1.account.address@,
    ) by {
        assert(k[1] == TRANSACTION_PREFIX);
        assert(key_bytes(stage, ACCOUNT_PREFIX, t.inputs.items()[i].1.account.address@)[1] == ACCOUNT_PREFIX);
    }
}

/// The accounts of the first `n` inputs of `t` are in `new`.
pub open spec fn input_accounts_stored(
    old: Map<Seq<u8>, Seq<u8>>,
    new: Map<Seq<u8>, Seq<u8>>,
    stage: Stage,
    t: Transaction,
    accounts: Seq<Vec<u8>>,
    n: int,
) -> bool {
    forall|i: int| 0 <= i < n ==> #[trigger] input_account_stored(old, new, stage, t, accounts, i)
}

/// `k` is the store key of the account of an input of `t`.
pub open spec fn key_of_inputs(stage: Stage, t: Transaction, k: Seq<u8>) -> bool {
    exists|i: int| 0 <= i < t.inputs.items().len() && k == key_bytes(stage, ACCOUNT_PREFIX, (#[trigger] t.inputs.items()[i]).1.account.address@)
}

/// A transaction can be stored at a stage at the time `now`: it is of that
/// stage and valid, and so are the stages of the accounts of its inputs.
pub open spec fn transaction_storable_at(stage: Stage, t: Transaction, now: Timestamp) -> bool {
    &&& t.stage == stage
    &&& transaction_ok(t, now)
    &&& forall|i: int| 0 <= i < t.inputs.items().len() ==> (#[trigger] t.inputs.items()[i]).1.account.stage == stage
}

/// A transaction can be stored at a stage at some plausible time.
pub open spec fn transaction_storable(stage: Stage, t: Transaction) -> bool {
    exists|now: Timestamp| #[trigger] plausible_now(now) && transaction_storable_at(stage, t, now)
}

/// The two contents agree on every key but those of the accounts of the
/// inputs of `t`.
pub open spec fn accounts_kept(old: Map<Seq<u8>, Seq<u8>>, new: Map<Seq<u8>, Seq<u8>>, stage: Stage, t: Transaction) -> bool {
    forall|k: Seq<u8>|
        #![trigger new.contains_key(k)]
        #![trigger old.contains_key(k)]
        !key_of_inputs(stage, t, k) ==> (new.contains_key(k) <==> old.contains_key(k)) && (old.contains_key(k) ==> new[k] == old[k])
}

/// The two contents agree on every key but those of the accounts of the
/// inputs of `t` and the key of `t` itself.
pub open spec fn transaction_keys_only(old: Map<Seq<u8>, Seq<u8>>, new: Map<Seq<u8>, Seq<u8>>, stage: Stage, t: Transaction) -> bool {
    forall|k: Seq<u8>|
        #![trigger new.contains_key(k)]
        #![trigger old.contains_key(k)]
        !key_of_inputs(stage, t, k) && k != key_bytes(stage, TRANSACTION_PREFIX, t.id@) ==> (new.contains_key(k)
            <==> old.contains_key(k)) && (old.contains_key(k) ==> new[k] == old[k])
}

impl ConsensusState {
    /// `lookup` looks up a `ConsensusState` in the store by id.
    pub fn lookup(store: &BTreeStore, stage: Stage, key: u64) -> (r: Result<bool>)
        ensures
            r == Ok::<bool, Error>(store@.contains_key(key_bytes(stage, CONSENSUS_STATE_PREFIX, be_bytes(key)))),
    {
        let k = number_key(stage, CONSENSUS_STATE_PREFIX, key)?;
        stored_lookup(store, k.as_slice())
    }

    /// `get` returns a serialized `ConsensusState` from the store.
    pub fn get(store: &BTreeStore, stage: Stage, key: u64) -> (r: Result<Vec<u8>>)
        ensures
            get_model(*store, key_bytes(stage, CONSENSUS_STATE_PREFIX, be_bytes(key)), r),
    {
        let k = number_key(stage, CONSENSUS_STATE_PREFIX, key)?;
        stored_get(store, k.as_slice())
    }

    /// `query` returns the serialized `ConsensusState`s of a range of ids.
    pub fn query(store: &BTreeStore, stage: Stage, from: Option<u64>, to: Option<u64>, count: Option<u32>, skip: Option<u32>) -> (r: Result<
        Vec<Vec<u8>>,
    >)
        ensures
            query_model(*store, opt_number_key(stage, CONSENSUS_STATE_PREFIX, from), opt_number_key(stage, CONSENSUS_STATE_PREFIX, to), count, skip, r),
    {
        let f = number_key_opt(stage, CONSENSUS_STATE_PREFIX, from)?;
        let t = number_key_opt(stage, CONSENSUS_STATE_PREFIX, to)?;
        stored_query_opt(store, &f, &t, count, skip)
    }

    /// `count` counts the `ConsensusState`s of a range of ids.
    pub fn count(store: &BTreeStore, stage: Stage, from: Option<u64>, to: Option<u64>, skip: Option<u32>) -> (r: Result<u32>)
        ensures
            count_model(*store, opt_number_key(stage, CONSENSUS_STATE_PREFIX, from), opt_number_key(stage, CONSENSUS_STATE_PREFIX, to), skip, r),
    {
        let f = number_key_opt(stage, CONSENSUS_STATE_PREFIX, from)?;
        let t = number_key_opt(stage, CONSENSUS_STATE_PREFIX, to)?;
        stored_count_opt(store, &f, &t, skip)
    }

    /// `remove` removes a `ConsensusState` from the store.
    pub fn remove(store: &mut BTreeStore, stage: Stage, key: u64) -> (r: Result<()>)
        ensures
            remove_model(*old(store), *final(store), key_bytes(stage, CONSENSUS_STATE_PREFIX, be_bytes(key)), r),
    {
        let k = number_key(stage, CONSENSUS_STATE_PREFIX, key)?;
        stored_remove(store, k.as_slice())
    }

    /// `clear_stored` removes the `ConsensusState`s of a stage from the store.
    pub fn clear_stored(store: &mut BTreeStore, stage: Stage) -> (r: Result<()>)
        ensures
            clear_model(*old(store), *final(store), stage, CONSENSUS_STATE_PREFIX, r),
    {
        clear_prefix(store, stage, CONSENSUS_STATE_PREFIX)
    }
}

impl ConsensusMessage {
    /// `lookup` looks up a `ConsensusMessage` in the store by id.
    pub fn lookup(store: &BTreeStore, stage: Stage, key: u64) -> (r: Result<bool>)
        ensures
            r == Ok::<bool, Error>(store@.contains_key(key_bytes(stage, CONSENSUS_MESSAGE_PREFIX, be_bytes(key)))),
    {
        let k = number_key(stage, CONSENSUS_MESSAGE_PREFIX, key)?;
        stored_lookup(store, k.as_slice())
    }

    /// `get` returns a serialized `ConsensusMessage` from the store.
    pub fn get(store: &BTreeStore, stage: Stage, key: u64) -> (r: Result<Vec<u8>>)
        ensures
            get_model(*store, key_bytes(stage, CONSENSUS_MESSAGE_PREFIX, be_bytes(key)), r),
    {
        let k = number_key(stage, CONSENSUS_MESSAGE_PREFIX, key)?;
        stored_get(store, k.as_slice())
    }

    /// `query` returns the serialized `ConsensusMessage`s of a range of ids.
    pub fn query(store: &BTreeStore, stage: Stage, from: Option<u64>, to: Option<u64>, count: Option<u32>, skip: Option<u32>) -> (r: Result<
        Vec<Vec<u8>>,
    >)
        ensures
            query_model(*store, opt_number_key(stage, CONSENSUS_MESSAGE_PREFIX, from), opt_number_key(stage, CONSENSUS_MESSAGE_PREFIX, to), count, skip, r),
    {
        let f = number_key_opt(stage, CONSENSUS_MESSAGE_PREFIX, from)?;
        let t = number_key_opt(stage, CONSENSUS_MESSAGE_PREFIX, to)?;
        stored_query_opt(store, &f, &t, count, skip)
    }

    /// `count` counts the `ConsensusMessage`s of a range of ids.
    pub fn count(store: &BTreeStore, stage: Stage, from: Option<u64>, to: Option<u64>, skip: Option<u32>) -> (r: Result<u32>)
        ensures
            count_model(*store, opt_number_key(stage, CONSENSUS_MESSAGE_PREFIX, from), opt_number_key(stage, CONSENSUS_MESSAGE_PREFIX, to), skip, r),
    {
        let f = number_key_opt(stage, CONSENSUS_MESSAGE_PREFIX, from)?;
        let t = number_key_opt(stage, CONSENSUS_MESSAGE_PREFIX, to)?;
        stored_count_opt(store, &f, &t, skip)
    }

    /// `remove` removes a `ConsensusMessage` from the store.
    pub fn remove(store: &mut BTreeStore, stage: Stage, key: u64) -> (r: Result<()>)
        ensures
            remove_model(*old(store), *final(store), key_bytes(stage, CONSENSUS_MESSAGE_PREFIX, be_bytes(key)), r),
    {
        let k = number_key(stage, CONSENSUS_MESSAGE_PREFIX, key)?;
        stored_remove(store, k.as_slice())
    }

    /// `clear` removes the `ConsensusMessage`s of a stage from the store.
    pub fn clear(store: &mut BTreeStore, stage: Stage) -> (r: Result<()>)
        ensures
            clear_model(*old(store), *final(store), stage, CONSENSUS_MESSAGE_PREFIX, r),
    {
        clear_prefix(store, stage, CONSENSUS_MESSAGE_PREFIX)
    }
}

/// The store key of an optional number.
pub open spec fn opt_number_key(stage: Stage, prefix: u8, key: Option<u64>) -> Option<Seq<u8>> {
    match key {
        Some(k) => Some(key_bytes(stage, prefix, be_bytes(k))),
        None => None,
    }
}

impl ConsensusState {
    /// `insert` inserts a `ConsensusState`, serialized as `bytes`, in the
    /// store under the id `key`.
    pub fn insert(store: &mut BTreeStore, stage: Stage, key: u64, bytes: &[u8]) -> (r: Result<()>)
        ensures
            insert_model(*old(store), *final(store), key_bytes(stage, CONSENSUS_STATE_PREFIX, be_bytes(key)), bytes@, r),
    {
        let k = number_key(stage, CONSENSUS_STATE_PREFIX, key)?;
        stored_insert(store, k.as_slice(), bytes)
    }

    /// `create` creates a `ConsensusState`, serialized as `bytes`, not yet
    /// in the store, under the id `key`.
    pub fn create(store: &mut BTreeStore, stage: Stage, key: u64, bytes: &[u8]) -> (r: Result<()>)
        ensures
            create_model(*old(store), *final(store), key_bytes(stage, CONSENSUS_STATE_PREFIX, be_bytes(key)), bytes@, r),
    {
        let k = number_key(stage, CONSENSUS_STATE_PREFIX, key)?;
        stored_create(store, k.as_slice(), bytes)
    }

    /// `update` updates a `ConsensusState`, serialized as `bytes`, in the
    /// store under the id `key`.
    pub fn update(store: &mut BTreeStore, stage: Stage, key: u64, bytes: &[u8]) -> (r: Result<()>)
        ensures
            update_model(*old(store), *final(store), key_bytes(stage, CONSENSUS_STATE_PREFIX, be_bytes(key)), bytes@, r),
    {
        let k = number_key(stage, CONSENSUS_STATE_PREFIX, key)?;
        stored_update(store, k.as_slice(), bytes)
    }
}

/// A consensus message can be stored at a stage at the time `now`: its
/// node is of that stage and the message is valid.
pub open spec fn message_storable_at(stage: Stage, m: ConsensusMessage, now: Timestamp) -> bool {
    message_node(m).stage == stage && message_outcome(m, now, Ok(()))
}

impl ConsensusMessage {
    /// `validate_single` validates a `ConsensusMessage` to store at a
    /// stage: its node is of that stage, and the message is valid.
    pub fn validate_single(store: &BTreeStore, stage: Stage, value: &ConsensusMessage) -> (r: Result<()>)
        ensures
            exists|now: Timestamp| #[trigger] plausible_now(now) && if message_node(*value).stage != stage {
                r matches Err(e) && e is InvalidStage
            } else {
                message_outcome(*value, now, r)
            },
    {
        let now = Timestamp::now();
        Self::validate_single_at(store, stage, value, now)
    }

    /// `validate_single_at` validates a `ConsensusMessage` to store at a
    /// stage, as `validate_single` does, at the time `now`.
    pub fn validate_single_at(store: &BTreeStore, stage: Stage, value: &ConsensusMessage, now: Timestamp) -> (r: Result<()>)
        requires
            plausible_now(now),
        ensures
            if message_node(*value).stage != stage {
                r matches Err(e) && e is InvalidStage
            } else {
                message_outcome(*value, now, r)
            },
    {
        if value.node().stage != stage {
            return Err(Error::InvalidStage);
        }
        value.check_at(now)
    }

    /// `insert` inserts a `ConsensusMessage`, serialized as `bytes`, in the
    /// store under its id, once validated.
    pub fn insert(store: &mut BTreeStore, stage: Stage, value: &ConsensusMessage, bytes: &[u8]) -> (r: Result<()>)
        ensures
            exists|now: Timestamp| #[trigger] plausible_now(now) && if message_storable_at(stage, *value, now) {
                insert_model(
                    *old(store),
                    *final(store),
                    key_bytes(stage, CONSENSUS_MESSAGE_PREFIX, be_bytes(value.id_of())),
                    bytes@,
                    r,
                )
            } else {
                r is Err && *final(store) == *old(store)
            },
    {
        Self::validate_single(store, stage, value)?;
        let k = number_key(stage, CONSENSUS_MESSAGE_PREFIX, value.id())?;
        stored_insert(store, k.as_slice(), bytes)
    }

    /// `create` creates a `ConsensusMessage`, serialized as `bytes`, not
    /// yet in the store, under its id, once validated.
    pub fn create(store: &mut BTreeStore, stage: Stage, value: &ConsensusMessage, bytes: &[u8]) -> (r: Result<()>)
        ensures
            exists|now: Timestamp| #[trigger] plausible_now(now) && if message_storable_at(stage, *value, now) {
                create_model(
                    *old(store),
                    *final(store),
                    key_bytes(stage, CONSENSUS_MESSAGE_PREFIX, be_bytes(value.id_of())),
                    bytes@,
                    r,
                )
            } else {
                r is Err && *final(store) == *old(store)
            },
    {
        Self::validate_single(store, stage, value)?;
        let k = number_key(stage, CONSENSUS_MESSAGE_PREFIX, value.id())?;
        stored_create(store, k.as_slice(), bytes)
    }

    /// `update` updates a `ConsensusMessage`, serialized as `bytes`, in the
    /// store under its id, once validated.
    pub fn update(store: &mut BTreeStore, stage: Stage, value: &ConsensusMessage, bytes: &[u8]) -> (r: Result<()>)
        ensures
            exists|now: Timestamp| #[trigger] plausible_now(now) && if message_storable_at(stage, *value, now) {
                update_model(
                    *old(store),
                    *final(store),
                    key_bytes(stage, CONSENSUS_MESSAGE_PREFIX, be_bytes(value.id_of())),
                    bytes@,
                    r,
                )
            } else {
                r is Err && *final(store) == *old(store)
            },
    {
        Self::validate_single(store, stage, value)?;
        let k = number_key(stage, CONSENSUS_MESSAGE_PREFIX, value.id())?;
        stored_update(store, k.as_slice(), bytes)
    }
}


/// The store keys and times of transactions.
pub open spec fn transaction_stamps(stage: Stage, txs: Seq<Transaction>) -> Seq<(Seq<u8>, Timestamp)> {
    txs.map_values(|t: Transaction| (key_bytes(stage, TRANSACTION_PREFIX, t.id@), t.time))
}

/// The store keys and times of consensus messages.
pub open spec fn message_stamps(stage: Stage, msgs: Seq<ConsensusMessage>) -> Seq<(Seq<u8>, Timestamp)> {
    msgs.map_values(|m: ConsensusMessage| (key_bytes(stage, CONSENSUS_MESSAGE_PREFIX, be_bytes(m.id_of())), message_time(m)))
}

impl Transaction {
    /// `key_to_bytes` returns the store key of a `Transaction` id.
    pub fn key_to_bytes(stage: Stage, key: &Digest) -> (r: Result<Vec<u8>>)
        ensures
            r matches Ok(k) && k@ == key_bytes(stage, TRANSACTION_PREFIX, key@),
    {
        Ok(digest_key(stage, TRANSACTION_PREFIX, key.as_slice()))
    }

    /// `validate_all` validates the `Transaction`s that the store holds for
    /// the stage, decoded by the caller.
    pub fn validate_all(store: &BTreeStore, stage: Stage, values: &[Transaction]) -> (r: Result<()>)
        ensures
            r is Ok ==> forall|i: int| 0 <= i < values@.len() ==> transaction_storable(stage, #[trigger] values@[i]),
    {
        let now = Timestamp::now();
        let r = Self::validate_all_at(store, stage, values, now);
        proof {
            if r is Ok {
                assert forall|i: int| 0 <= i < values@.len() implies transaction_storable(stage, #[trigger] values@[i]) by {
                    assert(transaction_storable_at(stage, values@[i], now));
                }
            }
        }
        r
    }

    /// `validate_all_at` validates the `Transaction`s that the store holds
    /// for the stage, as `validate_all` does, at the time `now`: it
    /// succeeds exactly where all of them can be stored.
    pub fn validate_all_at(store: &BTreeStore, stage: Stage, values: &[Transaction], now: Timestamp) -> (r: Result<()>)
        requires
            plausible_now(now),
        ensures
            r is Ok <==> forall|i: int| 0 <= i < values@.len() ==> transaction_storable_at(stage, #[trigger] values@[i], now),
    {
        let mut i: usize = 0;
        while i < values.len()
            invariant
                plausible_now(now),
                i <= values@.len(),
                forall|j: int| 0 <= j < i ==> transaction_storable_at(stage, #[trigger] values@[j], now),
            decreases values@.len() - i,
        {
            let r = Self::validate_single_at(store, stage, &values[i], now);
            if r.is_err() {
                return r;
            }
            i += 1;
        }
        Ok(())
    }

    /// `update` updates a `Transaction`, serialized as `bytes`, in the
    /// store, once validated, and updates the accounts of its inputs,
    /// serialized as `accounts` in the order of the inputs; where an
    /// account fails, removes again those it updated.
    pub fn update(store: &mut BTreeStore, stage: Stage, value: &Transaction, bytes: &[u8], accounts: &Vec<Vec<u8>>) -> (r: Result<()>)
        requires
            accounts@.len() == value.inputs.items().len(),
        ensures
            exists|now: Timestamp| #[trigger] plausible_now(now) && (r is Ok ==> transaction_storable_at(stage, *value, now))
                && (!transaction_storable_at(stage, *value, now) ==> r is Err && *final(store) == *old(store)) && (
                transaction_storable_at(stage, *value, now) && transaction_fits(*old(store), stage, *value, bytes@, accounts@) && accounts_present(old(store)@, stage, *value) && old(store)@.contains_key(key_bytes(stage, TRANSACTION_PREFIX, value.id@))
                ==> r is Ok),
            r is Ok ==> final(store)@.contains_key(key_bytes(stage, TRANSACTION_PREFIX, value.id@))
                && final(store)@[key_bytes(stage, TRANSACTION_PREFIX, value.id@)] == bytes@,
            transaction_keys_only(old(store)@, final(store)@, stage, *value),
    {
        let now = Timestamp::now();
        Self::update_at(store, stage, value, bytes, accounts, now)
    }

    /// `update_at` updates a `Transaction` as `update` does, validated at
    /// the time `now`.
    pub fn update_at(store: &mut BTreeStore, stage: Stage, value: &Transaction, bytes: &[u8], accounts: &Vec<Vec<u8>>, now: Timestamp) -> (r:
        Result<()>)
        requires
            accounts@.len() == value.inputs.items().len(),
            plausible_now(now),
        ensures
            r is Ok ==> transaction_storable_at(stage, *value, now),
            !transaction_storable_at(stage, *value, now) ==> r is Err && *final(store) == *old(store),
            r is Ok ==> final(store)@.contains_key(key_bytes(stage, TRANSACTION_PREFIX, value.id@))
                && final(store)@[key_bytes(stage, TRANSACTION_PREFIX, value.id@)] == bytes@,
            transaction_keys_only(old(store)@, final(store)@, stage, *value),
            transaction_storable_at(stage, *value, now) && transaction_fits(*old(store), stage, *value, bytes@, accounts@)
                && accounts_present(old(store)@, stage, *value) && old(store)@.contains_key(
                key_bytes(stage, TRANSACTION_PREFIX, value.id@),
            ) ==> r is Ok,
            !old(store)@.contains_key(key_bytes(stage, TRANSACTION_PREFIX, value.id@)) ==> r is Err,
    {
        Self::validate_single_at(store, stage, value, now)?;
        proof {
            lemma_transaction_key_not_account(stage, *value);
        }
        let n = value.inputs.len();
        let mut updated: Vec<Vec<u8>> = Vec::new();
        let mut clean = false;
        let mut i: usize = 0;
        while i < n && !clean
            invariant
                transaction_storable_at(stage, *value, now),
                n == value.inputs.items().len(),
                accounts@.len() == n,
                i <= n,
                forall|j: int| 0 <= j < updated@.len() ==> key_of_inputs(stage, *value, #[trigger] updated@[j]@),
                accounts_kept(old(store)@, store@, stage, *value),
                forall|k: Seq<u8>| #[trigger] store@.contains_key(k) <==> old(store)@.contains_key(k),
                same_limits(*old(store), *store),
                store.size_total() <= old(store).size_total() + accounts_room(stage, *value, accounts@, i as int),
                transaction_fits(*old(store), stage, *value, bytes@, accounts@) && accounts_present(old(store)@, stage, *value)
                    ==> !clean,
            decreases n - i,
        {
            proof {
                lemma_accounts_room_step(stage, *value, accounts@, i as int);
                lemma_accounts_room_monotone(stage, *value, accounts@, i + 1, n as int);
            }
            let address = value.inputs.value_ref(i).account.address();
            let key = digest_key(stage, ACCOUNT_PREFIX, address.as_slice());
            proof {
                assert(key_of_inputs(stage, *value, key@)) by {
                    assert(0 <= i < value.inputs.items().len());
                }
                assert(key@ == input_account_key(stage, *value, i as int));
            }
            match stored_update(store, key.as_slice(), accounts[i].as_slice()) {
                Ok(()) => updated.push(key),
                Err(_) => clean = true,
            }
            i += 1;
        }
        if clean {
            let mut j: usize = 0;
            while j < updated.len()
                invariant
                    transaction_storable_at(stage, *value, now),
                    !(transaction_fits(*old(store), stage, *value, bytes@, accounts@) && accounts_present(old(store)@, stage, *value)),
                    !key_of_inputs(stage, *value, key_bytes(stage, TRANSACTION_PREFIX, value.id@)),
                    old(store)@.contains_key(key_bytes(stage, TRANSACTION_PREFIX, value.id@)) ==> store@.contains_key(
                        key_bytes(stage, TRANSACTION_PREFIX, value.id@),
                    ),
                    !old(store)@.contains_key(key_bytes(stage, TRANSACTION_PREFIX, value.id@)) ==> !store@.contains_key(
                        key_bytes(stage, TRANSACTION_PREFIX, value.id@),
                    ),
                    j <= updated@.len(),
                    forall|m: int| 0 <= m < updated@.len() ==> key_of_inputs(stage, *value, #[trigger] updated@[m]@),
                    accounts_kept(old(store)@, store@, stage, *value),
                decreases updated@.len() - j,
            {
                stored_remove(store, updated[j].as_slice())?;
                j += 1;
            }
        }
        let k = digest_key(stage, TRANSACTION_PREFIX, value.id.as_slice());
        stored_update(store, k.as_slice(), bytes)
    }

    /// `insert_batch` inserts `Transaction`s, serialized as `bytes` in the
    /// same order, once validated, with the accounts of their inputs,
    /// serialized as `accounts` (address and bytes), in one store operation
    /// each; this store does not implement it.
    pub fn insert_batch(
        store: &mut BTreeStore,
        stage: Stage,
        values: &[Transaction],
        bytes: &Vec<Vec<u8>>,
        accounts: &Vec<(Address, Vec<u8>)>,
    ) -> (r: Result<()>)
        requires
            bytes@.len() == values@.len(),
        ensures
            r is Err,
            unchanged(*old(store), *final(store)),
    {
        let mut items: Vec<(Vec<u8>, Vec<u8>)> = Vec::new();
        let mut i: usize = 0;
        while i < values.len()
            invariant
                i <= values@.len(),
                bytes@.len() == values@.len(),
            decreases values@.len() - i,
        {
            Self::validate_single(store, stage, &values[i])?;
            items.push((digest_key(stage, TRANSACTION_PREFIX, values[i].id.as_slice()), copy_bytes(bytes[i].as_slice())));
            i += 1;
        }
        if Account::insert_batch(store, stage, accounts).is_err() {
            let mut addresses: Vec<Address> = Vec::new();
            let mut j: usize = 0;
            while j < accounts.len()
                invariant
                    j <= accounts@.len(),
                    unchanged(*old(store), *store),
                decreases accounts@.len() - j,
            {
                addresses.push(copy_bytes(accounts[j].0.as_slice()));
                j += 1;
            }
            let _ = Account::remove_batch(store, stage, &addresses);
        }
        stored_insert_batch(store, &items)
    }

    /// `remove_batch` removes `Transaction`s by id in one store operation;
    /// this store does not implement it.
    pub fn remove_batch(store: &mut BTreeStore, stage: Stage, keys: &Vec<Digest>) -> (r: Result<()>)
        ensures
            r matches Err(e) && e is Store,
            unchanged(*old(store), *final(store)),
    {
        let mut batch: Vec<Vec<u8>> = Vec::new();
        let mut i: usize = 0;
        while i < keys.len()
            invariant
                i <= keys@.len(),
            decreases keys@.len() - i,
        {
            batch.push(digest_key(stage, TRANSACTION_PREFIX, keys[i].as_slice()));
            i += 1;
        }
        stored_remove_batch(store, &batch)
    }

    /// `cleanup` removes from the store the `transactions` (those that the
    /// store holds for the stage, decoded by the caller) whose time
    /// precedes `min_time`, or the current time without it.
    pub fn cleanup(store: &mut BTreeStore, stage: Stage, min_time: Option<Timestamp>, transactions: &[Transaction]) -> (r: Result<()>)
        ensures
            r is Ok ==> match min_time {
                Some(t) => final(store)@ == old(store)@.remove_keys(expired(transaction_stamps(stage, transactions@), t)),
                None => exists|now: Timestamp| #[trigger] plausible_now(now) && final(store)@ == old(store)@.remove_keys(
                    expired(transaction_stamps(stage, transactions@), now),
                ),
            },
            r matches Err(e) ==> e is Store,
            stamps_stored(old(store)@, transaction_stamps(stage, transactions@)) ==> r is Ok,
    {
        let min = time_or_now(min_time);
        let mut stamps: Vec<(Vec<u8>, Timestamp)> = Vec::new();
        let mut i: usize = 0;
        while i < transactions.len()
            invariant
                i <= transactions@.len(),
                stamps@.len() == i,
                stamps_view(stamps@) == transaction_stamps(stage, transactions@.take(i as int)),
            decreases transactions@.len() - i,
        {
            let ghost before = stamps@;
            stamps.push((digest_key(stage, TRANSACTION_PREFIX, transactions[i].id.as_slice()), transactions[i].time));
            proof {
                assert(transactions@.take(i + 1) =~= transactions@.take(i as int).push(transactions@[i as int]));
                assert(stamps@ =~= before.push(stamps@[i as int]));
                assert(stamps_view(stamps@) =~= stamps_view(before).push(stamps_view(stamps@)[i as int]));
                assert(stamps_view(stamps@) =~= transaction_stamps(stage, transactions@.take(i + 1)));
            }
            i += 1;
        }
        assert(transactions@.take(transactions@.len() as int) =~= transactions@);
        remove_expired(store, &stamps, min)
    }
}

impl ConflictSet {
    /// `key_to_bytes` returns the store key of a `ConflictSet` address.
    pub fn key_to_bytes(stage: Stage, key: &Address) -> (r: Result<Vec<u8>>)
        ensures
            r matches Ok(k) && k@ == key_bytes(stage, CONFLICT_SET_PREFIX, key@),
    {
        Ok(digest_key(stage, CONFLICT_SET_PREFIX, key.as_slice()))
    }

    /// `validate_all` validates the `ConflictSet`s that the store holds
    /// for the stage, decoded by the caller.
    pub fn validate_all(store: &BTreeStore, stage: Stage, values: &[ConflictSet]) -> (r: Result<()>)
        ensures
            r is Ok <==> forall|i: int| 0 <= i < values@.len() ==> conflict_set_storable(*store, stage, #[trigger] values@[i]),
    {
        let mut i: usize = 0;
        while i < values.len()
            invariant
                i <= values@.len(),
                forall|j: int| 0 <= j < i ==> conflict_set_storable(*store, stage, #[trigger] values@[j]),
            decreases values@.len() - i,
        {
            Self::validate_single(store, stage, &values[i])?;
            i += 1;
        }
        Ok(())
    }

    /// `insert_batch` inserts `ConflictSet`s, serialized as `bytes` in the
    /// same order, once validated, in one store operation; this store does
    /// not implement it.
    pub fn insert_batch(store: &mut BTreeStore, stage: Stage, values: &[ConflictSet], bytes: &Vec<Vec<u8>>) -> (r: Result<()>)
        requires
            bytes@.len() == values@.len(),
        ensures
            r is Err,
            unchanged(*old(store), *final(store)),
    {
        let mut items: Vec<(Vec<u8>, Vec<u8>)> = Vec::new();
        let mut i: usize = 0;
        while i < values.len()
            invariant
                i <= values@.len(),
                bytes@.len() == values@.len(),
            decreases values@.len() - i,
        {
            Self::validate_single(store, stage, &values[i])?;
            items.push((digest_key(stage, CONFLICT_SET_PREFIX, values[i].address.as_slice()), copy_bytes(bytes[i].as_slice())));
            i += 1;
        }
        stored_insert_batch(store, &items)
    }

    /// `remove_batch` removes `ConflictSet`s by address in one store
    /// operation; this store does not implement it.
    pub fn remove_batch(store: &mut BTreeStore, stage: Stage, keys: &Vec<Address>) -> (r: Result<()>)
        ensures
            r matches Err(e) && e is Store,
            unchanged(*old(store), *final(store)),
    {
        let mut batch: Vec<Vec<u8>> = Vec::new();
        let mut i: usize = 0;
        while i < keys.len()
            invariant
                i <= keys@.len(),
            decreases keys@.len() - i,
        {
            batch.push(digest_key(stage, CONFLICT_SET_PREFIX, keys[i].as_slice()));
            i += 1;
        }
        stored_remove_batch(store, &batch)
    }
}

impl ConsensusState {
    /// `key_to_bytes` returns the store key of a `ConsensusState` id.
    pub fn key_to_bytes(stage: Stage, key: u64) -> (r: Result<Vec<u8>>)
        ensures
            r matches Ok(k) && k@ == key_bytes(stage, CONSENSUS_STATE_PREFIX, be_bytes(key)),
    {
        number_key(stage, CONSENSUS_STATE_PREFIX, key)
    }

    /// `insert_batch` inserts `ConsensusState`s, each serialized under its
    /// id, in one store operation; this store does not implement it.
    pub fn insert_batch(store: &mut BTreeStore, stage: Stage, items: &Vec<(u64, Vec<u8>)>) -> (r: Result<()>)
        ensures
            r is Err,
            unchanged(*old(store), *final(store)),
    {
        let mut batch: Vec<(Vec<u8>, Vec<u8>)> = Vec::new();
        let mut i: usize = 0;
        while i < items.len()
            invariant
                i <= items@.len(),
            decreases items@.len() - i,
        {
            let k = number_key(stage, CONSENSUS_STATE_PREFIX, items[i].0)?;
            batch.push((k, copy_bytes(items[i].1.as_slice())));
            i += 1;
        }
        stored_insert_batch(store, &batch)
    }

    /// `remove_batch` removes `ConsensusState`s by id in one store
    /// operation; this store does not implement it.
    pub fn remove_batch(store: &mut BTreeStore, stage: Stage, keys: &Vec<u64>) -> (r: Result<()>)
        ensures
            r is Err,
            unchanged(*old(store), *final(store)),
    {
        let mut batch: Vec<Vec<u8>> = Vec::new();
        let mut i: usize = 0;
        while i < keys.len()
            invariant
                i <= keys@.len(),
            decreases keys@.len() - i,
        {
            let k = number_key(stage, CONSENSUS_STATE_PREFIX, keys[i])?;
            batch.push(k);
            i += 1;
        }
        stored_remove_batch(store, &batch)
    }
}

impl ConsensusMessage {
    /// `key_to_bytes` returns the store key of a `ConsensusMessage` id.
    pub fn key_to_bytes(stage: Stage, key: u64) -> (r: Result<Vec<u8>>)
        ensures
            r matches Ok(k) && k@ == key_bytes(stage, CONSENSUS_MESSAGE_PREFIX, be_bytes(key)),
    {
        number_key(stage, CONSENSUS_MESSAGE_PREFIX, key)
    }

    /// `sample` samples serialized `ConsensusMessage`s of a range of ids;
    /// `picks` are the positions drawn at random.
    pub fn sample(store: &BTreeStore, stage: Stage, from: Option<u64>, to: Option<u64>, count: u32, picks: &[u32]) -> (r: Result<
        Vec<Vec<u8>>,
    >)
        ensures
            match r {
                Ok(vs) => sample_outcome(
                    *store,
                    opt_number_key(stage, CONSENSUS_MESSAGE_PREFIX, from),
                    opt_number_key(stage, CONSENSUS_MESSAGE_PREFIX, to),
                    count,
                    picks@,
                    Ok(vs),
                ),
                Err(e) => e is Store && sample_outcome(
                    *store,
                    opt_number_key(stage, CONSENSUS_MESSAGE_PREFIX, from),
                    opt_number_key(stage, CONSENSUS_MESSAGE_PREFIX, to),
                    count,
                    picks@,
                    Err(StoreError::InvalidRange),
                ),
            },
    {
        let f = number_key_opt(stage, CONSENSUS_MESSAGE_PREFIX, from)?;
        let t = number_key_opt(stage, CONSENSUS_MESSAGE_PREFIX, to)?;
        stored_sample_opt(store, &f, &t, count, picks)
    }

    /// `validate_all` validates the `ConsensusMessage`s that the store
    /// holds for the stage, decoded by the caller.
    pub fn validate_all(store: &BTreeStore, stage: Stage, values: &[ConsensusMessage]) -> (r: Result<()>)
        ensures
            r is Ok ==> forall|i: int| 0 <= i < values@.len() ==> message_node(#[trigger] values@[i]).stage == stage && exists|now: Timestamp|
                #[trigger] plausible_now(now) && message_outcome(values@[i], now, Ok(())),
    {
        let now = Timestamp::now();
        let r = Self::validate_all_at(store, stage, values, now);
        proof {
            if r is Ok {
                assert forall|i: int| 0 <= i < values@.len() implies message_node(#[trigger] values@[i]).stage == stage
                    && exists|now: Timestamp| #[trigger] plausible_now(now) && message_outcome(values@[i], now, Ok(())) by {
                    assert(message_storable_at(stage, values@[i], now));
                }
            }
        }
        r
    }

    /// `validate_all_at` validates the `ConsensusMessage`s that the store
    /// holds for the stage, as `validate_all` does, at the time `now`: it
    /// succeeds exactly where all of them can be stored.
    pub fn validate_all_at(store: &BTreeStore, stage: Stage, values: &[ConsensusMessage], now: Timestamp) -> (r: Result<()>)
        requires
            plausible_now(now),
        ensures
            r is Ok <==> forall|i: int| 0 <= i < values@.len() ==> message_storable_at(stage, #[trigger] values@[i], now),
    {
        let mut i: usize = 0;
        while i < values.len()
            invariant
                plausible_now(now),
                i <= values@.len(),
                forall|j: int| 0 <= j < i ==> message_storable_at(stage, #[trigger] values@[j], now),
            decreases values@.len() - i,
        {
            let r = Self::validate_single_at(store, stage, &values[i], now);
            if r.is_err() {
                assert(!message_storable_at(stage, values@[i as int], now));
                return r;
            }
            i += 1;
        }
        Ok(())
    }

    /// `insert_batch` inserts `ConsensusMessage`s, serialized as `bytes` in
    /// the same order, once validated, in one store operation; this store
    /// does not implement it.
    pub fn insert_batch(store: &mut BTreeStore, stage: Stage, values: &[ConsensusMessage], bytes: &Vec<Vec<u8>>) -> (r: Result<()>)
        requires
            bytes@.len() == values@.len(),
        ensures
            r is Err,
            unchanged(*old(store), *final(store)),
    {
        let mut items: Vec<(Vec<u8>, Vec<u8>)> = Vec::new();
        let mut i: usize = 0;
        while i < values.len()
            invariant
                i <= values@.len(),
                bytes@.len() == values@.len(),
            decreases values@.len() - i,
        {
            Self::validate_single(store, stage, &values[i])?;
            let k = number_key(stage, CONSENSUS_MESSAGE_PREFIX, values[i].id())?;
            items.push((k, copy_bytes(bytes[i].as_slice())));
            i += 1;
        }
        stored_insert_batch(store, &items)
    }

    /// `remove_batch` removes `ConsensusMessage`s by id in one store
    /// operation; this store does not implement it.
    pub fn remove_batch(store: &mut BTreeStore, stage: Stage, keys: &Vec<u64>) -> (r: Result<()>)
        ensures
            r is Err,
            unchanged(*old(store), *final(store)),
    {
        let mut batch: Vec<Vec<u8>> = Vec::new();
        let mut i: usize = 0;
        while i < keys.len()
            invariant
                i <= keys@.len(),
            decreases keys@.len() - i,
        {
            let k = number_key(stage, CONSENSUS_MESSAGE_PREFIX, keys[i])?;
            batch.push(k);
            i += 1;
        }
        stored_remove_batch(store, &batch)
    }

    /// `cleanup` removes from the store the `messages` (those that the
    /// store holds for the stage, decoded by the caller) whose time
    /// precedes `min_time`, or the current time without it.
    pub fn cleanup(store: &mut BTreeStore, stage: Stage, min_time: Option<Timestamp>, messages: &[ConsensusMessage]) -> (r: Result<()>)
        ensures
            r is Ok ==> match min_time {
                Some(t) => final(store)@ == old(store)@.remove_keys(expired(message_stamps(stage, messages@), t)),
                None => exists|now: Timestamp| #[trigger] plausible_now(now) && final(store)@ == old(store)@.remove_keys(
                    expired(message_stamps(stage, messages@), now),
                ),
            },
            r matches Err(e) ==> e is Store,
            stamps_stored(old(store)@, message_stamps(stage, messages@)) ==> r is Ok,
    {
        let min = time_or_now(min_time);
        let mut stamps: Vec<(Vec<u8>, Timestamp)> = Vec::new();
        let mut i: usize = 0;
        while i < messages.len()
            invariant
                i <= messages@.len(),
                stamps@.len() == i,
                stamps_view(stamps@) == message_stamps(stage, messages@.take(i as int)),
            decreases messages@.len() - i,
        {
            let ghost before = stamps@;
            let k = number_key(stage, CONSENSUS_MESSAGE_PREFIX, messages[i].id())?;
            stamps.push((k, messages[i].time()));
            proof {
                assert(messages@.take(i + 1) =~= messages@.take(i as int).push(messages@[i as int]));
                assert(stamps@ =~= before.push(stamps@[i as int]));
                assert(stamps_view(stamps@) =~= stamps_view(before).push(stamps_view(stamps@)[i as int]));
                assert(stamps_view(stamps@) =~= message_stamps(stage, messages@.take(i + 1)));
            }
            i += 1;
        }
        assert(messages@.take(messages@.len() as int) =~= messages@);
        remove_expired(store, &stamps, min)
    }
}


/// The key prefix of wallets.
pub const WALLET_PREFIX: u8 = 8;

/// The store keys and times of wallets.
pub open spec fn wallet_stamps(stage: Stage, wallets: Seq<Wallet>) -> Seq<(Seq<u8>, Timestamp)> {
    wallets.map_values(|w: Wallet| (key_bytes(stage, WALLET_PREFIX, w.public_key@), w.time))
}

impl Wallet {
    /// `key_to_bytes` returns the store key of a `Wallet` public key.
    pub fn key_to_bytes(stage: Stage, key: &Vec<u8>) -> (r: Result<Vec<u8>>)
        ensures
            r matches Ok(k) && k@ == key_bytes(stage, WALLET_PREFIX, key@),
    {
        Ok(digest_key(stage, WALLET_PREFIX, key.as_slice()))
    }

    /// `lookup` looks up a `Wallet` in the store by public key.
    pub fn lookup(store: &BTreeStore, stage: Stage, key: &Vec<u8>) -> (r: Result<bool>)
        ensures
            r == Ok::<bool, Error>(store@.contains_key(key_bytes(stage, WALLET_PREFIX, key@))),
    {
        let k = digest_key(stage, WALLET_PREFIX, key.as_slice());
        stored_lookup(store, k.as_slice())
    }

    /// `get` returns a serialized `Wallet` from the store.
    pub fn get(store: &BTreeStore, stage: Stage, key: &Vec<u8>) -> (r: Result<Vec<u8>>)
        ensures
            get_model(*store, key_bytes(stage, WALLET_PREFIX, key@), r),
    {
        let k = digest_key(stage, WALLET_PREFIX, key.as_slice());
        stored_get(store, k.as_slice())
    }

    /// `query` returns the serialized `Wallet`s of a range of public keys.
    pub fn query(store: &BTreeStore, stage: Stage, from: Option<&Vec<u8>>, to: Option<&Vec<u8>>, count: Option<u32>, skip: Option<u32>) -> (r:
        Result<Vec<Vec<u8>>>)
        ensures
            query_model(*store, opt_key(stage, WALLET_PREFIX, from), opt_key(stage, WALLET_PREFIX, to), count, skip, r),
    {
        let f = digest_key_opt(stage, WALLET_PREFIX, from);
        let t = digest_key_opt(stage, WALLET_PREFIX, to);
        stored_query_opt(store, &f, &t, count, skip)
    }

    /// `sample` samples serialized `Wallet`s of a range of public keys;
    /// `picks` are the positions drawn at random.
    pub fn sample(store: &BTreeStore, stage: Stage, from: Option<&Vec<u8>>, to: Option<&Vec<u8>>, count: u32, picks: &[u32]) -> (r: Result<
        Vec<Vec<u8>>,
    >)
        ensures
            match r {
                Ok(vs) => sample_outcome(*store, opt_key(stage, WALLET_PREFIX, from), opt_key(stage, WALLET_PREFIX, to), count, picks@, Ok(vs)),
                Err(e) => e is Store && sample_outcome(*store, opt_key(stage, WALLET_PREFIX, from), opt_key(stage, WALLET_PREFIX, to), count, picks@, Err(StoreError::InvalidRange)),
            },
    {
        let f = digest_key_opt(stage, WALLET_PREFIX, from);
        let t = digest_key_opt(stage, WALLET_PREFIX, to);
        stored_sample_opt(store, &f, &t, count, picks)
    }

    /// `count` counts the `Wallet`s of a range of public keys.
    pub fn count(store: &BTreeStore, stage: Stage, from: Option<&Vec<u8>>, to: Option<&Vec<u8>>, skip: Option<u32>) -> (r: Result<u32>)
        ensures
            count_model(*store, opt_key(stage, WALLET_PREFIX, from), opt_key(stage, WALLET_PREFIX, to), skip, r),
    {
        let f = digest_key_opt(stage, WALLET_PREFIX, from);
        let t = digest_key_opt(stage, WALLET_PREFIX, to);
        stored_count_opt(store, &f, &t, skip)
    }

    /// `insert` inserts a serialized `Wallet` in the store.
    pub fn insert(store: &mut BTreeStore, stage: Stage, key: &Vec<u8>, value: &[u8]) -> (r: Result<()>)
        ensures
            insert_model(*old(store), *final(store), key_bytes(stage, WALLET_PREFIX, key@), value@, r),
    {
        let k = digest_key(stage, WALLET_PREFIX, key.as_slice());
        stored_insert(store, k.as_slice(), value)
    }

    /// `create` creates a serialized `Wallet` not yet in the store.
    pub fn create(store: &mut BTreeStore, stage: Stage, key: &Vec<u8>, value: &[u8]) -> (r: Result<()>)
        ensures
            create_model(*old(store), *final(store), key_bytes(stage, WALLET_PREFIX, key@), value@, r),
    {
        let k = digest_key(stage, WALLET_PREFIX, key.as_slice());
        stored_create(store, k.as_slice(), value)
    }

    /// `update` updates a serialized `Wallet` in the store.
    pub fn update(store: &mut BTreeStore, stage: Stage, key: &Vec<u8>, value: &[u8]) -> (r: Result<()>)
        ensures
            update_model(*old(store), *final(store), key_bytes(stage, WALLET_PREFIX, key@), value@, r),
    {
        let k = digest_key(stage, WALLET_PREFIX, key.as_slice());
        stored_update(store, k.as_slice(), value)
    }

    /// `insert_batch` inserts serialized `Wallet`s, each under its public
    /// key, in one store operation; this store does not implement it.
    pub fn insert_batch(store: &mut BTreeStore, stage: Stage, items: &Vec<(Vec<u8>, Vec<u8>)>) -> (r: Result<()>)
        ensures
            r matches Err(e) && e is Store,
            unchanged(*old(store), *final(store)),
    {
        let mut batch: Vec<(Vec<u8>, Vec<u8>)> = Vec::new();
        let mut i: usize = 0;
        while i < items.len()
            invariant
                i <= items@.len(),
            decreases items@.len() - i,
        {
            batch.push((digest_key(stage, WALLET_PREFIX, items[i].0.as_slice()), copy_bytes(items[i].1.as_slice())));
            i += 1;
        }
        stored_insert_batch(store, &batch)
    }

    /// `remove` removes a `Wallet` from the store.
    pub fn remove(store: &mut BTreeStore, stage: Stage, key: &Vec<u8>) -> (r: Result<()>)
        ensures
            remove_model(*old(store), *final(store), key_bytes(stage, WALLET_PREFIX, key@), r),
    {
        let k = digest_key(stage, WALLET_PREFIX, key.as_slice());
        stored_remove(store, k.as_slice())
    }

    /// `remove_batch` removes `Wallet`s by public key in one store
    /// operation; this store does not implement it.
    pub fn remove_batch(store: &mut BTreeStore, stage: Stage, keys: &Vec<Vec<u8>>) -> (r: Result<()>)
        ensures
            r matches Err(e) && e is Store,
            unchanged(*old(store), *final(store)),
    {
        let mut batch: Vec<Vec<u8>> = Vec::new();
        let mut i: usize = 0;
        while i < keys.len()
            invariant
                i <= keys@.len(),
            decreases keys@.len() - i,
        {
            batch.push(digest_key(stage, WALLET_PREFIX, keys[i].as_slice()));
            i += 1;
        }
        stored_remove_batch(store, &batch)
    }

    /// `cleanup` removes from the store the `wallets` (those that the store
    /// holds for the stage, decoded by the caller) made before `min_time`,
    /// or the current time without it.
    pub fn cleanup(store: &mut BTreeStore, stage: Stage, min_time: Option<Timestamp>, wallets: &[Wallet]) -> (r: Result<()>)
        ensures
            r is Ok ==> match min_time {
                Some(t) => final(store)@ == old(store)@.remove_keys(expired(wallet_stamps(stage, wallets@), t)),
                None => exists|now: Timestamp| #[trigger] plausible_now(now) && final(store)@ == old(store)@.remove_keys(
                    expired(wallet_stamps(stage, wallets@), now),
                ),
            },
            r matches Err(e) ==> e is Store,
            stamps_stored(old(store)@, wallet_stamps(stage, wallets@)) ==> r is Ok,
    {
        let min = time_or_now(min_time);
        let mut stamps: Vec<(Vec<u8>, Timestamp)> = Vec::new();
        let mut i: usize = 0;
        while i < wallets.len()
            invariant
                i <= wallets@.len(),
                stamps@.len() == i,
                stamps_view(stamps@) == wallet_stamps(stage, wallets@.take(i as int)),
            decreases wallets@.len() - i,
        {
            let ghost before = stamps@;
            stamps.push((digest_key(stage, WALLET_PREFIX, wallets[i].public_key.as_slice()), wallets[i].time));
            proof {
                assert(wallets@.take(i + 1) =~= wallets@.take(i as int).push(wallets@[i as int]));
                assert(stamps@ =~= before.push(stamps@[i as int]));
                assert(stamps_view(stamps@) =~= stamps_view(before).push(stamps_view(stamps@)[i as int]));
                assert(stamps_view(stamps@) =~= wallet_stamps(stage, wallets@.take(i + 1)));
            }
            i += 1;
        }
        assert(wallets@.take(wallets@.len() as int) =~= wallets@);
        remove_expired(store, &stamps, min)
    }

    /// `clear` removes the `Wallet`s of a stage from the store.
    pub fn clear(store: &mut BTreeStore, stage: Stage) -> (r: Result<()>)
        ensures
            clear_model(*old(store), *final(store), stage, WALLET_PREFIX, r),
    {
        clear_prefix(store, stage, WALLET_PREFIX)
    }
}

/// The store key of consensus parameters: their prefix, then their id;
/// they are kept for every stage alike.
pub open spec fn params_key(key: Seq<u8>) -> Seq<u8> {
    seq![CONSENSUS_PARAMS_PREFIX] + key
}

/// The store key of an optional id of consensus parameters.
pub open spec fn opt_params_key(key: Option<&Digest>) -> Option<Seq<u8>> {
    match key {
        Some(k) => Some(params_key(k@)),
        None => None,
    }
}

/// The store key of consensus parameters, from their id.
fn params_key_bytes(key: &[u8]) -> (r: Vec<u8>)
    ensures
        r@ == params_key(key@),
{
    let mut buf: Vec<u8> = Vec::new();
    buf.push(CONSENSUS_PARAMS_PREFIX);
    let mut i: usize = 0;
    while i < key.len()
        invariant
            i <= key@.len(),
            buf@ == seq![CONSENSUS_PARAMS_PREFIX] + key@.take(i as int),
        decreases key@.len() - i,
    {
        buf.push(key[i]);
        i += 1;
        assert(buf@ =~= seq![CONSENSUS_PARAMS_PREFIX] + key@.take(i as int));
    }
    assert(key@.take(key@.len() as int) =~= key@);
    buf
}

/// The store key of an optional id of consensus parameters.
fn params_key_opt(key: Option<&Digest>) -> (r: Option<Vec<u8>>)
    ensures
        opt_vec(r) == opt_params_key(key),
{
    match key {
        Some(k) => Some(params_key_bytes(k.as_slice())),
        None => None,
    }
}

impl ConsensusParams {
    /// `key_to_bytes` returns the store key of a `ConsensusParams` id.
    pub fn key_to_bytes(key: &Digest) -> (r: Result<Vec<u8>>)
        ensures
            r matches Ok(k) && k@ == params_key(key@),
    {
        Ok(params_key_bytes(key.as_slice()))
    }

    /// `lookup` looks up `ConsensusParams` in the store by id.
    pub fn lookup(store: &BTreeStore, key: &Digest) -> (r: Result<bool>)
        ensures
            r == Ok::<bool, Error>(store@.contains_key(params_key(key@))),
    {
        let k = params_key_bytes(key.as_slice());
        stored_lookup(store, k.as_slice())
    }

    /// `get` returns serialized `ConsensusParams` from the store.
    pub fn get(store: &BTreeStore, key: &Digest) -> (r: Result<Vec<u8>>)
        ensures
            get_model(*store, params_key(key@), r),
    {
        let k = params_key_bytes(key.as_slice());
        stored_get(store, k.as_slice())
    }

    /// `query` returns the serialized `ConsensusParams` of a range of ids.
    pub fn query(store: &BTreeStore, from: Option<&Digest>, to: Option<&Digest>, count: Option<u32>, skip: Option<u32>) -> (r: Result<
        Vec<Vec<u8>>,
    >)
        ensures
            query_model(*store, opt_params_key(from), opt_params_key(to), count, skip, r),
    {
        let f = params_key_opt(from);
        let t = params_key_opt(to);
        stored_query_opt(store, &f, &t, count, skip)
    }

    /// `count` counts the `ConsensusParams` of a range of ids.
    pub fn count(store: &BTreeStore, from: Option<&Digest>, to: Option<&Digest>, skip: Option<u32>) -> (r: Result<u32>)
        ensures
            count_model(*store, opt_params_key(from), opt_params_key(to), skip, r),
    {
        let f = params_key_opt(from);
        let t = params_key_opt(to);
        stored_count_opt(store, &f, &t, skip)
    }

    /// `insert` inserts serialized `ConsensusParams` in the store.
    pub fn insert(store: &mut BTreeStore, key: &Digest, value: &[u8]) -> (r: Result<()>)
        ensures
            insert_model(*old(store), *final(store), params_key(key@), value@, r),
    {
        let k = params_key_bytes(key.as_slice());
        stored_insert(store, k.as_slice(), value)
    }

    /// `create` creates serialized `ConsensusParams` not yet in the store.
    pub fn create(store: &mut BTreeStore, key: &Digest, value: &[u8]) -> (r: Result<()>)
        ensures
            create_model(*old(store), *final(store), params_key(key@), value@, r),
    {
        let k = params_key_bytes(key.as_slice());
        stored_create(store, k.as_slice(), value)
    }

    /// `update` updates serialized `ConsensusParams` in the store.
    pub fn update(store: &mut BTreeStore, key: &Digest, value: &[u8]) -> (r: Result<()>)
        ensures
            update_model(*old(store), *final(store), params_key(key@), value@, r),
    {
        let k = params_key_bytes(key.as_slice());
        stored_update(store, k.as_slice(), value)
    }

    /// `insert_batch` inserts serialized `ConsensusParams`, each under its
    /// id, in one store operation; this store does not implement it.
    pub fn insert_batch(store: &mut BTreeStore, items: &Vec<(Digest, Vec<u8>)>) -> (r: Result<()>)
        ensures
            r matches Err(e) && e is Store,
            unchanged(*old(store), *final(store)),
    {
        let mut batch: Vec<(Vec<u8>, Vec<u8>)> = Vec::new();
        let mut i: usize = 0;
        while i < items.len()
            invariant
                i <= items@.len(),
            decreases items@.len() - i,
        {
            batch.push((params_key_bytes(items[i].0.as_slice()), copy_bytes(items[i].1.as_slice())));
            i += 1;
        }
        stored_insert_batch(store, &batch)
    }

    /// `remove` removes `ConsensusParams` from the store.
    pub fn remove(store: &mut BTreeStore, key: &Digest) -> (r: Result<()>)
        ensures
            remove_model(*old(store), *final(store), params_key(key@), r),
    {
        let k = params_key_bytes(key.as_slice());
        stored_remove(store, k.as_slice())
    }

    /// `remove_batch` removes `ConsensusParams` by id in one store
    /// operation; this store does not implement it.
    pub fn remove_batch(store: &mut BTreeStore, keys: &Vec<Digest>) -> (r: Result<()>)
        ensures
            r matches Err(e) && e is Store,
            unchanged(*old(store), *final(store)),
    {
        let mut batch: Vec<Vec<u8>> = Vec::new();
        let mut i: usize = 0;
        while i < keys.len()
            invariant
                i <= keys@.len(),
            decreases keys@.len() - i,
        {
            batch.push(params_key_bytes(keys[i].as_slice()));
            i += 1;
        }
        stored_remove_batch(store, &batch)
    }

    /// `cleanup` is not implemented for `ConsensusParams`.
    pub fn cleanup(store: &mut BTreeStore) -> (r: Result<()>)
        ensures
            r matches Err(e) && e is NotImplemented,
            *final(store) == *old(store),
    {
        Err(Error::NotImplemented)
    }

    /// `clear` removes all the `ConsensusParams` from the store.
    pub fn clear(store: &mut BTreeStore) -> (r: Result<()>)
        ensures
            r is Ok && remove_range_outcome(
                *old(store),
                *final(store),
                Some(seq![CONSENSUS_PARAMS_PREFIX]),
                Some(seq![(CONSENSUS_PARAMS_PREFIX + 1) as u8]),
                None,
                Ok(()),
            ),
    {
        let mut from: Vec<u8> = Vec::new();
        from.push(CONSENSUS_PARAMS_PREFIX);
        let mut to: Vec<u8> = Vec::new();
        to.push(CONSENSUS_PARAMS_PREFIX + 1);
        proof {
            assert(from@ =~= seq![CONSENSUS_PARAMS_PREFIX]);
            assert(to@ =~= seq![(CONSENSUS_PARAMS_PREFIX + 1) as u8]);
            reveal_with_fuel(crate::bytes::bytes_lt, 2);
            assert(!crate::bytes::bytes_lt(to@, from@));
            assert(crate::store::items::range_valid(Some(from@), Some(to@)));
        }
        match store.remove_range(Some(from.as_slice()), Some(to.as_slice()), None) {
            Ok(()) => Ok(()),
            Err(e) => Err(from_store(e)),
        }
    }
}

} // verus!
