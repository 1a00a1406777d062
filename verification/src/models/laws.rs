//! What the operations on the models promise across calls: a signer or an
//! output added is found again, a deletion undoes an addition, the greatest
//! weight is within the total weight, a cleanup removes exactly the
//! expired values, and the store keys of models of different stages or
//! kinds never meet.

use crate::models::input::Input;
use crate::models::signers::{weights_max, weights_sum};
use crate::models::stage::Stage;
use crate::models::storage::{expired, key_bytes};
use crate::models::timestamp::Timestamp;
use crate::models::transaction::{input_filed, Transaction};
use vstd::prelude::*;

verus! {

/// A signer added to signers is found again, with its weight.
pub proof fn lemma_signer_read_after_add(signers: Map<Seq<u8>, u64>, public_key: Seq<u8>, weight: u64)
    ensures
        signers.insert(public_key, weight).contains_key(public_key),
        signers.insert(public_key, weight)[public_key] == weight,
{
}

/// Deleting a signer that was just added gives the signers back.
pub proof fn lemma_signer_delete_undoes_add(signers: Map<Seq<u8>, u64>, public_key: Seq<u8>, weight: u64)
    requires
        !signers.contains_key(public_key),
    ensures
        signers.insert(public_key, weight).remove(public_key) == signers,
{
    assert(signers.insert(public_key, weight).remove(public_key) =~= signers);
}

/// The greatest weight of the signers is at most their total weight.
pub proof fn lemma_max_weight_within_total(signers: Seq<(Seq<u8>, u64)>)
    ensures
        weights_max(signers) <= weights_sum(signers),
    decreases signers.len(),
{
    if signers.len() > 0 {
        lemma_max_weight_within_total(signers.drop_last());
    }
}

/// Deleting an input that was just added to a transaction gives its
/// inputs back.
pub proof fn lemma_delete_input_undoes_add(old: Transaction, added: Transaction, deleted: Transaction, input: Input)
    requires
        !old.inputs@.contains_key(input.account.address@),
        input_filed(old, added, input),
        deleted.inputs@ == added.inputs@.remove(input.account.address@),
    ensures
        deleted.inputs@ == old.inputs@,
{
    assert(deleted.inputs@ =~= old.inputs@);
}

/// Deleting an output that was just added to a transaction gives its
/// outputs back.
pub proof fn lemma_delete_output_undoes_add(old: Transaction, added: Transaction, deleted: Transaction, address: Seq<u8>)
    requires
        !old.outputs@.contains_key(address),
        added.outputs@.remove(address) == old.outputs@,
        deleted.outputs@ == added.outputs@.remove(address),
    ensures
        deleted.outputs@ == old.outputs@,
{
}

/// A cleanup leaves no expired value in the store, and keeps every other
/// value as it was.
pub proof fn lemma_cleanup_keeps_the_rest(
    store: Map<Seq<u8>, Seq<u8>>,
    stamps: Seq<(Seq<u8>, Timestamp)>,
    min: Timestamp,
    key: Seq<u8>,
)
    ensures
        !store.remove_keys(expired(stamps, min)).contains_key(key) <==> (!store.contains_key(key) || expired(
            stamps,
            min,
        ).contains(key)),
        store.remove_keys(expired(stamps, min)).contains_key(key) ==> store.remove_keys(expired(stamps, min))[key]
            == store[key],
{
}

/// Two store keys of models are the same only for the same stage, the
/// same kind of model and the same own key: models of different stages or
/// kinds never share a key.
pub proof fn lemma_store_keys_distinct(s1: Stage, p1: u8, k1: Seq<u8>, s2: Stage, p2: u8, k2: Seq<u8>)
    requires
        key_bytes(s1, p1, k1) == key_bytes(s2, p2, k2),
    ensures
        s1 == s2,
        p1 == p2,
        k1 == k2,
{
    let a = key_bytes(s1, p1, k1);
    let b = key_bytes(s2, p2, k2);
    assert(a[0] == b[0] && a[1] == b[1]);
    assert(k1 =~= a.subrange(2, a.len() as int));
    assert(k2 =~= b.subrange(2, b.len() as int));
}

} // verus!
