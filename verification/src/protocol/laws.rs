//! What the consensus decisions keep: valid conflict sets stay valid, and
//! the confidence in a transaction is bounded by its successors.

use crate::models::address::digest_opt;
use crate::models::conflict_set::{conflict_set_valid, ConflictSet};
use crate::models::consensus_state::ConsensusState;
use crate::protocol::state::{chit_applied, chits_sum, chit_of};
use vstd::prelude::*;

verus! {

/// A query's chit keeps a conflict set valid, when the transaction that
/// got the chit belongs to the set.
pub proof fn lemma_chit_keeps_valid(old: ConflictSet, new: ConflictSet, tx_id: Seq<u8>, confidence: u64, pref_confidence: u64)
    requires
        chit_applied(old, new, tx_id, confidence, pref_confidence),
        old.transactions@.contains(tx_id),
    ensures
        conflict_set_valid(new),
{
}

/// Restarting the counter of a valid conflict set keeps it valid.
pub proof fn lemma_reset_keeps_valid(cs: ConflictSet)
    requires
        conflict_set_valid(cs),
    ensures
        conflict_set_valid(ConflictSet { count: 0, ..cs }),
{
}

/// A transaction joining a valid conflict set keeps it valid, and a new
/// conflict set of one transaction, its last and preferred one, is valid.
pub proof fn lemma_upsert_keeps_valid(old: ConflictSet, new: ConflictSet, tx_id: Seq<u8>)
    requires
        conflict_set_valid(old),
        new.transactions@ == old.transactions@.insert(tx_id),
        new.last == old.last,
        new.preferred == old.preferred,
    ensures
        conflict_set_valid(new),
{
}

/// A new conflict set of one transaction, its last and preferred one, is
/// valid.
pub proof fn lemma_new_conflict_set_of_one_valid(cs: ConflictSet, tx_id: Seq<u8>)
    requires
        cs.transactions@ == set![tx_id],
        digest_opt(cs.last) == Some(tx_id),
        digest_opt(cs.preferred) == Some(tx_id),
    ensures
        conflict_set_valid(cs),
{
}

/// The confidence in a transaction is at most the number of its successors
/// plus one: each counts at most one chit, and so does the transaction.
pub proof fn lemma_confidence_bound(state: ConsensusState, successors: Seq<Seq<u8>>, tx_id: Seq<u8>)
    ensures
        chits_sum(state, successors) + chit_of(state, tx_id) <= successors.len() + 1,
    decreases successors.len(),
{
    if successors.len() > 0 {
        lemma_confidence_bound(state, successors.drop_last(), tx_id);
    }
}

} // verus!
