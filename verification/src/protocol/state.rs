//! The decisions of the Avalanche consensus on a node's state: which
//! ancestors of a transaction are known, which transaction of a conflict
//! set is preferred, the confidence in a transaction, when a transaction
//! is accepted, and how a conflict set follows the answers to a query.
//!
//! Reading and writing the stores, decoding the models and talking to the
//! other nodes are left to the caller, which hands over what it read.

use crate::bytes::{bytes_equal, copy_bytes};
use crate::collections::ByteSet;
use crate::models::address::{digest_opt, Address, Digest};
use crate::models::conflict_set::{conflict_set_valid, ConflictSet};
use crate::models::consensus_state::ConsensusState;
use crate::models::stage::Stage;
use crate::models::timestamp::{plausible_now, Timestamp};
use crate::models::transaction::{coinbase_ok, is_eve_spec, transaction_ok, Transaction};
use crate::protocol::error::Error;
use crate::protocol::result::Result;
use vstd::prelude::*;

verus! {

broadcast use crate::models::timestamp::lemma_plausible_now_bounds;

/// The ancestors of a transaction, as its `ancestors` returns them: none
/// for an eve transaction, else the transactions of its inputs' accounts.
pub open spec fn ancestor_ids(t: Transaction) -> Set<Seq<u8>> {
    if is_eve_spec(t) {
        Set::empty()
    } else {
        Set::new(|id: Seq<u8>| exists|k: Seq<u8>| #[trigger] t.inputs@.contains_key(k) && digest_opt(t.inputs@[k].account.transaction_id) == Some(id))
    }
}

/// Whether a transaction is valid and its ancestors can be listed.
pub open spec fn ancestry_ok(t: Transaction, now: Timestamp) -> bool {
    &&& transaction_ok(t, now)
    &&& coinbase_ok(t)
    &&& (!is_eve_spec(t) ==> forall|k: Seq<u8>| #[trigger] t.inputs@.contains_key(k) ==> t.inputs@[k].account.transaction_id is Some)
}

/// The ancestors of a valid transaction that the state knows, or does not
/// know, after `known`.
fn filter_ancestors(state: &ConsensusState, tx: &Transaction, known: bool) -> (r: Result<ByteSet>)
    ensures
        exists|now: Timestamp| #[trigger] plausible_now(now) && match r {
            Ok(ids) => ancestry_ok(*tx, now) && ids@ == ancestor_ids(*tx).filter(
                |id: Seq<u8>| state.known_transactions@.contains(id) == known,
            ),
            Err(_) => !ancestry_ok(*tx, now),
        },
{
    let now = Timestamp::now();
    filter_ancestors_at(state, tx, known, now)
}

/// The ancestors of a transaction valid at the time `now` that the state
/// knows, or does not know, after `known`.
pub(crate) fn filter_ancestors_at(state: &ConsensusState, tx: &Transaction, known: bool, now: Timestamp) -> (r: Result<ByteSet>)
    requires
        plausible_now(now),
    ensures
        match r {
            Ok(ids) => ancestry_ok(*tx, now) && ids@ == ancestor_ids(*tx).filter(
                |id: Seq<u8>| state.known_transactions@.contains(id) == known,
            ),
            Err(_) => !ancestry_ok(*tx, now),
        },
{
    if let Err(e) = tx.validate_at(now) {
        return Err(Error::from_model(&e));
    }
    let ancestors = match tx.ancestors() {
        Ok(a) => a,
        Err(e) => return Err(Error::from_model(&e)),
    };
    let mut res = ByteSet::new();
    let n = ancestors.len();
    let mut i: usize = 0;
    while i < n
        invariant
            n == ancestors.elems().len(),
            i <= n,
            forall|id: Seq<u8>| #[trigger] res@.contains(id) <==> exists|j: int| 0 <= j < i && ancestors.elems()[j] == id
                && state.known_transactions@.contains(id) == known,
            forall|j: int| 0 <= j < ancestors.elems().len() ==> #[trigger] ancestors@.contains(ancestors.elems()[j]),
            forall|k: Seq<u8>| #[trigger] ancestors@.contains(k) ==> exists|j: int| 0 <= j < ancestors.elems().len()
                && #[trigger] ancestors.elems()[j] == k,
        decreases n - i,
    {
        let id = ancestors.at(i);
        if state.known_transactions.contains(id) == known {
            res.insert(id);
        }
        i += 1;
    }
    proof {
        assert forall|id: Seq<u8>| #[trigger] res@.contains(id) <==> ancestor_ids(*tx).filter(
            |id: Seq<u8>| state.known_transactions@.contains(id) == known,
        ).contains(id) by {
            if ancestors@.contains(id) && state.known_transactions@.contains(id) == known {
                let j = choose|j: int| 0 <= j < ancestors.elems().len() && #[trigger] ancestors.elems()[j] == id;
            }
        }
        assert(res@ =~= ancestor_ids(*tx).filter(|id: Seq<u8>| state.known_transactions@.contains(id) == known));
    }
    Ok(res)
}

/// `get_known_ancestors` returns the ancestors of a valid transaction
/// that the state knows.
pub fn get_known_ancestors(state: &ConsensusState, tx: &Transaction) -> (r: Result<ByteSet>)
    ensures
        exists|now: Timestamp| #[trigger] plausible_now(now) && match r {
            Ok(ids) => ancestry_ok(*tx, now) && ids@ == ancestor_ids(*tx).filter(
                |id: Seq<u8>| state.known_transactions@.contains(id),
            ),
            Err(_) => !ancestry_ok(*tx, now),
        },
{
    let r = filter_ancestors(state, tx, true);
    proof {
        assert(ancestor_ids(*tx).filter(|id: Seq<u8>| state.known_transactions@.contains(id) == true) =~= ancestor_ids(
            *tx,
        ).filter(|id: Seq<u8>| state.known_transactions@.contains(id)));
    }
    r
}

/// `get_unknown_ancestors` returns the ancestors of a valid transaction
/// that the state does not know.
pub fn get_unknown_ancestors(state: &ConsensusState, tx: &Transaction) -> (r: Result<ByteSet>)
    ensures
        exists|now: Timestamp| #[trigger] plausible_now(now) && match r {
            Ok(ids) => ancestry_ok(*tx, now) && ids@ == ancestor_ids(*tx).filter(
                |id: Seq<u8>| !state.known_transactions@.contains(id),
            ),
            Err(_) => !ancestry_ok(*tx, now),
        },
{
    let r = filter_ancestors(state, tx, false);
    proof {
        assert(ancestor_ids(*tx).filter(|id: Seq<u8>| state.known_transactions@.contains(id) == false) =~= ancestor_ids(
            *tx,
        ).filter(|id: Seq<u8>| !state.known_transactions@.contains(id)));
    }
    r
}


/// `is_preferred` returns if a transaction is the preferred one of its
/// conflict set, once the conflict set is valid.
pub fn is_preferred(cs: &ConflictSet, tx_id: &Digest) -> (r: Result<bool>)
    ensures
        match r {
            Ok(b) => conflict_set_valid(*cs) && b == (cs.preferred matches Some(p) && p@ == tx_id@),
            Err(e) => !conflict_set_valid(*cs) && e is Model,
        },
{
    if let Err(e) = cs.validate() {
        return Err(Error::from_model(&e));
    }
    match &cs.preferred {
        Some(pref_id) => Ok(bytes_equal(pref_id.as_slice(), tx_id.as_slice())),
        None => Ok(false),
    }
}

/// A transaction counts one chit when the state holds a chit for it that
/// is not zero.
pub open spec fn chit_of(state: ConsensusState, id: Seq<u8>) -> nat {
    if state.transaction_chit@.contains_key(id) && state.transaction_chit@[id] != 0 {
        1
    } else {
        0
    }
}

/// The chits of a sequence of transactions.
pub open spec fn chits_sum(state: ConsensusState, ids: Seq<Seq<u8>>) -> nat
    decreases ids.len(),
{
    if ids.len() == 0 {
        0
    } else {
        chits_sum(state, ids.drop_last()) + chit_of(state, ids.last())
    }
}

/// The chits of a sequence of transactions are at most their number.
proof fn lemma_chits_sum_bound(state: ConsensusState, ids: Seq<Seq<u8>>)
    ensures
        chits_sum(state, ids) <= ids.len(),
    decreases ids.len(),
{
    if ids.len() > 0 {
        lemma_chits_sum_bound(state, ids.drop_last());
    }
}

/// Some transaction of the set is unknown to the state.
pub open spec fn has_unknown(state: ConsensusState, s: ByteSet) -> bool {
    exists|id: Seq<u8>| #[trigger] s@.contains(id) && !state.known_transactions@.contains(id)
}

/// What `calc_confidence` returns: `NotFound` for a transaction in neither
/// store, or with a successor that the state does not know; else 0 without
/// successors, and with them the chits of the successors and its own
/// (`InvalidLength` where that sum passes the greatest `u64`).
pub open spec fn confidence_outcome(
    state: ConsensusState,
    tx_id: Seq<u8>,
    found: bool,
    successors: Option<ByteSet>,
    r: Result<u64>,
) -> bool {
    match r {
        Ok(c) => found && match successors {
            None => c == 0,
            Some(s) => (forall|id: Seq<u8>| #[trigger] s@.contains(id) ==> state.known_transactions@.contains(id)) && c
                == chits_sum(state, s.elems()) + chit_of(state, tx_id),
        },
        Err(e) => (e is NotFound && (!found || (successors matches Some(s) && has_unknown(state, s)))) || (e is InvalidLength && found
            && (successors matches Some(s) && chits_sum(state, s.elems()) + chit_of(state, tx_id) > u64::MAX)),
    }
}

/// The successors that the caller gave, if any.
pub open spec fn successors_of(successors: Option<&ByteSet>) -> Option<ByteSet> {
    match successors {
        Some(s) => Some(*s),
        None => None,
    }
}

/// The chit of a transaction, as 0 or 1.
fn chit(state: &ConsensusState, id: &[u8]) -> (r: u64)
    ensures
        r == chit_of(*state, id@),
{
    match state.transaction_chit.get(id) {
        Some(c) => if c != 0 {
            1
        } else {
            0
        },
        None => 0,
    }
}

/// `calc_confidence` calculates the confidence of a transaction: the
/// chits of its successors and its own. `found` tells whether the pool or
/// the store holds the transaction, and `successors` are its successors,
/// where it has some.
pub fn calc_confidence(state: &ConsensusState, tx_id: &Digest, found: bool, successors: Option<&ByteSet>) -> (r: Result<u64>)
    ensures
        confidence_outcome(*state, tx_id@, found, successors_of(successors), r),
{
    if !found {
        return Err(Error::NotFound);
    }
    match successors {
        None => Ok(0),
        Some(succs) => {
            let n = succs.len();
            let ghost ids = succs.elems();
            let mut confidence: u64 = 0;
            let mut i: usize = 0;
            assert(ids.take(0) =~= Seq::<Seq<u8>>::empty());
            while i < n
                invariant
                    found,
                    successors == Some(succs),
                    ids == succs.elems(),
                    n == ids.len(),
                    i <= n,
                    confidence == chits_sum(*state, ids.take(i as int)),
                    forall|j: int| 0 <= j < i ==> state.known_transactions@.contains(#[trigger] ids[j]),
                    forall|j: int| 0 <= j < ids.len() ==> #[trigger] succs@.contains(ids[j]),
                    forall|k: Seq<u8>| #[trigger] succs@.contains(k) ==> exists|j: int| 0 <= j < ids.len() && #[trigger] ids[j] == k,
                decreases n - i,
            {
                let id = succs.at(i);
                if !state.known_transactions.contains(id) {
                    proof {
                        let x = ids[i as int];
                        assert(succs@.contains(x) && !state.known_transactions@.contains(x));
                        assert(has_unknown(*state, *succs));
                    }
                    return Err(Error::NotFound);
                }
                proof {
                    assert(ids.take(i + 1).drop_last() =~= ids.take(i as int));
                    lemma_chits_sum_bound(*state, ids.take(i + 1));
                }
                confidence = confidence + chit(state, id);
                i += 1;
            }
            proof {
                assert(ids.take(n as int) =~= ids);
                lemma_chits_sum_bound(*state, ids);
                assert forall|k: Seq<u8>| #[trigger] succs@.contains(k) implies state.known_transactions@.contains(k) by {
                    let j = choose|j: int| 0 <= j < ids.len() && #[trigger] ids[j] == k;
                }
            }
            match confidence.checked_add(chit(state, tx_id.as_slice())) {
                Some(c) => Ok(c),
                None => Err(Error::InvalidLength),
            }
        },
    }
}

/// Whether a conflict set accepts a transaction by its counter: with
/// `beta1`, a conflict set of that transaction alone whose counter passed
/// it; with `beta2`, a counter that passed it.
pub open spec fn accepted_by_count(cs: ConflictSet, beta1: Option<u64>, beta2: Option<u64>) -> bool {
    ||| (beta1 matches Some(b1) && cs.transactions@.len() == 1 && cs.count > b1)
    ||| (beta2 matches Some(b2) && cs.count > b2)
}

/// What `is_accepted` returns: a transaction with a chit, one in the pool
/// whose known ancestors are all accepted, or one in the store is
/// accepted; else, where a `beta` is given, its conflict set decides by its
/// counter, and must be given and valid.
pub open spec fn accepted_outcome(
    state: ConsensusState,
    tx_id: Seq<u8>,
    in_pool: Option<bool>,
    in_store: bool,
    cs: Option<ConflictSet>,
    beta1: Option<u64>,
    beta2: Option<u64>,
    r: Result<bool>,
) -> bool {
    if chit_of(state, tx_id) == 1 || in_pool == Some(true) || (in_pool is None && in_store) {
        r == Ok::<bool, Error>(true)
    } else if beta1 is None && beta2 is None {
        r == Ok::<bool, Error>(false)
    } else {
        match cs {
            None => r matches Err(e) && e is NotFound,
            Some(c) => if !conflict_set_valid(c) {
                r matches Err(e) && e is Model
            } else {
                r == Ok::<bool, Error>(accepted_by_count(c, beta1, beta2))
            },
        }
    }
}

/// `is_accepted` returns if a transaction is accepted. `in_pool` tells,
/// for a transaction in the pool, whether its known ancestors are all
/// accepted; `in_store` whether the store holds it; `cs` is its conflict
/// set, where it has one; `beta1` and `beta2` the parameters of the
/// consensus.
pub fn is_accepted(
    state: &ConsensusState,
    tx_id: &Digest,
    in_pool: Option<bool>,
    in_store: bool,
    cs: Option<&ConflictSet>,
    beta1: Option<u64>,
    beta2: Option<u64>,
) -> (r: Result<bool>)
    ensures
        accepted_outcome(*state, tx_id@, in_pool, in_store, match cs {
            Some(c) => Some(*c),
            None => None,
        }, beta1, beta2, r),
{
    if chit(state, tx_id.as_slice()) == 1 {
        return Ok(true);
    }
    match in_pool {
        Some(ancestors_accepted) => if ancestors_accepted {
            return Ok(true);
        },
        None => if in_store {
            return Ok(true);
        },
    }
    if beta1.is_some() || beta2.is_some() {
        let cs = match cs {
            Some(c) => c,
            None => return Err(Error::NotFound),
        };
        if let Err(e) = cs.validate() {
            return Err(Error::from_model(&e));
        }
        if let Some(b1) = beta1 {
            if cs.transactions.len() == 1 && cs.count as u64 > b1 {
                return Ok(true);
            }
        }
        if let Some(b2) = beta2 {
            if cs.count as u64 > b2 {
                return Ok(true);
            }
        }
    }
    Ok(false)
}

/// `upsert_conflict_set` returns the conflict set of `address` once the
/// transaction `tx_id` that pays it joined: the existing one, once valid,
/// with the transaction among its transactions, or else a new one with
/// the transaction for last and preferred one and a counter of 0.
pub fn upsert_conflict_set(existing: Option<ConflictSet>, address: &Address, stage: Stage, tx_id: &Digest) -> (r: Result<ConflictSet>)
    ensures
        match existing {
            Some(cs) => match r {
                Ok(c) => conflict_set_valid(cs) && c.transactions@ == cs.transactions@.insert(tx_id@) && c.address == cs.address
                    && c.stage == cs.stage && c.last == cs.last && c.preferred == cs.preferred && c.count == cs.count,
                Err(e) => !conflict_set_valid(cs) && e is Model,
            },
            None => r matches Ok(c) && c.address@ == address@ && c.stage == stage && c.transactions@ == set![tx_id@]
                && digest_opt(c.last) == Some(tx_id@) && digest_opt(c.preferred) == Some(tx_id@) && c.count == 0,
        },
{
    match existing {
        Some(mut cs) => {
            if let Err(e) = cs.validate() {
                return Err(Error::from_model(&e));
            }
            cs.transactions.insert(tx_id.as_slice());
            Ok(cs)
        },
        None => {
            let mut cs = ConflictSet::new(copy_bytes(address.as_slice()), stage);
            cs.add_transaction(copy_bytes(tx_id.as_slice()));
            cs.count = 0;
            assert(cs.transactions@ =~= set![tx_id@]);
            Ok(cs)
        },
    }
}

/// `new` is the valid conflict set `old`, with a last and a preferred
/// transaction, once a query gave a chit to `tx_id`: `tx_id` becomes the
/// preferred one where its confidence passes the preferred one's, and the
/// last one, whose counter goes up by one, or restarts at 1 for a new last
/// one.
pub open spec fn chit_applied(old: ConflictSet, new: ConflictSet, tx_id: Seq<u8>, confidence: u64, pref_confidence: u64) -> bool {
    &&& conflict_set_valid(old)
    &&& old.last matches Some(l)
    &&& old.preferred is Some
    &&& new.address == old.address
    &&& new.stage == old.stage
    &&& new.transactions == old.transactions
    &&& digest_opt(new.preferred) == if confidence > pref_confidence {
        Some(tx_id)
    } else {
        digest_opt(old.preferred)
    }
    &&& if l@ == tx_id {
        new.last == old.last && new.count == old.count + 1
    } else {
        digest_opt(new.last) == Some(tx_id) && new.count == 1
    }
}

/// A chit moves the preference only to a transaction whose confidence
/// passes the preferred one's: otherwise the preferred transaction stays;
/// the chitted transaction is the last one afterwards, and the counter
/// goes on from the old one only where it was the last one already.
pub proof fn lemma_chit_preference(old: ConflictSet, new: ConflictSet, tx_id: Seq<u8>, confidence: u64, pref_confidence: u64)
    requires
        chit_applied(old, new, tx_id, confidence, pref_confidence),
    ensures
        confidence <= pref_confidence ==> digest_opt(new.preferred) == digest_opt(old.preferred),
        confidence > pref_confidence ==> digest_opt(new.preferred) == Some(tx_id),
        digest_opt(new.last) == Some(tx_id),
        new.count == if digest_opt(old.last) == Some(tx_id) {
            old.count + 1
        } else {
            1
        },
{
}

/// `apply_chit` updates the conflict set of a transaction that a query
/// gave a chit: the transaction becomes the preferred one where its
/// confidence passes the preferred one's, and the last one, whose counter
/// goes up by one, or restarts at 1 for a new last one. The conflict set
/// must be valid, with a last and a preferred transaction.
pub fn apply_chit(cs: &mut ConflictSet, tx_id: &Digest, confidence: u64, pref_confidence: u64) -> (r: Result<()>)
    requires
        old(cs).count < u32::MAX,
    ensures
        r is Ok && confidence <= pref_confidence ==> final(cs).preferred == old(cs).preferred,
        r is Ok && confidence > pref_confidence ==> digest_opt(final(cs).preferred) == Some(tx_id@),
        r is Ok ==> digest_opt(final(cs).last) == Some(tx_id@),
        r is Ok ==> final(cs).count == if digest_opt(old(cs).last) == Some(tx_id@) {
            old(cs).count + 1
        } else {
            1
        },
        match r {
            Ok(()) => chit_applied(*old(cs), *final(cs), tx_id@, confidence, pref_confidence),
            Err(e) => *final(cs) == *old(cs) && if !conflict_set_valid(*old(cs)) {
                e is Model
            } else {
                e is NotFound && (old(cs).last is None || old(cs).preferred is None)
            },
        },
{
    if let Err(e) = cs.validate() {
        return Err(Error::from_model(&e));
    }
    if cs.preferred.is_none() || cs.last.is_none() {
        return Err(Error::NotFound);
    }
    let is_last = match &cs.last {
        Some(l) => bytes_equal(l.as_slice(), tx_id.as_slice()),
        None => false,
    };
    if confidence > pref_confidence {
        cs.preferred = Some(copy_bytes(tx_id.as_slice()));
    }
    if !is_last {
        cs.last = Some(copy_bytes(tx_id.as_slice()));
        cs.count = 1;
    } else {
        cs.count = cs.count + 1;
    }
    Ok(())
}

/// `reset_count` restarts the counter of a valid conflict set, as a query
/// that gave no chit does to the conflict sets of the known ancestors.
pub fn reset_count(cs: &mut ConflictSet) -> (r: Result<()>)
    ensures
        match r {
            Ok(()) => conflict_set_valid(*old(cs)) && *final(cs) == (ConflictSet { count: 0, ..*old(cs) }),
            Err(e) => !conflict_set_valid(*old(cs)) && e is Model && *final(cs) == *old(cs),
        },
{
    if let Err(e) = cs.validate() {
        return Err(Error::from_model(&e));
    }
    cs.count = 0;
    Ok(())
}


/// `update_confidence` records in the state the confidence of a known
/// transaction, as `calc_confidence` calculates it.
pub fn update_confidence(state: &mut ConsensusState, tx_id: &Digest, found: bool, successors: Option<&ByteSet>) -> (r: Result<()>)
    ensures
        match r {
            Ok(()) => {
                let c = final(state).transaction_confidence@[tx_id@];
                &&& confidence_outcome(*old(state), tx_id@, found, successors_of(successors), Ok(c))
                &&& old(state).known_transactions@.contains(tx_id@)
                &&& final(state).transaction_confidence@ == old(state).transaction_confidence@.insert(tx_id@, c)
                &&& *final(state) == (ConsensusState { transaction_confidence: final(state).transaction_confidence, ..*old(state) })
            },
            Err(e) => final(state).transaction_confidence@ == old(state).transaction_confidence@ && *final(state) == (ConsensusState {
                transaction_confidence: final(state).transaction_confidence,
                ..*old(state)
            }) && (confidence_outcome(*old(state), tx_id@, found, successors_of(successors), Err(e))
                || !old(state).known_transactions@.contains(tx_id@)),
        },
{
    let confidence = calc_confidence(state, tx_id, found, successors)?;
    match state.add_transaction_confidence(copy_bytes(tx_id.as_slice()), confidence) {
        Ok(()) => Ok(()),
        Err(e) => Err(Error::from_model(&e)),
    }
}

} // verus!
