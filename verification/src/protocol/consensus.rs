//! One step of the Avalanche consensus on a transaction, once the node has
//! queried its peers about it: the decision that the step takes on the
//! state and on the conflict set of the transaction, and what the caller is
//! then to do with the stores.

use crate::bytes::{bytes_equal, bytes_lt, copy_bytes};
use crate::collections::ByteSet;
use crate::models::conflict_set::{conflict_set_valid, ConflictSet};
use crate::models::consensus_params::ConsensusParams;
use crate::models::consensus_state::ConsensusState;
use crate::models::node::Node;
use crate::models::timestamp::{plausible_now, timestamp_ok_at, Timestamp};
use crate::models::input::Input;
use crate::models::transaction::{transaction_ok, Transaction};
use crate::models::address::Digest;
use crate::protocol::error::Error;
use crate::protocol::result::Result;
use crate::protocol::state::{
    accepted_by_count, ancestor_ids, ancestry_ok, apply_chit, filter_ancestors_at, chit_applied, chit_of, chits_sum, confidence_outcome, get_known_ancestors,
    successors_of, update_confidence,
};
use vstd::prelude::*;

verus! {

broadcast use crate::models::timestamp::lemma_plausible_now_bounds;

/// What the caller of a consensus step is to do next: store the accepted
/// transaction (and write back its conflict set), or restart the counters
/// of the conflict sets of these known ancestors.
pub enum AvalancheAction {
    StoreTransaction,
    ResetAncestorCounts(ByteSet),
}

/// The confidence that a state records for a transaction, or 0.
pub open spec fn confidence_of(state: ConsensusState, id: Seq<u8>) -> u64 {
    if state.transaction_confidence@.contains_key(id) {
        state.transaction_confidence@[id]
    } else {
        0
    }
}

/// The confidence of the preferred transaction of a conflict set, or 0.
pub open spec fn preferred_confidence(state: ConsensusState, cs: ConflictSet) -> u64 {
    match cs.preferred {
        Some(p) => confidence_of(state, p@),
        None => 0,
    }
}

/// Two states with the same chits give the same sums of chits.
proof fn lemma_chits_sum_same(s1: ConsensusState, s2: ConsensusState, ids: Seq<Seq<u8>>)
    requires
        s1.transaction_chit == s2.transaction_chit,
    ensures
        chits_sum(s1, ids) == chits_sum(s2, ids),
    decreases ids.len(),
{
    if ids.len() > 0 {
        lemma_chits_sum_same(s1, s2, ids.drop_last());
    }
}

/// Two states with the same known transactions and chits give the same
/// confidence outcomes.
proof fn lemma_confidence_outcome_same(
    s1: ConsensusState,
    s2: ConsensusState,
    tx_id: Seq<u8>,
    found: bool,
    successors: Option<ByteSet>,
    r: Result<u64>,
)
    requires
        s1.transaction_chit == s2.transaction_chit,
        s1.known_transactions == s2.known_transactions,
        confidence_outcome(s1, tx_id, found, successors, r),
    ensures
        confidence_outcome(s2, tx_id, found, successors, r),
{
    if let Some(s) = successors {
        lemma_chits_sum_same(s1, s2, s.elems());
    }
}

/// `avalanche_step` takes the decision of one step of the Avalanche
/// consensus on the known transaction `tx`, once a query of the peers gave
/// it `chit_sum` chits. Where they reach the parameters' `alfa`, the
/// transaction gets a chit, its confidence is recalculated (`found` and
/// `successors` as `calc_confidence` takes them), its conflict set `cs`
/// follows the chit, and the caller is to store the transaction; else the
/// caller is to restart the counters of the conflict sets of its known
/// ancestors. Either way the transaction is then queried.
pub fn avalanche_step(
    state: &mut ConsensusState,
    cs: &mut ConflictSet,
    tx: &Transaction,
    chit_sum: u64,
    params: &ConsensusParams,
    found: bool,
    successors: Option<&ByteSet>,
) -> (r: Result<AvalancheAction>)
    requires
        old(cs).count < u32::MAX,
    ensures
        chit_sum >= params.alfa ==> match r {
            Ok(a) => {
                &&& a is StoreTransaction
                &&& old(state).known_transactions@.contains(tx.id@)
                &&& final(state).known_transactions == old(state).known_transactions
                &&& final(state).transaction_chit@ == old(state).transaction_chit@.insert(tx.id@, 1)
                &&& final(state).transaction_confidence@ == old(state).transaction_confidence@.insert(
                    tx.id@,
                    final(state).transaction_confidence@[tx.id@],
                )
                &&& confidence_outcome(
                    *final(state),
                    tx.id@,
                    found,
                    successors_of(successors),
                    Ok(final(state).transaction_confidence@[tx.id@]),
                )
                &&& final(state).queried_transactions@ == old(state).queried_transactions@.insert(tx.id@)
                &&& chit_applied(
                    *old(cs),
                    *final(cs),
                    tx.id@,
                    final(state).transaction_confidence@[tx.id@],
                    preferred_confidence(*final(state), *old(cs)),
                )
            },
            Err(e) => !old(state).known_transactions@.contains(tx.id@) || !conflict_set_valid(*old(cs)) || !found
                || confidence_outcome(*final(state), tx.id@, found, successors_of(successors), Err(e))
                || old(cs).last is None
                || old(cs).preferred is None,
        },
        chit_sum < params.alfa ==> *final(cs) == *old(cs) && match r {
            Ok(a) => a matches AvalancheAction::ResetAncestorCounts(ids) && old(state).known_transactions@.contains(
                tx.id@,
            ) && exists|now: Timestamp| #[trigger] plausible_now(now) && ancestry_ok(*tx, now) && ids@
                == ancestor_ids(*tx).filter(|id: Seq<u8>| old(state).known_transactions@.contains(id)) && *final(state)
                == (ConsensusState { queried_transactions: final(state).queried_transactions, ..*old(state) })
                && final(state).queried_transactions@ == old(state).queried_transactions@.insert(tx.id@),
            Err(_) => !old(state).known_transactions@.contains(tx.id@) || exists|now: Timestamp|
                #[trigger] plausible_now(now) && !ancestry_ok(*tx, now),
        },
{
    let now = Timestamp::now();
    avalanche_step_at(state, cs, tx, chit_sum, params, found, successors, now)
}

/// `avalanche_step_at` takes, as `avalanche_step` does, the decision of one step of the Avalanche
/// consensus on the known transaction `tx`, once a query of the peers gave
/// it `chit_sum` chits. Where they reach the parameters' `alfa`, the
/// transaction gets a chit, its confidence is recalculated (`found` and
/// `successors` as `calc_confidence` takes them), its conflict set `cs`
/// follows the chit, and the caller is to store the transaction; else the
/// caller is to restart the counters of the conflict sets of its known
/// ancestors, the transaction's validity checked at the time `now`.
/// Either way the transaction is then queried.
pub fn avalanche_step_at(
    state: &mut ConsensusState,
    cs: &mut ConflictSet,
    tx: &Transaction,
    chit_sum: u64,
    params: &ConsensusParams,
    found: bool,
    successors: Option<&ByteSet>,
    now: Timestamp,
) -> (r: Result<AvalancheAction>)
    requires
        plausible_now(now),
        old(cs).count < u32::MAX,
    ensures
        chit_sum >= params.alfa ==> match r {
            Ok(a) => {
                &&& a is StoreTransaction
                &&& old(state).known_transactions@.contains(tx.id@)
                &&& final(state).known_transactions == old(state).known_transactions
                &&& final(state).transaction_chit@ == old(state).transaction_chit@.insert(tx.id@, 1)
                &&& final(state).transaction_confidence@ == old(state).transaction_confidence@.insert(
                    tx.id@,
                    final(state).transaction_confidence@[tx.id@],
                )
                &&& confidence_outcome(
                    *final(state),
                    tx.id@,
                    found,
                    successors_of(successors),
                    Ok(final(state).transaction_confidence@[tx.id@]),
                )
                &&& final(state).queried_transactions@ == old(state).queried_transactions@.insert(tx.id@)
                &&& chit_applied(
                    *old(cs),
                    *final(cs),
                    tx.id@,
                    final(state).transaction_confidence@[tx.id@],
                    preferred_confidence(*final(state), *old(cs)),
                )
            },
            Err(e) => !old(state).known_transactions@.contains(tx.id@) || !conflict_set_valid(*old(cs)) || !found
                || confidence_outcome(*final(state), tx.id@, found, successors_of(successors), Err(e))
                || old(cs).last is None
                || old(cs).preferred is None,
        },
        chit_sum < params.alfa ==> *final(cs) == *old(cs) && (r is Ok <==> old(state).known_transactions@.contains(
            tx.id@,
        ) && ancestry_ok(*tx, now)) && *final(state) == (ConsensusState {
            queried_transactions: final(state).queried_transactions,
            ..*old(state)
        }) && match r {
            Ok(a) => a matches AvalancheAction::ResetAncestorCounts(ids) && ids@ == ancestor_ids(*tx).filter(
                |id: Seq<u8>| old(state).known_transactions@.contains(id),
            ) && final(state).queried_transactions@ == old(state).queried_transactions@.insert(tx.id@),
            Err(_) => final(state).queried_transactions@ == old(state).queried_transactions@,
        },
{
    if chit_sum >= params.alfa {
        if let Err(e) = state.add_transaction_chit(copy_bytes(tx.id.as_slice()), 1) {
            return Err(Error::from_model(&e));
        }
        if let Err(e) = cs.validate() {
            return Err(Error::from_model(&e));
        }
        let ghost chitted = *state;
        if let Err(e) = update_confidence(state, &tx.id, found, successors) {
            proof {
                lemma_confidence_outcome_same(chitted, *state, tx.id@, found, successors_of(successors), Err(e));
            }
            return Err(e);
        }
        let confidence = match state.get_transaction_confidence(&tx.id) {
            Some(c) => c,
            None => 0,
        };
        let pref_confidence = match &cs.preferred {
            Some(p) => match state.get_transaction_confidence(p) {
                Some(c) => c,
                None => 0,
            },
            None => 0,
        };
        apply_chit(cs, &tx.id, confidence, pref_confidence)?;
        if let Err(e) = state.add_queried_transaction(copy_bytes(tx.id.as_slice())) {
            return Err(Error::from_model(&e));
        }
        proof {
            lemma_confidence_outcome_same(
                chitted,
                *state,
                tx.id@,
                found,
                successors_of(successors),
                Ok(confidence),
            );
        }
        Ok(AvalancheAction::StoreTransaction)
    } else {
        let ancestors = filter_ancestors_at(state, tx, true, now)?;
        proof {
            assert(ancestor_ids(*tx).filter(|id: Seq<u8>| state.known_transactions@.contains(id) == true) =~= ancestor_ids(
                *tx,
            ).filter(|id: Seq<u8>| state.known_transactions@.contains(id)));
        }
        if let Err(e) = state.add_queried_transaction(copy_bytes(tx.id.as_slice())) {
            return Err(Error::from_model(&e));
        }
        Ok(AvalancheAction::ResetAncestorCounts(ancestors))
    }
}

/// The transaction `id` is the preferred one of the conflict set `cs`.
pub open spec fn preferred_in(cs: ConflictSet, id: Seq<u8>) -> bool {
    cs.preferred matches Some(p) && p@ == id
}

/// What `is_strongly_preferred` returns for a transaction of the pool
/// whose known ancestors are `known`, with their conflict sets `sets` in
/// the same order: `NotFound` where a conflict set is missing, a model
/// error where one is not valid, else whether every known ancestor is the
/// preferred one of its conflict set.
pub open spec fn strongly_preferred_outcome(known: Seq<Seq<u8>>, sets: Seq<ConflictSet>, r: Result<bool>) -> bool {
    if sets.len() < known.len() {
        r matches Err(e) && e is NotFound
    } else {
        match r {
            Ok(b) => (forall|i: int| 0 <= i < known.len() ==> conflict_set_valid(#[trigger] sets[i])) && b == forall|i: int|
                0 <= i < known.len() ==> preferred_in(#[trigger] sets[i], known[i]),
            Err(e) => e is Model && exists|i: int| 0 <= i < known.len() && !conflict_set_valid(#[trigger] sets[i]),
        }
    }
}

/// The ids are in ascending byte order, each before the next.
pub open spec fn ascending(ks: Seq<Seq<u8>>) -> bool {
    forall|a: int, b: int| 0 <= a < b < ks.len() ==> bytes_lt(#[trigger] ks[a], #[trigger] ks[b])
}

/// Ids in ascending order hold no id twice.
pub proof fn lemma_ascending_no_duplicates(ks: Seq<Seq<u8>>)
    requires
        ascending(ks),
    ensures
        ks.no_duplicates(),
{
    assert forall|a: int, b: int| 0 <= a < ks.len() && 0 <= b < ks.len() && a != b implies ks[a] != ks[b] by {
        crate::bytes::lemma_bytes_lt_irreflexive(ks[a]);
        if a < b {
            assert(bytes_lt(ks[a], ks[b]));
        } else {
            assert(bytes_lt(ks[b], ks[a]));
        }
    }
}

/// The order of the known ancestors is fixed by the set of them: two
/// ascending sequences of the same ids are the same sequence, so the `i`th
/// conflict set given to `is_strongly_preferred` always goes with the
/// `i`th smallest known ancestor.
pub proof fn lemma_ascending_unique(k1: Seq<Seq<u8>>, k2: Seq<Seq<u8>>)
    requires
        ascending(k1),
        ascending(k2),
        k1.to_set() == k2.to_set(),
    ensures
        k1 == k2,
    decreases k1.len(),
{
    lemma_ascending_no_duplicates(k1);
    lemma_ascending_no_duplicates(k2);
    k1.unique_seq_to_set();
    k2.unique_seq_to_set();
    if k1.len() == 0 {
        assert(k2.len() == 0);
        assert(k1 =~= k2);
    } else {
        assert(k1.to_set().contains(k1[0]));
        assert(k2.to_set().contains(k2[0]));
        assert(k2.contains(k1[0]));
        assert(k1.contains(k2[0]));
        let i = choose|i: int| 0 <= i < k2.len() && k2[i] == k1[0];
        let j = choose|j: int| 0 <= j < k1.len() && k1[j] == k2[0];
        if i > 0 {
            assert(bytes_lt(k2[0], k2[i]));
            if j > 0 {
                assert(bytes_lt(k1[0], k1[j]));
                crate::bytes::lemma_bytes_lt_total(k1[0], k2[0]);
            } else {
                crate::bytes::lemma_bytes_lt_irreflexive(k1[0]);
            }
        }
        assert(k1[0] == k2[0]) by {
            if i > 0 {
                if j > 0 {
                    crate::bytes::lemma_bytes_lt_total(k1[0], k2[0]);
                } else {
                    crate::bytes::lemma_bytes_lt_irreflexive(k1[0]);
                }
            }
        }
        let r1 = k1.drop_first();
        let r2 = k2.drop_first();
        assert(ascending(r1)) by {
            assert forall|a: int, b: int| 0 <= a < b < r1.len() implies bytes_lt(#[trigger] r1[a], #[trigger] r1[b]) by {
                assert(bytes_lt(k1[a + 1], k1[b + 1]));
            }
        }
        assert(ascending(r2)) by {
            assert forall|a: int, b: int| 0 <= a < b < r2.len() implies bytes_lt(#[trigger] r2[a], #[trigger] r2[b]) by {
                assert(bytes_lt(k2[a + 1], k2[b + 1]));
            }
        }
        assert(r1.to_set() =~= r2.to_set()) by {
            assert forall|x: Seq<u8>| r1.to_set().contains(x) implies r2.to_set().contains(x) by {
                let a = choose|a: int| 0 <= a < r1.len() && r1[a] == x;
                assert(k1[a + 1] == x);
                assert(k1.to_set().contains(x));
                let b = choose|b: int| 0 <= b < k2.len() && k2[b] == x;
                if b == 0 {
                    assert(bytes_lt(k1[0], k1[a + 1]));
                    crate::bytes::lemma_bytes_lt_irreflexive(x);
                }
                assert(r2[b - 1] == x);
            }
            assert forall|x: Seq<u8>| r2.to_set().contains(x) implies r1.to_set().contains(x) by {
                let a = choose|a: int| 0 <= a < r2.len() && r2[a] == x;
                assert(k2[a + 1] == x);
                assert(k2.to_set().contains(x));
                let b = choose|b: int| 0 <= b < k1.len() && k1[b] == x;
                if b == 0 {
                    assert(bytes_lt(k2[0], k2[a + 1]));
                    crate::bytes::lemma_bytes_lt_irreflexive(x);
                }
                assert(r1[b - 1] == x);
            }
        }
        lemma_ascending_unique(r1, r2);
        assert(k1 =~= k2) by {
            assert forall|a: int| 0 <= a < k1.len() implies k1[a] == k2[a] by {
                if a > 0 {
                    assert(k1[a] == r1[a - 1]);
                }
            }
        }
    }
}

/// `is_strongly_preferred` tells whether a transaction is strongly
/// preferred: for a transaction of the pool, `in_pool`, every ancestor
/// that the state knows is the preferred one of its conflict set, given in
/// `sets` in the order of the known ancestors; a transaction out of the
/// pool is strongly preferred where the store holds it, `in_store`.
pub fn is_strongly_preferred(
    state: &ConsensusState,
    in_pool: Option<&Transaction>,
    in_store: bool,
    sets: &Vec<ConflictSet>,
) -> (r: Result<bool>)
    ensures
        match in_pool {
            None => r == Ok::<bool, Error>(in_store),
            Some(tx) => exists|now: Timestamp| #[trigger] plausible_now(now) && if !ancestry_ok(*tx, now) {
                r is Err
            } else {
                let known = ancestor_ids(*tx).filter(|id: Seq<u8>| state.known_transactions@.contains(id));
                exists|ks: Seq<Seq<u8>>| ks.to_set() == known && ascending(ks) && #[trigger] strongly_preferred_outcome(
                    ks,
                    sets@,
                    r,
                )
            },
        },
{
    let now = Timestamp::now();
    is_strongly_preferred_at(state, in_pool, in_store, sets, now)
}

/// `is_strongly_preferred_at` tells, as `is_strongly_preferred` does,
/// whether a transaction is strongly preferred, its validity checked at the
/// time `now`.
pub fn is_strongly_preferred_at(
    state: &ConsensusState,
    in_pool: Option<&Transaction>,
    in_store: bool,
    sets: &Vec<ConflictSet>,
    now: Timestamp,
) -> (r: Result<bool>)
    requires
        plausible_now(now),
    ensures
        match in_pool {
            None => r == Ok::<bool, Error>(in_store),
            Some(tx) => if !ancestry_ok(*tx, now) {
                r is Err
            } else {
                let known = ancestor_ids(*tx).filter(|id: Seq<u8>| state.known_transactions@.contains(id));
                exists|ks: Seq<Seq<u8>>| ks.to_set() == known && ascending(ks) && #[trigger] strongly_preferred_outcome(
                    ks,
                    sets@,
                    r,
                )
            },
        },
{
    let tx = match in_pool {
        None => return Ok(in_store),
        Some(tx) => tx,
    };
    let known = filter_ancestors_at(state, tx, true, now)?;
    proof {
        assert(ancestor_ids(*tx).filter(|id: Seq<u8>| state.known_transactions@.contains(id) == true) =~= ancestor_ids(
            *tx,
        ).filter(|id: Seq<u8>| state.known_transactions@.contains(id)));
    }
    let n = known.len();
    let ghost ks = known.elems();
    proof {
        assert(ks.to_set() =~= known@) by {
            assert forall|k: Seq<u8>| known@.contains(k) implies ks.to_set().contains(k) by {
                let i = choose|i: int| 0 <= i < ks.len() && #[trigger] ks[i] == k;
                assert(ks.contains(k));
            }
        }
        assert forall|a: int, b: int| 0 <= a < ks.len() && 0 <= b < ks.len() && a != b implies ks[a] != ks[b] by {
            crate::bytes::lemma_bytes_lt_irreflexive(ks[a]);
            if a < b {
                assert(bytes_lt(ks[a], ks[b]));
            } else {
                assert(bytes_lt(ks[b], ks[a]));
            }
        }
        assert(ks.no_duplicates());
        assert(ascending(ks));
    }
    if sets.len() < n {
        let r = Err(Error::NotFound);
        assert(strongly_preferred_outcome(ks, sets@, r));
        return r;
    }
    let mut i: usize = 0;
    while i < n
        invariant
            n == ks.len(),
            ks == known.elems(),
            sets@.len() >= n,
            i <= n,
            in_pool == Some(tx),
            plausible_now(now),
            ancestry_ok(*tx, now),
            ks.to_set() == ancestor_ids(*tx).filter(|id: Seq<u8>| state.known_transactions@.contains(id)),
            ks.no_duplicates(),
            ascending(ks),
            forall|j: int| 0 <= j < i ==> conflict_set_valid(#[trigger] sets@[j]),
        decreases n - i,
    {
        if let Err(e) = sets[i].validate() {
            let r = Err(Error::from_model(&e));
            assert(strongly_preferred_outcome(ks, sets@, r));
            return r;
        }
        i += 1;
    }
    let mut j: usize = 0;
    while j < n
        invariant
            n == ks.len(),
            ks == known.elems(),
            sets@.len() >= n,
            j <= n,
            in_pool == Some(tx),
            plausible_now(now),
            ancestry_ok(*tx, now),
            ks.to_set() == ancestor_ids(*tx).filter(|id: Seq<u8>| state.known_transactions@.contains(id)),
            ks.no_duplicates(),
            ascending(ks),
            forall|m: int| 0 <= m < n ==> conflict_set_valid(#[trigger] sets@[m]),
            forall|m: int| 0 <= m < j ==> preferred_in(#[trigger] sets@[m], ks[m]),
        decreases n - j,
    {
        let preferred = match &sets[j].preferred {
            Some(p) => bytes_equal(p.as_slice(), known.at(j)),
            None => false,
        };
        if !preferred {
            assert(!preferred_in(sets@[j as int], ks[j as int]));
            let r = Ok(false);
            assert(strongly_preferred_outcome(ks, sets@, r));
            return r;
        }
        j += 1;
    }
    assert(strongly_preferred_outcome(ks, sets@, Ok(true)));
    Ok(true)
}

/// The ancestors of a transaction that the state knows.
pub open spec fn known_ancestors(state: ConsensusState, tx: Transaction) -> Set<Seq<u8>> {
    ancestor_ids(tx).filter(|a: Seq<u8>| state.known_transactions@.contains(a))
}

/// The first transaction of the pool, from the `i`th on, whose id is `id`.
pub open spec fn pool_find(pool: Seq<Transaction>, id: Seq<u8>, i: int) -> Option<Transaction>
    decreases pool.len() - i,
{
    if i < 0 || i >= pool.len() {
        None
    } else if pool[i].id@ == id {
        Some(pool[i])
    } else {
        pool_find(pool, id, i + 1)
    }
}

/// The first conflict set, from the `i`th on, given for the transaction
/// `id`.
pub open spec fn set_find(sets: Seq<(Vec<u8>, ConflictSet)>, id: Seq<u8>, i: int) -> Option<ConflictSet>
    decreases sets.len() - i,
{
    if i < 0 || i >= sets.len() {
        None
    } else if sets[i].0@ == id {
        Some(sets[i].1)
    } else {
        set_find(sets, id, i + 1)
    }
}

/// What the counter of its conflict set says of a transaction: with no
/// `beta`, not accepted; else its conflict set must be given and valid,
/// and decides by its counter. `None` stands for an error.
pub open spec fn count_decision(sets: Seq<(Vec<u8>, ConflictSet)>, id: Seq<u8>, beta1: Option<u64>, beta2: Option<u64>) -> Option<bool> {
    if beta1 is None && beta2 is None {
        Some(false)
    } else {
        match set_find(sets, id, 0) {
            None => None,
            Some(c) => if !conflict_set_valid(c) {
                None
            } else {
                Some(accepted_by_count(c, beta1, beta2))
            },
        }
    }
}

/// What the inputs `items` of a transaction of the pool say of its
/// acceptance, looking `d` deep: the transaction of the account of each
/// input that the state knows must be accepted; an error of one of them is
/// an error (`None`).
pub open spec fn inputs_accepted(
    state: ConsensusState,
    items: Seq<(Seq<u8>, Input)>,
    pool: Seq<Transaction>,
    stored: Set<Seq<u8>>,
    sets: Seq<(Vec<u8>, ConflictSet)>,
    beta1: Option<u64>,
    beta2: Option<u64>,
    d: nat,
    now: Timestamp,
) -> Option<bool>
    decreases d, items.len() as int,
{
    if items.len() == 0 {
        Some(true)
    } else {
        let rest = inputs_accepted(state, items.drop_last(), pool, stored, sets, beta1, beta2, d, now);
        let last = match items.last().1.account.transaction_id {
            Some(t) => if state.known_transactions@.contains(t@) {
                accepted_deep(state, t@, pool, stored, sets, beta1, beta2, d, now)
            } else {
                Some(true)
            },
            None => Some(true),
        };
        match (rest, last) {
            (Some(x), Some(y)) => Some(x && y),
            _ => None,
        }
    }
}

/// Whether the transaction `id` is accepted, looking at most `depth`
/// ancestors deep, at the time `now`: a transaction with a chit is; one of
/// the pool, once valid, is where all its known ancestors are (an error of
/// one of them is an error); one of the store, `stored`, is; else its
/// conflict set decides by its counter. `None` stands for an error, also
/// where the depth runs out.
pub open spec fn accepted_deep(
    state: ConsensusState,
    id: Seq<u8>,
    pool: Seq<Transaction>,
    stored: Set<Seq<u8>>,
    sets: Seq<(Vec<u8>, ConflictSet)>,
    beta1: Option<u64>,
    beta2: Option<u64>,
    depth: nat,
    now: Timestamp,
) -> Option<bool>
    decreases depth, 0int,
{
    if chit_of(state, id) == 1 {
        Some(true)
    } else if depth == 0 {
        None
    } else {
        match pool_find(pool, id, 0) {
            Some(tx) => if !ancestry_ok(tx, now) {
                None
            } else {
                match inputs_accepted(state, tx.inputs.items(), pool, stored, sets, beta1, beta2, (depth - 1) as nat, now) {
                    None => None,
                    Some(true) => Some(true),
                    Some(false) => count_decision(sets, id, beta1, beta2),
                }
            },
            None => if stored.contains(id) {
                Some(true)
            } else {
                count_decision(sets, id, beta1, beta2)
            },
        }
    }
}

/// An error of the first inputs is an error of all of them.
proof fn lemma_inputs_error_stays(
    state: ConsensusState,
    items: Seq<(Seq<u8>, Input)>,
    pool: Seq<Transaction>,
    stored: Set<Seq<u8>>,
    sets: Seq<(Vec<u8>, ConflictSet)>,
    beta1: Option<u64>,
    beta2: Option<u64>,
    d: nat,
    now: Timestamp,
    j: int,
)
    requires
        0 <= j <= items.len(),
        inputs_accepted(state, items.take(j), pool, stored, sets, beta1, beta2, d, now) is None,
    ensures
        inputs_accepted(state, items, pool, stored, sets, beta1, beta2, d, now) is None,
    decreases items.len() - j,
{
    if j == items.len() {
        assert(items.take(j) =~= items);
    } else {
        assert(items.take(j + 1).drop_last() =~= items.take(j));
        lemma_inputs_error_stays(state, items, pool, stored, sets, beta1, beta2, d, now, j + 1);
    }
}

/// What one input of a transaction of the pool says of its acceptance,
/// looking `d` deep: where the state knows the transaction of the input's
/// account, whether that transaction is accepted; else that it is.
pub open spec fn input_verdict(
    state: ConsensusState,
    item: (Seq<u8>, Input),
    pool: Seq<Transaction>,
    stored: Set<Seq<u8>>,
    sets: Seq<(Vec<u8>, ConflictSet)>,
    beta1: Option<u64>,
    beta2: Option<u64>,
    d: nat,
    now: Timestamp,
) -> Option<bool> {
    match item.1.account.transaction_id {
        Some(t) => if state.known_transactions@.contains(t@) {
            accepted_deep(state, t@, pool, stored, sets, beta1, beta2, d, now)
        } else {
            Some(true)
        },
        None => Some(true),
    }
}

/// The inputs of a transaction accept it exactly where every one of them
/// does: their verdict is known where each input's is, and it is `true`
/// where each input's is `true`, so one input that is not accepted is
/// enough to refuse them all.
pub proof fn lemma_inputs_accepted_all(
    state: ConsensusState,
    items: Seq<(Seq<u8>, Input)>,
    pool: Seq<Transaction>,
    stored: Set<Seq<u8>>,
    sets: Seq<(Vec<u8>, ConflictSet)>,
    beta1: Option<u64>,
    beta2: Option<u64>,
    d: nat,
    now: Timestamp,
)
    ensures
        inputs_accepted(state, items, pool, stored, sets, beta1, beta2, d, now) is Some <==> forall|i: int|
            0 <= i < items.len() ==> (#[trigger] input_verdict(state, items[i], pool, stored, sets, beta1, beta2, d, now)) is Some,
        inputs_accepted(state, items, pool, stored, sets, beta1, beta2, d, now) == Some(true) <==> forall|i: int|
            0 <= i < items.len() ==> #[trigger] input_verdict(state, items[i], pool, stored, sets, beta1, beta2, d, now) == Some(true),
    decreases items.len(),
{
    if items.len() > 0 {
        let rest = items.drop_last();
        lemma_inputs_accepted_all(state, rest, pool, stored, sets, beta1, beta2, d, now);
        let n = items.len() - 1;
        assert forall|i: int| 0 <= i < rest.len() implies #[trigger] rest[i] == items[i] by {}
        assert(items.last() == items[n]);
        if forall|i: int| 0 <= i < items.len() ==> (#[trigger] input_verdict(state, items[i], pool, stored, sets, beta1, beta2, d, now)) is Some {
            assert forall|i: int| 0 <= i < rest.len() implies (#[trigger] input_verdict(state, rest[i], pool, stored, sets, beta1, beta2, d, now)) is Some by {
                assert(rest[i] == items[i]);
                assert(input_verdict(state, items[i], pool, stored, sets, beta1, beta2, d, now) is Some);
            }
            assert(input_verdict(state, items[n], pool, stored, sets, beta1, beta2, d, now) is Some);
        }
        if forall|i: int| 0 <= i < items.len() ==> #[trigger] input_verdict(state, items[i], pool, stored, sets, beta1, beta2, d, now) == Some(true) {
            assert forall|i: int| 0 <= i < rest.len() implies #[trigger] input_verdict(state, rest[i], pool, stored, sets, beta1, beta2, d, now) == Some(true) by {
                assert(rest[i] == items[i]);
                assert(input_verdict(state, items[i], pool, stored, sets, beta1, beta2, d, now) == Some(true));
            }
            assert(input_verdict(state, items[n], pool, stored, sets, beta1, beta2, d, now) == Some(true));
        }
        if inputs_accepted(state, items, pool, stored, sets, beta1, beta2, d, now) is Some {
            assert forall|i: int| 0 <= i < items.len() implies (#[trigger] input_verdict(state, items[i], pool, stored, sets, beta1, beta2, d, now)) is Some by {
                if i < n {
                    assert(rest[i] == items[i]);
                    assert(input_verdict(state, rest[i], pool, stored, sets, beta1, beta2, d, now) is Some);
                }
            }
        }
        if inputs_accepted(state, items, pool, stored, sets, beta1, beta2, d, now) == Some(true) {
            assert forall|i: int| 0 <= i < items.len() implies #[trigger] input_verdict(state, items[i], pool, stored, sets, beta1, beta2, d, now) == Some(true) by {
                if i < n {
                    assert(rest[i] == items[i]);
                    assert(input_verdict(state, rest[i], pool, stored, sets, beta1, beta2, d, now) == Some(true));
                }
            }
        }
    }
}

/// A transaction of the pool without a chit, where no `beta` lets a counter
/// decide, is accepted exactly where it is valid and every ancestor of its
/// inputs that the state knows is accepted: one known ancestor that is not
/// accepted is enough to refuse it.
pub proof fn lemma_accepted_through_ancestors(
    state: ConsensusState,
    id: Seq<u8>,
    tx: Transaction,
    pool: Seq<Transaction>,
    stored: Set<Seq<u8>>,
    sets: Seq<(Vec<u8>, ConflictSet)>,
    depth: nat,
    now: Timestamp,
)
    requires
        chit_of(state, id) != 1,
        depth > 0,
        pool_find(pool, id, 0) == Some(tx),
    ensures
        accepted_deep(state, id, pool, stored, sets, None, None, depth, now) == Some(true) <==> ancestry_ok(tx, now)
            && forall|i: int| 0 <= i < tx.inputs.items().len() ==> #[trigger] input_verdict(
            state,
            tx.inputs.items()[i],
            pool,
            stored,
            sets,
            None,
            None,
            (depth - 1) as nat,
            now,
        ) == Some(true),
{
    lemma_inputs_accepted_all(state, tx.inputs.items(), pool, stored, sets, None, None, (depth - 1) as nat, now);
}

/// The index of the first transaction of the pool whose id is `id`.
fn find_in_pool(pool: &Vec<Transaction>, id: &[u8]) -> (r: Option<usize>)
    ensures
        match r {
            Some(i) => i < pool@.len() && pool_find(pool@, id@, 0) == Some(pool@[i as int]),
            None => pool_find(pool@, id@, 0) is None,
        },
{
    let mut i: usize = 0;
    while i < pool.len()
        invariant
            i <= pool@.len(),
            pool_find(pool@, id@, 0) == pool_find(pool@, id@, i as int),
        decreases pool@.len() - i,
    {
        if bytes_equal(pool[i].id.as_slice(), id) {
            return Some(i);
        }
        i += 1;
    }
    None
}

/// The first conflict set given for the transaction `id`.
fn find_set<'a>(sets: &'a Vec<(Digest, ConflictSet)>, id: &[u8]) -> (r: Option<&'a ConflictSet>)
    ensures
        match r {
            Some(c) => set_find(sets@, id@, 0) == Some(*c),
            None => set_find(sets@, id@, 0) is None,
        },
{
    let mut i: usize = 0;
    while i < sets.len()
        invariant
            i <= sets@.len(),
            set_find(sets@, id@, 0) == set_find(sets@, id@, i as int),
        decreases sets@.len() - i,
    {
        if bytes_equal(sets[i].0.as_slice(), id) {
            return Some(&sets[i].1);
        }
        i += 1;
    }
    None
}

/// What the counter of its conflict set says of a transaction.
fn decide_by_count(sets: &Vec<(Digest, ConflictSet)>, id: &[u8], beta1: Option<u64>, beta2: Option<u64>) -> (r: Result<bool>)
    ensures
        match r {
            Ok(b) => count_decision(sets@, id@, beta1, beta2) == Some(b),
            Err(_) => count_decision(sets@, id@, beta1, beta2) is None,
        },
{
    if beta1.is_none() && beta2.is_none() {
        return Ok(false);
    }
    let cs = match find_set(sets, id) {
        Some(c) => c,
        None => return Err(Error::NotFound),
    };
    if let Err(e) = cs.validate() {
        return Err(Error::from_model(&e));
    }
    if let Some(b1) = beta1 {
        if cs.transactions.len() == 1 && cs.count as u64 > b1 {
            return Ok(true);
        }
    }
    if let Some(b2) = beta2 {
        if cs.count as u64 > b2 {
            return Ok(true);
        }
    }
    Ok(false)
}

/// `is_accepted_deep` tells whether the transaction `tx_id` is accepted,
/// at the time `now`, looking at most `depth` ancestors deep: the pool's
/// transactions are `pool`, the ids of the store's are `stored`, and
/// `sets` gives the conflict set of a transaction by its id. A transaction
/// with a chit is accepted; one of the pool, once valid, where all its
/// known ancestors are; one of the store is; else its conflict set decides
/// by its counter, with the parameters `beta1` and `beta2`.
pub fn is_accepted_deep(
    state: &ConsensusState,
    tx_id: &Digest,
    pool: &Vec<Transaction>,
    stored: &ByteSet,
    sets: &Vec<(Digest, ConflictSet)>,
    beta1: Option<u64>,
    beta2: Option<u64>,
    depth: u32,
    now: Timestamp,
) -> (r: Result<bool>)
    requires
        plausible_now(now),
    ensures
        match r {
            Ok(b) => accepted_deep(*state, tx_id@, pool@, stored@, sets@, beta1, beta2, depth as nat, now) == Some(b),
            Err(_) => accepted_deep(*state, tx_id@, pool@, stored@, sets@, beta1, beta2, depth as nat, now) is None,
        },
    decreases depth,
{
    let has_chit = match state.get_transaction_chit(tx_id) {
        Some(c) => c != 0,
        None => false,
    };
    if has_chit {
        return Ok(true);
    }
    if depth == 0 {
        return Err(Error::InvalidLength);
    }
    match find_in_pool(pool, tx_id.as_slice()) {
        Some(i) => {
            let tx = &pool[i];
            let _known = filter_ancestors_at(state, tx, true, now)?;
            let n = tx.inputs.len();
            let ghost items = tx.inputs.items();
            let ghost d = (depth - 1) as nat;
            let mut all = true;
            let mut j: usize = 0;
            assert(items.take(0) =~= Seq::<(Seq<u8>, Input)>::empty());
            while j < n
                invariant
                    n == items.len(),
                    items == pool@[i as int].inputs.items(),
                    tx == pool@[i as int],
                    i < pool@.len(),
                    j <= n,
                    depth > 0,
                    d == depth - 1,
                    plausible_now(now),
                    chit_of(*state, tx_id@) != 1,
                    pool_find(pool@, tx_id@, 0) == Some(pool@[i as int]),
                    ancestry_ok(pool@[i as int], now),
                    inputs_accepted(*state, items.take(j as int), pool@, stored@, sets@, beta1, beta2, d, now) == Some(all),
                decreases n - j,
            {
                proof {
                    assert(items.take(j + 1).drop_last() =~= items.take(j as int));
                }
                let input = tx.inputs.value_ref(j);
                let ok = match &input.account.transaction_id {
                    Some(t) => if state.known_transactions.contains(t.as_slice()) {
                        match is_accepted_deep(state, t, pool, stored, sets, beta1, beta2, depth - 1, now) {
                            Ok(b) => b,
                            Err(e) => {
                                proof {
                                    lemma_inputs_error_stays(*state, items, pool@, stored@, sets@, beta1, beta2, d, now, j + 1);
                                }
                                return Err(e);
                            },
                        }
                    } else {
                        true
                    },
                    None => true,
                };
                all = all && ok;
                j += 1;
            }
            proof {
                assert(items.take(n as int) =~= items);
            }
            if all {
                return Ok(true);
            }
        },
        None => {
            if stored.contains(tx_id.as_slice()) {
                return Ok(true);
            }
        },
    }
    decide_by_count(sets, tx_id.as_slice(), beta1, beta2)
}

/// What the caller of `receive_transaction_at` is to do next: nothing for
/// a transaction the pool or the store holds already; else create it in the
/// pool, file it in the conflict sets of its outputs' addresses (with
/// `upsert_conflict_set`) and fetch its unknown ancestors.
pub enum ReceiveAction {
    AlreadyHeld,
    AddToPool,
}

/// `receive_transaction_at` takes, at the time `now`, a transaction that
/// another node sent (the Avalanche "OnReceiveTx"): it must be valid; one
/// that the pool or the store holds, `found`, changes nothing; another one
/// becomes known, with no chit (0) and a confidence of 0. Whether its
/// mining proof holds is checked by the caller beforehand.
pub fn receive_transaction_at(state: &mut ConsensusState, tx: &Transaction, found: bool, now: Timestamp) -> (r: Result<
    ReceiveAction,
>)
    requires
        plausible_now(now),
    ensures
        r is Ok <==> transaction_ok(*tx, now),
        r matches Err(e) ==> e is Model,
        match r {
            Ok(a) => if found {
                a is AlreadyHeld && *final(state) == *old(state)
            } else {
                &&& a is AddToPool
                &&& final(state).known_transactions@ == old(state).known_transactions@.insert(tx.id@)
                &&& final(state).transaction_chit@ == old(state).transaction_chit@.insert(tx.id@, 0)
                &&& final(state).transaction_confidence@ == old(state).transaction_confidence@.insert(tx.id@, 0)
                &&& *final(state) == (ConsensusState {
                    known_transactions: final(state).known_transactions,
                    transaction_chit: final(state).transaction_chit,
                    transaction_confidence: final(state).transaction_confidence,
                    ..*old(state)
                })
            },
            Err(_) => *final(state) == *old(state),
        },
{
    if let Err(e) = tx.validate_at(now) {
        return Err(Error::from_model(&e));
    }
    if found {
        return Ok(ReceiveAction::AlreadyHeld);
    }
    state.add_known_transaction(copy_bytes(tx.id.as_slice()));
    let chit_set = state.add_transaction_chit(copy_bytes(tx.id.as_slice()), 0);
    let confidence_set = state.add_transaction_confidence(copy_bytes(tx.id.as_slice()), 0);
    proof {
        assert(chit_set is Ok);
        assert(confidence_set is Ok);
    }
    Ok(ReceiveAction::AddToPool)
}

/// `handle_node_at` records, at the time `now`, a node that this node, at
/// `own_address`, heard of: a valid node other than this one becomes known
/// to the state; one whose last sighting is not valid at `now` is a model
/// error, and this node itself is an `InvalidNode`. Keeping the node in a
/// store is left to the caller.
pub fn handle_node_at(state: &mut ConsensusState, own_address: &[u8], node: &Node, now: Timestamp) -> (r: Result<()>)
    requires
        plausible_now(now),
    ensures
        if !timestamp_ok_at(node.last_seen, now) {
            (r matches Err(e) && e is Model) && *final(state) == *old(state)
        } else if node.address@ == own_address@ {
            (r matches Err(e) && e is InvalidNode) && *final(state) == *old(state)
        } else {
            &&& r is Ok
            &&& final(state).known_nodes@ == old(state).known_nodes@.insert(node.address@)
            &&& *final(state) == (ConsensusState { known_nodes: final(state).known_nodes, ..*old(state) })
        },
{
    if let Err(e) = node.validate_at(now) {
        return Err(Error::from_model(&e));
    }
    if bytes_equal(node.address.as_slice(), own_address) {
        return Err(Error::InvalidNode);
    }
    state.add_known_node(copy_bytes(node.address.as_slice()));
    Ok(())
}

} // verus!
