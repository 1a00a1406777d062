//! The state of the Avalanche consensus.

use crate::collections::{ByteMap, ByteSet};
use std::collections::BTreeSet;
use crate::models::address::Digest;
use crate::models::error::{Error, Result};
use crate::models::stage::Stage;
use vstd::prelude::*;

verus! {

broadcast use {vstd::laws_cmp::group_laws_cmp, vstd::std_specs::btree::group_btree_axioms};

/// `ConsensusState` represents the Avalanche Consensus state.
#[derive(Clone, PartialEq, Eq, PartialOrd, Ord, Debug, Default)]
pub struct ConsensusState {
    pub id: u64,
    pub stage: Stage,
    pub known_transactions: ByteSet,
    pub queried_transactions: ByteSet,
    pub conflict_sets: BTreeSet<u64>,
    pub transaction_conflict_set: ByteMap<u64>,
    pub transaction_chit: ByteMap<u64>,
    pub transaction_confidence: ByteMap<u64>,
    pub known_nodes: ByteSet,
}

/// A consensus state is valid when every queried transaction is known,
/// every transaction with a conflict set, a chit or a confidence is known,
/// and every conflict set that a transaction belongs to is registered.
pub open spec fn consensus_state_valid(s: ConsensusState) -> bool {
    &&& forall|k: Seq<u8>| #[trigger] s.queried_transactions@.contains(k) ==> s.known_transactions@.contains(k)
    &&& forall|k: Seq<u8>| #[trigger] s.transaction_conflict_set@.contains_key(k) ==> s.known_transactions@.contains(k)
        && s.conflict_sets@.contains(s.transaction_conflict_set@[k])
    &&& forall|k: Seq<u8>| #[trigger] s.transaction_chit@.contains_key(k) ==> s.known_transactions@.contains(k)
    &&& forall|k: Seq<u8>| #[trigger] s.transaction_confidence@.contains_key(k) ==> s.known_transactions@.contains(k)
}

impl ConsensusState {
    /// `new` creates a new `ConsensusState`.
    pub fn new(id: u64, stage: Stage) -> (r: ConsensusState)
        ensures
            r.id == id,
            r.stage == stage,
            r.known_transactions@ == Set::<Seq<u8>>::empty(),
            r.queried_transactions@ == Set::<Seq<u8>>::empty(),
            r.conflict_sets@ == Set::<u64>::empty(),
            r.transaction_conflict_set@ == Map::<Seq<u8>, u64>::empty(),
            r.transaction_chit@ == Map::<Seq<u8>, u64>::empty(),
            r.transaction_confidence@ == Map::<Seq<u8>, u64>::empty(),
            r.known_nodes@ == Set::<Seq<u8>>::empty(),
    {
        ConsensusState {
            id,
            stage,
            known_transactions: ByteSet::new(),
            queried_transactions: ByteSet::new(),
            conflict_sets: BTreeSet::new(),
            transaction_conflict_set: ByteMap::new(),
            transaction_chit: ByteMap::new(),
            transaction_confidence: ByteMap::new(),
            known_nodes: ByteSet::new(),
        }
    }

    /// `lookup_known_transaction` looks up a `Transaction` id in the known transactions set of the `ConsensusState`.
    pub fn lookup_known_transaction(&self, tx_id: &Digest) -> (r: bool)
        ensures
            r == self.known_transactions@.contains(tx_id@),
    {
        self.known_transactions.contains(tx_id.as_slice())
    }

    /// `add_known_transaction` adds a new `Transaction` id in the known transactions set of the `ConsensusState`.
    pub fn add_known_transaction(&mut self, tx_id: Digest)
        ensures
            final(self).known_transactions@ == old(self).known_transactions@.insert(tx_id@),
            *final(self) == (ConsensusState { known_transactions: final(self).known_transactions, ..*old(self) }),
    {
        if !self.lookup_known_transaction(&tx_id) {
            self.known_transactions.insert(tx_id.as_slice());
        } else {
            assert(old(self).known_transactions@.insert(tx_id@) =~= old(self).known_transactions@);
        }
    }

    /// `remove_known_transaction` removes a `Transaction` id from the known transaction set of the `ConsensusState`.
    pub fn remove_known_transaction(&mut self, tx_id: &Digest) -> (r: Result<()>)
        ensures
            r is Ok <==> old(self).known_transactions@.contains(tx_id@),
            r matches Err(e) ==> e is NotFound,
            final(self).known_transactions@ == old(self).known_transactions@.remove(tx_id@),
            *final(self) == (ConsensusState { known_transactions: final(self).known_transactions, ..*old(self) }),
    {
        if !self.lookup_known_transaction(tx_id) {
            assert(old(self).known_transactions@.remove(tx_id@) =~= old(self).known_transactions@);
            return Err(Error::NotFound);
        }
        self.known_transactions.remove(tx_id.as_slice());
        Ok(())
    }

    /// `lookup_queried_transaction` looks up a `Transaction` id in the queried transactions set of the `ConsensusState`.
    pub fn lookup_queried_transaction(&self, tx_id: &Digest) -> (r: bool)
        ensures
            r == self.queried_transactions@.contains(tx_id@),
    {
        self.queried_transactions.contains(tx_id.as_slice())
    }

    /// `add_queried_transaction` adds a known `Transaction` id in the queried transactions set of the `ConsensusState`.
    pub fn add_queried_transaction(&mut self, tx_id: Digest) -> (r: Result<()>)
        ensures
            r is Ok <==> old(self).known_transactions@.contains(tx_id@),
            r matches Err(e) ==> e is NotFound,
            final(self).queried_transactions@ == if r is Ok {
                old(self).queried_transactions@.insert(tx_id@)
            } else {
                old(self).queried_transactions@
            },
            *final(self) == (ConsensusState { queried_transactions: final(self).queried_transactions, ..*old(self) }),
    {
        if !self.lookup_known_transaction(&tx_id) {
            return Err(Error::NotFound);
        }
        if !self.lookup_queried_transaction(&tx_id) {
            self.queried_transactions.insert(tx_id.as_slice());
        } else {
            assert(old(self).queried_transactions@.insert(tx_id@) =~= old(self).queried_transactions@);
        }
        Ok(())
    }

    /// `remove_queried_transaction` removes a `Transaction` id from the queried transaction set of the `ConsensusState`.
    pub fn remove_queried_transaction(&mut self, tx_id: &Digest) -> (r: Result<()>)
        ensures
            r is Ok <==> old(self).queried_transactions@.contains(tx_id@),
            r matches Err(e) ==> e is NotFound,
            final(self).queried_transactions@ == old(self).queried_transactions@.remove(tx_id@),
            *final(self) == (ConsensusState { queried_transactions: final(self).queried_transactions, ..*old(self) }),
    {
        if !self.lookup_queried_transaction(tx_id) {
            assert(old(self).queried_transactions@.remove(tx_id@) =~= old(self).queried_transactions@);
            return Err(Error::NotFound);
        }
        self.queried_transactions.remove(tx_id.as_slice());
        Ok(())
    }

    /// `lookup_conflict_set` looks up a `ConflictSet` id in the conflict sets of the `ConsensusState`.
    pub fn lookup_conflict_set(&self, cs_id: u64) -> (r: bool)
        ensures
            r == self.conflict_sets@.contains(cs_id),
    {
        self.conflict_sets.contains(&cs_id)
    }

    /// `add_conflict_set` adds a new `ConflictSet` id in the conflict sets of the `ConsensusState`.
    pub fn add_conflict_set(&mut self, cs_id: u64)
        ensures
            final(self).conflict_sets@ == old(self).conflict_sets@.insert(cs_id),
            *final(self) == (ConsensusState { conflict_sets: final(self).conflict_sets, ..*old(self) }),
    {
        if !self.lookup_conflict_set(cs_id) {
            self.conflict_sets.insert(cs_id);
        } else {
            assert(old(self).conflict_sets@.insert(cs_id) =~= old(self).conflict_sets@);
        }
    }

    /// `remove_conflict_set` removes a `ConflictSet` id from the conflict sets of the `ConsensusState`.
    pub fn remove_conflict_set(&mut self, cs_id: u64) -> (r: Result<()>)
        ensures
            r is Ok <==> old(self).conflict_sets@.contains(cs_id),
            r matches Err(e) ==> e is NotFound,
            final(self).conflict_sets@ == old(self).conflict_sets@.remove(cs_id),
            *final(self) == (ConsensusState { conflict_sets: final(self).conflict_sets, ..*old(self) }),
    {
        if !self.lookup_conflict_set(cs_id) {
            assert(old(self).conflict_sets@.remove(cs_id) =~= old(self).conflict_sets@);
            return Err(Error::NotFound);
        }
        self.conflict_sets.remove(&cs_id);
        Ok(())
    }

    /// `lookup_transaction_conflict_set` looks up a `Transaction` id in the transaction
    /// conflict sets of the `ConsensusState`.
    pub fn lookup_transaction_conflict_set(&self, tx_id: &Digest) -> (r: bool)
        ensures
            r == self.transaction_conflict_set@.contains_key(tx_id@),
    {
        self.transaction_conflict_set.contains(tx_id.as_slice())
    }

    /// `get_transaction_conflict_set` gets the conflict_set of a `Transaction`.
    pub fn get_transaction_conflict_set(&self, tx_id: &Digest) -> (r: Option<u64>)
        ensures
            match r {
                Some(cs) => self.transaction_conflict_set@.contains_key(tx_id@) && cs
                    == self.transaction_conflict_set@[tx_id@],
                None => !self.transaction_conflict_set@.contains_key(tx_id@),
            },
    {
        self.transaction_conflict_set.get(tx_id.as_slice())
    }

    /// `add_transaction_conflict_set` adds a known `Transaction` conflict set id in
    /// the `ConsensusState`.
    pub fn add_transaction_conflict_set(&mut self, tx_id: Digest, cs_id: u64) -> (r: Result<()>)
        ensures
            r is Ok <==> old(self).known_transactions@.contains(tx_id@) && old(self).conflict_sets@.contains(cs_id),
            r matches Err(e) ==> e is NotFound,
            final(self).transaction_conflict_set@ == if r is Ok {
                old(self).transaction_conflict_set@.insert(tx_id@, cs_id)
            } else {
                old(self).transaction_conflict_set@
            },
            *final(self) == (ConsensusState { transaction_conflict_set: final(self).transaction_conflict_set, ..*old(self) }),
    {
        if !self.lookup_known_transaction(&tx_id) {
            return Err(Error::NotFound);
        }
        if !self.lookup_conflict_set(cs_id) {
            return Err(Error::NotFound);
        }
        self.transaction_conflict_set.insert(tx_id.as_slice(), cs_id);
        Ok(())
    }

    /// `remove_transaction_conflict_set` removes a known `Transaction` conflict set id in
    /// the `ConsensusState`.
    pub fn remove_transaction_conflict_set(&mut self, tx_id: &Digest) -> (r: Result<()>)
        ensures
            r is Ok <==> old(self).known_transactions@.contains(tx_id@) && old(self).transaction_conflict_set@.contains_key(tx_id@),
            r matches Err(e) ==> e is NotFound,
            final(self).transaction_conflict_set@ == if r is Ok {
                old(self).transaction_conflict_set@.remove(tx_id@)
            } else {
                old(self).transaction_conflict_set@
            },
            *final(self) == (ConsensusState { transaction_conflict_set: final(self).transaction_conflict_set, ..*old(self) }),
    {
        if !self.lookup_known_transaction(tx_id) {
            return Err(Error::NotFound);
        }
        if !self.lookup_transaction_conflict_set(tx_id) {
            return Err(Error::NotFound);
        }
        self.transaction_conflict_set.remove(tx_id.as_slice());
        Ok(())
    }

    /// `lookup_transaction_chit` looks up a `Transaction` id in the transaction
    /// chits of the `ConsensusState`.
    pub fn lookup_transaction_chit(&self, tx_id: &Digest) -> (r: bool)
        ensures
            r == self.transaction_chit@.contains_key(tx_id@),
    {
        self.transaction_chit.contains(tx_id.as_slice())
    }

    /// `get_transaction_chit` gets the chit of a `Transaction`.
    pub fn get_transaction_chit(&self, tx_id: &Digest) -> (r: Option<u64>)
        ensures
            match r {
                Some(c) => self.transaction_chit@.contains_key(tx_id@) && c == self.transaction_chit@[tx_id@],
                None => !self.transaction_chit@.contains_key(tx_id@),
            },
    {
        self.transaction_chit.get(tx_id.as_slice())
    }

    /// `add_transaction_chit` adds a known `Transaction` chit in
    /// the `ConsensusState`.
    pub fn add_transaction_chit(&mut self, tx_id: Digest, chit: u64) -> (r: Result<()>)
        ensures
            r is Ok <==> old(self).known_transactions@.contains(tx_id@),
            r matches Err(e) ==> e is NotFound,
            final(self).transaction_chit@ == if r is Ok {
                old(self).transaction_chit@.insert(tx_id@, chit)
            } else {
                old(self).transaction_chit@
            },
            *final(self) == (ConsensusState { transaction_chit: final(self).transaction_chit, ..*old(self) }),
    {
        if !self.lookup_known_transaction(&tx_id) {
            return Err(Error::NotFound);
        }
        self.transaction_chit.insert(tx_id.as_slice(), chit);
        Ok(())
    }

    /// `remove_transaction_chit` removes a known `Transaction` chit in
    /// the `ConsensusState`.
    pub fn remove_transaction_chit(&mut self, tx_id: &Digest) -> (r: Result<()>)
        ensures
            r is Ok <==> old(self).known_transactions@.contains(tx_id@) && old(self).transaction_chit@.contains_key(tx_id@),
            r matches Err(e) ==> e is NotFound,
            final(self).transaction_chit@ == if r is Ok {
                old(self).transaction_chit@.remove(tx_id@)
            } else {
                old(self).transaction_chit@
            },
            *final(self) == (ConsensusState { transaction_chit: final(self).transaction_chit, ..*old(self) }),
    {
        if !self.lookup_known_transaction(tx_id) {
            return Err(Error::NotFound);
        }
        if !self.lookup_transaction_chit(tx_id) {
            return Err(Error::NotFound);
        }
        self.transaction_chit.remove(tx_id.as_slice());
        Ok(())
    }

    /// `lookup_transaction_confidence` looks up a `Transaction` id in the transaction
    /// confidences of the `ConsensusState`.
    pub fn lookup_transaction_confidence(&self, tx_id: &Digest) -> (r: bool)
        ensures
            r == self.transaction_confidence@.contains_key(tx_id@),
    {
        self.transaction_confidence.contains(tx_id.as_slice())
    }

    /// `get_transaction_confidence` gets the confidence of a `Transaction`.
    pub fn get_transaction_confidence(&self, tx_id: &Digest) -> (r: Option<u64>)
        ensures
            match r {
                Some(c) => self.transaction_confidence@.contains_key(tx_id@) && c == self.transaction_confidence@[tx_id@],
                None => !self.transaction_confidence@.contains_key(tx_id@),
            },
    {
        self.transaction_confidence.get(tx_id.as_slice())
    }

    /// `add_transaction_confidence` adds a known `Transaction` confidence in
    /// the `ConsensusState`.
    pub fn add_transaction_confidence(&mut self, tx_id: Digest, confidence: u64) -> (r: Result<()>)
        ensures
            r is Ok <==> old(self).known_transactions@.contains(tx_id@),
            r matches Err(e) ==> e is NotFound,
            final(self).transaction_confidence@ == if r is Ok {
                old(self).transaction_confidence@.insert(tx_id@, confidence)
            } else {
                old(self).transaction_confidence@
            },
            *final(self) == (ConsensusState { transaction_confidence: final(self).transaction_confidence, ..*old(self) }),
    {
        if !self.lookup_known_transaction(&tx_id) {
            return Err(Error::NotFound);
        }
        self.transaction_confidence.insert(tx_id.as_slice(), confidence);
        Ok(())
    }

    /// `remove_transaction_confidence` removes a known `Transaction` confidence in
    /// the `ConsensusState`.
    pub fn remove_transaction_confidence(&mut self, tx_id: &Digest) -> (r: Result<()>)
        ensures
            r is Ok <==> old(self).known_transactions@.contains(tx_id@) && old(self).transaction_confidence@.contains_key(tx_id@),
            r matches Err(e) ==> e is NotFound,
            final(self).transaction_confidence@ == if r is Ok {
                old(self).transaction_confidence@.remove(tx_id@)
            } else {
                old(self).transaction_confidence@
            },
            *final(self) == (ConsensusState { transaction_confidence: final(self).transaction_confidence, ..*old(self) }),
    {
        if !self.lookup_known_transaction(tx_id) {
            return Err(Error::NotFound);
        }
        if !self.lookup_transaction_confidence(tx_id) {
            return Err(Error::NotFound);
        }
        self.transaction_confidence.remove(tx_id.as_slice());
        Ok(())
    }

    /// `lookup_known_node` looks up a `Node` id in the known nodes set of the `ConsensusState`.
    pub fn lookup_known_node(&self, node_id: &Digest) -> (r: bool)
        ensures
            r == self.known_nodes@.contains(node_id@),
    {
        self.known_nodes.contains(node_id.as_slice())
    }

    /// `add_known_node` adds a new `Node` id in the known nodes set of the `ConsensusState`.
    pub fn add_known_node(&mut self, node_id: Digest)
        ensures
            final(self).known_nodes@ == old(self).known_nodes@.insert(node_id@),
            *final(self) == (ConsensusState { known_nodes: final(self).known_nodes, ..*old(self) }),
    {
        if !self.lookup_known_node(&node_id) {
            self.known_nodes.insert(node_id.as_slice());
        } else {
            assert(old(self).known_nodes@.insert(node_id@) =~= old(self).known_nodes@);
        }
    }

    /// `remove_known_node` removes a `Node` from the known node set of the `ConsensusState`.
    pub fn remove_known_node(&mut self, node_id: &Digest) -> (r: Result<()>)
        ensures
            r is Ok <==> old(self).known_nodes@.contains(node_id@),
            r matches Err(e) ==> e is NotFound,
            final(self).known_nodes@ == old(self).known_nodes@.remove(node_id@),
            *final(self) == (ConsensusState { known_nodes: final(self).known_nodes, ..*old(self) }),
    {
        if !self.lookup_known_node(node_id) {
            assert(old(self).known_nodes@.remove(node_id@) =~= old(self).known_nodes@);
            return Err(Error::NotFound);
        }
        self.known_nodes.remove(node_id.as_slice());
        Ok(())
    }

    /// Whether every member of `set` is a known transaction.
    fn all_known(&self, set: &ByteSet) -> (r: bool)
        ensures
            r <==> forall|k: Seq<u8>| #[trigger] set@.contains(k) ==> self.known_transactions@.contains(k),
    {
        let n = set.len();
        let mut i: usize = 0;
        while i < n
            invariant
                n == set.elems().len(),
                i <= n,
                forall|j: int| 0 <= j < i ==> self.known_transactions@.contains(#[trigger] set.elems()[j]),
            decreases n - i,
        {
            if !self.known_transactions.contains(set.at(i)) {
                assert(set@.contains(set.elems()[i as int]));
                return false;
            }
            i += 1;
        }
        assert forall|k: Seq<u8>| #[trigger] set@.contains(k) implies self.known_transactions@.contains(k) by {
            let j = choose|j: int| 0 <= j < set.elems().len() && #[trigger] set.elems()[j] == k;
        }
        true
    }

    /// Whether every key of `map` is a known transaction.
    fn all_keys_known(&self, map: &ByteMap<u64>) -> (r: bool)
        ensures
            r <==> forall|k: Seq<u8>| #[trigger] map@.contains_key(k) ==> self.known_transactions@.contains(k),
    {
        let n = map.len();
        let mut i: usize = 0;
        while i < n
            invariant
                n == map.items().len(),
                i <= n,
                forall|j: int| 0 <= j < i ==> self.known_transactions@.contains(#[trigger] map.items()[j].0),
            decreases n - i,
        {
            if !self.known_transactions.contains(map.key_at(i)) {
                assert(map@.contains_key(map.items()[i as int].0));
                return false;
            }
            i += 1;
        }
        assert forall|k: Seq<u8>| #[trigger] map@.contains_key(k) implies self.known_transactions@.contains(k) by {
            let j = choose|j: int| 0 <= j < map.items().len() && (#[trigger] map.items()[j]).0 == k;
        }
        true
    }

    /// Whether every conflict set that a transaction belongs to is registered.
    fn all_conflict_sets_known(&self) -> (r: bool)
        ensures
            r <==> forall|k: Seq<u8>| #[trigger] self.transaction_conflict_set@.contains_key(k) ==> self.conflict_sets@.contains(
                self.transaction_conflict_set@[k],
            ),
    {
        let map = &self.transaction_conflict_set;
        let n = map.len();
        assert forall|j: int| 0 <= j < map.items().len() implies #[trigger] map@.contains_key(map.items()[j].0)
            && map@[map.items()[j].0] == map.items()[j].1 by {
            assert(map@.contains_key(map.items()[j].0));
        }
        let mut i: usize = 0;
        while i < n
            invariant
                map == &self.transaction_conflict_set,
                n == map.items().len(),
                i <= n,
                forall|j: int| 0 <= j < i ==> self.conflict_sets@.contains(#[trigger] map.items()[j].1),
                forall|j: int| 0 <= j < map.items().len() ==> #[trigger] map@.contains_key(map.items()[j].0)
                    && map@[map.items()[j].0] == map.items()[j].1,
            decreases n - i,
        {
            if !self.conflict_sets.contains(&map.value_at(i)) {
                assert(map@.contains_key(map.items()[i as int].0));
                return false;
            }
            i += 1;
        }
        assert forall|k: Seq<u8>| #[trigger] map@.contains_key(k) implies self.conflict_sets@.contains(map@[k]) by {
            let j = choose|j: int| 0 <= j < map.items().len() && (#[trigger] map.items()[j]).0 == k;
            assert(map@[map.items()[j].0] == map.items()[j].1);
        }
        true
    }

    /// `validate` validates the `ConsensusState`.
    pub fn validate(&self) -> (r: Result<()>)
        ensures
            r is Ok <==> consensus_state_valid(*self),
            r matches Err(e) ==> e is NotFound,
    {
        if !self.all_known(&self.queried_transactions) {
            return Err(Error::NotFound);
        }
        if !self.all_keys_known(&self.transaction_conflict_set) {
            return Err(Error::NotFound);
        }
        if !self.all_conflict_sets_known() {
            return Err(Error::NotFound);
        }
        if !self.all_keys_known(&self.transaction_chit) {
            return Err(Error::NotFound);
        }
        if !self.all_keys_known(&self.transaction_confidence) {
            return Err(Error::NotFound);
        }
        Ok(())
    }

    /// `clear` clears the `ConsensusState`.
    pub fn clear(&mut self)
        ensures
            final(self).id == old(self).id,
            final(self).stage == old(self).stage,
            final(self).known_transactions@ == Set::<Seq<u8>>::empty(),
            final(self).queried_transactions@ == Set::<Seq<u8>>::empty(),
            final(self).conflict_sets@ == Set::<u64>::empty(),
            final(self).transaction_conflict_set@ == Map::<Seq<u8>, u64>::empty(),
            final(self).transaction_chit@ == Map::<Seq<u8>, u64>::empty(),
            final(self).transaction_confidence@ == Map::<Seq<u8>, u64>::empty(),
            final(self).known_nodes@ == Set::<Seq<u8>>::empty(),
    {
        self.known_transactions.clear();
        self.queried_transactions.clear();
        self.conflict_sets.clear();
        self.transaction_conflict_set.clear();
        self.transaction_chit.clear();
        self.transaction_confidence.clear();
        self.known_nodes.clear();
    }
}

/// A new or cleared consensus state, with no transaction, no conflict set
/// and no node, is valid.
pub proof fn lemma_empty_state_valid(s: ConsensusState)
    requires
        s.known_transactions@ == Set::<Seq<u8>>::empty(),
        s.queried_transactions@ == Set::<Seq<u8>>::empty(),
        s.transaction_conflict_set@ == Map::<Seq<u8>, u64>::empty(),
        s.transaction_chit@ == Map::<Seq<u8>, u64>::empty(),
        s.transaction_confidence@ == Map::<Seq<u8>, u64>::empty(),
    ensures
        consensus_state_valid(s),
{
}

/// Registering a known transaction, a conflict set or a node keeps a
/// consensus state valid.
pub proof fn lemma_add_keeps_valid(old: ConsensusState, new: ConsensusState, tx_id: Seq<u8>, cs_id: u64)
    requires
        consensus_state_valid(old),
        new.known_transactions@ == old.known_transactions@.insert(tx_id) || new.known_transactions@
            == old.known_transactions@,
        new.conflict_sets@ == old.conflict_sets@.insert(cs_id) || new.conflict_sets@ == old.conflict_sets@,
        new.queried_transactions@ == old.queried_transactions@,
        new.transaction_conflict_set@ == old.transaction_conflict_set@,
        new.transaction_chit@ == old.transaction_chit@,
        new.transaction_confidence@ == old.transaction_confidence@,
    ensures
        consensus_state_valid(new),
{
}

/// Marking a known transaction as queried, or giving a known transaction a
/// chit, a confidence or a registered conflict set, keeps a consensus state
/// valid.
pub proof fn lemma_annotate_keeps_valid(old: ConsensusState, new: ConsensusState, tx_id: Seq<u8>, cs_id: u64, chit: u64, confidence: u64)
    requires
        consensus_state_valid(old),
        old.known_transactions@.contains(tx_id),
        new.known_transactions@ == old.known_transactions@,
        new.conflict_sets@ == old.conflict_sets@,
        new.queried_transactions@ == old.queried_transactions@.insert(tx_id) || new.queried_transactions@
            == old.queried_transactions@,
        new.transaction_conflict_set@ == old.transaction_conflict_set@.insert(tx_id, cs_id) && old.conflict_sets@.contains(cs_id)
            || new.transaction_conflict_set@ == old.transaction_conflict_set@,
        new.transaction_chit@ == old.transaction_chit@.insert(tx_id, chit) || new.transaction_chit@
            == old.transaction_chit@,
        new.transaction_confidence@ == old.transaction_confidence@.insert(tx_id, confidence) || new.transaction_confidence@
            == old.transaction_confidence@,
    ensures
        consensus_state_valid(new),
{
}

/// Forgetting a transaction's query mark, chit, confidence or conflict set
/// keeps a consensus state valid.
pub proof fn lemma_unannotate_keeps_valid(old: ConsensusState, new: ConsensusState, tx_id: Seq<u8>)
    requires
        consensus_state_valid(old),
        new.known_transactions@ == old.known_transactions@,
        new.conflict_sets@ == old.conflict_sets@,
        new.queried_transactions@ == old.queried_transactions@.remove(tx_id) || new.queried_transactions@
            == old.queried_transactions@,
        new.transaction_conflict_set@ == old.transaction_conflict_set@.remove(tx_id) || new.transaction_conflict_set@
            == old.transaction_conflict_set@,
        new.transaction_chit@ == old.transaction_chit@.remove(tx_id) || new.transaction_chit@ == old.transaction_chit@,
        new.transaction_confidence@ == old.transaction_confidence@.remove(tx_id) || new.transaction_confidence@
            == old.transaction_confidence@,
    ensures
        consensus_state_valid(new),
{
}

/// Forgetting a known transaction keeps a consensus state valid when the
/// transaction is not queried and has no chit, confidence or conflict set.
pub proof fn lemma_remove_known_keeps_valid(old: ConsensusState, new: ConsensusState, tx_id: Seq<u8>)
    requires
        consensus_state_valid(old),
        !old.queried_transactions@.contains(tx_id),
        !old.transaction_conflict_set@.contains_key(tx_id),
        !old.transaction_chit@.contains_key(tx_id),
        !old.transaction_confidence@.contains_key(tx_id),
        new.known_transactions@ == old.known_transactions@.remove(tx_id),
        new.conflict_sets@ == old.conflict_sets@,
        new.queried_transactions@ == old.queried_transactions@,
        new.transaction_conflict_set@ == old.transaction_conflict_set@,
        new.transaction_chit@ == old.transaction_chit@,
        new.transaction_confidence@ == old.transaction_confidence@,
    ensures
        consensus_state_valid(new),
{
}

/// Forgetting a conflict set keeps a consensus state valid when no
/// transaction belongs to it.
pub proof fn lemma_remove_conflict_set_keeps_valid(old: ConsensusState, new: ConsensusState, cs_id: u64)
    requires
        consensus_state_valid(old),
        forall|k: Seq<u8>| #[trigger] old.transaction_conflict_set@.contains_key(k) ==> old.transaction_conflict_set@[k]
            != cs_id,
        new.known_transactions@ == old.known_transactions@,
        new.conflict_sets@ == old.conflict_sets@.remove(cs_id),
        new.queried_transactions@ == old.queried_transactions@,
        new.transaction_conflict_set@ == old.transaction_conflict_set@,
        new.transaction_chit@ == old.transaction_chit@,
        new.transaction_confidence@ == old.transaction_confidence@,
    ensures
        consensus_state_valid(new),
{
}

} // verus!
