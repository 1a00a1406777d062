//! The conflict set: a set of mutually conflicting transactions.

use crate::bytes::{bytes_equal, copy_bytes};
use crate::collections::ByteSet;
use crate::models::address::{digest_opt, Address, Digest};
use crate::models::error::{Error, Result};
use crate::models::stage::Stage;
use vstd::prelude::*;

verus! {

/// `ConflictSet` is the set used to represent a set of mutually conflicting
/// transactions: their ids, the last one added and the preferred one.
#[derive(Clone, PartialEq, Eq, PartialOrd, Ord, Debug, Default)]
pub struct ConflictSet {
    pub address: Address,
    pub stage: Stage,
    pub transactions: ByteSet,
    pub last: Option<Digest>,
    pub preferred: Option<Digest>,
    pub count: u32,
}

/// A conflict set is valid when its last and preferred transactions, where
/// given, are in it, and they are both given or both absent.
pub open spec fn conflict_set_valid(cs: ConflictSet) -> bool {
    &&& (cs.last matches Some(l) ==> cs.transactions@.contains(l@))
    &&& (cs.preferred matches Some(p) ==> cs.transactions@.contains(p@))
    &&& (cs.last is Some <==> cs.preferred is Some)
}

/// Whether an optional digest is the given one.
fn is_digest(o: &Option<Digest>, d: &[u8]) -> (r: bool)
    ensures
        r == (digest_opt(*o) == Some(d@)),
{
    match o {
        Some(x) => bytes_equal(x.as_slice(), d),
        None => false,
    }
}

impl ConflictSet {
    /// `new` creates a new `ConflictSet`.
    pub fn new(address: Address, stage: Stage) -> (r: ConflictSet)
        ensures
            r.address == address,
            r.stage == stage,
            r.transactions@ == Set::<Seq<u8>>::empty(),
            r.last is None,
            r.preferred is None,
            r.count == 0,
    {
        ConflictSet { address, stage, transactions: ByteSet::new(), last: None, preferred: None, count: 0 }
    }

    /// `lookup_transaction` looks up a `Transaction` id in the transactions set of the `ConflictSet`.
    pub fn lookup_transaction(&self, tx_id: &Digest) -> (r: bool)
        ensures
            r == self.transactions@.contains(tx_id@),
    {
        self.transactions.contains(tx_id.as_slice())
    }

    /// `add_transaction` adds a new `Transaction` id in the transactions set
    /// of the `ConflictSet`: a new id becomes the last one, and the preferred
    /// one where there was none.
    pub fn add_transaction(&mut self, tx_id: Digest)
        ensures
            old(self).transactions@.contains(tx_id@) ==> *final(self) == *old(self),
            !old(self).transactions@.contains(tx_id@) ==> {
                &&& final(self).transactions@ == old(self).transactions@.insert(tx_id@)
                &&& final(self).last == Some(tx_id)
                &&& digest_opt(final(self).preferred) == if old(self).preferred is None {
                    Some(tx_id@)
                } else {
                    digest_opt(old(self).preferred)
                }
                &&& final(self).address == old(self).address
                &&& final(self).stage == old(self).stage
                &&& final(self).count == old(self).count
            },
    {
        if !self.lookup_transaction(&tx_id) {
            self.transactions.insert(tx_id.as_slice());
            if self.preferred.is_none() {
                self.preferred = Some(copy_bytes(tx_id.as_slice()));
            }
            self.last = Some(tx_id);
        }
    }

    /// `remove_transaction` removes a `Transaction` from the transaction set
    /// of the `ConflictSet`, and from its last and preferred ones.
    pub fn remove_transaction(&mut self, tx_id: &Digest) -> (r: Result<()>)
        ensures
            r is Ok <==> old(self).transactions@.contains(tx_id@),
            match r {
                Ok(()) => {
                    &&& final(self).transactions@ == old(self).transactions@.remove(tx_id@)
                    &&& final(self).last == if digest_opt(old(self).last) == Some(tx_id@) {
                        None
                    } else {
                        old(self).last
                    }
                    &&& final(self).preferred == if digest_opt(old(self).preferred) == Some(
                        tx_id@,
                    ) {
                        None
                    } else {
                        old(self).preferred
                    }
                    &&& final(self).address == old(self).address
                    &&& final(self).stage == old(self).stage
                    &&& final(self).count == old(self).count
                },
                Err(e) => e is NotFound && *final(self) == *old(self),
            },
    {
        if !self.lookup_transaction(tx_id) {
            return Err(Error::NotFound);
        }
        self.transactions.remove(tx_id.as_slice());
        if is_digest(&self.last, tx_id.as_slice()) {
            self.last = None;
        }
        if is_digest(&self.preferred, tx_id.as_slice()) {
            self.preferred = None;
        }
        Ok(())
    }

    /// `set_last` sets the last transaction in the `ConflictSet`.
    pub fn set_last(&mut self, tx_id: Digest) -> (r: Result<()>)
        ensures
            r is Ok <==> old(self).transactions@.contains(tx_id@),
            match r {
                Ok(()) => *final(self) == (ConflictSet { last: Some(tx_id), ..*old(self) }),
                Err(e) => e is NotFound && *final(self) == *old(self),
            },
    {
        if !self.lookup_transaction(&tx_id) {
            return Err(Error::NotFound);
        }
        self.last = Some(tx_id);
        Ok(())
    }

    /// `set_preferred` sets the preferred transaction in the `ConflictSet`.
    pub fn set_preferred(&mut self, tx_id: Digest) -> (r: Result<()>)
        ensures
            r is Ok <==> old(self).transactions@.contains(tx_id@),
            match r {
                Ok(()) => *final(self) == (ConflictSet { preferred: Some(tx_id), ..*old(self) }),
                Err(e) => e is NotFound && *final(self) == *old(self),
            },
    {
        if !self.lookup_transaction(&tx_id) {
            return Err(Error::NotFound);
        }
        self.preferred = Some(tx_id);
        Ok(())
    }

    /// `validate` validates the `ConflictSet`.
    pub fn validate(&self) -> (r: Result<()>)
        ensures
            r is Ok <==> conflict_set_valid(*self),
            r matches Err(e) ==> e is NotFound,
    {
        if let Some(last) = &self.last {
            if !self.lookup_transaction(last) {
                return Err(Error::NotFound);
            }
        }
        if let Some(preferred) = &self.preferred {
            if !self.lookup_transaction(preferred) {
                return Err(Error::NotFound);
            }
        }
        if self.last.is_some() != self.preferred.is_some() {
            return Err(Error::NotFound);
        }
        Ok(())
    }

    /// `clear` clears the `ConflictSet`.
    pub fn clear(&mut self)
        ensures
            final(self).transactions@ == Set::<Seq<u8>>::empty(),
            final(self).last is None,
            final(self).preferred is None,
            final(self).count == 0,
            final(self).address == old(self).address,
            final(self).stage == old(self).stage,
    {
        self.transactions.clear();
        self.last = None;
        self.preferred = None;
        self.count = 0;
    }
}

/// A new conflict set is valid.
pub proof fn lemma_new_conflict_set_valid(cs: ConflictSet)
    requires
        cs.transactions@ == Set::<Seq<u8>>::empty(),
        cs.last is None,
        cs.preferred is None,
    ensures
        conflict_set_valid(cs),
{
}

/// Adding a transaction keeps a conflict set valid.
pub proof fn lemma_add_transaction_keeps_valid(old: ConflictSet, new: ConflictSet, tx_id: Digest)
    requires
        conflict_set_valid(old),
        old.transactions@.contains(tx_id@) ==> new == old,
        !old.transactions@.contains(tx_id@) ==> {
            &&& new.transactions@ == old.transactions@.insert(tx_id@)
            &&& new.last == Some(tx_id)
            &&& digest_opt(new.preferred) == if old.preferred is None {
                Some(tx_id@)
            } else {
                digest_opt(old.preferred)
            }
        },
    ensures
        conflict_set_valid(new),
{
}

/// Removing a transaction keeps a conflict set valid, unless it was the
/// last one and not the preferred one, or the other way round.
pub proof fn lemma_remove_transaction_keeps_valid(old: ConflictSet, new: ConflictSet, tx_id: Digest)
    requires
        conflict_set_valid(old),
        (digest_opt(old.last) == Some(tx_id@)) == (digest_opt(old.preferred) == Some(tx_id@)),
        new.transactions@ == old.transactions@.remove(tx_id@),
        new.last == if digest_opt(old.last) == Some(tx_id@) {
            None
        } else {
            old.last
        },
        new.preferred == if digest_opt(old.preferred) == Some(tx_id@) {
            None
        } else {
            old.preferred
        },
    ensures
        conflict_set_valid(new),
{
}

} // verus!
