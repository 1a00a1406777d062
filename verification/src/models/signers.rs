//! The signers of an account: their public keys, weights and threshold.

use crate::bytes::{bytes_equal, copy_bytes};
use crate::collections::ByteMap;
use crate::models::address::{Address, PublicKey};
use crate::models::error::{Error, Result};
use vstd::prelude::*;

verus! {

/// `Signer` is a single signer of an `Account`.
#[derive(Clone, PartialEq, Eq, PartialOrd, Ord, Debug, Default)]
pub struct Signer {
    pub public_key: PublicKey,
    pub weight: u64,
}

/// `Signers` contains the signers of an `Account`, with their weight, and
/// the weight that signatures must reach.
#[derive(Clone, PartialEq, Eq, PartialOrd, Ord, Debug, Default)]
pub struct Signers {
    pub address: Address,
    pub signers: ByteMap<u64>,
    pub threshold: u64,
}

/// The sum of the weights of a sequence of signers.
pub open spec fn weights_sum(s: Seq<(Seq<u8>, u64)>) -> nat
    decreases s.len(),
{
    if s.len() == 0 {
        0
    } else {
        weights_sum(s.drop_last()) + s.last().1 as nat
    }
}

/// The greatest weight of a sequence of signers, 0 for none.
pub open spec fn weights_max(s: Seq<(Seq<u8>, u64)>) -> u64
    decreases s.len(),
{
    if s.len() == 0 {
        0
    } else {
        let m = weights_max(s.drop_last());
        if s.last().1 > m {
            s.last().1
        } else {
            m
        }
    }
}

/// A set of signers is valid when its threshold does not exceed its total
/// weight.
pub open spec fn signers_valid(s: Signers) -> bool {
    s.threshold <= weights_sum(s.signers.items())
}

/// Two sets of signers hold the same address, signers and threshold.
pub open spec fn same_signers(a: Signers, b: Signers) -> bool {
    &&& a.address@ == b.address@
    &&& a.signers.items() == b.signers.items()
    &&& a.threshold == b.threshold
}

/// The weights of a prefix grow by the next signer.
proof fn lemma_weights_take(s: Seq<(Seq<u8>, u64)>, i: int)
    requires
        0 <= i < s.len(),
    ensures
        weights_sum(s.take(i + 1)) == weights_sum(s.take(i)) + s[i].1,
        weights_max(s.take(i + 1)) == if s[i].1 > weights_max(s.take(i)) {
            s[i].1
        } else {
            weights_max(s.take(i))
        },
{
    assert(s.take(i + 1).drop_last() =~= s.take(i));
}

impl Signers {
    /// `new` creates a new `Signers`, with no signer.
    pub fn new() -> (r: Signers)
        ensures
            r.address@ == Seq::<u8>::empty(),
            r.signers@ == Map::<Seq<u8>, u64>::empty(),
            r.threshold == 0,
    {
        Signers { address: Vec::new(), signers: ByteMap::new(), threshold: 0 }
    }

    /// The total weight, computed without bound.
    fn total_weight_exact(&self) -> (r: Option<u64>)
        ensures
            match r {
                Some(w) => w == weights_sum(self.signers.items()),
                None => weights_sum(self.signers.items()) > u64::MAX,
            },
    {
        let n = self.signers.len();
        let ghost s = self.signers.items();
        let mut total: u64 = 0;
        let mut i: usize = 0;
        assert(s.take(0) =~= Seq::<(Seq<u8>, u64)>::empty());
        while i < n
            invariant
                s == self.signers.items(),
                n == s.len(),
                i <= n,
                total == weights_sum(s.take(i as int)),
            decreases n - i,
        {
            proof {
                lemma_weights_take(s, i as int);
                lemma_weights_prefix(s, i + 1);
            }
            let w = self.signers.value_at(i);
            match total.checked_add(w) {
                Some(t) => total = t,
                None => return None,
            }
            i += 1;
        }
        assert(s.take(n as int) =~= s);
        Some(total)
    }

    /// `max_weight` returns the maximum weight in `Signers`.
    pub fn max_weight(&self) -> (r: u64)
        ensures
            r == weights_max(self.signers.items()),
    {
        let n = self.signers.len();
        let ghost s = self.signers.items();
        let mut max_weight: u64 = 0;
        let mut i: usize = 0;
        assert(s.take(0) =~= Seq::<(Seq<u8>, u64)>::empty());
        while i < n
            invariant
                s == self.signers.items(),
                n == s.len(),
                i <= n,
                max_weight == weights_max(s.take(i as int)),
            decreases n - i,
        {
            proof {
                lemma_weights_take(s, i as int);
            }
            let w = self.signers.value_at(i);
            if w > max_weight {
                max_weight = w;
            }
            i += 1;
        }
        assert(s.take(n as int) =~= s);
        max_weight
    }

    /// `total_weight` returns the total weight in `Signers`.
    pub fn total_weight(&self) -> (r: u64)
        requires
            weights_sum(self.signers.items()) <= u64::MAX,
        ensures
            r == weights_sum(self.signers.items()),
    {
        match self.total_weight_exact() {
            Some(w) => w,
            None => 0,
        }
    }

    /// `lookup` looks up a signer in `Signers`.
    pub fn lookup(&self, public_key: &PublicKey) -> (r: bool)
        ensures
            r == self.signers@.contains_key(public_key@),
    {
        self.signers.contains(public_key.as_slice())
    }

    /// `get` gets a signer in `Signers`.
    pub fn get(&self, public_key: &PublicKey) -> (r: Result<Signer>)
        ensures
            match r {
                Ok(signer) => self.signers@.contains_key(public_key@) && signer.public_key@
                    == public_key@ && signer.weight == self.signers@[public_key@],
                Err(e) => e is NotFound && !self.signers@.contains_key(public_key@),
            },
    {
        match self.signers.get(public_key.as_slice()) {
            Some(weight) => Ok(Signer { public_key: copy_bytes(public_key.as_slice()), weight }),
            None => Err(Error::NotFound),
        }
    }

    /// `add` adds a signer in `Signers`.
    pub fn add(&mut self, signer: &Signer) -> (r: Result<()>)
        ensures
            r is Ok <==> !old(self).signers@.contains_key(signer.public_key@),
            match r {
                Ok(()) => final(self).signers@ == old(self).signers@.insert(signer.public_key@, signer.weight),
                Err(e) => e is AlreadyFound && final(self).signers@ == old(self).signers@,
            },
            final(self).address == old(self).address,
            final(self).threshold == old(self).threshold,
    {
        if self.lookup(&signer.public_key) {
            return Err(Error::AlreadyFound);
        }
        self.signers.insert(signer.public_key.as_slice(), signer.weight);
        Ok(())
    }

    /// `update` updates a signer in `Signers`.
    pub fn update(&mut self, signer: &Signer) -> (r: Result<()>)
        ensures
            r is Ok <==> old(self).signers@.contains_key(signer.public_key@),
            match r {
                Ok(()) => final(self).signers@ == old(self).signers@.insert(signer.public_key@, signer.weight),
                Err(e) => e is NotFound && final(self).signers@ == old(self).signers@,
            },
            final(self).address == old(self).address,
            final(self).threshold == old(self).threshold,
    {
        if !self.lookup(&signer.public_key) {
            return Err(Error::NotFound);
        }
        if self.get(&signer.public_key)?.weight == signer.weight {
            assert(old(self).signers@.insert(signer.public_key@, signer.weight) =~= old(self).signers@);
            return Ok(());
        }
        self.signers.insert(signer.public_key.as_slice(), signer.weight);
        Ok(())
    }

    /// `delete` deletes a signer in `Signers`.
    pub fn delete(&mut self, public_key: &PublicKey) -> (r: Result<()>)
        ensures
            r is Ok <==> old(self).signers@.contains_key(public_key@),
            match r {
                Ok(()) => final(self).signers@ == old(self).signers@.remove(public_key@),
                Err(e) => e is NotFound && final(self).signers@ == old(self).signers@,
            },
            final(self).address == old(self).address,
            final(self).threshold == old(self).threshold,
    {
        if !self.lookup(public_key) {
            return Err(Error::NotFound);
        }
        self.signers.remove(public_key.as_slice());
        Ok(())
    }

    /// `set_threshold` sets the weight that signatures must reach, which
    /// must not exceed the total weight.
    pub fn set_threshold(&mut self, threshold: u64) -> (r: Result<()>)
        ensures
            r is Ok <==> threshold <= weights_sum(old(self).signers.items()),
            match r {
                Ok(()) => *final(self) == (Signers { threshold, ..*old(self) }),
                Err(e) => e is InvalidThreshold && *final(self) == *old(self),
            },
    {
        match self.total_weight_exact() {
            Some(w) => if threshold > w {
                return Err(Error::InvalidThreshold);
            },
            None => {},
        }
        self.threshold = threshold;
        Ok(())
    }

    /// `validate` validates the `Signers`: the threshold must not exceed
    /// the total weight.
    pub fn validate(&self) -> (r: Result<()>)
        ensures
            r is Ok <==> signers_valid(*self),
            r matches Err(e) ==> e is InvalidThreshold,
    {
        match self.total_weight_exact() {
            Some(w) => if self.threshold > w {
                return Err(Error::InvalidThreshold);
            },
            None => {},
        }
        Ok(())
    }

    /// Whether the two sets of signers hold the same data.
    pub fn same_as(&self, other: &Signers) -> (r: bool)
        ensures
            r == same_signers(*self, *other),
    {
        if !bytes_equal(self.address.as_slice(), other.address.as_slice()) || self.threshold != other.threshold {
            return false;
        }
        let n = self.signers.len();
        if n != other.signers.len() {
            return false;
        }
        let mut i: usize = 0;
        while i < n
            invariant
                n == self.signers.items().len(),
                n == other.signers.items().len(),
                i <= n,
                forall|j: int| 0 <= j < i ==> #[trigger] self.signers.items()[j] == other.signers.items()[j],
            decreases n - i,
        {
            if !bytes_equal(self.signers.key_at(i), other.signers.key_at(i)) || *self.signers.value_ref(i)
                != *other.signers.value_ref(i) {
                return false;
            }
            i += 1;
        }
        assert(self.signers.items() =~= other.signers.items());
        true
    }
}

/// The weights of a prefix are at most the weights of the whole.
proof fn lemma_weights_prefix(s: Seq<(Seq<u8>, u64)>, i: int)
    requires
        0 <= i <= s.len(),
    ensures
        weights_sum(s.take(i)) <= weights_sum(s),
    decreases s.len() - i,
{
    if i == s.len() {
        assert(s.take(i) =~= s);
    } else {
        lemma_weights_take(s, i);
        lemma_weights_prefix(s, i + 1);
    }
}

} // verus!
