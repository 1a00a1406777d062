//! The inputs of a transaction: the accounts it spends from, with their
//! signatures.

use crate::bytes::bytes_equal;
use crate::collections::ByteMap;
use crate::models::account::{account_outcome, same_account, Account};
use crate::models::address::{Address, Signature};
use crate::models::error::{Error, Result};
use crate::models::timestamp::{plausible_now, Timestamp};
use vstd::prelude::*;

verus! {

broadcast use crate::models::timestamp::lemma_plausible_now_bounds;

/// `Input` is an input in an Alsacoin `Transaction`: an account, the
/// signatures of its signers by public key, the amount it spends and its
/// distance from the eve transaction.
#[derive(PartialEq, Eq, PartialOrd, Ord, Debug, Default)]
pub struct Input {
    pub account: Account,
    pub signatures: ByteMap<Signature>,
    pub amount: u64,
    pub distance: u64,
}

/// Two inputs hold the same data.
pub open spec fn same_input(a: Input, b: Input) -> bool {
    &&& same_account(a.account, b.account)
    &&& a.signatures.items() == b.signatures.items()
    &&& a.amount == b.amount
    &&& a.distance == b.distance
}

/// The public keys that signed an input, in order.
pub open spec fn signing_keys(i: Input) -> Seq<Seq<u8>> {
    i.signatures.items().map_values(|e: (Seq<u8>, Signature)| e.0)
}

/// Every public key that signed an input is a signer of its account.
pub open spec fn signed_by_signers(i: Input) -> bool {
    forall|k: Seq<u8>| #[trigger] i.signatures@.contains_key(k) ==> i.account.signers.signers@.contains_key(k)
}

/// The sum of the weights of the given signers (a key that is no signer
/// weighs nothing).
pub open spec fn keys_weight(keys: Seq<Seq<u8>>, weights: Map<Seq<u8>, u64>) -> nat
    decreases keys.len(),
{
    if keys.len() == 0 {
        0
    } else {
        keys_weight(keys.drop_last(), weights) + if weights.contains_key(keys.last()) {
            weights[keys.last()] as nat
        } else {
            0nat
        }
    }
}

/// The weight of the signatures of an input: the sum of the weights of
/// its signers that signed.
pub open spec fn signatures_weight_of(i: Input) -> nat {
    keys_weight(signing_keys(i), i.account.signers.signers@)
}

/// An input is signed when someone signed it and all who signed are its
/// signers.
pub open spec fn input_signed(i: Input) -> bool {
    i.signatures@.len() != 0 && signed_by_signers(i)
}

/// An input is fully signed when it is signed and its signatures reach the
/// threshold of its signers.
pub open spec fn input_fully_signed(i: Input) -> bool {
    input_signed(i) && signatures_weight_of(i) >= i.account.signers.threshold
}

/// The checks of an input beyond its account: it spends at most the value
/// of the account, its distance is not zero, and only signers signed it.
pub open spec fn input_fields_valid(i: Input) -> bool {
    &&& i.amount <= i.account.value
    &&& i.distance != 0
    &&& signed_by_signers(i)
}

/// What `validate` returns at the time `now`: the outcome of the account's
/// validation, then `InvalidAmount`, `InvalidDistance` and `InvalidPublicKey`.
pub open spec fn input_outcome(i: Input, now: Timestamp, r: Result<()>) -> bool {
    match r {
        Ok(()) => account_outcome(i.account, now, Ok(())) && input_fields_valid(i),
        Err(e) => if !account_outcome(i.account, now, Ok(())) {
            account_outcome(i.account, now, Err(e))
        } else if i.amount > i.account.value {
            e is InvalidAmount
        } else if i.distance == 0 {
            e is InvalidDistance
        } else {
            e is InvalidPublicKey && !signed_by_signers(i)
        },
    }
}

impl Input {
    /// `new` creates a new unsigned `Input`.
    pub fn new(account: &Account, distance: u64, amount: u64) -> (r: Result<Input>)
        ensures
            match r {
                Ok(i) => {
                    &&& exists|now: Timestamp| #[trigger] plausible_now(now) && account_outcome(*account, now, Ok(()))
                    &&& same_account(i.account, *account)
                    &&& i.signatures@ == Map::<Seq<u8>, Signature>::empty()
                    &&& i.amount == amount
                    &&& i.distance == distance
                    &&& amount <= account.value
                    &&& distance != 0
                },
                Err(e) => (exists|now: Timestamp| #[trigger] plausible_now(now) && account_outcome(*account, now, Err(e)))
                    || (e is InvalidAmount && account.value < amount)
                    || (e is InvalidDistance && distance == 0),
            },
    {
        let now = Timestamp::now();
        Input::new_at(account, distance, amount, now)
    }

    /// `new_at` creates, as `new` does, a new unsigned `Input`, the account
    /// checked at the time `now`.
    pub fn new_at(account: &Account, distance: u64, amount: u64, now: Timestamp) -> (r: Result<Input>)
        requires
            plausible_now(now),
        ensures
            match r {
                Ok(i) => {
                    &&& account_outcome(*account, now, Ok(()))
                    &&& same_account(i.account, *account)
                    &&& i.signatures@ == Map::<Seq<u8>, Signature>::empty()
                    &&& i.amount == amount
                    &&& i.distance == distance
                    &&& amount <= account.value
                    &&& distance != 0
                },
                Err(e) => if !account_outcome(*account, now, Ok(())) {
                    account_outcome(*account, now, Err(e))
                } else if account.value < amount {
                    e is InvalidAmount
                } else {
                    e is InvalidDistance && distance == 0
                },
            },
    {
        account.validate_at(now)?;
        if account.value < amount {
            return Err(Error::InvalidAmount);
        }
        if distance == 0 {
            return Err(Error::InvalidDistance);
        }
        Ok(Input { account: account.clone(), signatures: ByteMap::new(), amount, distance })
    }

    /// `address` returns the `Input` address.
    pub fn address(&self) -> (r: Address)
        ensures
            r@ == self.account.address@,
    {
        self.account.address()
    }

    /// Whether every public key that signed is a signer of the account.
    fn signed_by_signers(&self) -> (r: bool)
        ensures
            r == signed_by_signers(*self),
    {
        let n = self.signatures.len();
        let mut i: usize = 0;
        while i < n
            invariant
                n == self.signatures.items().len(),
                i <= n,
                forall|j: int| 0 <= j < i ==> self.account.signers.signers@.contains_key(#[trigger] self.signatures.items()[j].0),
            decreases n - i,
        {
            if !self.account.signers.signers.contains(self.signatures.key_at(i)) {
                assert(self.signatures@.contains_key(self.signatures.items()[i as int].0));
                return false;
            }
            i += 1;
        }
        assert forall|k: Seq<u8>| #[trigger] self.signatures@.contains_key(k) implies self.account.signers.signers@.contains_key(k) by {
            let j = choose|j: int| 0 <= j < self.signatures.items().len() && (#[trigger] self.signatures.items()[j]).0 == k;
        }
        true
    }

    /// `is_signed` returns if the `Input` has been signed by someone, and
    /// only by its signers.
    pub fn is_signed(&self) -> (r: bool)
        ensures
            r == input_signed(*self),
    {
        self.signatures.len() != 0 && self.signed_by_signers()
    }

    /// The weight of the signatures, where it fits in a `u64`.
    fn weight_of_signatures(&self) -> (r: Option<u64>)
        ensures
            match r {
                Some(w) => w == signatures_weight_of(*self),
                None => signatures_weight_of(*self) > u64::MAX,
            },
    {
        let n = self.signatures.len();
        let ghost keys = signing_keys(*self);
        let ghost weights = self.account.signers.signers@;
        let mut total: u64 = 0;
        let mut i: usize = 0;
        assert(keys.take(0) =~= Seq::<Seq<u8>>::empty());
        while i < n
            invariant
                keys == signing_keys(*self),
                weights == self.account.signers.signers@,
                n == keys.len(),
                n == self.signatures.items().len(),
                i <= n,
                total == keys_weight(keys.take(i as int), weights),
            decreases n - i,
        {
            assert(keys.take(i + 1).drop_last() =~= keys.take(i as int));
            let w: u64 = match self.account.signers.signers.get(self.signatures.key_at(i)) {
                Some(w) => w,
                None => 0,
            };
            match total.checked_add(w) {
                Some(t) => total = t,
                None => {
                    proof {
                        lemma_keys_weight_prefix(keys, weights, i + 1);
                    }
                    return None;
                },
            }
            i += 1;
        }
        assert(keys.take(n as int) =~= keys);
        Some(total)
    }

    /// `is_fully_signed` returns if the `Input` has been fully signed: it
    /// is signed and its signatures reach the threshold of its signers.
    pub fn is_fully_signed(&self) -> (r: Result<bool>)
        ensures
            r == Ok::<bool, Error>(input_fully_signed(*self)),
    {
        if !self.is_signed() {
            return Ok(false);
        }
        let res = match self.weight_of_signatures() {
            Some(w) => w >= self.account.signers.threshold,
            None => true,
        };
        Ok(res)
    }

    /// `validate_at` validates the `Input` at the time `now`.
    pub fn validate_at(&self, now: Timestamp) -> (r: Result<()>)
        requires
            plausible_now(now),
        ensures
            input_outcome(*self, now, r),
    {
        self.account.validate_at(now)?;
        if self.account.value < self.amount {
            return Err(Error::InvalidAmount);
        }
        if self.distance == 0 {
            return Err(Error::InvalidDistance);
        }
        if !self.signed_by_signers() {
            return Err(Error::InvalidPublicKey);
        }
        Ok(())
    }

    /// `validate` validates the `Input` at the current time.
    pub fn validate(&self) -> (r: Result<()>)
        ensures
            exists|now: Timestamp| #[trigger] plausible_now(now) && input_outcome(*self, now, r),
    {
        let now = Timestamp::now();
        self.validate_at(now)
    }

    /// `signatures_weight` returns the sum of the weights of the actual
    /// signers, once the `Input` is valid.
    pub fn signatures_weight(&self) -> (r: Result<u64>)
        requires
            signatures_weight_of(*self) <= u64::MAX,
        ensures
            match r {
                Ok(w) => w == signatures_weight_of(*self) && exists|now: Timestamp| #[trigger] plausible_now(now)
                    && input_outcome(*self, now, Ok(())),
                Err(e) => exists|now: Timestamp| #[trigger] plausible_now(now) && input_outcome(*self, now, Err(e)),
            },
    {
        self.validate()?;
        match self.weight_of_signatures() {
            Some(w) => Ok(w),
            None => Ok(0),
        }
    }

    /// Whether the two inputs hold the same data.
    pub fn same_as(&self, other: &Input) -> (r: bool)
        ensures
            r == same_input(*self, *other),
    {
        if !self.account.same_as(&other.account) || self.amount != other.amount || self.distance != other.distance {
            return false;
        }
        let n = self.signatures.len();
        if n != other.signatures.len() {
            return false;
        }
        let mut i: usize = 0;
        while i < n
            invariant
                n == self.signatures.items().len(),
                n == other.signatures.items().len(),
                i <= n,
                forall|j: int| 0 <= j < i ==> #[trigger] self.signatures.items()[j] == other.signatures.items()[j],
            decreases n - i,
        {
            let a = self.signatures.value_ref(i);
            let b = other.signatures.value_ref(i);
            if !bytes_equal(self.signatures.key_at(i), other.signatures.key_at(i)) || !bytes_equal(
                a.as_slice(),
                b.as_slice(),
            ) {
                return false;
            }
            assert(*a =~= *b);
            i += 1;
        }
        assert(self.signatures.items() =~= other.signatures.items());
        true
    }
}

/// The weights of a prefix of the keys are at most the weights of all.
proof fn lemma_keys_weight_prefix(keys: Seq<Seq<u8>>, weights: Map<Seq<u8>, u64>, i: int)
    requires
        0 <= i <= keys.len(),
    ensures
        keys_weight(keys.take(i), weights) <= keys_weight(keys, weights),
    decreases keys.len() - i,
{
    if i == keys.len() {
        assert(keys.take(i) =~= keys);
    } else {
        assert(keys.take(i + 1).drop_last() =~= keys.take(i));
        lemma_keys_weight_prefix(keys, weights, i + 1);
    }
}

impl Clone for Input {
    /// A copy of the input.
    fn clone(&self) -> (r: Input)
        ensures
            same_input(r, *self),
    {
        Input {
            account: self.account.clone(),
            signatures: self.signatures.clone(),
            amount: self.amount,
            distance: self.distance,
        }
    }
}


/// The `j`th signature, in key order, was found good by the caller.
pub open spec fn verified_at(verified: Seq<bool>, j: int) -> bool {
    0 <= j < verified.len() && verified[j]
}

/// Every signature of the input was found good.
pub open spec fn all_verified(i: Input, verified: Seq<bool>) -> bool {
    forall|j: int| 0 <= j < i.signatures@.len() ==> #[trigger] verified_at(verified, j)
}

/// What `verify_signatures` returns: `NotSigned` for an input that is not
/// signed, `InvalidSignature` where a signature was not found good.
pub open spec fn signatures_outcome(i: Input, verified: Seq<bool>, r: Result<()>) -> bool {
    if !input_signed(i) {
        r matches Err(e) && e is NotSigned
    } else if !all_verified(i, verified) {
        r matches Err(e) && e is InvalidSignature
    } else {
        r is Ok
    }
}

impl Input {
    /// `verify_signatures` checks the signatures of the `Input`, without
    /// expecting it to be fully signed. The signatures themselves are
    /// verified by the caller, with the signature function, against the
    /// signature message: `verified` holds the results, in key order.
    pub fn verify_signatures(&self, verified: &[bool]) -> (r: Result<()>)
        ensures
            signatures_outcome(*self, verified@, r),
    {
        if !self.is_signed() {
            return Err(Error::NotSigned);
        }
        let n = self.signatures.len();
        let mut j: usize = 0;
        while j < n
            invariant
                n == self.signatures@.len(),
                n == self.signatures.items().len(),
                j <= n,
                input_signed(*self),
                forall|m: int| 0 <= m < j ==> #[trigger] verified_at(verified@, m),
                forall|m: int| #![trigger self.signatures.items()[m]] 0 <= m < self.signatures.items().len() ==> self.signatures@.contains_key(self.signatures.items()[m].0),
            decreases n - j,
        {
            if !self.account.signers.signers.contains(self.signatures.key_at(j)) {
                assert(self.signatures@.contains_key(self.signatures.items()[j as int].0));
                return Err(Error::InvalidPublicKey);
            }
            if j >= verified.len() || !verified[j] {
                assert(!verified_at(verified@, j as int));
                return Err(Error::InvalidSignature);
            }
            j += 1;
        }
        Ok(())
    }

    /// `verify_fully_signed` checks the signatures of the `Input`,
    /// expecting it to be fully signed; `verified` holds the results of the
    /// verification of the signatures by the caller, in key order.
    pub fn verify_fully_signed(&self, verified: &[bool]) -> (r: Result<()>)
        ensures
            if !input_fully_signed(*self) {
                r matches Err(e) && e is NotFullySigned
            } else {
                signatures_outcome(*self, verified@, r)
            },
    {
        if !self.is_fully_signed()? {
            return Err(Error::NotFullySigned);
        }
        self.verify_signatures(verified)
    }
}

} // verus!
