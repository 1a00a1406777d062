//! The account model: the coins of a user, identified by an address.

use crate::bytes::{bytes_equal, copy_bytes};
use crate::models::address::{digest_opt, Address, Digest};
use crate::models::error::{Error, Result};
use crate::models::signers::{same_signers, signers_valid, Signers};
use crate::models::stage::Stage;
use crate::models::timestamp::{plausible_now, timestamp_ok_at, Timestamp};
use vstd::prelude::*;

verus! {

broadcast use crate::models::timestamp::lemma_plausible_now_bounds;

/// `Account` is the type used to represent an Alsacoin account of a user,
/// account which is identified by an `Address`.
#[derive(PartialEq, Eq, PartialOrd, Ord, Debug, Default)]
pub struct Account {
    pub address: Address,
    pub stage: Stage,
    pub timestamp: Timestamp,
    pub locktime: Option<Timestamp>,
    pub signers: Signers,
    pub value: u64,
    pub counter: u64,
    pub transaction_id: Option<Digest>,
}

/// An account holds together: its signers are valid, its address is theirs,
/// and an account that holds a value or was updated names the transaction
/// that did it.
pub open spec fn account_fields_valid(a: Account) -> bool {
    &&& signers_valid(a.signers)
    &&& a.address@ == a.signers.address@
    &&& !((a.value != 0 || a.counter != 0) && a.transaction_id is None)
}

/// Two accounts hold the same data.
pub open spec fn same_account(a: Account, b: Account) -> bool {
    &&& a.address@ == b.address@
    &&& a.stage == b.stage
    &&& a.timestamp == b.timestamp
    &&& a.locktime == b.locktime
    &&& same_signers(a.signers, b.signers)
    &&& a.value == b.value
    &&& a.counter == b.counter
    &&& digest_opt(a.transaction_id) == digest_opt(b.transaction_id)
}

/// What `validate` returns at the time `now`: `InvalidTimestamp`,
/// `InvalidThreshold`, `InvalidAddress` and `InvalidAccount`, in this order.
pub open spec fn account_outcome(a: Account, now: Timestamp, r: Result<()>) -> bool {
    match r {
        Ok(()) => timestamp_ok_at(a.timestamp, now) && account_fields_valid(a),
        Err(e) => if !timestamp_ok_at(a.timestamp, now) {
            e is InvalidTimestamp
        } else if !signers_valid(a.signers) {
            e is InvalidThreshold
        } else if a.address@ != a.signers.address@ {
            e is InvalidAddress
        } else {
            e is InvalidAccount && !account_fields_valid(a)
        },
    }
}

impl Account {
    /// `new` creates a new `Account`, from valid signers, created now.
    pub fn new(stage: Stage, signers: &Signers, value: u64, tx_id: Option<Digest>) -> (r: Result<Account>)
        ensures
            match r {
                Ok(a) => {
                    &&& signers_valid(*signers)
                    &&& a.address@ == signers.address@
                    &&& a.stage == stage
                    &&& plausible_now(a.timestamp)
                    &&& a.locktime is None
                    &&& same_signers(a.signers, *signers)
                    &&& a.value == value
                    &&& a.counter == 0
                    &&& a.transaction_id == tx_id
                },
                Err(e) => e is InvalidThreshold && !signers_valid(*signers),
            },
    {
        signers.validate()?;
        Ok(Account {
            address: copy_bytes(signers.address.as_slice()),
            stage,
            timestamp: Timestamp::now(),
            locktime: None,
            signers: Signers {
                address: copy_bytes(signers.address.as_slice()),
                signers: signers.signers.clone(),
                threshold: signers.threshold,
            },
            value,
            counter: 0,
            transaction_id: tx_id,
        })
    }

    /// `new_eve` creates a new eve `Account`: no value, no transaction.
    pub fn new_eve(stage: Stage, signers: &Signers) -> (r: Result<Account>)
        ensures
            match r {
                Ok(a) => {
                    &&& signers_valid(*signers)
                    &&& a.address@ == signers.address@
                    &&& a.stage == stage
                    &&& plausible_now(a.timestamp)
                    &&& same_signers(a.signers, *signers)
                    &&& a.value == 0
                    &&& a.counter == 0
                    &&& a.transaction_id is None
                },
                Err(e) => e is InvalidThreshold && !signers_valid(*signers),
            },
    {
        signers.validate()?;
        Account::new(stage, signers, 0, None)
    }

    /// `address` returns the `Account` address.
    pub fn address(&self) -> (r: Address)
        ensures
            r@ == self.address@,
    {
        copy_bytes(self.address.as_slice())
    }

    /// `is_eve` returns if the `Account` is an eve `Account`.
    pub fn is_eve(&self) -> (r: Result<bool>)
        ensures
            match r {
                Ok(b) => signers_valid(self.signers) && b == (self.value == 0 && self.transaction_id is None
                    && self.counter == 0),
                Err(e) => e is InvalidThreshold && !signers_valid(self.signers),
            },
    {
        self.signers.validate()?;
        Ok(self.value == 0 && self.transaction_id.is_none() && self.counter == 0)
    }

    /// `update` updates the `Account` with the value that a transaction
    /// gave it.
    pub fn update(&mut self, value: u64, tx_id: Digest)
        requires
            old(self).counter < u64::MAX,
        ensures
            *final(self) == (Account { value, transaction_id: Some(tx_id), counter: (old(self).counter + 1) as u64, ..*old(self) }),
    {
        self.value = value;
        self.transaction_id = Some(tx_id);
        self.counter += 1;
    }

    /// `validate_at` validates the `Account` at the time `now`.
    pub fn validate_at(&self, now: Timestamp) -> (r: Result<()>)
        requires
            plausible_now(now),
        ensures
            account_outcome(*self, now, r),
    {
        self.timestamp.validate_at(now)?;
        self.signers.validate()?;
        if !bytes_equal(self.address.as_slice(), self.signers.address.as_slice()) {
            return Err(Error::InvalidAddress);
        }
        if (self.value != 0 || self.counter != 0) && self.transaction_id.is_none() {
            return Err(Error::InvalidAccount);
        }
        Ok(())
    }

    /// `validate` validates the `Account` at the current time.
    pub fn validate(&self) -> (r: Result<()>)
        ensures
            exists|now: Timestamp| #[trigger] plausible_now(now) && account_outcome(*self, now, r),
    {
        let now = Timestamp::now();
        self.validate_at(now)
    }

    /// Whether the two accounts hold the same data.
    pub fn same_as(&self, other: &Account) -> (r: bool)
        ensures
            r == same_account(*self, *other),
    {
        let same_locktime = match (self.locktime, other.locktime) {
            (Some(a), Some(b)) => a.0 == b.0,
            (None, None) => true,
            _ => false,
        };
        let same_transaction = match (&self.transaction_id, &other.transaction_id) {
            (Some(a), Some(b)) => bytes_equal(a.as_slice(), b.as_slice()),
            (None, None) => true,
            _ => false,
        };
        bytes_equal(self.address.as_slice(), other.address.as_slice()) && self.stage == other.stage
            && self.timestamp.0 == other.timestamp.0 && same_locktime && self.signers.same_as(&other.signers)
            && self.value == other.value && self.counter == other.counter && same_transaction
    }
}

impl Clone for Account {
    /// A copy of the account.
    fn clone(&self) -> (r: Account)
        ensures
            same_account(r, *self),
    {
        Account {
            address: copy_bytes(self.address.as_slice()),
            stage: self.stage,
            timestamp: self.timestamp,
            locktime: self.locktime,
            signers: Signers {
                address: copy_bytes(self.signers.address.as_slice()),
                signers: self.signers.signers.clone(),
                threshold: self.signers.threshold,
            },
            value: self.value,
            counter: self.counter,
            transaction_id: match &self.transaction_id {
                Some(d) => Some(copy_bytes(d.as_slice())),
                None => None,
            },
        }
    }
}

} // verus!
