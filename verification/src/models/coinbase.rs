//! The coinbase output of a transaction: the reward of its miner.

use crate::bytes::copy_bytes;
use crate::models::address::{Address, Digest};
use crate::models::error::{Error, Result};
use vstd::prelude::*;

verus! {

/// `Coinbase` is the Alsacoin coinbase output type. Its mining proof is
/// its `nonce` and `digest`.
#[derive(Clone, PartialEq, Eq, PartialOrd, Ord, Debug)]
pub struct Coinbase {
    pub address: Address,
    pub distance: u64,
    pub difficulty: u64,
    pub custom_digest: Digest,
    pub amount: u64,
    pub nonce: u64,
    pub digest: Digest,
}

/// `BASE_AMOUNT` is the coinbase base amount.
pub const BASE_AMOUNT: u64 = 1_000_000_000;

/// The greatest mining difficulty.
pub const MAX_DIFFICULTY: u64 = 512;

/// The distance and difficulty of a coinbase are in bounds: both zero (an
/// eve coinbase) or both non-zero, and the difficulty at most 512.
pub open spec fn coinbase_bounds(distance: u64, difficulty: u64) -> bool {
    (distance == 0) == (difficulty == 0) && difficulty <= MAX_DIFFICULTY
}

/// `c` is `old` moved to the distance `distance`, with the amount for it.
pub open spec fn coinbase_moved(c: Coinbase, old: Coinbase, distance: u64, formula_amount: u64) -> bool {
    &&& c.address@ == old.address@
    &&& c.distance == distance
    &&& c.difficulty == old.difficulty
    &&& c.custom_digest@ == old.custom_digest@
    &&& c.amount == if distance == 0 {
        BASE_AMOUNT
    } else {
        formula_amount
    }
    &&& c.nonce == old.nonce
    &&& c.digest@ == old.digest@
}

impl Coinbase {
    /// `amount_base` is the part of `calc_amount` that needs no
    /// floating point: `OutOfBound` for a distance and difficulty out of
    /// bounds, the base amount for an eve coinbase, and `None` where the
    /// amount follows the Riemann zeta formula.
    pub fn amount_base(distance: u64, difficulty: u64) -> (r: Result<Option<u64>>)
        ensures
            match r {
                Ok(Some(a)) => coinbase_bounds(distance, difficulty) && distance == 0 && a == BASE_AMOUNT,
                Ok(None) => coinbase_bounds(distance, difficulty) && distance != 0,
                Err(e) => e is OutOfBound && !coinbase_bounds(distance, difficulty),
            },
    {
        if (distance == 0) != (difficulty == 0) || difficulty > MAX_DIFFICULTY {
            return Err(Error::OutOfBound);
        }
        if distance == 0 {
            Ok(Some(BASE_AMOUNT))
        } else {
            Ok(None)
        }
    }

    /// `new` creates a new unmined `Coinbase`. Its amount is the base
    /// amount for an eve coinbase; else it is `formula_amount`, the amount
    /// that the Riemann zeta formula of `calc_amount` gives for this distance
    /// and difficulty (floating point, computed by the caller).
    pub fn new(address: &Address, distance: u64, difficulty: u64, formula_amount: u64) -> (r: Result<
        Coinbase,
    >)
        ensures
            match r {
                Ok(c) => {
                    &&& coinbase_bounds(distance, difficulty)
                    &&& c.address@ == address@
                    &&& c.distance == distance
                    &&& c.difficulty == difficulty
                    &&& c.amount == if distance == 0 {
                        BASE_AMOUNT
                    } else {
                        formula_amount
                    }
                    &&& c.nonce == 0
                    &&& c.digest@ == Seq::<u8>::empty()
                },
                Err(e) => !coinbase_bounds(distance, difficulty) && if distance == 0 && difficulty != 0 {
                    e is InvalidDistance
                } else if difficulty == 0 && distance != 0 {
                    e is InvalidDifficulty
                } else {
                    e is OutOfBound
                },
            },
    {
        if distance == 0 && difficulty != 0 {
            return Err(Error::InvalidDistance);
        }
        if difficulty == 0 && distance != 0 {
            return Err(Error::InvalidDifficulty);
        }
        let amount = match Self::amount_base(distance, difficulty)? {
            Some(a) => a,
            None => formula_amount,
        };
        Ok(Coinbase {
            address: copy_bytes(address.as_slice()),
            distance,
            difficulty,
            custom_digest: Vec::new(),
            amount,
            nonce: 0,
            digest: Vec::new(),
        })
    }

    /// `new_eve` creates a new unmined eve `Coinbase`.
    pub fn new_eve(address: &Address) -> (r: Result<Coinbase>)
        ensures
            r matches Ok(c) && c.address@ == address@ && c.distance == 0 && c.difficulty == 0 && c.amount
                == BASE_AMOUNT && c.nonce == 0 && c.digest@ == Seq::<u8>::empty(),
    {
        Ok(Coinbase {
            address: copy_bytes(address.as_slice()),
            distance: 0,
            difficulty: 0,
            custom_digest: Vec::new(),
            amount: BASE_AMOUNT,
            nonce: 0,
            digest: Vec::new(),
        })
    }

    /// `is_eve` returns if the `Coinbase` is a eve `Coinbase`.
    pub fn is_eve(&self) -> (r: Result<bool>)
        ensures
            match r {
                Ok(b) => coinbase_bounds(self.distance, self.difficulty) && b == (self.distance == 0),
                Err(e) => e is OutOfBound && !coinbase_bounds(self.distance, self.difficulty),
            },
    {
        self.validate()?;
        Ok(self.distance == 0 && self.difficulty == 0)
    }

    /// `clear` clears the `Coinbase` of the mining proof.
    pub fn clear(&mut self)
        ensures
            final(self).nonce == 0,
            final(self).digest@ == Seq::<u8>::empty(),
            final(self).address == old(self).address,
            final(self).distance == old(self).distance,
            final(self).difficulty == old(self).difficulty,
            final(self).custom_digest == old(self).custom_digest,
            final(self).amount == old(self).amount,
    {
        self.nonce = 0;
        self.digest = Vec::new();
    }

    /// `update_amount` sets the amount for the current distance and
    /// difficulty: the base amount for an eve coinbase, else
    /// `formula_amount`, the amount that the Riemann zeta formula gives for
    /// them (floating point, computed by the caller).
    pub fn update_amount(&mut self, formula_amount: u64) -> (r: Result<()>)
        ensures
            r is Ok <==> coinbase_bounds(old(self).distance, old(self).difficulty),
            match r {
                Ok(()) => *final(self) == (Coinbase {
                    amount: if old(self).distance == 0 {
                        BASE_AMOUNT
                    } else {
                        formula_amount
                    },
                    ..*old(self)
                }),
                Err(e) => e is OutOfBound && *final(self) == *old(self),
            },
    {
        let amount = match Self::amount_base(self.distance, self.difficulty)? {
            Some(a) => a,
            None => formula_amount,
        };
        self.amount = amount;
        Ok(())
    }

    /// The `Coinbase` moved to the distance `distance`, with the amount
    /// for it (`formula_amount` where the Riemann zeta formula applies).
    pub(crate) fn moved_to(&self, distance: u64, formula_amount: u64) -> (r: Result<Coinbase>)
        ensures
            match r {
                Ok(c) => coinbase_bounds(distance, self.difficulty) && coinbase_moved(c, *self, distance, formula_amount),
                Err(e) => e is OutOfBound && !coinbase_bounds(distance, self.difficulty),
            },
    {
        let mut c = Coinbase {
            address: copy_bytes(self.address.as_slice()),
            distance,
            difficulty: self.difficulty,
            custom_digest: copy_bytes(self.custom_digest.as_slice()),
            amount: self.amount,
            nonce: self.nonce,
            digest: copy_bytes(self.digest.as_slice()),
        };
        c.update_amount(formula_amount)?;
        Ok(c)
    }

    /// `is_mined` returns if the `Coinbase` holds a mining proof.
    pub fn is_mined(&self) -> (r: bool)
        ensures
            r == (self.digest@.len() != 0),
    {
        self.digest.len() != 0
    }

    /// `validate` validates the unmined `Coinbase`: its distance and
    /// difficulty must be in bounds.
    pub fn validate(&self) -> (r: Result<()>)
        ensures
            r is Ok <==> coinbase_bounds(self.distance, self.difficulty),
            r matches Err(e) ==> e is OutOfBound,
    {
        if (self.distance == 0) != (self.difficulty == 0) || self.difficulty > MAX_DIFFICULTY {
            return Err(Error::OutOfBound);
        }
        Ok(())
    }
}

impl Default for Coinbase {
    /// An unmined coinbase at distance and difficulty 1, of no amount.
    fn default() -> (r: Coinbase)
        ensures
            r.address@ == Seq::<u8>::empty(),
            r.distance == 1,
            r.difficulty == 1,
            r.amount == 0,
            r.nonce == 0,
            r.digest@ == Seq::<u8>::empty(),
    {
        Coinbase {
            address: Vec::new(),
            distance: 1,
            difficulty: 1,
            custom_digest: Vec::new(),
            amount: 0,
            nonce: 0,
            digest: Vec::new(),
        }
    }
}

} // verus!
