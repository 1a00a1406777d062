//! The transaction model, built around the HybridTx model of the
//! Chimeric Ledgers papers: inputs spent from accounts, outputs paid to
//! addresses, and a coinbase that rewards its miner.
//!
//! The id of a transaction is the hash of its serialization, and its inputs
//! carry signatures: computing and checking those is the work of the hash
//! and signature functions, which the caller runs; the functions here
//! check everything else.

use crate::bytes::{bytes_equal, copy_bytes};
use crate::collections::{ByteMap, ByteSet};
use crate::models::address::{digest_opt, Address, Digest, Signature};
use crate::models::coinbase::{coinbase_bounds, coinbase_moved, Coinbase, BASE_AMOUNT};
use crate::models::error::{Error, Result};
use crate::models::account::{account_outcome, Account};
use crate::models::input::{all_verified, input_fully_signed, input_outcome, input_signed, same_input, Input};
use crate::models::signers::same_signers;
use crate::models::output::{same_output, Output};
use crate::models::stage::Stage;
use crate::models::timestamp::{plausible_now, timestamp_ok_at, Timestamp};
use crate::models::version::{version_valid, Version, VersionView};
use vstd::prelude::*;

verus! {

broadcast use crate::models::timestamp::lemma_plausible_now_bounds;

/// `Transaction` is the Alsacoin transaction type.
#[derive(PartialEq, Eq, Debug)]
pub struct Transaction {
    pub id: Digest,
    pub version: Version,
    pub stage: Stage,
    pub time: Timestamp,
    pub locktime: Option<Timestamp>,
    pub distance: u64,
    pub inputs: ByteMap<Input>,
    pub outputs: ByteMap<Output>,
    pub coinbase: Option<Coinbase>,
    pub nonce: u64,
}

/// The sum of the amounts of a sequence of inputs.
pub open spec fn inputs_sum(s: Seq<(Seq<u8>, Input)>) -> nat
    decreases s.len(),
{
    if s.len() == 0 {
        0
    } else {
        inputs_sum(s.drop_last()) + s.last().1.amount as nat
    }
}

/// The sum of the amounts of a sequence of outputs.
pub open spec fn outputs_sum(s: Seq<(Seq<u8>, Output)>) -> nat
    decreases s.len(),
{
    if s.len() == 0 {
        0
    } else {
        outputs_sum(s.drop_last()) + s.last().1.amount as nat
    }
}

/// The amount of the coinbase of a transaction, 0 without one.
pub open spec fn coinbase_amount_of(t: Transaction) -> u64 {
    match t.coinbase {
        Some(c) => c.amount,
        None => 0,
    }
}

/// The balance of a transaction: what its inputs and coinbase bring, less
/// what its outputs pay.
pub open spec fn balance_of(t: Transaction) -> int {
    inputs_sum(t.inputs.items()) + coinbase_amount_of(t) - outputs_sum(t.outputs.items())
}

/// The balance of a transaction is computed when each sum fits in an
/// `i64`, as the balance itself does.
pub open spec fn balance_computable(t: Transaction) -> bool {
    &&& inputs_sum(t.inputs.items()) <= i64::MAX
    &&& outputs_sum(t.outputs.items()) <= i64::MAX
    &&& coinbase_amount_of(t) <= i64::MAX
    &&& i64::MIN <= balance_of(t) <= i64::MAX
}

/// The coinbase of a transaction, where it has one, is at its distance
/// and its distance and difficulty are in bounds.
pub open spec fn coinbase_ok(t: Transaction) -> bool {
    t.coinbase matches Some(c) ==> c.distance == t.distance && coinbase_bounds(c.distance, c.difficulty)
}

/// An eve transaction: a coinbase at distance zero, no input, no output.
pub open spec fn is_eve_spec(t: Transaction) -> bool {
    &&& t.coinbase is Some
    &&& t.distance == 0
    &&& t.inputs@.len() == 0
    &&& t.outputs@.len() == 0
}

/// The distance of a transaction is consistent: an eve transaction, or a
/// distance that is not zero, is its coinbase's, and no input exceeds.
pub open spec fn distance_ok(t: Transaction) -> bool {
    coinbase_ok(t) && (is_eve_spec(t) || (t.distance != 0 && (t.coinbase matches Some(c) ==> c.distance
        == t.distance) && forall|k: Seq<u8>| #[trigger] t.inputs@.contains_key(k) ==> t.inputs@[k].distance
        <= t.distance))
}

/// The times of a transaction are acceptable at `now`: its time and
/// locktime are, its time does not follow its locktime, and it does not
/// precede the locktime of any account it spends from.
pub open spec fn times_ok(t: Transaction, now: Timestamp) -> bool {
    &&& timestamp_ok_at(t.time, now)
    &&& (t.locktime matches Some(l) ==> timestamp_ok_at(l, now) && t.time.0 <= l.0)
    &&& forall|k: Seq<u8>| #[trigger] t.inputs@.contains_key(k) ==> (t.inputs@[k].account.locktime matches Some(
        l,
    ) ==> l.0 <= t.time.0)
}

/// An input of a transaction is consistent with it at `now`: the input is
/// valid, it is filed under its address, it is not farther than the
/// transaction, and its account was not given by the transaction itself.
pub open spec fn input_ok(t: Transaction, k: Seq<u8>, now: Timestamp) -> bool {
    let i = t.inputs@[k];
    &&& input_outcome(i, now, Ok(()))
    &&& i.account.address@ == k
    &&& i.distance <= t.distance
    &&& digest_opt(i.account.transaction_id) != Some(t.id@)
}

/// Every input of a transaction is consistent with it at `now`.
pub open spec fn inputs_ok(t: Transaction, now: Timestamp) -> bool {
    forall|k: Seq<u8>| #[trigger] t.inputs@.contains_key(k) ==> input_ok(t, k, now)
}

/// The checks that `validate_at` makes, the id and signatures aside.
pub open spec fn transaction_ok(t: Transaction, now: Timestamp) -> bool {
    &&& version_valid(t.version@)
    &&& times_ok(t, now)
    &&& inputs_ok(t, now)
    &&& distance_ok(t)
    &&& balance_computable(t)
    &&& balance_of(t) == coinbase_amount_of(t)
    &&& coinbase_ok(t)
}

/// Every output of a transaction is filed under its address.
pub open spec fn outputs_ok(t: Transaction) -> bool {
    forall|k: Seq<u8>| #[trigger] t.outputs@.contains_key(k) ==> t.outputs@[k].address@ == k
}

/// Two transactions agree on all but their inputs, distance and coinbase.
pub open spec fn same_header(a: Transaction, b: Transaction) -> bool {
    &&& a.id == b.id
    &&& a.version == b.version
    &&& a.stage == b.stage
    &&& a.time == b.time
    &&& a.locktime == b.locktime
    &&& a.outputs == b.outputs
    &&& a.nonce == b.nonce
}

/// `new` is `old` with `input` filed under its address, in place of any
/// input there, and the other inputs and the header unchanged.
pub open spec fn input_filed(old: Transaction, new: Transaction, input: Input) -> bool {
    let k = input.account.address@;
    &&& same_header(old, new)
    &&& new.inputs@.contains_key(k)
    &&& same_input(new.inputs@[k], input)
    &&& new.inputs@.remove(k) == old.inputs@.remove(k)
}

/// What setting the distance `d` does, from `old` to `new`: the distance
/// is `d`, and a coinbase moves to `d`, with `formula_amount` for its
/// amount where the Riemann zeta formula applies; a coinbase that cannot
/// be at `d` stays as it was, and the result is `OutOfBound`.
pub open spec fn distance_set(old: Transaction, new: Transaction, d: u64, formula_amount: u64, r: Result<()>) -> bool {
    &&& new.distance == d
    &&& match old.coinbase {
        None => r is Ok && new.coinbase is None,
        Some(c) => if coinbase_bounds(d, c.difficulty) {
            r is Ok && (new.coinbase matches Some(c2) && coinbase_moved(c2, c, d, formula_amount))
        } else {
            (r matches Err(e) && e is OutOfBound) && new.coinbase == old.coinbase
        },
    }
}

/// What raising the distance to `d` does: nothing where `d` is not
/// farther than the distance of `old`, else what setting it does.
pub open spec fn distance_raised(old: Transaction, new: Transaction, d: u64, formula_amount: u64, r: Result<()>) -> bool {
    if d <= old.distance {
        r is Ok && new.distance == old.distance && new.coinbase == old.coinbase
    } else {
        distance_set(old, new, d, formula_amount, r)
    }
}

/// What adding `input` at the time `now` does: an input that is not
/// valid, or whose address is taken, leaves the transaction as it was;
/// else the input is filed and the distance raised to its own.
pub open spec fn add_input_outcome(
    old: Transaction,
    new: Transaction,
    input: Input,
    now: Timestamp,
    formula_amount: u64,
    r: Result<()>,
) -> bool {
    if !input_outcome(input, now, Ok(())) {
        (r matches Err(e) && input_outcome(input, now, Err(e))) && new == old
    } else if old.inputs@.contains_key(input.account.address@) {
        (r matches Err(e) && e is AlreadyFound) && new == old
    } else {
        input_filed(old, new, input) && distance_raised(old, new, input.distance, formula_amount, r)
    }
}

/// What updating `input` at the time `now` does: as adding it, but the
/// address must be taken already (`NotFound` else).
pub open spec fn update_input_outcome(
    old: Transaction,
    new: Transaction,
    input: Input,
    now: Timestamp,
    formula_amount: u64,
    r: Result<()>,
) -> bool {
    if !input_outcome(input, now, Ok(())) {
        (r matches Err(e) && input_outcome(input, now, Err(e))) && new == old
    } else if !old.inputs@.contains_key(input.account.address@) {
        (r matches Err(e) && e is NotFound) && new == old
    } else if same_input(old.inputs@[input.account.address@], input) {
        r is Ok && new == old
    } else {
        input_filed(old, new, input) && distance_raised(old, new, input.distance, formula_amount, r)
    }
}

/// `d` is the greatest of `d0` and the distances of the inputs.
pub open spec fn max_distance_of(inputs: Map<Seq<u8>, Input>, d0: u64, d: u64) -> bool {
    &&& d0 <= d
    &&& forall|k: Seq<u8>| #[trigger] inputs.contains_key(k) ==> inputs[k].distance <= d
    &&& (d == d0 || exists|k: Seq<u8>| #[trigger] inputs.contains_key(k) && inputs[k].distance == d)
}

/// What updating the distance of `old`, once its inputs are `inputs`, does
/// to the rest of it: nothing to an eve transaction; else the distance
/// becomes the greatest of its own and of the inputs', and a coinbase moves
/// to it. A coinbase out of place, or a distance of zero, is an error that
/// changes nothing.
pub open spec fn distance_updated(
    old: Transaction,
    inputs: Map<Seq<u8>, Input>,
    new: Transaction,
    formula_amount: u64,
    r: Result<()>,
) -> bool {
    let eve = old.coinbase is Some && old.distance == 0 && inputs.len() == 0 && old.outputs@.len() == 0;
    let unchanged = new.distance == old.distance && new.coinbase == old.coinbase;
    &&& same_header(old, new)
    &&& if !coinbase_ok(old) {
        r is Err && unchanged
    } else if eve {
        r is Ok && unchanged
    } else if old.distance == 0 {
        (r matches Err(e) && e is InvalidDistance) && unchanged
    } else {
        max_distance_of(inputs, old.distance, new.distance) && distance_set(old, new, new.distance, formula_amount, r)
    }
}

/// The sums of a prefix grow by the next element.
proof fn lemma_sums_take(ins: Seq<(Seq<u8>, Input)>, outs: Seq<(Seq<u8>, Output)>, i: int, j: int)
    ensures
        0 <= i < ins.len() ==> inputs_sum(ins.take(i + 1)) == inputs_sum(ins.take(i)) + ins[i].1.amount,
        0 <= j < outs.len() ==> outputs_sum(outs.take(j + 1)) == outputs_sum(outs.take(j)) + outs[j].1.amount,
{
    if 0 <= i < ins.len() {
        assert(ins.take(i + 1).drop_last() =~= ins.take(i));
    }
    if 0 <= j < outs.len() {
        assert(outs.take(j + 1).drop_last() =~= outs.take(j));
    }
}

/// The sums of a prefix are at most the sums of the whole.
proof fn lemma_sums_prefix(ins: Seq<(Seq<u8>, Input)>, outs: Seq<(Seq<u8>, Output)>, i: int, j: int)
    requires
        0 <= i <= ins.len(),
        0 <= j <= outs.len(),
    ensures
        inputs_sum(ins.take(i)) <= inputs_sum(ins),
        outputs_sum(outs.take(j)) <= outputs_sum(outs),
    decreases ins.len() - i + outs.len() - j,
{
    if i < ins.len() {
        lemma_sums_take(ins, outs, i, j);
        lemma_sums_prefix(ins, outs, i + 1, j);
    } else if j < outs.len() {
        lemma_sums_take(ins, outs, i, j);
        lemma_sums_prefix(ins, outs, i, j + 1);
    } else {
        assert(ins.take(i) =~= ins);
        assert(outs.take(j) =~= outs);
    }
}

impl Transaction {
    /// `coinbase_amount` returns the `Transaction` coinbase amount.
    pub fn coinbase_amount(&self) -> (r: u64)
        ensures
            r == coinbase_amount_of(*self),
    {
        match &self.coinbase {
            Some(coinbase) => coinbase.amount,
            None => 0,
        }
    }

    /// `input_balance` returns the `Transaction` inputs balance: the sum
    /// of the amounts of its inputs.
    pub fn input_balance(&self) -> (r: Result<u64>)
        ensures
            match r {
                Ok(b) => b == inputs_sum(self.inputs.items()),
                Err(e) => e is InvalidBalance && inputs_sum(self.inputs.items()) > u64::MAX,
            },
    {
        let n = self.inputs.len();
        let ghost s = self.inputs.items();
        let mut res: u64 = 0;
        let mut i: usize = 0;
        assert(s.take(0) =~= Seq::<(Seq<u8>, Input)>::empty());
        while i < n
            invariant
                s == self.inputs.items(),
                n == s.len(),
                i <= n,
                res == inputs_sum(s.take(i as int)),
            decreases n - i,
        {
            proof {
                lemma_sums_take(s, self.outputs.items(), i as int, -1);
                lemma_sums_prefix(s, self.outputs.items(), i + 1, 0);
            }
            match self.inputs.value_ref(i).amount.checked_add(res) {
                Some(sum) => res = sum,
                None => return Err(Error::InvalidBalance),
            }
            i += 1;
        }
        assert(s.take(n as int) =~= s);
        Ok(res)
    }

    /// `output_balance` returns the `Transaction` outputs balance: the sum
    /// of the amounts of its outputs.
    pub fn output_balance(&self) -> (r: Result<u64>)
        ensures
            match r {
                Ok(b) => b == outputs_sum(self.outputs.items()),
                Err(e) => e is InvalidBalance && outputs_sum(self.outputs.items()) > u64::MAX,
            },
    {
        let n = self.outputs.len();
        let ghost s = self.outputs.items();
        let mut res: u64 = 0;
        let mut i: usize = 0;
        assert(s.take(0) =~= Seq::<(Seq<u8>, Output)>::empty());
        while i < n
            invariant
                s == self.outputs.items(),
                n == s.len(),
                i <= n,
                res == outputs_sum(s.take(i as int)),
            decreases n - i,
        {
            proof {
                lemma_sums_take(self.inputs.items(), s, -1, i as int);
                lemma_sums_prefix(self.inputs.items(), s, 0, i + 1);
            }
            match self.outputs.value_ref(i).amount.checked_add(res) {
                Some(sum) => res = sum,
                None => return Err(Error::InvalidBalance),
            }
            i += 1;
        }
        assert(s.take(n as int) =~= s);
        Ok(res)
    }

    /// `balance` returns the `Transaction` balance: inputs and coinbase
    /// less outputs. It fails with `InvalidBalance` where a sum or the
    /// balance does not fit in an `i64`.
    pub fn balance(&self) -> (r: Result<i64>)
        ensures
            match r {
                Ok(b) => balance_computable(*self) && b == balance_of(*self),
                Err(e) => e is InvalidBalance && !balance_computable(*self),
            },
    {
        let ibalance = self.input_balance()?;
        let obalance = self.output_balance()?;
        let cbalance = self.coinbase_amount();
        let max: u64 = 0x7fff_ffff_ffff_ffff;
        if ibalance > max || obalance > max || cbalance > max {
            return Err(Error::InvalidBalance);
        }
        let gain: i128 = ibalance as i128 + cbalance as i128 - obalance as i128;
        if gain > 0x7fff_ffff_ffff_ffff {
            return Err(Error::InvalidBalance);
        }
        Ok(gain as i64)
    }

    /// `validate_balance` validates the `Transaction` balance: it must be
    /// the coinbase amount, that is the inputs must pay the outputs.
    pub fn validate_balance(&self) -> (r: Result<()>)
        ensures
            r is Ok <==> balance_computable(*self) && balance_of(*self) == coinbase_amount_of(*self),
            r matches Err(e) ==> e is InvalidBalance,
    {
        if self.balance()? != self.coinbase_amount() as i64 {
            return Err(Error::InvalidBalance);
        }
        Ok(())
    }

    /// `lookup_input` look ups an `Input` in the `Transaction`.
    pub fn lookup_input(&self, address: &Address) -> (r: bool)
        ensures
            r == self.inputs@.contains_key(address@),
    {
        self.inputs.contains(address.as_slice())
    }

    /// `get_input` returns an `Input` from the `Transaction`.
    pub fn get_input(&self, address: &Address) -> (r: Result<Input>)
        ensures
            match r {
                Ok(i) => self.inputs@.contains_key(address@) && same_input(i, self.inputs@[address@]),
                Err(e) => e is NotFound && !self.inputs@.contains_key(address@),
            },
    {
        match self.inputs.get_ref(address.as_slice()) {
            Some(input) => Ok(input.clone()),
            None => Err(Error::NotFound),
        }
    }

    /// `lookup_output` look ups an `Output` in the `Transaction`.
    pub fn lookup_output(&self, address: &Address) -> (r: bool)
        ensures
            r == self.outputs@.contains_key(address@),
    {
        self.outputs.contains(address.as_slice())
    }

    /// `get_output` returns an `Output` from the `Transaction`.
    pub fn get_output(&self, address: &Address) -> (r: Result<Output>)
        ensures
            match r {
                Ok(o) => self.outputs@.contains_key(address@) && same_output(o, self.outputs@[address@]),
                Err(e) => e is NotFound && !self.outputs@.contains_key(address@),
            },
    {
        match self.outputs.get_ref(address.as_slice()) {
            Some(output) => Ok(output.clone()),
            None => Err(Error::NotFound),
        }
    }

    /// `add_output` adds an `Output` in the `Transaction`, under its
    /// address. The id is to be refreshed by the caller.
    pub fn add_output(&mut self, output: &Output) -> (r: Result<()>)
        ensures
            r is Ok <==> !old(self).outputs@.contains_key(output.address@),
            match r {
                Ok(()) => final(self).outputs@.contains_key(output.address@) && same_output(final(self).outputs@[output.address@], *output)
                    && final(self).outputs@.remove(output.address@) == old(self).outputs@,
                Err(e) => e is AlreadyFound && final(self).outputs@ == old(self).outputs@,
            },
            final(self).inputs == old(self).inputs,
            final(self).coinbase == old(self).coinbase,
            final(self).distance == old(self).distance,
    {
        if self.lookup_output(&output.address) {
            return Err(Error::AlreadyFound);
        }
        self.outputs.insert(output.address.as_slice(), output.clone());
        assert(self.outputs@.remove(output.address@) =~= old(self).outputs@);
        Ok(())
    }

    /// `update_output` updates an `Output` in the `Transaction`. The id is
    /// to be refreshed by the caller.
    pub fn update_output(&mut self, output: &Output) -> (r: Result<()>)
        ensures
            r is Ok <==> old(self).outputs@.contains_key(output.address@),
            match r {
                Ok(()) => final(self).outputs@.contains_key(output.address@) && same_output(final(self).outputs@[output.address@], *output)
                    && final(self).outputs@.remove(output.address@) == old(self).outputs@.remove(output.address@),
                Err(e) => e is NotFound && final(self).outputs@ == old(self).outputs@,
            },
            final(self).inputs == old(self).inputs,
            final(self).coinbase == old(self).coinbase,
            final(self).distance == old(self).distance,
    {
        if !self.lookup_output(&output.address) {
            return Err(Error::NotFound);
        }
        self.outputs.insert(output.address.as_slice(), output.clone());
        assert(self.outputs@.remove(output.address@) =~= old(self).outputs@.remove(output.address@));
        Ok(())
    }

    /// `delete_output` deletes an `Output` from the `Transaction`. The id
    /// is to be refreshed by the caller.
    pub fn delete_output(&mut self, address: &Address) -> (r: Result<()>)
        ensures
            r is Ok <==> old(self).outputs@.contains_key(address@),
            match r {
                Ok(()) => final(self).outputs@ == old(self).outputs@.remove(address@),
                Err(e) => e is NotFound && final(self).outputs@ == old(self).outputs@,
            },
            final(self).inputs == old(self).inputs,
            final(self).coinbase == old(self).coinbase,
            final(self).distance == old(self).distance,
    {
        if !self.lookup_output(address) {
            return Err(Error::NotFound);
        }
        self.outputs.remove(address.as_slice());
        Ok(())
    }

    /// `validate_outputs` validates all the `Output`s in the `Transaction`:
    /// each must be filed under its address.
    pub fn validate_outputs(&self) -> (r: Result<()>)
        ensures
            r is Ok <==> outputs_ok(*self),
            r matches Err(e) ==> e is InvalidAddress,
    {
        let n = self.outputs.len();
        let mut i: usize = 0;
        while i < n
            invariant
                n == self.outputs.items().len(),
                i <= n,
                forall|j: int| 0 <= j < i ==> (#[trigger] self.outputs.items()[j]).1.address@ == self.outputs.items()[j].0,
                forall|j: int| #![trigger self.outputs.items()[j]] 0 <= j < self.outputs.items().len() ==> self.outputs@.contains_key(self.outputs.items()[j].0)
                    && self.outputs@[self.outputs.items()[j].0] == self.outputs.items()[j].1,
            decreases n - i,
        {
            if !bytes_equal(self.outputs.key_at(i), self.outputs.value_ref(i).address.as_slice()) {
                assert(self.outputs@.contains_key(self.outputs.items()[i as int].0));
                return Err(Error::InvalidAddress);
            }
            i += 1;
        }
        assert forall|k: Seq<u8>| #[trigger] self.outputs@.contains_key(k) implies self.outputs@[k].address@ == k by {
            let j = choose|j: int| 0 <= j < self.outputs.items().len() && (#[trigger] self.outputs.items()[j]).0 == k;
            assert(self.outputs@.contains_key(self.outputs.items()[j].0));
        }
        Ok(())
    }

    /// `validate_coinbase` validates the `Transaction` `Coinbase`: at the
    /// transaction's distance, with its distance and difficulty in bounds.
    pub fn validate_coinbase(&self) -> (r: Result<()>)
        ensures
            r is Ok <==> coinbase_ok(*self),
            match r {
                Err(e) => self.coinbase matches Some(c) && if c.distance != self.distance {
                    e is InvalidCoinbase
                } else {
                    e is OutOfBound
                },
                Ok(()) => true,
            },
    {
        if let Some(coinbase) = &self.coinbase {
            if coinbase.distance != self.distance {
                return Err(Error::InvalidCoinbase);
            }
            coinbase.validate()?;
        }
        Ok(())
    }

    /// `is_eve` returns if a `Transaction` is an eve `Transaction`.
    pub fn is_eve(&self) -> (r: Result<bool>)
        ensures
            match r {
                Ok(b) => coinbase_ok(*self) && b == is_eve_spec(*self),
                Err(_) => !coinbase_ok(*self),
            },
    {
        self.validate_coinbase()?;
        if let Some(coinbase) = &self.coinbase {
            let res = self.distance == 0 && self.inputs.is_empty() && self.outputs.is_empty() && coinbase.is_eve()?;
            Ok(res)
        } else {
            Ok(false)
        }
    }

    /// `is_mined` checks if the `Transaction` is mined.
    pub fn is_mined(&self) -> (r: bool)
        ensures
            r == (self.coinbase matches Some(c) && c.digest@.len() != 0),
    {
        match &self.coinbase {
            Some(coinbase) => coinbase.is_mined(),
            None => false,
        }
    }

    /// `validate_distance` validates the `Transaction` distance.
    pub fn validate_distance(&self) -> (r: Result<()>)
        ensures
            r is Ok <==> distance_ok(*self),
            r matches Err(e) ==> (e is InvalidDistance || !coinbase_ok(*self)),
    {
        if self.is_eve()? {
            return Ok(());
        }
        if self.distance == 0 {
            return Err(Error::InvalidDistance);
        }
        if let Some(coinbase) = &self.coinbase {
            if coinbase.distance != self.distance {
                return Err(Error::InvalidDistance);
            }
        }
        let max_distance = self.distance;
        let n = self.inputs.len();
        let mut i: usize = 0;
        while i < n
            invariant
                n == self.inputs.items().len(),
                i <= n,
                max_distance == self.distance,
                !is_eve_spec(*self),
                forall|j: int| 0 <= j < i ==> (#[trigger] self.inputs.items()[j]).1.distance <= max_distance,
                forall|j: int| #![trigger self.inputs.items()[j]] 0 <= j < self.inputs.items().len() ==> self.inputs@.contains_key(self.inputs.items()[j].0)
                    && self.inputs@[self.inputs.items()[j].0] == self.inputs.items()[j].1,
            decreases n - i,
        {
            if self.inputs.value_ref(i).distance > max_distance {
                assert(self.inputs@.contains_key(self.inputs.items()[i as int].0));
                return Err(Error::InvalidDistance);
            }
            i += 1;
        }
        assert forall|k: Seq<u8>| #[trigger] self.inputs@.contains_key(k) implies self.inputs@[k].distance <= self.distance by {
            let j = choose|j: int| 0 <= j < self.inputs.items().len() && (#[trigger] self.inputs.items()[j]).0 == k;
            assert(self.inputs@.contains_key(self.inputs.items()[j].0));
        }
        Ok(())
    }

    /// `validate_times_at` validates the `Transaction` time and locktime
    /// at the time `now`.
    pub fn validate_times_at(&self, now: Timestamp) -> (r: Result<()>)
        requires
            plausible_now(now),
        ensures
            r is Ok <==> times_ok(*self, now),
            r matches Err(e) ==> e is InvalidTimestamp,
    {
        self.time.validate_at(now)?;
        if let Some(locktime) = self.locktime {
            locktime.validate_at(now)?;
            if self.time.0 > locktime.0 {
                return Err(Error::InvalidTimestamp);
            }
        }
        let n = self.inputs.len();
        let mut i: usize = 0;
        while i < n
            invariant
                n == self.inputs.items().len(),
                i <= n,
                forall|j: int| 0 <= j < i ==> ((#[trigger] self.inputs.items()[j]).1.account.locktime matches Some(l) ==> l.0
                    <= self.time.0),
                forall|j: int| #![trigger self.inputs.items()[j]] 0 <= j < self.inputs.items().len() ==> self.inputs@.contains_key(self.inputs.items()[j].0)
                    && self.inputs@[self.inputs.items()[j].0] == self.inputs.items()[j].1,
            decreases n - i,
        {
            if let Some(locktime) = self.inputs.value_ref(i).account.locktime {
                if self.time.0 < locktime.0 {
                    assert(self.inputs@.contains_key(self.inputs.items()[i as int].0));
                    return Err(Error::InvalidTimestamp);
                }
            }
            i += 1;
        }
        assert forall|k: Seq<u8>| #[trigger] self.inputs@.contains_key(k) implies (self.inputs@[k].account.locktime matches Some(
            l,
        ) ==> l.0 <= self.time.0) by {
            let j = choose|j: int| 0 <= j < self.inputs.items().len() && (#[trigger] self.inputs.items()[j]).0 == k;
            assert(self.inputs@.contains_key(self.inputs.items()[j].0));
        }
        Ok(())
    }

    /// `validate_input_at` validates an `Input` in the `Transaction` at the
    /// time `now`, but for its signatures.
    pub fn validate_input_at(&self, address: &Address, now: Timestamp) -> (r: Result<()>)
        requires
            plausible_now(now),
        ensures
            r is Ok <==> self.inputs@.contains_key(address@) && input_ok(*self, address@, now),
    {
        let input = match self.inputs.get_ref(address.as_slice()) {
            Some(input) => input,
            None => return Err(Error::NotFound),
        };
        input.validate_at(now)?;
        if !bytes_equal(input.account.address.as_slice(), address.as_slice()) {
            return Err(Error::InvalidAddress);
        }
        if input.distance > self.distance {
            return Err(Error::InvalidDistance);
        }
        if let Some(tx_id) = &input.account.transaction_id {
            if bytes_equal(tx_id.as_slice(), self.id.as_slice()) {
                return Err(Error::InvalidId);
            }
        }
        Ok(())
    }

    /// `validate_inputs_at` validates all the `Input`s in the `Transaction`
    /// at the time `now`, but for their signatures.
    pub fn validate_inputs_at(&self, now: Timestamp) -> (r: Result<()>)
        requires
            plausible_now(now),
        ensures
            r is Ok <==> inputs_ok(*self, now),
    {
        let n = self.inputs.len();
        let mut i: usize = 0;
        while i < n
            invariant
                plausible_now(now),
                n == self.inputs.items().len(),
                i <= n,
                forall|j: int| 0 <= j < i ==> input_ok(*self, #[trigger] self.inputs.items()[j].0, now),
                forall|j: int| #![trigger self.inputs.items()[j]] 0 <= j < self.inputs.items().len() ==> self.inputs@.contains_key(self.inputs.items()[j].0),
            decreases n - i,
        {
            let address = copy_bytes(self.inputs.key_at(i));
            self.validate_input_at(&address, now)?;
            i += 1;
        }
        assert forall|k: Seq<u8>| #[trigger] self.inputs@.contains_key(k) implies input_ok(*self, k, now) by {
            let j = choose|j: int| 0 <= j < self.inputs.items().len() && (#[trigger] self.inputs.items()[j]).0 == k;
        }
        Ok(())
    }

    /// `is_signed` returns if at least one `Input` has been signed.
    pub fn is_signed(&self) -> (r: bool)
        ensures
            r == exists|k: Seq<u8>| #[trigger] self.inputs@.contains_key(k) && input_signed(self.inputs@[k]),
    {
        let n = self.inputs.len();
        let mut i: usize = 0;
        while i < n
            invariant
                n == self.inputs.items().len(),
                i <= n,
                forall|j: int| 0 <= j < i ==> !input_signed(#[trigger] self.inputs.items()[j].1),
                forall|j: int| #![trigger self.inputs.items()[j]] 0 <= j < self.inputs.items().len() ==> self.inputs@.contains_key(self.inputs.items()[j].0)
                    && self.inputs@[self.inputs.items()[j].0] == self.inputs.items()[j].1,
            decreases n - i,
        {
            if self.inputs.value_ref(i).is_signed() {
                assert(self.inputs@.contains_key(self.inputs.items()[i as int].0));
                return true;
            }
            i += 1;
        }
        assert forall|k: Seq<u8>| #[trigger] self.inputs@.contains_key(k) implies !input_signed(self.inputs@[k]) by {
            let j = choose|j: int| 0 <= j < self.inputs.items().len() && (#[trigger] self.inputs.items()[j]).0 == k;
            assert(self.inputs@.contains_key(self.inputs.items()[j].0));
        }
        false
    }

    /// `is_fully_signed` returns if all the `Input`s are fully signed.
    pub fn is_fully_signed(&self) -> (r: Result<bool>)
        ensures
            r == Ok::<bool, Error>(forall|k: Seq<u8>| #[trigger] self.inputs@.contains_key(k) ==> input_fully_signed(self.inputs@[k])),
    {
        let n = self.inputs.len();
        let mut i: usize = 0;
        while i < n
            invariant
                n == self.inputs.items().len(),
                i <= n,
                forall|j: int| 0 <= j < i ==> input_fully_signed(#[trigger] self.inputs.items()[j].1),
                forall|j: int| #![trigger self.inputs.items()[j]] 0 <= j < self.inputs.items().len() ==> self.inputs@.contains_key(self.inputs.items()[j].0)
                    && self.inputs@[self.inputs.items()[j].0] == self.inputs.items()[j].1,
            decreases n - i,
        {
            if !self.inputs.value_ref(i).is_fully_signed()? {
                assert(self.inputs@.contains_key(self.inputs.items()[i as int].0));
                return Ok(false);
            }
            i += 1;
        }
        assert forall|k: Seq<u8>| #[trigger] self.inputs@.contains_key(k) implies input_fully_signed(self.inputs@[k]) by {
            let j = choose|j: int| 0 <= j < self.inputs.items().len() && (#[trigger] self.inputs.items()[j]).0 == k;
            assert(self.inputs@.contains_key(self.inputs.items()[j].0));
        }
        Ok(true)
    }

    /// `ancestors` returns the `Transaction` ancestors' ids: the
    /// transactions that gave the accounts it spends from. An eve
    /// transaction has none; an account without its transaction is an
    /// `InvalidInput`.
    pub fn ancestors(&self) -> (r: Result<ByteSet>)
        ensures
            match r {
                Ok(ids) => coinbase_ok(*self) && if is_eve_spec(*self) {
                    ids@ == Set::<Seq<u8>>::empty()
                } else {
                    (forall|k: Seq<u8>| #[trigger] self.inputs@.contains_key(k) ==> self.inputs@[k].account.transaction_id is Some)
                        && forall|id: Seq<u8>| #[trigger] ids@.contains(id) <==> exists|k: Seq<u8>| #[trigger] self.inputs@.contains_key(k)
                        && digest_opt(self.inputs@[k].account.transaction_id) == Some(id)
                },
                Err(e) => !coinbase_ok(*self) || (!is_eve_spec(*self) && e is InvalidInput && exists|k: Seq<u8>| #[trigger] self.inputs@.contains_key(k)
                    && self.inputs@[k].account.transaction_id is None),
            },
    {
        let mut ancestors = ByteSet::new();
        if self.is_eve()? {
            return Ok(ancestors);
        }
        let n = self.inputs.len();
        let mut i: usize = 0;
        while i < n
            invariant
                n == self.inputs.items().len(),
                i <= n,
                coinbase_ok(*self),
                !is_eve_spec(*self),
                forall|j: int| 0 <= j < i ==> (#[trigger] self.inputs.items()[j]).1.account.transaction_id is Some,
                forall|id: Seq<u8>| #[trigger] ancestors@.contains(id) <==> exists|j: int| 0 <= j < i && digest_opt(
                    (#[trigger] self.inputs.items()[j]).1.account.transaction_id,
                ) == Some(id),
                forall|j: int| #![trigger self.inputs.items()[j]] 0 <= j < self.inputs.items().len() ==> self.inputs@.contains_key(self.inputs.items()[j].0)
                    && self.inputs@[self.inputs.items()[j].0] == self.inputs.items()[j].1,
            decreases n - i,
        {
            match &self.inputs.value_ref(i).account.transaction_id {
                Some(tx_id) => {
                    ancestors.insert(tx_id.as_slice());
                    assert forall|id: Seq<u8>| #[trigger] ancestors@.contains(id) <==> exists|j: int| 0 <= j < i + 1 && digest_opt(
                        (#[trigger] self.inputs.items()[j]).1.account.transaction_id,
                    ) == Some(id) by {
                        if id == tx_id@ {
                            assert(digest_opt(self.inputs.items()[i as int].1.account.transaction_id) == Some(id));
                        }
                    }
                },
                None => {
                    assert(self.inputs@.contains_key(self.inputs.items()[i as int].0));
                    return Err(Error::InvalidInput);
                },
            }
            i += 1;
        }
        assert forall|k: Seq<u8>| #[trigger] self.inputs@.contains_key(k) implies self.inputs@[k].account.transaction_id is Some by {
            let j = choose|j: int| 0 <= j < self.inputs.items().len() && (#[trigger] self.inputs.items()[j]).0 == k;
            assert(self.inputs@.contains_key(self.inputs.items()[j].0));
        }
        assert forall|id: Seq<u8>| #[trigger] ancestors@.contains(id) <==> exists|k: Seq<u8>| #[trigger] self.inputs@.contains_key(k)
            && digest_opt(self.inputs@[k].account.transaction_id) == Some(id) by {
            if ancestors@.contains(id) {
                let j = choose|j: int| 0 <= j < n && digest_opt((#[trigger] self.inputs.items()[j]).1.account.transaction_id) == Some(id);
                assert(self.inputs@.contains_key(self.inputs.items()[j].0));
            }
            if exists|k: Seq<u8>| #[trigger] self.inputs@.contains_key(k) && digest_opt(self.inputs@[k].account.transaction_id) == Some(id) {
                let k = choose|k: Seq<u8>| #[trigger] self.inputs@.contains_key(k) && digest_opt(self.inputs@[k].account.transaction_id) == Some(id);
                let j = choose|j: int| 0 <= j < self.inputs.items().len() && (#[trigger] self.inputs.items()[j]).0 == k;
                assert(self.inputs@.contains_key(self.inputs.items()[j].0));
            }
        }
        Ok(ancestors)
    }

    /// `new` creates a new `Transaction`, created now in the development
    /// stage, at distance 1, with no input, output nor coinbase, and `nonce`
    /// (a random number, drawn by the caller) for its nonce. Its id is left
    /// empty: the caller sets it to the hash of the transaction.
    pub fn new(nonce: u64) -> (r: Result<Transaction>)
        ensures
            r matches Ok(t) && {
                &&& t.id@ == Seq::<u8>::empty()
                &&& t.version@ == (VersionView {
                    major: 0,
                    minor: 1,
                    patch: 0,
                    prerelease: Seq::empty(),
                    buildmeta: Seq::empty(),
                })
                &&& t.stage == Stage::Development
                &&& plausible_now(t.time)
                &&& t.locktime is None
                &&& t.distance == 1
                &&& t.inputs@ == Map::<Seq<u8>, Input>::empty()
                &&& t.outputs@ == Map::<Seq<u8>, Output>::empty()
                &&& t.coinbase is None
                &&& t.nonce == nonce
            },
    {
        Ok(Transaction {
            id: Vec::new(),
            version: Version::default(),
            stage: Stage::default(),
            time: Timestamp::default(),
            locktime: None,
            distance: 1,
            inputs: ByteMap::new(),
            outputs: ByteMap::new(),
            coinbase: None,
            nonce,
        })
    }

    /// `new_eve` creates a new eve `Transaction`: created now, at distance
    /// 0, with an eve coinbase paid to `address`, and `nonce` (a random
    /// number, drawn by the caller) for its nonce. Its id is left empty:
    /// the caller sets it to the hash of the transaction.
    pub fn new_eve(stage: Stage, address: &Address, nonce: u64) -> (r: Result<Transaction>)
        ensures
            r matches Ok(t) && {
                &&& t.id@ == Seq::<u8>::empty()
                &&& t.version@ == (VersionView {
                    major: 0,
                    minor: 1,
                    patch: 0,
                    prerelease: Seq::empty(),
                    buildmeta: Seq::empty(),
                })
                &&& t.stage == stage
                &&& plausible_now(t.time)
                &&& t.locktime is None
                &&& t.distance == 0
                &&& t.inputs@ == Map::<Seq<u8>, Input>::empty()
                &&& t.outputs@ == Map::<Seq<u8>, Output>::empty()
                &&& t.coinbase matches Some(c) && c.address@ == address@ && c.distance == 0 && c.difficulty == 0
                    && c.amount == BASE_AMOUNT && c.nonce == 0 && c.digest@ == Seq::<u8>::empty()
                &&& t.nonce == nonce
            },
    {
        let coinbase = Coinbase::new_eve(address)?;
        Ok(Transaction {
            id: Vec::new(),
            version: Version::default(),
            stage,
            time: Timestamp::default(),
            locktime: None,
            distance: 0,
            inputs: ByteMap::new(),
            outputs: ByteMap::new(),
            coinbase: Some(coinbase),
            nonce,
        })
    }

    /// `set_time` sets the `Transaction` time, which must be valid now.
    /// The id is to be refreshed by the caller.
    pub fn set_time(&mut self, time: Timestamp) -> (r: Result<()>)
        ensures
            exists|now: Timestamp| #[trigger] plausible_now(now) && (r is Ok <==> timestamp_ok_at(time, now)),
            match r {
                Ok(()) => *final(self) == (Transaction { time, ..*old(self) }),
                Err(e) => e is InvalidTimestamp && *final(self) == *old(self),
            },
    {
        let now = Timestamp::now();
        time.validate_at(now)?;
        self.time = time;
        Ok(())
    }

    /// `set_locktime` sets the `Transaction` locktime, which must be valid
    /// now and not precede the time. The id is to be refreshed by the
    /// caller.
    pub fn set_locktime(&mut self, locktime: Timestamp) -> (r: Result<()>)
        ensures
            exists|now: Timestamp| #[trigger] plausible_now(now) && (r is Ok <==> timestamp_ok_at(locktime, now)
                && old(self).time.0 <= locktime.0),
            match r {
                Ok(()) => *final(self) == (Transaction { locktime: Some(locktime), ..*old(self) }),
                Err(e) => e is InvalidTimestamp && *final(self) == *old(self),
            },
    {
        let now = Timestamp::now();
        self.set_locktime_at(locktime, now)
    }

    /// `set_locktime_at` sets the `Transaction` locktime, as `set_locktime`
    /// does, checked at the time `now`.
    pub fn set_locktime_at(&mut self, locktime: Timestamp, now: Timestamp) -> (r: Result<()>)
        requires
            plausible_now(now),
        ensures
            r is Ok <==> timestamp_ok_at(locktime, now) && old(self).time.0 <= locktime.0,
            match r {
                Ok(()) => *final(self) == (Transaction { locktime: Some(locktime), ..*old(self) }),
                Err(e) => e is InvalidTimestamp && *final(self) == *old(self),
            },
    {
        locktime.validate_at(now)?;
        if locktime.0 < self.time.0 {
            return Err(Error::InvalidTimestamp);
        }
        self.locktime = Some(locktime);
        Ok(())
    }

    /// Sets the distance, and moves the coinbase to it.
    fn set_distance(&mut self, d: u64, formula_amount: u64) -> (r: Result<()>)
        ensures
            same_header(*old(self), *final(self)),
            final(self).inputs == old(self).inputs,
            distance_set(*old(self), *final(self), d, formula_amount, r),
    {
        self.distance = d;
        let moved = match &self.coinbase {
            Some(coinbase) => Some(coinbase.moved_to(d, formula_amount)),
            None => None,
        };
        match moved {
            Some(Ok(c)) => {
                self.coinbase = Some(c);
                Ok(())
            },
            Some(Err(e)) => Err(e),
            None => Ok(()),
        }
    }

    /// Raises the distance to `d`, where `d` is farther.
    fn raise_distance(&mut self, d: u64, formula_amount: u64) -> (r: Result<()>)
        ensures
            same_header(*old(self), *final(self)),
            final(self).inputs == old(self).inputs,
            distance_raised(*old(self), *final(self), d, formula_amount, r),
    {
        if d > self.distance {
            self.set_distance(d, formula_amount)
        } else {
            Ok(())
        }
    }

    /// `add_input` adds a valid `Input` in the `Transaction`, under its
    /// address, and raises the distance to the input's; `formula_amount` is
    /// the coinbase amount for the new distance where the Riemann zeta
    /// formula applies. The id is to be refreshed by the caller.
    pub fn add_input(&mut self, input: &Input, formula_amount: u64) -> (r: Result<()>)
        ensures
            exists|now: Timestamp| #[trigger] plausible_now(now) && add_input_outcome(*old(self), *final(self), *input, now, formula_amount, r),
    {
        let now = Timestamp::now();
        self.add_input_at(input, formula_amount, now)
    }

    /// `add_input_at` adds an `Input`, as `add_input` does, checked at the
    /// time `now`.
    pub fn add_input_at(&mut self, input: &Input, formula_amount: u64, now: Timestamp) -> (r: Result<()>)
        requires
            plausible_now(now),
        ensures
            add_input_outcome(*old(self), *final(self), *input, now, formula_amount, r),
    {
        input.validate_at(now)?;
        let address = input.address();
        if self.lookup_input(&address) {
            return Err(Error::AlreadyFound);
        }
        self.inputs.insert(address.as_slice(), input.clone());
        assert(self.inputs@.remove(address@) =~= old(self).inputs@.remove(address@));
        self.raise_distance(input.distance, formula_amount)
    }

    /// `update_input` updates an `Input` in the `Transaction`, as
    /// `add_input` adds one, where its address has one already. The id is
    /// to be refreshed by the caller.
    pub fn update_input(&mut self, input: &Input, formula_amount: u64) -> (r: Result<()>)
        ensures
            exists|now: Timestamp| #[trigger] plausible_now(now) && update_input_outcome(*old(self), *final(self), *input, now, formula_amount, r),
    {
        let now = Timestamp::now();
        self.update_input_at(input, formula_amount, now)
    }

    /// `update_input_at` updates an `Input`, as `update_input` does,
    /// checked at the time `now`.
    pub fn update_input_at(&mut self, input: &Input, formula_amount: u64, now: Timestamp) -> (r: Result<()>)
        requires
            plausible_now(now),
        ensures
            update_input_outcome(*old(self), *final(self), *input, now, formula_amount, r),
    {
        input.validate_at(now)?;
        let address = input.address();
        if !self.lookup_input(&address) {
            return Err(Error::NotFound);
        }
        if let Some(current) = self.inputs.get_ref(address.as_slice()) {
            if current.same_as(input) {
                return Ok(());
            }
        }
        self.inputs.insert(address.as_slice(), input.clone());
        assert(self.inputs@.remove(address@) =~= old(self).inputs@.remove(address@));
        self.raise_distance(input.distance, formula_amount)
    }

    /// The greatest of the distance and the distances of the inputs.
    fn max_input_distance(&self) -> (d: u64)
        ensures
            max_distance_of(self.inputs@, self.distance, d),
    {
        let n = self.inputs.len();
        let mut d = self.distance;
        let mut i: usize = 0;
        while i < n
            invariant
                n == self.inputs.items().len(),
                i <= n,
                self.distance <= d,
                forall|j: int| 0 <= j < i ==> (#[trigger] self.inputs.items()[j]).1.distance <= d,
                d == self.distance || exists|j: int| 0 <= j < i && (#[trigger] self.inputs.items()[j]).1.distance == d,
                forall|j: int| #![trigger self.inputs.items()[j]] 0 <= j < self.inputs.items().len() ==> self.inputs@.contains_key(self.inputs.items()[j].0)
                    && self.inputs@[self.inputs.items()[j].0] == self.inputs.items()[j].1,
                forall|k: Seq<u8>| #[trigger] self.inputs@.contains_key(k) ==> exists|j: int| 0 <= j < self.inputs.items().len()
                    && (#[trigger] self.inputs.items()[j]).0 == k,
            decreases n - i,
        {
            let di = self.inputs.value_ref(i).distance;
            if di > d {
                d = di;
            }
            i += 1;
        }
        assert forall|k: Seq<u8>| #[trigger] self.inputs@.contains_key(k) implies self.inputs@[k].distance <= d by {
            let j = choose|j: int| 0 <= j < self.inputs.items().len() && (#[trigger] self.inputs.items()[j]).0 == k;
        }
        proof {
            if d != self.distance {
                let j = choose|j: int| 0 <= j < n && (#[trigger] self.inputs.items()[j]).1.distance == d;
                assert(self.inputs@.contains_key(self.inputs.items()[j].0));
            }
        }
        d
    }

    /// `update_distance` updates the `Transaction` distance to the
    /// farthest of its inputs, and moves the coinbase to it; see
    /// `distance_updated`.
    pub fn update_distance(&mut self, formula_amount: u64) -> (r: Result<()>)
        ensures
            final(self).inputs == old(self).inputs,
            distance_updated(*old(self), old(self).inputs@, *final(self), formula_amount, r),
    {
        if self.is_eve()? {
            return Ok(());
        }
        if self.distance == 0 {
            return Err(Error::InvalidDistance);
        }
        let d = self.max_input_distance();
        self.set_distance(d, formula_amount)
    }

    /// `delete_input` deletes an `Input` from the `Transaction`, and
    /// updates the distance. The id is to be refreshed by the caller.
    pub fn delete_input(&mut self, address: &Address, formula_amount: u64) -> (r: Result<()>)
        ensures
            if !old(self).inputs@.contains_key(address@) {
                (r matches Err(e) && e is NotFound) && *final(self) == *old(self)
            } else {
                final(self).inputs@ == old(self).inputs@.remove(address@) && distance_updated(
                    *old(self),
                    old(self).inputs@.remove(address@),
                    *final(self),
                    formula_amount,
                    r,
                )
            },
    {
        if !self.lookup_input(address) {
            return Err(Error::NotFound);
        }
        self.inputs.remove(address.as_slice());
        self.update_distance(formula_amount)
    }

    /// `set_coinbase` sets the `Transaction` `Coinbase`, paid to `address`,
    /// at the transaction's distance and with the given difficulty;
    /// `formula_amount` is its amount where the Riemann zeta formula
    /// applies.
    pub fn set_coinbase(&mut self, address: &Address, difficulty: u64, formula_amount: u64) -> (r: Result<()>)
        ensures
            r is Ok <==> difficulty != 0 && coinbase_bounds(old(self).distance, difficulty),
            match r {
                Ok(()) => {
                    &&& final(self).coinbase matches Some(c) && c.address@ == address@ && c.distance == old(self).distance
                        && c.difficulty == difficulty && c.amount == (if old(self).distance == 0 {
                        BASE_AMOUNT
                    } else {
                        formula_amount
                    }) && c.nonce == 0 && c.digest@ == Seq::<u8>::empty()
                    &&& *final(self) == (Transaction { coinbase: final(self).coinbase, ..*old(self) })
                },
                Err(e) => *final(self) == *old(self) && if difficulty == 0 {
                    e is InvalidDifficulty
                } else if old(self).distance == 0 {
                    e is InvalidDistance
                } else {
                    e is OutOfBound
                },
            },
    {
        if difficulty == 0 {
            return Err(Error::InvalidDifficulty);
        }
        let coinbase = Coinbase::new(address, self.distance, difficulty, formula_amount)?;
        self.coinbase = Some(coinbase);
        Ok(())
    }

    /// `validate_times` validates the `Transaction` time and locktime at
    /// the current time.
    pub fn validate_times(&self) -> (r: Result<()>)
        ensures
            exists|now: Timestamp| #[trigger] plausible_now(now) && (r is Ok <==> times_ok(*self, now)),
            r matches Err(e) ==> e is InvalidTimestamp,
    {
        let now = Timestamp::now();
        self.validate_times_at(now)
    }

    /// `validate_inputs` validates all the `Input`s in the `Transaction` at
    /// the current time, but for their signatures.
    pub fn validate_inputs(&self) -> (r: Result<()>)
        ensures
            exists|now: Timestamp| #[trigger] plausible_now(now) && (r is Ok <==> inputs_ok(*self, now)),
    {
        let now = Timestamp::now();
        self.validate_inputs_at(now)
    }

    /// `validate_at` validates the `Transaction` at the time `now`: its
    /// version, times, inputs, distance, balance and coinbase. The id and
    /// the signatures are checked by the caller, with the hash and
    /// signature functions.
    pub fn validate_at(&self, now: Timestamp) -> (r: Result<()>)
        requires
            plausible_now(now),
        ensures
            r is Ok <==> transaction_ok(*self, now),
    {
        self.version.validate()?;
        self.validate_times_at(now)?;
        self.validate_inputs_at(now)?;
        self.validate_distance()?;
        self.validate_balance()?;
        self.validate_coinbase()?;
        Ok(())
    }

    /// `validate` validates the `Transaction` at the current time, but for
    /// its id and signatures.
    pub fn validate(&self) -> (r: Result<()>)
        ensures
            exists|now: Timestamp| #[trigger] plausible_now(now) && (r is Ok <==> transaction_ok(*self, now)),
    {
        let now = Timestamp::now();
        self.validate_at(now)
    }
}


/// `b` is the account `a` once the transaction `t` paid it `amount`: its
/// value is the amount, it names the transaction, its locktime is the
/// transaction's, and its counter went up by one.
pub open spec fn account_paid(b: Account, a: Account, t: Transaction, amount: u64) -> bool {
    &&& b.address@ == a.address@
    &&& b.stage == a.stage
    &&& b.timestamp == a.timestamp
    &&& b.locktime == t.locktime
    &&& same_signers(b.signers, a.signers)
    &&& b.value == amount
    &&& b.counter == a.counter + 1
    &&& digest_opt(b.transaction_id) == Some(t.id@)
}

/// What `from_transaction` returns at the time `now`, up to the creation
/// of the input: the errors of the checks of the account and the
/// transaction, in this order, then the output that pays the account.
pub open spec fn from_transaction_checks(a: Account, t: Transaction, now: Timestamp, r: Result<Input>) -> bool {
    if !account_outcome(a, now, Ok(())) {
        r matches Err(e) && account_outcome(a, now, Err(e))
    } else if !transaction_ok(t, now) {
        r is Err
    } else if a.stage != t.stage {
        r matches Err(e) && e is InvalidStage
    } else if a.timestamp.0 > t.time.0 {
        r matches Err(e) && e is InvalidTimestamp
    } else if !t.outputs@.contains_key(a.address@) {
        r matches Err(e) && e is NotFound
    } else {
        let amount = t.outputs@[a.address@].amount;
        match r {
            Ok(i) => account_paid(i.account, a, t, amount) && i.amount == amount && i.distance == t.distance
                && i.signatures@ == Map::<Seq<u8>, Signature>::empty(),
            Err(e) => (e is InvalidDistance && t.distance == 0) || exists|b: Account|
                #![trigger account_outcome(b, now, Err(e))]
                account_paid(b, a, t, amount) && account_outcome(b, now, Err(e)),
        }
    }
}

impl Input {
    /// `from_transaction` creates a new `Input` that spends what the
    /// output of `transaction` paid to `account`, at the transaction's
    /// distance, once both are valid, of the same stage, and the account
    /// does not follow the transaction.
    pub fn from_transaction(account: &Account, transaction: &Transaction) -> (r: Result<Input>)
        requires
            account.counter < u64::MAX,
        ensures
            exists|now: Timestamp| #[trigger] plausible_now(now) && from_transaction_checks(*account, *transaction, now, r),
    {
        let now = Timestamp::now();
        Input::from_transaction_at(account, transaction, now)
    }

    /// `from_transaction_at` creates a new `Input`, as `from_transaction`
    /// does, the account and the transaction checked at the time `now`.
    pub fn from_transaction_at(account: &Account, transaction: &Transaction, now: Timestamp) -> (r: Result<Input>)
        requires
            account.counter < u64::MAX,
            plausible_now(now),
        ensures
            from_transaction_checks(*account, *transaction, now, r),
    {
        account.validate_at(now)?;
        transaction.validate_at(now)?;
        if account.stage != transaction.stage {
            return Err(Error::InvalidStage);
        }
        if account.timestamp.0 > transaction.time.0 {
            return Err(Error::InvalidTimestamp);
        }
        let output = match transaction.outputs.get_ref(account.address.as_slice()) {
            Some(o) => o,
            None => return Err(Error::NotFound),
        };
        let distance = transaction.distance;
        let amount = output.amount;
        let mut paid = account.clone();
        paid.locktime = transaction.locktime;
        paid.update(amount, copy_bytes(transaction.id.as_slice()));
        let res = Input::new_at(&paid, distance, amount, now);
        proof {
            if res is Err {
                let e = res->Err_0;
                if !(e is InvalidDistance && distance == 0) {
                    assert(!(e is InvalidAmount && paid.value < amount));
                    assert(account_outcome(paid, now, Err(e)));
                }
            }
        }
        res
    }
}

impl Transaction {
    /// `validate_id` validates the `Transaction` id against `calc_id`, the
    /// hash of its serialization without the id, computed by the caller.
    pub fn validate_id(&self, calc_id: &Digest) -> (r: Result<()>)
        ensures
            r is Ok <==> self.id@ == calc_id@,
            r matches Err(e) ==> e is InvalidId,
    {
        if !bytes_equal(self.id.as_slice(), calc_id.as_slice()) {
            return Err(Error::InvalidId);
        }
        Ok(())
    }

    /// `validate_input` validates an `Input` in the `Transaction` at the
    /// current time, but for its signatures.
    pub fn validate_input(&self, address: &Address) -> (r: Result<()>)
        ensures
            exists|now: Timestamp| #[trigger] plausible_now(now) && (r is Ok <==> self.inputs@.contains_key(address@) && input_ok(
                *self,
                address@,
                now,
            )),
    {
        let now = Timestamp::now();
        self.validate_input_at(address, now)
    }
}


/// An input of a transaction is consistent with it at `now` and fully
/// signed, with all its signatures found good (`verified`, in key order).
pub open spec fn fully_signed_input_ok(t: Transaction, k: Seq<u8>, now: Timestamp, verified: Seq<bool>) -> bool {
    &&& input_ok(t, k, now)
    &&& input_fully_signed(t.inputs@[k])
    &&& all_verified(t.inputs@[k], verified)
}

/// The results of the verification of the signatures of the `j`th input,
/// in key order; none where the caller gave none.
pub open spec fn verified_of(verified: Seq<Vec<bool>>, j: int) -> Seq<bool> {
    if 0 <= j < verified.len() {
        verified[j]@
    } else {
        Seq::empty()
    }
}

/// Every input of a transaction is consistent with it at `now` and fully
/// signed, with all its signatures found good.
pub open spec fn fully_signed_inputs_ok(t: Transaction, now: Timestamp, verified: Seq<Vec<bool>>) -> bool {
    forall|j: int|
        #![trigger t.inputs.items()[j]]
        0 <= j < t.inputs.items().len() ==> fully_signed_input_ok(t, t.inputs.items()[j].0, now, verified_of(verified, j))
}

/// The checks that `validate_fully_signed_at` makes, the id aside.
pub open spec fn transaction_fully_signed_ok(t: Transaction, now: Timestamp, verified: Seq<Vec<bool>>) -> bool {
    &&& version_valid(t.version@)
    &&& times_ok(t, now)
    &&& fully_signed_inputs_ok(t, now, verified)
    &&& distance_ok(t)
    &&& balance_computable(t)
    &&& balance_of(t) == coinbase_amount_of(t)
    &&& coinbase_ok(t)
}

impl Transaction {
    /// `validate_fully_signed_input_at` validates an `Input` of the
    /// `Transaction` at the time `now`, expecting it to be fully signed;
    /// `verified` holds the results of the verification of its signatures
    /// by the caller, in key order.
    pub fn validate_fully_signed_input_at(&self, address: &Address, now: Timestamp, verified: &[bool]) -> (r: Result<()>)
        requires
            plausible_now(now),
        ensures
            r is Ok <==> self.inputs@.contains_key(address@) && fully_signed_input_ok(*self, address@, now, verified@),
    {
        self.validate_input_at(address, now)?;
        let input = match self.inputs.get_ref(address.as_slice()) {
            Some(input) => input,
            None => return Err(Error::NotFound),
        };
        input.verify_fully_signed(verified)
    }

    /// `validate_fully_signed_input` validates an `Input` of the
    /// `Transaction` at the current time, expecting it to be fully signed.
    pub fn validate_fully_signed_input(&self, address: &Address, verified: &[bool]) -> (r: Result<()>)
        ensures
            exists|now: Timestamp| #[trigger] plausible_now(now) && (r is Ok <==> self.inputs@.contains_key(address@)
                && fully_signed_input_ok(*self, address@, now, verified@)),
    {
        let now = Timestamp::now();
        self.validate_fully_signed_input_at(address, now, verified)
    }

    /// `validate_fully_signed_inputs_at` validates all the `Input`s of the
    /// `Transaction` at the time `now`, expecting them to be fully signed;
    /// `verified` holds, for each input in key order, the results of the
    /// verification of its signatures.
    pub fn validate_fully_signed_inputs_at(&self, now: Timestamp, verified: &Vec<Vec<bool>>) -> (r: Result<()>)
        requires
            plausible_now(now),
        ensures
            r is Ok <==> fully_signed_inputs_ok(*self, now, verified@),
    {
        let n = self.inputs.len();
        let empty: Vec<bool> = Vec::new();
        let mut i: usize = 0;
        while i < n
            invariant
                plausible_now(now),
                n == self.inputs.items().len(),
                i <= n,
                empty@ == Seq::<bool>::empty(),
                forall|j: int|
                    #![trigger self.inputs.items()[j]]
                    0 <= j < i ==> fully_signed_input_ok(*self, self.inputs.items()[j].0, now, verified_of(verified@, j)),
                forall|j: int| #![trigger self.inputs.items()[j]] 0 <= j < self.inputs.items().len() ==> self.inputs@.contains_key(self.inputs.items()[j].0),
            decreases n - i,
        {
            let address = copy_bytes(self.inputs.key_at(i));
            let checks: &[bool] = if i < verified.len() {
                verified[i].as_slice()
            } else {
                empty.as_slice()
            };
            assert(checks@ == verified_of(verified@, i as int));
            let r = self.validate_fully_signed_input_at(&address, now, checks);
            if r.is_err() {
                assert(!fully_signed_input_ok(*self, self.inputs.items()[i as int].0, now, verified_of(verified@, i as int)));
                return r;
            }
            i += 1;
        }
        Ok(())
    }

    /// `validate_fully_signed_inputs` validates all the `Input`s of the
    /// `Transaction` at the current time, expecting them to be fully
    /// signed, as `validate_fully_signed_inputs_at` does.
    pub fn validate_fully_signed_inputs(&self, verified: &Vec<Vec<bool>>) -> (r: Result<()>)
        ensures
            exists|now: Timestamp| #[trigger] plausible_now(now) && (r is Ok <==> fully_signed_inputs_ok(*self, now, verified@)),
    {
        let now = Timestamp::now();
        self.validate_fully_signed_inputs_at(now, verified)
    }

    /// `validate_fully_signed_at` validates the `Transaction` at the time
    /// `now`, expecting it to be fully signed: `calc_id` is the hash of its
    /// serialization without the id, and `verified` the results of the
    /// verification of the signatures, both computed by the caller.
    pub fn validate_fully_signed_at(&self, now: Timestamp, calc_id: &Digest, verified: &Vec<Vec<bool>>) -> (r: Result<()>)
        requires
            plausible_now(now),
        ensures
            r is Ok <==> self.id@ == calc_id@ && transaction_fully_signed_ok(*self, now, verified@),
    {
        self.validate_id(calc_id)?;
        self.version.validate()?;
        self.validate_times_at(now)?;
        self.validate_fully_signed_inputs_at(now, verified)?;
        self.validate_distance()?;
        self.validate_balance()?;
        self.validate_coinbase()?;
        Ok(())
    }

    /// `validate_fully_signed` validates the `Transaction` at the current
    /// time, expecting it to be fully signed.
    pub fn validate_fully_signed(&self, calc_id: &Digest, verified: &Vec<Vec<bool>>) -> (r: Result<()>)
        ensures
            exists|now: Timestamp| #[trigger] plausible_now(now) && (r is Ok <==> self.id@ == calc_id@ && transaction_fully_signed_ok(
                *self,
                now,
                verified@,
            )),
    {
        let now = Timestamp::now();
        self.validate_fully_signed_at(now, calc_id, verified)
    }
}

} // verus!
