//! The outputs of a transaction.

use crate::bytes::copy_bytes;
use crate::models::address::Address;
use crate::models::error::{Error, Result};
use vstd::prelude::*;

verus! {

/// `Output` is an output in an Alsacoin `Transaction`.
#[derive(PartialEq, Eq, PartialOrd, Ord, Debug, Default)]
pub struct Output {
    pub address: Address,
    pub amount: u64,
    pub custom_len: u32,
    pub custom: Vec<u8>,
}

/// Two outputs hold the same data.
pub open spec fn same_output(a: Output, b: Output) -> bool {
    &&& a.address@ == b.address@
    &&& a.amount == b.amount
    &&& a.custom_len == b.custom_len
    &&& a.custom@ == b.custom@
}

impl Clone for Output {
    /// A copy of the output.
    fn clone(&self) -> (r: Output)
        ensures
            same_output(r, *self),
    {
        Output::new(&self.address, self.amount, self.custom.as_slice()).with_len(self.custom_len)
    }
}

impl Output {
    /// The output with the given custom length.
    fn with_len(self, custom_len: u32) -> (r: Output)
        ensures
            r.address == self.address,
            r.amount == self.amount,
            r.custom_len == custom_len,
            r.custom == self.custom,
    {
        Output { custom_len, ..self }
    }

    /// `new` creates a new `Output`; its custom length is that of `custom`,
    /// kept in a `u32`.
    pub fn new(address: &Address, amount: u64, custom: &[u8]) -> (r: Output)
        ensures
            r.address@ == address@,
            r.amount == amount,
            r.custom_len == custom@.len() as u32,
            r.custom@ == custom@,
    {
        Output {
            address: copy_bytes(address.as_slice()),
            amount,
            custom_len: custom.len() as u32,
            custom: copy_bytes(custom),
        }
    }

    /// `validate` validates the `Output`: its custom length must be the
    /// length of its custom data.
    pub fn validate(&self) -> (r: Result<()>)
        ensures
            r is Ok <==> self.custom@.len() == self.custom_len,
            r matches Err(e) ==> e is InvalidLength,
    {
        if self.custom.len() != self.custom_len as usize {
            return Err(Error::InvalidLength);
        }
        Ok(())
    }
}

} // verus!
