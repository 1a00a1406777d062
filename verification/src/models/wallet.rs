//! The wallet of a user: its key pair, its stage, when it was made, and the
//! checksum of its other fields.
//!
//! Making keys, signing and checksums are the work of the cryptographic
//! functions, which the caller runs; the store keeps the wallets.

use crate::models::address::Digest;
use crate::models::stage::Stage;
use crate::models::timestamp::Timestamp;
use vstd::prelude::*;

verus! {

/// `Wallet` is the wallet of a user, identified by its public key.
#[derive(Clone, PartialEq, Eq, PartialOrd, Ord, Debug)]
pub struct Wallet {
    pub public_key: Vec<u8>,
    pub secret_key: Vec<u8>,
    pub stage: Stage,
    pub time: Timestamp,
    pub checksum: Digest,
}

} // verus!
