//! Digests and addresses.

use vstd::prelude::*;

verus! {

/// A `Digest` is the hash of a value, as bytes.
pub type Digest = Vec<u8>;

/// `Address` is the address of an Alsacoin `Account`: the `Digest` that
/// identifies it.
pub type Address = Digest;

/// A `PublicKey` is the public key of a signer, as bytes.
pub type PublicKey = Vec<u8>;

/// A `Signature` is the signature of a message by a signer.
pub type Signature = [u8; 64];

/// The bytes that an optional digest holds.
pub open spec fn digest_opt(o: Option<Digest>) -> Option<Seq<u8>> {
    match o {
        Some(d) => Some(d@),
        None => None,
    }
}

} // verus!
