//! The error type of the ledger models.

use crate::store::error::{spec_message as store_message, Error as StoreError};
use vstd::prelude::*;
use vstd::string::StringExecFns;

verus! {

/// Errors raised by the ledger models.
#[derive(Clone, Debug)]
pub enum Error {
    IO { msg: String },
    Chrono { msg: String },
    Regex { msg: String },
    Parse { msg: String },
    Crypto { msg: String },
    Mining { msg: String },
    Store { msg: String },
    OutOfBound,
    NoRegexMatch,
    InvalidVersion,
    InvalidStage,
    InvalidTimestamp,
    InvalidId,
    InvalidPublicKey,
    InvalidSignature,
    InvalidChecksum,
    NotImplemented,
    AlreadyFound,
    NotFound,
    InvalidBalance,
    InvalidFee,
    InvalidAddress,
    InvalidDistance,
    InvalidDifficulty,
    InvalidCoinbase,
    InvalidThreshold,
    InvalidAmount,
    InvalidInput,
    InvalidAccount,
    InvalidLength,
    InvalidMessage,
    InvalidTransaction,
    InvalidTransactions,
    NotSigned,
    NotFullySigned,
}

/// The human readable text of an `Error`.
pub open spec fn spec_message(e: Error) -> Seq<char> {
    match e {
        Error::IO { msg } => "IO: "@ + msg@,
        Error::Chrono { msg } => "Chrono: "@ + msg@,
        Error::Regex { msg } => "Regex: "@ + msg@,
        Error::Parse { msg } => "Parse: "@ + msg@,
        Error::Crypto { msg } => "Crypto: "@ + msg@,
        Error::Mining { msg } => "Mining: "@ + msg@,
        Error::Store { msg } => "Store: "@ + msg@,
        Error::OutOfBound => "Out of bound"@,
        Error::NoRegexMatch => "No regex match"@,
        Error::InvalidVersion => "Invalid version"@,
        Error::InvalidStage => "Invalid stage"@,
        Error::InvalidTimestamp => "Invalid timestamp"@,
        Error::InvalidId => "Invalid id"@,
        Error::InvalidPublicKey => "Invalid public key"@,
        Error::InvalidSignature => "Invalid signature"@,
        Error::InvalidChecksum => "Invalid checksum"@,
        Error::NotImplemented => "Not implemented"@,
        Error::AlreadyFound => "Already found"@,
        Error::NotFound => "Not found"@,
        Error::InvalidBalance => "Invalid balance"@,
        Error::InvalidFee => "Invalid fee"@,
        Error::InvalidAddress => "Invalid address"@,
        Error::InvalidDistance => "Invalid distance"@,
        Error::InvalidDifficulty => "Invalid difficulty"@,
        Error::InvalidCoinbase => "Invalid coinbase"@,
        Error::InvalidThreshold => "Invalid threshold"@,
        Error::InvalidAmount => "Invalid amount"@,
        Error::InvalidInput => "Invalid input"@,
        Error::InvalidAccount => "Invalid account"@,
        Error::InvalidLength => "Invalid length"@,
        Error::InvalidMessage => "Invalid message"@,
        Error::InvalidTransaction => "Invalid transaction"@,
        Error::InvalidTransactions => "Invalid transactions"@,
        Error::NotSigned => "Not signed"@,
        Error::NotFullySigned => "Not fully signed"@,
    }
}

fn prefixed(prefix: &str, msg: &String) -> (r: String)
    ensures
        r@ == prefix@ + msg@,
{
    String::from_str(prefix).concat(msg.as_str())
}

impl Error {
    /// The `Error` that a store error becomes in the models.
    pub fn from_store(e: &StoreError) -> (r: Error)
        ensures
            r matches Error::Store { msg } && msg@ == store_message(*e),
    {
        Error::Store { msg: e.message() }
    }

    /// Returns the human readable text of the `Error`.
    pub fn message(&self) -> (r: String)
        ensures
            r@ == spec_message(*self),
    {
        match self {
            Error::IO { msg } => prefixed("IO: ", msg),
            Error::Chrono { msg } => prefixed("Chrono: ", msg),
            Error::Regex { msg } => prefixed("Regex: ", msg),
            Error::Parse { msg } => prefixed("Parse: ", msg),
            Error::Crypto { msg } => prefixed("Crypto: ", msg),
            Error::Mining { msg } => prefixed("Mining: ", msg),
            Error::Store { msg } => prefixed("Store: ", msg),
            Error::OutOfBound => String::from_str("Out of bound"),
            Error::NoRegexMatch => String::from_str("No regex match"),
            Error::InvalidVersion => String::from_str("Invalid version"),
            Error::InvalidStage => String::from_str("Invalid stage"),
            Error::InvalidTimestamp => String::from_str("Invalid timestamp"),
            Error::InvalidId => String::from_str("Invalid id"),
            Error::InvalidPublicKey => String::from_str("Invalid public key"),
            Error::InvalidSignature => String::from_str("Invalid signature"),
            Error::InvalidChecksum => String::from_str("Invalid checksum"),
            Error::NotImplemented => String::from_str("Not implemented"),
            Error::AlreadyFound => String::from_str("Already found"),
            Error::NotFound => String::from_str("Not found"),
            Error::InvalidBalance => String::from_str("Invalid balance"),
            Error::InvalidFee => String::from_str("Invalid fee"),
            Error::InvalidAddress => String::from_str("Invalid address"),
            Error::InvalidDistance => String::from_str("Invalid distance"),
            Error::InvalidDifficulty => String::from_str("Invalid difficulty"),
            Error::InvalidCoinbase => String::from_str("Invalid coinbase"),
            Error::InvalidThreshold => String::from_str("Invalid threshold"),
            Error::InvalidAmount => String::from_str("Invalid amount"),
            Error::InvalidInput => String::from_str("Invalid input"),
            Error::InvalidAccount => String::from_str("Invalid account"),
            Error::InvalidLength => String::from_str("Invalid length"),
            Error::InvalidMessage => String::from_str("Invalid message"),
            Error::InvalidTransaction => String::from_str("Invalid transaction"),
            Error::InvalidTransactions => String::from_str("Invalid transactions"),
            Error::NotSigned => String::from_str("Not signed"),
            Error::NotFullySigned => String::from_str("Not fully signed"),
        }
    }
}

/// The `Result` type of the ledger models.
pub type Result<T> = core::result::Result<T, Error>;

} // verus!
