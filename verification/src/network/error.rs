//! The error type of the network.

use crate::models::error::{spec_message as model_message, Error as ModelError};
use crate::store::error::{spec_message as store_message, Error as StoreError};
use vstd::prelude::*;
use vstd::string::StringExecFns;

verus! {

/// Errors raised by the network.
#[derive(Clone, Debug)]
pub enum Error {
    IO { msg: String },
    Crypto { msg: String },
    Mining { msg: String },
    Store { msg: String },
    Model { msg: String },
    Parse { msg: String },
    InvalidId,
    InvalidLength,
    InvalidKind,
    NotImplemented,
    NotAllowed,
    AlreadyFound,
    NotFound,
    InvalidAddress,
}

/// The human readable text of an `Error`.
pub open spec fn spec_message(e: Error) -> Seq<char> {
    match e {
        Error::IO { msg } => "IO: "@ + msg@,
        Error::Crypto { msg } => "Crypto: "@ + msg@,
        Error::Mining { msg } => "Mining: "@ + msg@,
        Error::Store { msg } => "Store: "@ + msg@,
        Error::Model { msg } => "Model: "@ + msg@,
        Error::Parse { msg } => "Parse: "@ + msg@,
        Error::InvalidId => "Invalid id"@,
        Error::InvalidLength => "Invalid length"@,
        Error::InvalidKind => "Invalid kind"@,
        Error::NotImplemented => "Not implemented"@,
        Error::NotAllowed => "Not allowed"@,
        Error::AlreadyFound => "Already found"@,
        Error::NotFound => "Not found"@,
        Error::InvalidAddress => "Invalid address"@,
    }
}

fn prefixed(prefix: &str, msg: &String) -> (r: String)
    ensures
        r@ == prefix@ + msg@,
{
    String::from_str(prefix).concat(msg.as_str())
}

impl Error {
    /// The `Error` that a store error becomes in the network.
    pub fn from_store(e: &StoreError) -> (r: Error)
        ensures
            r matches Error::Store { msg } && msg@ == store_message(*e),
    {
        Error::Store { msg: e.message() }
    }

    /// The `Error` that a model error becomes in the network.
    pub fn from_model(e: &ModelError) -> (r: Error)
        ensures
            r matches Error::Model { msg } && msg@ == model_message(*e),
    {
        Error::Model { msg: e.message() }
    }

    /// Returns the human readable text of the `Error`.
    pub fn message(&self) -> (r: String)
        ensures
            r@ == spec_message(*self),
    {
        match self {
            Error::IO { msg } => prefixed("IO: ", msg),
            Error::Crypto { msg } => prefixed("Crypto: ", msg),
            Error::Mining { msg } => prefixed("Mining: ", msg),
            Error::Store { msg } => prefixed("Store: ", msg),
            Error::Model { msg } => prefixed("Model: ", msg),
            Error::Parse { msg } => prefixed("Parse: ", msg),
            Error::InvalidId => String::from_str("Invalid id"),
            Error::InvalidLength => String::from_str("Invalid length"),
            Error::InvalidKind => String::from_str("Invalid kind"),
            Error::NotImplemented => String::from_str("Not implemented"),
            Error::NotAllowed => String::from_str("Not allowed"),
            Error::AlreadyFound => String::from_str("Already found"),
            Error::NotFound => String::from_str("Not found"),
            Error::InvalidAddress => String::from_str("Invalid address"),
        }
    }
}

/// The `Result` type of the network.
pub type Result<T> = core::result::Result<T, Error>;

} // verus!
