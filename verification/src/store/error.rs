//! The error type of the stores.

use vstd::prelude::*;
use vstd::string::StringExecFns;

verus! {

/// Errors raised by the stores.
#[derive(Clone, Debug)]
pub enum Error {
    IO { msg: String },
    Store { msg: String },
    NotImplemented,
    NotAllowed,
    InvalidKey,
    InvalidValue,
    InvalidRange,
    InvalidLength,
    InvalidSize,
    InvalidPath,
    InvalidKind,
    NotFound,
    AlreadyFound,
}

/// The human readable text of an `Error`.
pub open spec fn spec_message(e: Error) -> Seq<char> {
    match e {
        Error::IO { msg } => "IO: "@ + msg@,
        Error::Store { msg } => "Store: "@ + msg@,
        Error::NotImplemented => "Not implemented"@,
        Error::NotAllowed => "Not allowed"@,
        Error::InvalidKey => "Invalid key"@,
        Error::InvalidValue => "Invalid value"@,
        Error::InvalidRange => "Invalid range"@,
        Error::InvalidLength => "Invalid length"@,
        Error::InvalidSize => "Invalid size"@,
        Error::InvalidPath => "Invalid path"@,
        Error::InvalidKind => "Invalid kind"@,
        Error::NotFound => "Not found"@,
        Error::AlreadyFound => "Already found"@,
    }
}

fn prefixed(prefix: &str, msg: &String) -> (r: String)
    ensures
        r@ == prefix@ + msg@,
{
    String::from_str(prefix).concat(msg.as_str())
}

impl Error {
    /// Returns the human readable text of the `Error`.
    pub fn message(&self) -> (r: String)
        ensures
            r@ == spec_message(*self),
    {
        match self {
            Error::IO { msg } => prefixed("IO: ", msg),
            Error::Store { msg } => prefixed("Store: ", msg),
            Error::NotImplemented => String::from_str("Not implemented"),
            Error::NotAllowed => String::from_str("Not allowed"),
            Error::InvalidKey => String::from_str("Invalid key"),
            Error::InvalidValue => String::from_str("Invalid value"),
            Error::InvalidRange => String::from_str("Invalid range"),
            Error::InvalidLength => String::from_str("Invalid length"),
            Error::InvalidSize => String::from_str("Invalid size"),
            Error::InvalidPath => String::from_str("Invalid path"),
            Error::InvalidKind => String::from_str("Invalid kind"),
            Error::NotFound => String::from_str("Not found"),
            Error::AlreadyFound => String::from_str("Already found"),
        }
    }
}

/// The `Result` type of the stores.
pub type Result<T> = core::result::Result<T, Error>;

} // verus!
