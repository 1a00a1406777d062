//! The error type of the protocol.

use crate::models::error::{spec_message as model_message, Error as ModelError};
use vstd::prelude::*;
use vstd::string::StringExecFns;

verus! {

/// Errors raised by the protocol.
#[derive(Clone, Debug)]
pub enum Error {
    IO { msg: String },
    Config { msg: String },
    Log { msg: String },
    Crypto { msg: String },
    Mining { msg: String },
    Store { msg: String },
    Model { msg: String },
    Network { msg: String },
    Thread { msg: String },
    AlreadyMined,
    InvalidAccount,
    InvalidAddress,
    InvalidId,
    InvalidLength,
    InvalidMessage,
    InvalidNode,
    InvalidStage,
    NotFound,
}

/// The human readable text of an `Error`.
pub open spec fn spec_message(e: Error) -> Seq<char> {
    match e {
        Error::IO { msg } => "IO: "@ + msg@,
        Error::Config { msg } => "Config: "@ + msg@,
        Error::Log { msg } => "Log: "@ + msg@,
        Error::Crypto { msg } => "Crypto: "@ + msg@,
        Error::Mining { msg } => "Mining: "@ + msg@,
        Error::Store { msg } => "Store: "@ + msg@,
        Error::Model { msg } => "Model: "@ + msg@,
        Error::Network { msg } => "Network: "@ + msg@,
        Error::Thread { msg } => "Thread: "@ + msg@,
        Error::AlreadyMined => "Already mined"@,
        Error::InvalidAccount => "Invalid account"@,
        Error::InvalidAddress => "Invalid address"@,
        Error::InvalidId => "Invalid id"@,
        Error::InvalidLength => "Invalid length"@,
        Error::InvalidMessage => "Invalid message"@,
        Error::InvalidNode => "Invalid node"@,
        Error::InvalidStage => "Invalid stage"@,
        Error::NotFound => "Not found"@,
    }
}

fn prefixed(prefix: &str, msg: &String) -> (r: String)
    ensures
        r@ == prefix@ + msg@,
{
    String::from_str(prefix).concat(msg.as_str())
}

impl Error {
    /// The `Error` that a model error becomes in the protocol.
    pub fn from_model(e: &ModelError) -> (r: Error)
        ensures
            r matches Error::Model { msg } && msg@ == model_message(*e),
    {
        Error::Model { msg: e.message() }
    }

    /// Returns the human readable text of the `Error`.
    pub fn message(&self) -> (r: String)
        ensures
            r@ == spec_message(*self),
    {
        match self {
            Error::IO { msg } => prefixed("IO: ", msg),
            Error::Config { msg } => prefixed("Config: ", msg),
            Error::Log { msg } => prefixed("Log: ", msg),
            Error::Crypto { msg } => prefixed("Crypto: ", msg),
            Error::Mining { msg } => prefixed("Mining: ", msg),
            Error::Store { msg } => prefixed("Store: ", msg),
            Error::Model { msg } => prefixed("Model: ", msg),
            Error::Network { msg } => prefixed("Network: ", msg),
            Error::Thread { msg } => prefixed("Thread: ", msg),
            Error::AlreadyMined => String::from_str("Already mined"),
            Error::InvalidAccount => String::from_str("Invalid account"),
            Error::InvalidAddress => String::from_str("Invalid address"),
            Error::InvalidId => String::from_str("Invalid id"),
            Error::InvalidLength => String::from_str("Invalid length"),
            Error::InvalidMessage => String::from_str("Invalid message"),
            Error::InvalidNode => String::from_str("Invalid node"),
            Error::InvalidStage => String::from_str("Invalid stage"),
            Error::NotFound => String::from_str("Not found"),
        }
    }
}

} // verus!
