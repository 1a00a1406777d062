//! The networking of the ledger: its error type, messages and transports.

pub mod error;
pub mod factory;
pub mod message;
pub mod tcp;
pub mod traits;
