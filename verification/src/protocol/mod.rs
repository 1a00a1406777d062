//! The consensus protocol of the ledger: the decisions of the Avalanche
//! consensus and of the network protocol, its error type and the handling
//! of the results of its steps.

pub mod common;
pub mod consensus;
pub mod error;
pub mod replies;
pub mod laws;
pub mod result;
pub mod state;
