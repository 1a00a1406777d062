//! Alsacoin: a distributed ledger built around the Avalanche consensus.
//!
//! The crate holds the ledger models, the in-memory store and the
//! network message types, each with its contract proved by Verus.

pub mod bytes;
pub mod collections;
pub mod text;
pub mod models;
pub mod network;
pub mod protocol;
pub mod store;
