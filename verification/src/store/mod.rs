//! The key-value stores of the ledger.

pub mod btree_store;
pub mod error;
pub mod factory;
pub mod items;
pub mod laws;
pub mod memory;
pub mod traits;
