//! Ledger models.

pub mod account;
pub mod address;
pub mod coinbase;
pub mod conflict_set;
pub mod consensus_message;
pub mod consensus_params;
pub mod consensus_state;
pub mod error;
pub mod input;
pub mod laws;
pub mod node;
pub mod output;
pub mod semver;
pub mod signers;
pub mod stage;
pub mod storage;
pub mod timestamp;
pub mod traits;
pub mod transaction;
pub mod utils;
pub mod version;
pub mod wallet;
