//! The choice of the network that a node runs.

use crate::network::error::{Error, Result};
use crate::text::str_eq;
use vstd::prelude::*;
use vstd::string::StringExecFns;

verus! {

/// `NetworkFactory` is the factory for network types.
pub struct NetworkFactory;

impl NetworkFactory {
    /// `create` decides the address that the network of a given kind
    /// listens on: the consensus, miner or client address of the
    /// configuration; any other kind is refused.
    pub fn create(kind: &str, consensus_address: &str, miner_address: &str, client_address: &str) -> (r:
        Result<String>)
        ensures
            match r {
                Ok(addr) => (kind@ == "consensus"@ && addr@ == consensus_address@) || (kind@
                    == "miner"@ && addr@ == miner_address@) || (kind@ == "client"@ && addr@
                    == client_address@),
                Err(e) => e is InvalidKind && kind@ != "consensus"@ && kind@ != "miner"@ && kind@
                    != "client"@,
            },
    {
        if str_eq(kind, "consensus") {
            Ok(String::from_str(consensus_address))
        } else if str_eq(kind, "miner") {
            Ok(String::from_str(miner_address))
        } else if str_eq(kind, "client") {
            Ok(String::from_str(client_address))
        } else {
            Err(Error::InvalidKind)
        }
    }
}

} // verus!
