//! The node model.

use crate::bytes::copy_bytes;
use crate::models::error::Result;
use crate::models::stage::Stage;
use crate::models::timestamp::{plausible_now, timestamp_ok_at, Timestamp};
use vstd::prelude::*;

verus! {

broadcast use crate::models::timestamp::lemma_plausible_now_bounds;

/// Type representing a node in the distributed ledger network.
#[derive(PartialEq, Eq, PartialOrd, Ord, Debug, Default, Hash)]
pub struct Node {
    pub address: Vec<u8>,
    pub stage: Stage,
    pub last_seen: Timestamp,
}

impl Node {
    /// Creates a new `Node`, last seen now.
    pub fn new(address: &[u8], stage: Stage) -> (r: Node)
        ensures
            r.address@ == address@,
            r.stage == stage,
            plausible_now(r.last_seen),
    {
        Node { address: copy_bytes(address), stage, last_seen: Timestamp::now() }
    }

    /// `validate_at` validates the `Node` at the time `now`.
    pub fn validate_at(&self, now: Timestamp) -> (r: Result<()>)
        requires
            plausible_now(now),
        ensures
            r is Ok <==> timestamp_ok_at(self.last_seen, now),
            r matches Err(e) ==> e is InvalidTimestamp,
    {
        self.last_seen.validate_at(now)
    }

    /// `validate` validates the `Node`: its last sighting must not precede
    /// `MIN_DATETIME` nor follow the current time by more than the time
    /// noise.
    pub fn validate(&self) -> (r: Result<()>)
        ensures
            r is Err ==> r->Err_0 is InvalidTimestamp,
            exists|now: Timestamp| #[trigger] plausible_now(now) && (r is Ok <==> timestamp_ok_at(self.last_seen, now)),
    {
        self.last_seen.validate()
    }
}

/// Two nodes hold the same data.
pub open spec fn same_node(a: Node, b: Node) -> bool {
    a.address@ == b.address@ && a.stage == b.stage && a.last_seen == b.last_seen
}

impl Clone for Node {
    /// A copy of the node.
    fn clone(&self) -> (r: Node)
        ensures
            same_node(r, *self),
    {
        Node { address: copy_bytes(self.address.as_slice()), stage: self.stage, last_seen: self.last_seen }
    }
}

} // verus!
