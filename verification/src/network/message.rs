//! The network message.

use crate::bytes::{bytes_equal, copy_bytes};
use crate::models::consensus_message::{message_node, message_outcome, ConsensusMessage};
use crate::models::error::Error as ModelError;
use crate::models::timestamp::{plausible_now, Timestamp};
use crate::network::error::Error;
use vstd::prelude::*;

verus! {

broadcast use crate::models::timestamp::lemma_plausible_now_bounds;

/// `Message` is the network message used in the crate: the address of the
/// node it comes from or goes to, and its data.
#[derive(Clone, PartialEq, Eq, Debug)]
pub struct Message {
    pub address: Vec<u8>,
    pub data: Vec<u8>,
}

impl Message {
    /// `from_consensus_message` creates a `Message` from a valid
    /// `ConsensusMessage`, serialized as `data` by the caller: the message
    /// goes to the address of the message's node.
    pub fn from_consensus_message(cons_msg: &ConsensusMessage, data: Vec<u8>) -> (r: Result<Message, Error>)
        ensures
            exists|now: Timestamp| #[trigger] plausible_now(now) && match r {
                Ok(m) => message_outcome(*cons_msg, now, Ok(())) && m.address@ == message_node(*cons_msg).address@ && m.data
                    == data,
                Err(e) => e is Model && exists|me: ModelError| message_outcome(*cons_msg, now, Err(me)),
            },
    {
        let now = Timestamp::now();
        if let Err(e) = cons_msg.check_at(now) {
            return Err(Error::from_model(&e));
        }
        let node = cons_msg.node();
        Ok(Message { address: copy_bytes(node.address.as_slice()), data })
    }

    /// `to_consensus_message` checks the `ConsensusMessage` that the data
    /// of the `Message` holds, decoded by the caller: it must be valid and
    /// come from the address of the `Message`.
    pub fn to_consensus_message(&self, cons_msg: ConsensusMessage) -> (r: Result<ConsensusMessage, Error>)
        ensures
            exists|now: Timestamp| #[trigger] plausible_now(now) && match r {
                Ok(m) => m == cons_msg && message_outcome(cons_msg, now, Ok(())) && message_node(cons_msg).address@
                    == self.address@,
                Err(e) => if !message_outcome(cons_msg, now, Ok(())) {
                    e is Model
                } else {
                    e is InvalidAddress && message_node(cons_msg).address@ != self.address@
                },
            },
    {
        let now = Timestamp::now();
        self.to_consensus_message_at(cons_msg, now)
    }

    /// `to_consensus_message_at` checks, as `to_consensus_message` does,
    /// the `ConsensusMessage` that the data of the `Message` holds, at the
    /// time `now`.
    pub fn to_consensus_message_at(&self, cons_msg: ConsensusMessage, now: Timestamp) -> (r: Result<ConsensusMessage, Error>)
        requires
            plausible_now(now),
        ensures
            match r {
                Ok(m) => m == cons_msg && message_outcome(cons_msg, now, Ok(())) && message_node(cons_msg).address@
                    == self.address@,
                Err(e) => if !message_outcome(cons_msg, now, Ok(())) {
                    e is Model
                } else {
                    e is InvalidAddress && message_node(cons_msg).address@ != self.address@
                },
            },
    {
        if let Err(e) = cons_msg.check_at(now) {
            return Err(Error::from_model(&e));
        }
        if !bytes_equal(cons_msg.node().address.as_slice(), self.address.as_slice()) {
            return Err(Error::InvalidAddress);
        }
        Ok(cons_msg)
    }
}

} // verus!
