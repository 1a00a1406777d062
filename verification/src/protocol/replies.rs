//! The decisions of the network protocol on the messages between nodes:
//! the replies that a node builds to the requests it gets, the replies
//! that it accepts to its own requests, and how many replies it waits for.
//! Sending, receiving and reading the stores are left to the caller.

use crate::bytes::{bytes_equal, copy_bytes};
use crate::collections::ByteSet;
use crate::models::consensus_message::{
    collect_node_ids, collect_tx_ids, message_node, message_outcome, node_ids, nodes_ok, tx_ids, tx_mined, ConsensusMessage,
};
use crate::models::node::Node;
use crate::models::stage::Stage;
use crate::models::timestamp::{plausible_now, timestamp_ok_at, Timestamp};
use crate::models::transaction::{transaction_ok, Transaction};
use crate::protocol::error::Error;
use crate::protocol::result::Result;
use vstd::prelude::*;

verus! {

broadcast use crate::models::timestamp::lemma_plausible_now_bounds;

/// What replying with `txs` to the request `request_id` of the node at
/// `requester` gives at the time `now`: a `PushTransactions` message from
/// `own`, once the transactions are valid.
pub open spec fn push_transactions_outcome(
    own: Seq<u8>,
    stage: Stage,
    requester: Seq<u8>,
    request_id: u64,
    txs: Seq<Transaction>,
    now: Timestamp,
    r: Result<ConsensusMessage>,
) -> bool {
    &&& (r is Ok <==> timestamp_ok_at(now, now) && forall|i: int| 0 <= i < txs.len() ==> transaction_ok(#[trigger] txs[i], now))
    &&& match r {
        Ok(m) => m matches ConsensusMessage::PushTransactions { id, address, node, time, count, ids, transactions }
            && id == request_id + 1 && address@ == own && node.address@ == requester && node.stage == stage
            && node.last_seen == now && time == now && transactions@ == txs && ids@ == tx_ids(txs) && count
            == ids@.len() as u32,
        Err(e) => e is Model,
    }
}

/// What replying with `nodes` to the request `request_id` of the node at
/// `requester` gives at the time `now`: a `PushNodes` message from `own`,
/// once the nodes are valid.
pub open spec fn push_nodes_outcome(
    own: Seq<u8>,
    stage: Stage,
    requester: Seq<u8>,
    request_id: u64,
    found: Seq<Node>,
    now: Timestamp,
    r: Result<ConsensusMessage>,
) -> bool {
    &&& (r is Ok <==> timestamp_ok_at(now, now) && nodes_ok(found, now))
    &&& match r {
        Ok(m) => m matches ConsensusMessage::PushNodes { id, address, node, time, count, ids, nodes }
            && id == request_id + 1 && address@ == own && node.address@ == requester && node.stage == stage
            && node.last_seen == now && time == now && nodes@ == found && ids@ == node_ids(found) && count
            == ids@.len() as u32,
        Err(e) => e is Model,
    }
}

/// `push_transactions_reply` builds, at the time `now`, the
/// `PushTransactions` message that answers the request `request_id` of
/// the node at `requester` with `transactions`.
pub fn push_transactions_reply(
    own_address: &[u8],
    stage: Stage,
    requester: &[u8],
    request_id: u64,
    transactions: Vec<Transaction>,
    now: Timestamp,
) -> (r: Result<ConsensusMessage>)
    requires
        plausible_now(now),
        request_id < u64::MAX,
    ensures
        push_transactions_outcome(own_address@, stage, requester@, request_id, transactions@, now, r),
{
    let node = Node { address: copy_bytes(requester), stage, last_seen: now };
    if let Err(e) = node.validate_at(now) {
        return Err(Error::from_model(&e));
    }
    let mut i: usize = 0;
    while i < transactions.len()
        invariant
            plausible_now(now),
            i <= transactions@.len(),
            forall|j: int| 0 <= j < i ==> transaction_ok(#[trigger] transactions@[j], now),
        decreases transactions@.len() - i,
    {
        if let Err(e) = transactions[i].validate_at(now) {
            assert(!transaction_ok(transactions@[i as int], now));
            return Err(Error::from_model(&e));
        }
        i += 1;
    }
    let ids = collect_tx_ids(&transactions);
    let count = ids.len() as u32;
    Ok(ConsensusMessage::PushTransactions {
        id: request_id + 1,
        address: copy_bytes(own_address),
        node,
        time: now,
        count,
        ids,
        transactions,
    })
}

/// `push_nodes_reply` builds, at the time `now`, the `PushNodes` message
/// that answers the request `request_id` of the node at `requester` with
/// `nodes`.
pub fn push_nodes_reply(
    own_address: &[u8],
    stage: Stage,
    requester: &[u8],
    request_id: u64,
    nodes: Vec<Node>,
    now: Timestamp,
) -> (r: Result<ConsensusMessage>)
    requires
        plausible_now(now),
        request_id < u64::MAX,
    ensures
        push_nodes_outcome(own_address@, stage, requester@, request_id, nodes@, now, r),
{
    let node = Node { address: copy_bytes(requester), stage, last_seen: now };
    if let Err(e) = node.validate_at(now) {
        return Err(Error::from_model(&e));
    }
    let mut i: usize = 0;
    while i < nodes.len()
        invariant
            plausible_now(now),
            i <= nodes@.len(),
            forall|j: int| 0 <= j < i ==> timestamp_ok_at(#[trigger] nodes@[j].last_seen, now),
        decreases nodes@.len() - i,
    {
        if let Err(e) = nodes[i].validate_at(now) {
            assert(!timestamp_ok_at(nodes@[i as int].last_seen, now));
            return Err(Error::from_model(&e));
        }
        i += 1;
    }
    let ids = collect_node_ids(&nodes);
    let count = ids.len() as u32;
    Ok(ConsensusMessage::PushNodes { id: request_id + 1, address: copy_bytes(own_address), node, time: now, count, ids, nodes })
}

/// `fetch_transactions_reply` answers, at the time `now`, a request for
/// transactions with those of them that the store holds, `found`: the
/// request must be valid, a `FetchTransactions` message, and addressed to
/// this node.
pub fn fetch_transactions_reply(
    own_address: &[u8],
    stage: Stage,
    msg: &ConsensusMessage,
    found: Vec<Transaction>,
    now: Timestamp,
) -> (r: Result<ConsensusMessage>)
    requires
        plausible_now(now),
        msg.id_of() < u64::MAX,
    ensures
        if !message_outcome(*msg, now, Ok(())) {
            r matches Err(e) && e is Model
        } else if !(msg is FetchTransactions) {
            r matches Err(e) && e is InvalidMessage
        } else if message_node(*msg).address@ != own_address@ {
            r matches Err(e) && e is InvalidAddress
        } else {
            *msg matches ConsensusMessage::FetchTransactions { address, id, .. } && push_transactions_outcome(
                own_address@,
                stage,
                address@,
                id,
                found@,
                now,
                r,
            )
        },
{
    if let Err(e) = msg.check_at(now) {
        return Err(Error::from_model(&e));
    }
    match msg {
        ConsensusMessage::FetchTransactions { address, id, node, .. } => {
            if !bytes_equal(node.address.as_slice(), own_address) {
                return Err(Error::InvalidAddress);
            }
            push_transactions_reply(own_address, stage, address.as_slice(), *id, found, now)
        },
        _ => Err(Error::InvalidMessage),
    }
}

/// `fetch_nodes_reply` answers, at the time `now`, a request for nodes with
/// those of them that the store holds, `found`: the request must be valid,
/// a `FetchNodes` message, and addressed to this node.
pub fn fetch_nodes_reply(own_address: &[u8], stage: Stage, msg: &ConsensusMessage, found: Vec<Node>, now: Timestamp) -> (r: Result<
    ConsensusMessage,
>)
    requires
        plausible_now(now),
        msg.id_of() < u64::MAX,
    ensures
        if !message_outcome(*msg, now, Ok(())) {
            r matches Err(e) && e is Model
        } else if !(msg is FetchNodes) {
            r matches Err(e) && e is InvalidMessage
        } else if message_node(*msg).address@ != own_address@ {
            r matches Err(e) && e is InvalidAddress
        } else {
            *msg matches ConsensusMessage::FetchNodes { address, id, .. } && push_nodes_outcome(
                own_address@,
                stage,
                address@,
                id,
                found@,
                now,
                r,
            )
        },
{
    if let Err(e) = msg.check_at(now) {
        return Err(Error::from_model(&e));
    }
    match msg {
        ConsensusMessage::FetchNodes { address, id, node, .. } => {
            if !bytes_equal(node.address.as_slice(), own_address) {
                return Err(Error::InvalidAddress);
            }
            push_nodes_reply(own_address, stage, address.as_slice(), *id, found, now)
        },
        _ => Err(Error::InvalidMessage),
    }
}

/// `mine_request_check` checks, at the time `now`, a request to mine
/// transactions before they are mined: the request must be valid, a `Mine`
/// message addressed to this node, and none of its transactions mined
/// already. The mined transactions are then sent back with
/// `push_transactions_reply`.
pub fn mine_request_check(own_address: &[u8], msg: &ConsensusMessage, now: Timestamp) -> (r: Result<()>)
    requires
        plausible_now(now),
    ensures
        if !message_outcome(*msg, now, Ok(())) {
            r matches Err(e) && e is Model
        } else if !(msg is Mine) {
            r matches Err(e) && e is InvalidMessage
        } else if message_node(*msg).address@ != own_address@ {
            r matches Err(e) && e is InvalidAddress
        } else {
            *msg matches ConsensusMessage::Mine { transactions, .. } && (r is Ok <==> forall|i: int|
                0 <= i < transactions@.len() ==> transaction_ok(#[trigger] transactions@[i], now) && !tx_mined(
                    transactions@[i],
                )) && (r matches Err(e) ==> e is Model || e is AlreadyMined)
        },
{
    if let Err(e) = msg.check_at(now) {
        return Err(Error::from_model(&e));
    }
    match msg {
        ConsensusMessage::Mine { node, transactions, .. } => {
            if !bytes_equal(node.address.as_slice(), own_address) {
                return Err(Error::InvalidAddress);
            }
            let mut i: usize = 0;
            while i < transactions.len()
                invariant
                    plausible_now(now),
                    message_outcome(*msg, now, Ok(())),
                    message_node(*msg).address@ == own_address@,
                    *msg matches ConsensusMessage::Mine { transactions: t, .. } && t == *transactions,
                    i <= transactions@.len(),
                    forall|j: int| 0 <= j < i ==> transaction_ok(#[trigger] transactions@[j], now) && !tx_mined(transactions@[j]),
                decreases transactions@.len() - i,
            {
                if let Err(e) = transactions[i].validate_at(now) {
                    assert(!transaction_ok(transactions@[i as int], now));
                    return Err(Error::from_model(&e));
                }
                if transactions[i].is_mined() {
                    assert(tx_mined(transactions@[i as int]));
                    return Err(Error::AlreadyMined);
                }
                i += 1;
            }
            Ok(())
        },
        _ => Err(Error::InvalidMessage),
    }
}

/// A reply answers the request `request_id` of this node: a valid message
/// of the expected kind, sent to this node, with the next id.
pub open spec fn accepted_reply(reply: ConsensusMessage, own: Seq<u8>, request_id: u64, push_transactions: bool) -> bool {
    &&& if push_transactions {
        reply is PushTransactions
    } else {
        reply is PushNodes
    }
    &&& message_node(reply).address@ == own
    &&& reply.id_of() == request_id + 1
}

/// `accepts_reply` tells whether `reply` answers the request `request_id`
/// of this node, at `own_address`: a `PushTransactions` message where
/// `push_transactions` holds, else a `PushNodes` one, sent to this node,
/// with the next id. A reply that is not valid at the current time is an
/// error.
pub fn accepts_reply(reply: &ConsensusMessage, own_address: &[u8], request_id: u64, push_transactions: bool) -> (r: Result<bool>)
    requires
        request_id < u64::MAX,
    ensures
        exists|now: Timestamp| #[trigger] plausible_now(now) && match r {
            Ok(b) => message_outcome(*reply, now, Ok(())) && b == accepted_reply(*reply, own_address@, request_id, push_transactions),
            Err(e) => e is Model && !message_outcome(*reply, now, Ok(())),
        },
{
    let now = Timestamp::now();
    accepts_reply_at(reply, own_address, request_id, push_transactions, now)
}

/// `accepts_reply_at` tells, as `accepts_reply` does, whether `reply`
/// answers the request `request_id` of this node, the reply validated at
/// the time `now`.
pub fn accepts_reply_at(reply: &ConsensusMessage, own_address: &[u8], request_id: u64, push_transactions: bool, now: Timestamp) -> (r:
    Result<bool>)
    requires
        request_id < u64::MAX,
        plausible_now(now),
    ensures
        match r {
            Ok(b) => message_outcome(*reply, now, Ok(())) && b == accepted_reply(*reply, own_address@, request_id, push_transactions),
            Err(e) => e is Model && !message_outcome(*reply, now, Ok(())),
        },
{
    if let Err(e) = reply.check_at(now) {
        return Err(Error::from_model(&e));
    }
    let kind = match reply {
        ConsensusMessage::PushTransactions { .. } => push_transactions,
        ConsensusMessage::PushNodes { .. } => !push_transactions,
        _ => false,
    };
    Ok(kind && bytes_equal(reply.node().address.as_slice(), own_address) && reply.id() == request_id + 1)
}

/// The ids that a `PushTransactions` or `PushNodes` message carries.
pub open spec fn pushed_ids(m: ConsensusMessage) -> Option<Set<Seq<u8>>> {
    match m {
        ConsensusMessage::PushTransactions { ids, .. } => Some(ids@),
        ConsensusMessage::PushNodes { ids, .. } => Some(ids@),
        _ => None,
    }
}

/// The count that a `PushTransactions` or `PushNodes` message gives.
pub open spec fn pushed_count(m: ConsensusMessage) -> Option<u32> {
    match m {
        ConsensusMessage::PushTransactions { count, .. } => Some(count),
        ConsensusMessage::PushNodes { count, .. } => Some(count),
        _ => None,
    }
}

/// `accepts_pushed_ids` tells whether an accepted reply to a request for
/// the transactions or nodes `requested` carries only ids that were
/// requested. A reply that pushes neither is an `InvalidMessage`.
pub fn accepts_pushed_ids(reply: &ConsensusMessage, requested: &ByteSet) -> (r: Result<bool>)
    ensures
        match r {
            Ok(b) => pushed_ids(*reply) matches Some(ids) && b == ids.subset_of(requested@),
            Err(e) => e is InvalidMessage && pushed_ids(*reply) is None,
        },
{
    match reply {
        ConsensusMessage::PushTransactions { ids, .. } => Ok(ids.is_subset_of(requested)),
        ConsensusMessage::PushNodes { ids, .. } => Ok(ids.is_subset_of(requested)),
        _ => Err(Error::InvalidMessage),
    }
}

/// `accepts_pushed_count` tells whether an accepted reply to a request for
/// `requested` random transactions or nodes gives no more than were
/// requested. A reply that pushes neither is an `InvalidMessage`.
pub fn accepts_pushed_count(reply: &ConsensusMessage, requested: u32) -> (r: Result<bool>)
    ensures
        match r {
            Ok(b) => pushed_count(*reply) matches Some(c) && b == (c <= requested),
            Err(e) => e is InvalidMessage && pushed_count(*reply) is None,
        },
{
    match reply {
        ConsensusMessage::PushTransactions { count, .. } => Ok(*count <= requested),
        ConsensusMessage::PushNodes { count, .. } => Ok(*count <= requested),
        _ => Err(Error::InvalidMessage),
    }
}

/// What a reply to the query `query_id` about the transaction `tx_id`
/// gives, once valid: the chit of a `Reply` with the next id, sent to this
/// node, about that transaction; `InvalidId` for another id or another
/// transaction, `InvalidAddress` for another node, and `InvalidMessage`
/// for another kind of message.
pub open spec fn reply_chit_outcome(reply: ConsensusMessage, own: Seq<u8>, query_id: u64, tx_id: Seq<u8>, r: Result<bool>) -> bool {
    match reply {
        ConsensusMessage::Reply { id, node, tx_id: t, chit, .. } => if id != query_id + 1 {
            r matches Err(e) && e is InvalidId
        } else if node.address@ != own {
            r matches Err(e) && e is InvalidAddress
        } else if t@ != tx_id {
            r matches Err(e) && e is InvalidId
        } else {
            r == Ok::<bool, Error>(chit)
        },
        _ => r matches Err(e) && e is InvalidMessage,
    }
}

/// `reply_chit_at` reads, at the time `now`, the chit that `reply` gives
/// to the query `query_id` of this node, at `own_address`, about the
/// transaction `tx_id`: the reply must be valid, and answer that query.
pub fn reply_chit_at(reply: &ConsensusMessage, own_address: &[u8], query_id: u64, tx_id: &[u8], now: Timestamp) -> (r: Result<bool>)
    requires
        plausible_now(now),
        query_id < u64::MAX,
    ensures
        if !message_outcome(*reply, now, Ok(())) {
            r matches Err(e) && e is Model
        } else {
            reply_chit_outcome(*reply, own_address@, query_id, tx_id@, r)
        },
{
    if let Err(e) = reply.check_at(now) {
        return Err(Error::from_model(&e));
    }
    match reply {
        ConsensusMessage::Reply { id, node, tx_id: t, chit, .. } => {
            if *id != query_id + 1 {
                return Err(Error::InvalidId);
            }
            if !bytes_equal(node.address.as_slice(), own_address) {
                return Err(Error::InvalidAddress);
            }
            if !bytes_equal(t.as_slice(), tx_id) {
                return Err(Error::InvalidId);
            }
            Ok(*chit)
        },
        _ => Err(Error::InvalidMessage),
    }
}

/// `query_reply_at` answers, at the time `now`, a query of another node
/// with the chit that this node gives to the queried transaction, `chit`:
/// the query must be valid, a `Query` message, and addressed to this node;
/// the answer is a `Reply` to the node that sent the query, with the next
/// id.
pub fn query_reply_at(own_address: &[u8], stage: Stage, msg: &ConsensusMessage, chit: bool, now: Timestamp) -> (r: Result<
    ConsensusMessage,
>)
    requires
        plausible_now(now),
        msg.id_of() < u64::MAX,
    ensures
        if !message_outcome(*msg, now, Ok(())) {
            r matches Err(e) && e is Model
        } else if !(msg is Query) {
            r matches Err(e) && e is InvalidMessage
        } else if message_node(*msg).address@ != own_address@ {
            r matches Err(e) && e is InvalidAddress
        } else {
            *msg matches ConsensusMessage::Query { address, id, transaction, .. } && (r is Ok <==> timestamp_ok_at(now, now)
                && transaction.id@ != address@) && match r {
                Ok(m) => m matches ConsensusMessage::Reply { id: rid, address: a, node, time, tx_id, chit: c }
                    && rid == id + 1 && a@ == own_address@ && node.address@ == address@ && node.stage == stage
                    && node.last_seen == now && time == now && tx_id@ == transaction.id@ && c == chit,
                Err(e) => e is Model,
            }
        },
{
    if let Err(e) = msg.check_at(now) {
        return Err(Error::from_model(&e));
    }
    match msg {
        ConsensusMessage::Query { address, id, node, transaction, .. } => {
            if !bytes_equal(node.address.as_slice(), own_address) {
                return Err(Error::InvalidAddress);
            }
            let requester = Node { address: copy_bytes(address.as_slice()), stage, last_seen: now };
            match ConsensusMessage::new_reply_at(own_address, *id, &requester, copy_bytes(transaction.id.as_slice()), chit, now) {
                Ok(m) => Ok(m),
                Err(e) => Err(Error::from_model(&e)),
            }
        },
        _ => Err(Error::InvalidMessage),
    }
}

/// `fallback_node_ok` tells whether a node drawn at random can be asked
/// for missing ancestors in place of a sampled node that failed: it is
/// neither this node, at `own_address`, nor one of the sampled nodes, whose
/// addresses are `sampled`.
pub fn fallback_node_ok(own_address: &[u8], sampled: &ByteSet, candidate: &Node) -> (r: bool)
    ensures
        r == (candidate.address@ != own_address@ && !sampled@.contains(candidate.address@)),
{
    !bytes_equal(candidate.address.as_slice(), own_address) && !sampled.contains(candidate.address.as_slice())
}

/// What waiting for a reply does next: handle the reply, wait for another
/// one, or give up.
pub enum FetchAction {
    Handle,
    Receive,
    GiveUp,
}

/// `first_fetch_step` starts to wait for replies, with `max_retries`
/// tries, one where none is configured: it waits where it has a try, else
/// it gives up at once.
pub fn first_fetch_step(max_retries: Option<u32>) -> (r: (u32, FetchAction))
    ensures
        r.0 == match max_retries {
            Some(n) => n,
            None => 1,
        },
        r.1 is Receive <==> r.0 > 0,
        r.1 is GiveUp <==> r.0 == 0,
{
    let tries = match max_retries {
        Some(n) => n,
        None => 1,
    };
    if tries > 0 {
        (tries, FetchAction::Receive)
    } else {
        (tries, FetchAction::GiveUp)
    }
}

/// `next_fetch_step` takes a received reply, with `tries` tries left: an
/// accepted reply is handled; another one costs a try, and once none is
/// left the wait is given up.
pub fn next_fetch_step(tries: u32, accepted: bool) -> (r: (u32, FetchAction))
    requires
        tries > 0,
    ensures
        accepted ==> r.0 == tries && r.1 is Handle,
        !accepted ==> r.0 == tries - 1 && (r.1 is Receive <==> r.0 > 0) && (r.1 is GiveUp <==> r.0 == 0),
        r.0 <= tries,
{
    if accepted {
        (tries, FetchAction::Handle)
    } else if tries > 1 {
        (tries - 1, FetchAction::Receive)
    } else {
        (0, FetchAction::GiveUp)
    }
}

} // verus!
