//! The messages of the Avalanche consensus.
//!
//! The id of a node is its address. The nodes and transactions that a
//! message carries are kept in the order they were given.

use crate::bytes::{bytes_equal, copy_bytes};
use crate::collections::ByteSet;
use crate::models::address::Digest;
use crate::models::error::{Error, Result};
use crate::models::node::{same_node, Node};
use crate::models::timestamp::{plausible_now, timestamp_ok_at, Timestamp};
use crate::models::transaction::{transaction_ok, Transaction};
use vstd::prelude::*;

verus! {

broadcast use crate::models::timestamp::lemma_plausible_now_bounds;

/// `ConsensusMessage` is the type representing a consensus message type.
#[derive(PartialEq, Eq, Debug)]
pub enum ConsensusMessage {
    FetchNodes { id: u64, address: Vec<u8>, node: Node, time: Timestamp, count: u32, ids: ByteSet },
    FetchRandomNodes { id: u64, address: Vec<u8>, node: Node, time: Timestamp, count: u32 },
    PushNodes {
        id: u64,
        address: Vec<u8>,
        node: Node,
        count: u32,
        time: Timestamp,
        ids: ByteSet,
        nodes: Vec<Node>,
    },
    FetchTransactions { id: u64, address: Vec<u8>, node: Node, time: Timestamp, count: u32, ids: ByteSet },
    FetchRandomTransactions { id: u64, address: Vec<u8>, node: Node, time: Timestamp, count: u32 },
    PushTransactions {
        id: u64,
        address: Vec<u8>,
        node: Node,
        time: Timestamp,
        count: u32,
        ids: ByteSet,
        transactions: Vec<Transaction>,
    },
    Mine {
        id: u64,
        address: Vec<u8>,
        node: Node,
        time: Timestamp,
        count: u32,
        ids: ByteSet,
        transactions: Vec<Transaction>,
    },
    Query { id: u64, address: Vec<u8>, node: Node, time: Timestamp, transaction: Transaction },
    Reply { id: u64, address: Vec<u8>, node: Node, time: Timestamp, tx_id: Digest, chit: bool },
}

/// A mined transaction holds a mining proof in its coinbase.
pub open spec fn tx_mined(t: Transaction) -> bool {
    t.coinbase matches Some(c) && c.digest@.len() != 0
}

/// Every node is acceptable at `now`.
pub open spec fn nodes_ok(nodes: Seq<Node>, now: Timestamp) -> bool {
    forall|i: int| 0 <= i < nodes.len() ==> timestamp_ok_at(#[trigger] nodes[i].last_seen, now)
}

/// The ids of nodes: their addresses.
pub open spec fn node_ids(nodes: Seq<Node>) -> Set<Seq<u8>> {
    Set::new(|id: Seq<u8>| exists|i: int| 0 <= i < nodes.len() && (#[trigger] nodes[i]).address@ == id)
}

/// Every transaction passes `validate_at`, and none is mined where the
/// message asks for transactions to mine.
pub open spec fn txs_ok(txs: Seq<Transaction>, now: Timestamp, unmined: bool) -> bool {
    forall|i: int| 0 <= i < txs.len() ==> transaction_ok(#[trigger] txs[i], now) && (unmined ==> !tx_mined(txs[i]))
}

/// The ids of transactions.
pub open spec fn tx_ids(txs: Seq<Transaction>) -> Set<Seq<u8>> {
    Set::new(|id: Seq<u8>| exists|i: int| 0 <= i < txs.len() && (#[trigger] txs[i]).id@ == id)
}

/// The node and the time of a message are acceptable at `now`.
pub open spec fn header_ok(node: Node, time: Timestamp, now: Timestamp) -> bool {
    timestamp_ok_at(node.last_seen, now) && timestamp_ok_at(time, now)
}

/// What the validation of a request for ids returns at `now`.
pub open spec fn fetch_outcome(node: Node, time: Timestamp, count: u32, ids: Set<Seq<u8>>, now: Timestamp, r: Result<()>) -> bool {
    match r {
        Ok(()) => header_ok(node, time, now) && ids.len() as u32 == count && !ids.contains(node.address@),
        Err(e) => if !header_ok(node, time, now) {
            e is InvalidTimestamp
        } else if ids.len() as u32 != count {
            e is InvalidLength
        } else {
            e is InvalidId && ids.contains(node.address@)
        },
    }
}

/// What the validation of a `PushNodes` message returns at `now`.
pub open spec fn push_nodes_outcome(node: Node, time: Timestamp, count: u32, ids: Set<Seq<u8>>, nodes: Seq<Node>, now: Timestamp, r: Result<()>) -> bool {
    match r {
        Ok(()) => {
            &&& header_ok(node, time, now)
            &&& nodes_ok(nodes, now)
            &&& !ids.contains(node.address@)
            &&& ids.len() as u32 == count
            &&& ids.len() == nodes.len()
            &&& ids == node_ids(nodes)
        },
        Err(e) => if !header_ok(node, time, now) || !nodes_ok(nodes, now) {
            e is InvalidTimestamp
        } else if ids.contains(node.address@) {
            e is InvalidId
        } else if ids.len() as u32 != count || ids.len() != nodes.len() {
            e is InvalidLength
        } else {
            e is InvalidTransactions && ids != node_ids(nodes)
        },
    }
}

/// What the validation of a message that carries transactions returns at
/// `now`; `unmined` tells whether they must not be mined.
pub open spec fn push_txs_outcome(node: Node, time: Timestamp, count: u32, ids: Set<Seq<u8>>, txs: Seq<Transaction>, unmined: bool, now: Timestamp, r: Result<()>) -> bool {
    match r {
        Ok(()) => {
            &&& header_ok(node, time, now)
            &&& txs_ok(txs, now, unmined)
            &&& !ids.contains(node.address@)
            &&& ids.len() as u32 == count
            &&& txs.len() as u32 == count
            &&& ids == tx_ids(txs)
        },
        Err(e) => if !header_ok(node, time, now) {
            e is InvalidTimestamp
        } else if !txs_ok(txs, now, unmined) {
            true
        } else if ids.contains(node.address@) {
            e is InvalidId
        } else if ids.len() as u32 != count || txs.len() as u32 != count {
            e is InvalidLength
        } else {
            e is InvalidTransactions && ids != tx_ids(txs)
        },
    }
}

/// What the validation of a message returns at `now`.
pub open spec fn message_outcome(m: ConsensusMessage, now: Timestamp, r: Result<()>) -> bool {
    match m {
        ConsensusMessage::FetchNodes { node, time, count, ids, .. } => fetch_outcome(node, time, count, ids@, now, r),
        ConsensusMessage::FetchRandomNodes { node, time, .. } => (r is Ok <==> header_ok(node, time, now)) && (r matches Err(
            e,
        ) ==> e is InvalidTimestamp),
        ConsensusMessage::PushNodes { node, time, count, ids, nodes, .. } => push_nodes_outcome(
            node,
            time,
            count,
            ids@,
            nodes@,
            now,
            r,
        ),
        ConsensusMessage::FetchTransactions { node, time, count, ids, .. } => fetch_outcome(node, time, count, ids@, now, r),
        ConsensusMessage::FetchRandomTransactions { node, time, .. } => (r is Ok <==> header_ok(node, time, now)) && (r matches Err(
            e,
        ) ==> e is InvalidTimestamp),
        ConsensusMessage::PushTransactions { node, time, count, ids, transactions, .. } => push_txs_outcome(
            node,
            time,
            count,
            ids@,
            transactions@,
            false,
            now,
            r,
        ),
        ConsensusMessage::Mine { node, time, count, ids, transactions, .. } => push_txs_outcome(
            node,
            time,
            count,
            ids@,
            transactions@,
            true,
            now,
            r,
        ),
        ConsensusMessage::Query { node, time, transaction, .. } => (r is Ok <==> header_ok(node, time, now) && transaction_ok(
            transaction,
            now,
        )) && (!header_ok(node, time, now) ==> (r matches Err(e) && e is InvalidTimestamp)),
        ConsensusMessage::Reply { node, time, tx_id, .. } => match r {
            Ok(()) => header_ok(node, time, now) && tx_id@ != node.address@,
            Err(e) => if !header_ok(node, time, now) {
                e is InvalidTimestamp
            } else {
                e is InvalidId && tx_id@ == node.address@
            },
        },
    }
}

/// The validation of one kind of message: `InvalidMessage` for a message
/// of another kind.
pub open spec fn kind_outcome(m: ConsensusMessage, kind: int, now: Timestamp, r: Result<()>) -> bool {
    if message_kind(m) == kind {
        message_outcome(m, now, r)
    } else {
        r matches Err(e) && e is InvalidMessage
    }
}

/// The kind of a message, by the order of the variants.
pub open spec fn message_kind(m: ConsensusMessage) -> int {
    match m {
        ConsensusMessage::FetchNodes { .. } => 0,
        ConsensusMessage::FetchRandomNodes { .. } => 1,
        ConsensusMessage::PushNodes { .. } => 2,
        ConsensusMessage::FetchTransactions { .. } => 3,
        ConsensusMessage::FetchRandomTransactions { .. } => 4,
        ConsensusMessage::PushTransactions { .. } => 5,
        ConsensusMessage::Mine { .. } => 6,
        ConsensusMessage::Query { .. } => 7,
        ConsensusMessage::Reply { .. } => 8,
    }
}

/// The node and the time of a message, at `now`.
fn check_header(node: &Node, time: Timestamp, now: Timestamp) -> (r: Result<()>)
    requires
        plausible_now(now),
    ensures
        r is Ok <==> header_ok(*node, time, now),
        r matches Err(e) ==> e is InvalidTimestamp,
{
    node.validate_at(now)?;
    time.validate_at(now)
}

/// Every node is acceptable at `now`.
fn check_nodes(nodes: &Vec<Node>, now: Timestamp) -> (r: Result<()>)
    requires
        plausible_now(now),
    ensures
        r is Ok <==> nodes_ok(nodes@, now),
        r matches Err(e) ==> e is InvalidTimestamp,
{
    let mut i: usize = 0;
    while i < nodes.len()
        invariant
            plausible_now(now),
            i <= nodes@.len(),
            forall|j: int| 0 <= j < i ==> timestamp_ok_at(#[trigger] nodes@[j].last_seen, now),
        decreases nodes@.len() - i,
    {
        nodes[i].validate_at(now)?;
        i += 1;
    }
    Ok(())
}

/// The ids of the nodes.
pub(crate) fn collect_node_ids(nodes: &Vec<Node>) -> (r: ByteSet)
    ensures
        r@ == node_ids(nodes@),
{
    let mut ids = ByteSet::new();
    let mut i: usize = 0;
    while i < nodes.len()
        invariant
            i <= nodes@.len(),
            ids@ == node_ids(nodes@.take(i as int)),
        decreases nodes@.len() - i,
    {
        ids.insert(nodes[i].address.as_slice());
        proof {
            assert(ids@ =~= node_ids(nodes@.take(i + 1))) by {
                assert forall|id: Seq<u8>| ids@.contains(id) == node_ids(nodes@.take(i + 1)).contains(id) by {
                    if id == nodes@[i as int].address@ {
                        assert(nodes@.take(i + 1)[i as int] == nodes@[i as int]);
                    }
                    if node_ids(nodes@.take(i + 1)).contains(id) {
                        let j = choose|j: int| 0 <= j < i + 1 && (#[trigger] nodes@.take(i + 1)[j]).address@ == id;
                        if j < i {
                            assert(nodes@.take(i as int)[j] == nodes@.take(i + 1)[j]);
                        }
                    }
                    if node_ids(nodes@.take(i as int)).contains(id) {
                        let j = choose|j: int| 0 <= j < i && (#[trigger] nodes@.take(i as int)[j]).address@ == id;
                        assert(nodes@.take(i as int)[j] == nodes@.take(i + 1)[j]);
                    }
                }
            }
        }
        i += 1;
    }
    assert(nodes@.take(nodes@.len() as int) =~= nodes@);
    ids
}

/// Every transaction passes `validate_at`, and none is mined where
/// `unmined` asks for it.
fn check_transactions(txs: &Vec<Transaction>, now: Timestamp, unmined: bool) -> (r: Result<()>)
    requires
        plausible_now(now),
    ensures
        r is Ok <==> txs_ok(txs@, now, unmined),
{
    let mut i: usize = 0;
    while i < txs.len()
        invariant
            plausible_now(now),
            i <= txs@.len(),
            forall|j: int| 0 <= j < i ==> transaction_ok(#[trigger] txs@[j], now) && (unmined ==> !tx_mined(txs@[j])),
        decreases txs@.len() - i,
    {
        txs[i].validate_at(now)?;
        if unmined && txs[i].is_mined() {
            return Err(Error::InvalidTransaction);
        }
        i += 1;
    }
    Ok(())
}

/// The ids of the transactions.
pub(crate) fn collect_tx_ids(txs: &Vec<Transaction>) -> (r: ByteSet)
    ensures
        r@ == tx_ids(txs@),
{
    let mut ids = ByteSet::new();
    let mut i: usize = 0;
    while i < txs.len()
        invariant
            i <= txs@.len(),
            ids@ == tx_ids(txs@.take(i as int)),
        decreases txs@.len() - i,
    {
        ids.insert(txs[i].id.as_slice());
        proof {
            assert(ids@ =~= tx_ids(txs@.take(i + 1))) by {
                assert forall|id: Seq<u8>| ids@.contains(id) == tx_ids(txs@.take(i + 1)).contains(id) by {
                    if id == txs@[i as int].id@ {
                        assert(txs@.take(i + 1)[i as int] == txs@[i as int]);
                    }
                    if tx_ids(txs@.take(i + 1)).contains(id) {
                        let j = choose|j: int| 0 <= j < i + 1 && (#[trigger] txs@.take(i + 1)[j]).id@ == id;
                        if j < i {
                            assert(txs@.take(i as int)[j] == txs@.take(i + 1)[j]);
                        }
                    }
                    if tx_ids(txs@.take(i as int)).contains(id) {
                        let j = choose|j: int| 0 <= j < i && (#[trigger] txs@.take(i as int)[j]).id@ == id;
                        assert(txs@.take(i as int)[j] == txs@.take(i + 1)[j]);
                    }
                }
            }
        }
        i += 1;
    }
    assert(txs@.take(txs@.len() as int) =~= txs@);
    ids
}

/// The checks of a request for ids, at `now`.
fn check_fetch(node: &Node, time: Timestamp, count: u32, ids: &ByteSet, now: Timestamp) -> (r: Result<()>)
    requires
        plausible_now(now),
    ensures
        fetch_outcome(*node, time, count, ids@, now, r),
{
    check_header(node, time, now)?;
    if ids.len() as u32 != count {
        return Err(Error::InvalidLength);
    }
    if ids.contains(node.address.as_slice()) {
        return Err(Error::InvalidId);
    }
    Ok(())
}

/// The checks of a `PushNodes` message, at `now`.
fn check_push_nodes(node: &Node, time: Timestamp, count: u32, ids: &ByteSet, nodes: &Vec<Node>, now: Timestamp) -> (r:
    Result<()>)
    requires
        plausible_now(now),
    ensures
        push_nodes_outcome(*node, time, count, ids@, nodes@, now, r),
{
    check_header(node, time, now)?;
    check_nodes(nodes, now)?;
    if ids.contains(node.address.as_slice()) {
        return Err(Error::InvalidId);
    }
    if ids.len() as u32 != count {
        return Err(Error::InvalidLength);
    }
    if ids.len() != nodes.len() {
        return Err(Error::InvalidLength);
    }
    let found_ids = collect_node_ids(nodes);
    if !ids.same_members(&found_ids) {
        return Err(Error::InvalidTransactions);
    }
    Ok(())
}

/// The checks of a message that carries transactions, at `now`.
fn check_push_txs(node: &Node, time: Timestamp, count: u32, ids: &ByteSet, txs: &Vec<Transaction>, unmined: bool, now: Timestamp) -> (r:
    Result<()>)
    requires
        plausible_now(now),
    ensures
        push_txs_outcome(*node, time, count, ids@, txs@, unmined, now, r),
{
    check_header(node, time, now)?;
    check_transactions(txs, now, unmined)?;
    if ids.contains(node.address.as_slice()) {
        return Err(Error::InvalidId);
    }
    if ids.len() as u32 != count {
        return Err(Error::InvalidLength);
    }
    if txs.len() as u32 != count {
        return Err(Error::InvalidLength);
    }
    let found_ids = collect_tx_ids(txs);
    if !ids.same_members(&found_ids) {
        return Err(Error::InvalidTransactions);
    }
    Ok(())
}

/// A copy of the nodes.
fn copy_nodes(nodes: &Vec<Node>) -> (r: Vec<Node>)
    ensures
        r@.len() == nodes@.len(),
        forall|i: int| 0 <= i < nodes@.len() ==> same_node(#[trigger] r@[i], nodes@[i]),
{
    let mut r: Vec<Node> = Vec::new();
    let mut i: usize = 0;
    while i < nodes.len()
        invariant
            i <= nodes@.len(),
            r@.len() == i,
            forall|j: int| 0 <= j < i ==> same_node(#[trigger] r@[j], nodes@[j]),
        decreases nodes@.len() - i,
    {
        r.push(nodes[i].clone());
        i += 1;
    }
    r
}

/// Nodes that hold the same data have the same ids.
proof fn lemma_same_node_ids(a: Seq<Node>, b: Seq<Node>)
    requires
        a.len() == b.len(),
        forall|i: int| 0 <= i < a.len() ==> same_node(#[trigger] a[i], b[i]),
    ensures
        node_ids(a) == node_ids(b),
        forall|now: Timestamp| nodes_ok(a, now) <==> #[trigger] nodes_ok(b, now),
{
    assert forall|id: Seq<u8>| node_ids(a).contains(id) == node_ids(b).contains(id) by {
        if node_ids(a).contains(id) {
            let j = choose|j: int| 0 <= j < a.len() && (#[trigger] a[j]).address@ == id;
            assert(same_node(a[j], b[j]));
        }
        if node_ids(b).contains(id) {
            let j = choose|j: int| 0 <= j < b.len() && (#[trigger] b[j]).address@ == id;
            assert(same_node(a[j], b[j]));
        }
    }
    assert(node_ids(a) =~= node_ids(b));
    assert forall|now: Timestamp| nodes_ok(a, now) <==> #[trigger] nodes_ok(b, now) by {
        if nodes_ok(a, now) {
            assert forall|i: int| 0 <= i < b.len() implies timestamp_ok_at(#[trigger] b[i].last_seen, now) by {
                assert(same_node(a[i], b[i]));
            }
        }
        if nodes_ok(b, now) {
            assert forall|i: int| 0 <= i < a.len() implies timestamp_ok_at(#[trigger] a[i].last_seen, now) by {
                assert(same_node(a[i], b[i]));
            }
        }
    }
}

impl ConsensusMessage {
    /// `new_fetch_nodes` creates a new `FetchNodes` `ConsensusMessage`,
    /// whose id `id` was drawn at random by the caller.
    pub fn new_fetch_nodes(address: &[u8], node: &Node, ids: &ByteSet, id: u64) -> (r: Result<ConsensusMessage>)
        ensures
            exists|now: Timestamp|
                #[trigger] plausible_now(now) && (r is Ok <==> timestamp_ok_at(node.last_seen, now) && !ids@.contains(
                    node.address@,
                )) && match r {
                    Ok(m) => m matches ConsensusMessage::FetchNodes { id: mid, address: a, node: n, time, count, ids: s }
                        && mid == id && a@ == address@ && same_node(n, *node) && plausible_now(time) && count
                        == ids@.len() as u32 && s@ == ids@,
                    Err(e) => if !timestamp_ok_at(node.last_seen, now) {
                        e is InvalidTimestamp
                    } else {
                        e is InvalidId
                    },
                },
    {
        let now = Timestamp::now();
        Self::new_fetch_nodes_at(address, node, ids, id, now)
    }

    /// `new_fetch_nodes_at` creates, as `new_fetch_nodes` does, a new
    /// `FetchNodes` `ConsensusMessage`, whose id `id` was drawn at random by
    /// the caller, checked and stamped at the time `now`.
    pub fn new_fetch_nodes_at(address: &[u8], node: &Node, ids: &ByteSet, id: u64, now: Timestamp) -> (r: Result<ConsensusMessage>)
        requires
            plausible_now(now),
        ensures
            (r is Ok <==> timestamp_ok_at(node.last_seen, now) && !ids@.contains(
                    node.address@,
                )) && match r {
                    Ok(m) => m matches ConsensusMessage::FetchNodes { id: mid, address: a, node: n, time, count, ids: s }
                        && mid == id && a@ == address@ && same_node(n, *node) && time == now && count
                        == ids@.len() as u32 && s@ == ids@,
                    Err(e) => if !timestamp_ok_at(node.last_seen, now) {
                        e is InvalidTimestamp
                    } else {
                        e is InvalidId
                    },
                },
    {
        node.validate_at(now)?;
        if ids.contains(node.address.as_slice()) {
            return Err(Error::InvalidId);
        }
        Ok(ConsensusMessage::FetchNodes {
            id,
            address: copy_bytes(address),
            node: node.clone(),
            time: now,
            count: ids.len() as u32,
            ids: ids.clone(),
        })
    }

    /// `new_fetch_random_nodes` creates a new `FetchRandomNodes`
    /// `ConsensusMessage`, whose id `id` was drawn at random by the caller.
    pub fn new_fetch_random_nodes(address: &[u8], node: &Node, count: u32, id: u64) -> (r: Result<ConsensusMessage>)
        ensures
            exists|now: Timestamp|
                #[trigger] plausible_now(now) && (r is Ok <==> timestamp_ok_at(node.last_seen, now)) && match r {
                    Ok(m) => m matches ConsensusMessage::FetchRandomNodes { id: mid, address: a, node: n, time, count: c }
                        && mid == id && a@ == address@ && same_node(n, *node) && plausible_now(time) && c == count,
                    Err(e) => e is InvalidTimestamp,
                },
    {
        let now = Timestamp::now();
        node.validate_at(now)?;
        Ok(ConsensusMessage::FetchRandomNodes {
            id,
            address: copy_bytes(address),
            node: node.clone(),
            time: Timestamp::now(),
            count,
        })
    }

    /// `new_push_nodes` creates a new `PushNodes` `ConsensusMessage` in
    /// reply to the fetch message `fetch_id`.
    pub fn new_push_nodes(address: &[u8], fetch_id: u64, node: &Node, nodes: &Vec<Node>) -> (r: Result<ConsensusMessage>)
        requires
            fetch_id < u64::MAX,
        ensures
            exists|now: Timestamp|
                #[trigger] plausible_now(now) && (r is Ok <==> timestamp_ok_at(node.last_seen, now) && nodes_ok(nodes@, now))
                    && match r {
                    Ok(m) => m matches ConsensusMessage::PushNodes { id, address: a, node: n, count, time, ids, nodes: ns }
                        && id == fetch_id + 1 && a@ == address@ && same_node(n, *node) && plausible_now(time) && ids@
                        == node_ids(nodes@) && count == ids@.len() as u32 && node_ids(ns@) == node_ids(nodes@)
                        && ns@.len() == nodes@.len(),
                    Err(e) => e is InvalidTimestamp,
                },
    {
        let now = Timestamp::now();
        Self::new_push_nodes_at(address, fetch_id, node, nodes, now)
    }

    /// `new_push_nodes_at` creates, as `new_push_nodes` does, a new `PushNodes`
    /// `ConsensusMessage` in reply to the fetch message `fetch_id`, checked and
    /// stamped at the time `now`.
    pub fn new_push_nodes_at(address: &[u8], fetch_id: u64, node: &Node, nodes: &Vec<Node>, now: Timestamp) -> (r: Result<ConsensusMessage>)
        requires
            plausible_now(now),
            fetch_id < u64::MAX,
        ensures
            (r is Ok <==> timestamp_ok_at(node.last_seen, now) && nodes_ok(nodes@, now))
                    && match r {
                    Ok(m) => m matches ConsensusMessage::PushNodes { id, address: a, node: n, count, time, ids, nodes: ns }
                        && id == fetch_id + 1 && a@ == address@ && same_node(n, *node) && time == now && ids@
                        == node_ids(nodes@) && count == ids@.len() as u32 && node_ids(ns@) == node_ids(nodes@)
                        && ns@.len() == nodes@.len(),
                    Err(e) => e is InvalidTimestamp,
                },
    {
        node.validate_at(now)?;
        let mut i: usize = 0;
        while i < nodes.len()
            invariant
                plausible_now(now),
                timestamp_ok_at(node.last_seen, now),
                i <= nodes@.len(),
                forall|j: int| 0 <= j < i ==> timestamp_ok_at(#[trigger] nodes@[j].last_seen, now),
            decreases nodes@.len() - i,
        {
            if let Err(e) = nodes[i].validate_at(now) {
                assert(!timestamp_ok_at(nodes@[i as int].last_seen, now));
                return Err(e);
            }
            i += 1;
        }
        let ids = collect_node_ids(nodes);
        let count = ids.len() as u32;
        let copies = copy_nodes(nodes);
        proof {
            lemma_same_node_ids(copies@, nodes@);
        }
        Ok(ConsensusMessage::PushNodes {
            id: fetch_id + 1,
            address: copy_bytes(address),
            node: node.clone(),
            time: now,
            count,
            ids,
            nodes: copies,
        })
    }

    /// `new_fetch_transactions` creates a new `FetchTransactions`
    /// `ConsensusMessage`, whose id `id` was drawn at random by the caller.
    pub fn new_fetch_transactions(address: &[u8], node: &Node, ids: &ByteSet, id: u64) -> (r: Result<ConsensusMessage>)
        ensures
            exists|now: Timestamp|
                #[trigger] plausible_now(now) && (r is Ok <==> timestamp_ok_at(node.last_seen, now) && !ids@.contains(
                    node.address@,
                )) && match r {
                    Ok(m) => m matches ConsensusMessage::FetchTransactions { id: mid, address: a, node: n, time, count, ids: s }
                        && mid == id && a@ == address@ && same_node(n, *node) && plausible_now(time) && count
                        == ids@.len() as u32 && s@ == ids@,
                    Err(e) => if !timestamp_ok_at(node.last_seen, now) {
                        e is InvalidTimestamp
                    } else {
                        e is InvalidId
                    },
                },
    {
        let now = Timestamp::now();
        Self::new_fetch_transactions_at(address, node, ids, id, now)
    }

    /// `new_fetch_transactions_at` creates, as `new_fetch_transactions` does, a
    /// new `FetchTransactions` `ConsensusMessage`, whose id `id` was drawn at
    /// random by the caller, checked and stamped at the time `now`.
    pub fn new_fetch_transactions_at(address: &[u8], node: &Node, ids: &ByteSet, id: u64, now: Timestamp) -> (r: Result<ConsensusMessage>)
        requires
            plausible_now(now),
        ensures
            (r is Ok <==> timestamp_ok_at(node.last_seen, now) && !ids@.contains(
                    node.address@,
                )) && match r {
                    Ok(m) => m matches ConsensusMessage::FetchTransactions { id: mid, address: a, node: n, time, count, ids: s }
                        && mid == id && a@ == address@ && same_node(n, *node) && time == now && count
                        == ids@.len() as u32 && s@ == ids@,
                    Err(e) => if !timestamp_ok_at(node.last_seen, now) {
                        e is InvalidTimestamp
                    } else {
                        e is InvalidId
                    },
                },
    {
        node.validate_at(now)?;
        if ids.contains(node.address.as_slice()) {
            return Err(Error::InvalidId);
        }
        Ok(ConsensusMessage::FetchTransactions {
            id,
            address: copy_bytes(address),
            node: node.clone(),
            time: now,
            count: ids.len() as u32,
            ids: ids.clone(),
        })
    }

    /// `new_fetch_random_transactions` creates a new
    /// `FetchRandomTransactions` `ConsensusMessage`, whose id `id` was drawn
    /// at random by the caller.
    pub fn new_fetch_random_transactions(address: &[u8], node: &Node, count: u32, id: u64) -> (r: Result<
        ConsensusMessage,
    >)
        ensures
            exists|now: Timestamp|
                #[trigger] plausible_now(now) && (r is Ok <==> timestamp_ok_at(node.last_seen, now)) && match r {
                    Ok(m) => m matches ConsensusMessage::FetchRandomTransactions { id: mid, address: a, node: n, time, count: c }
                        && mid == id && a@ == address@ && same_node(n, *node) && plausible_now(time) && c == count,
                    Err(e) => e is InvalidTimestamp,
                },
    {
        let now = Timestamp::now();
        node.validate_at(now)?;
        Ok(ConsensusMessage::FetchRandomTransactions {
            id,
            address: copy_bytes(address),
            node: node.clone(),
            time: Timestamp::now(),
            count,
        })
    }

    /// `new_push_transactions` creates a new `PushTransactions`
    /// `ConsensusMessage` that carries `transactions`, in reply to the fetch
    /// message `fetch_id`.
    pub fn new_push_transactions(address: &[u8], fetch_id: u64, node: &Node, transactions: Vec<Transaction>) -> (r:
        Result<ConsensusMessage>)
        requires
            fetch_id < u64::MAX,
        ensures
            exists|now: Timestamp|
                #[trigger] plausible_now(now) && (r is Ok <==> timestamp_ok_at(node.last_seen, now) && forall|i: int|
                    0 <= i < transactions@.len() ==> transaction_ok(#[trigger] transactions@[i], now)) && match r {
                    Ok(m) => m matches ConsensusMessage::PushTransactions { id, address: a, node: n, time, count, ids, transactions: ts }
                        && id == fetch_id + 1 && a@ == address@ && same_node(n, *node) && plausible_now(time) && ts
                        == transactions && ids@ == tx_ids(transactions@) && count == ids@.len() as u32,
                    Err(e) => !timestamp_ok_at(node.last_seen, now) ==> e is InvalidTimestamp,
                },
    {
        let now = Timestamp::now();
        Self::new_push_transactions_at(address, fetch_id, node, transactions, now)
    }

    /// `new_push_transactions_at` creates, as `new_push_transactions` does, a
    /// new `PushTransactions` `ConsensusMessage` that carries `transactions`,
    /// in reply to the fetch message `fetch_id`, checked and stamped at the
    /// time `now`.
    pub fn new_push_transactions_at(address: &[u8], fetch_id: u64, node: &Node, transactions: Vec<Transaction>, now: Timestamp) -> (r:
        Result<ConsensusMessage>)
        requires
            plausible_now(now),
            fetch_id < u64::MAX,
        ensures
            (r is Ok <==> timestamp_ok_at(node.last_seen, now) && forall|i: int|
                    0 <= i < transactions@.len() ==> transaction_ok(#[trigger] transactions@[i], now)) && match r {
                    Ok(m) => m matches ConsensusMessage::PushTransactions { id, address: a, node: n, time, count, ids, transactions: ts }
                        && id == fetch_id + 1 && a@ == address@ && same_node(n, *node) && time == now && ts
                        == transactions && ids@ == tx_ids(transactions@) && count == ids@.len() as u32,
                    Err(e) => !timestamp_ok_at(node.last_seen, now) ==> e is InvalidTimestamp,
                },
    {
        node.validate_at(now)?;
        let mut i: usize = 0;
        while i < transactions.len()
            invariant
                plausible_now(now),
                timestamp_ok_at(node.last_seen, now),
                i <= transactions@.len(),
                forall|j: int| 0 <= j < i ==> transaction_ok(#[trigger] transactions@[j], now),
            decreases transactions@.len() - i,
        {
            if let Err(e) = transactions[i].validate_at(now) {
                assert(!transaction_ok(transactions@[i as int], now));
                return Err(e);
            }
            i += 1;
        }
        let ids = collect_tx_ids(&transactions);
        let count = ids.len() as u32;
        Ok(ConsensusMessage::PushTransactions {
            id: fetch_id + 1,
            address: copy_bytes(address),
            node: node.clone(),
            time: now,
            count,
            ids,
            transactions,
        })
    }

    /// `new_mine` creates a new `Mine` `ConsensusMessage` that carries the
    /// unmined `transactions`, whose id `id` was drawn at random by the
    /// caller.
    pub fn new_mine(address: &[u8], node: &Node, transactions: Vec<Transaction>, id: u64) -> (r: Result<ConsensusMessage>)
        ensures
            exists|now: Timestamp|
                #[trigger] plausible_now(now) && (r is Ok <==> timestamp_ok_at(node.last_seen, now) && forall|i: int|
                    0 <= i < transactions@.len() ==> transaction_ok(#[trigger] transactions@[i], now) && !tx_mined(
                        transactions@[i],
                    )) && match r {
                    Ok(m) => m matches ConsensusMessage::Mine { id: mid, address: a, node: n, time, count, ids, transactions: ts }
                        && mid == id && a@ == address@ && same_node(n, *node) && plausible_now(time) && ts == transactions
                        && ids@ == tx_ids(transactions@) && count == ids@.len() as u32,
                    Err(e) => !timestamp_ok_at(node.last_seen, now) ==> e is InvalidTimestamp,
                },
    {
        let now = Timestamp::now();
        Self::new_mine_at(address, node, transactions, id, now)
    }

    /// `new_mine_at` creates, as `new_mine` does, a new `Mine`
    /// `ConsensusMessage` that carries the unmined `transactions`, whose id
    /// `id` was drawn at random by the caller, checked and stamped at the time
    /// `now`.
    pub fn new_mine_at(address: &[u8], node: &Node, transactions: Vec<Transaction>, id: u64, now: Timestamp) -> (r: Result<ConsensusMessage>)
        requires
            plausible_now(now),
        ensures
            (r is Ok <==> timestamp_ok_at(node.last_seen, now) && forall|i: int|
                    0 <= i < transactions@.len() ==> transaction_ok(#[trigger] transactions@[i], now) && !tx_mined(
                        transactions@[i],
                    )) && match r {
                    Ok(m) => m matches ConsensusMessage::Mine { id: mid, address: a, node: n, time, count, ids, transactions: ts }
                        && mid == id && a@ == address@ && same_node(n, *node) && time == now && ts == transactions
                        && ids@ == tx_ids(transactions@) && count == ids@.len() as u32,
                    Err(e) => !timestamp_ok_at(node.last_seen, now) ==> e is InvalidTimestamp,
                },
    {
        node.validate_at(now)?;
        let mut i: usize = 0;
        while i < transactions.len()
            invariant
                plausible_now(now),
                timestamp_ok_at(node.last_seen, now),
                i <= transactions@.len(),
                forall|j: int| 0 <= j < i ==> transaction_ok(#[trigger] transactions@[j], now) && !tx_mined(transactions@[j]),
            decreases transactions@.len() - i,
        {
            if let Err(e) = transactions[i].validate_at(now) {
                assert(!transaction_ok(transactions@[i as int], now));
                return Err(e);
            }
            if transactions[i].is_mined() {
                assert(tx_mined(transactions@[i as int]));
                return Err(Error::InvalidTransaction);
            }
            i += 1;
        }
        let ids = collect_tx_ids(&transactions);
        let count = ids.len() as u32;
        Ok(ConsensusMessage::Mine {
            id,
            address: copy_bytes(address),
            node: node.clone(),
            time: now,
            count,
            ids,
            transactions,
        })
    }

    /// `new_query` creates a new `Query` `ConsensusMessage` about
    /// `transaction`, whose id `id` was drawn at random by the caller.
    pub fn new_query(address: &[u8], node: &Node, transaction: Transaction, id: u64) -> (r: Result<ConsensusMessage>)
        ensures
            exists|now: Timestamp|
                #[trigger] plausible_now(now) && (r is Ok <==> timestamp_ok_at(node.last_seen, now) && transaction_ok(
                    transaction,
                    now,
                )) && match r {
                    Ok(m) => m matches ConsensusMessage::Query { id: mid, address: a, node: n, time, transaction: t }
                        && mid == id && a@ == address@ && same_node(n, *node) && plausible_now(time) && t == transaction,
                    Err(e) => !timestamp_ok_at(node.last_seen, now) ==> e is InvalidTimestamp,
                },
    {
        let now = Timestamp::now();
        Self::new_query_at(address, node, transaction, id, now)
    }

    /// `new_query_at` creates, as `new_query` does, a new `Query`
    /// `ConsensusMessage` about `transaction`, whose id `id` was drawn at
    /// random by the caller, checked and stamped at the time `now`.
    pub fn new_query_at(address: &[u8], node: &Node, transaction: Transaction, id: u64, now: Timestamp) -> (r: Result<ConsensusMessage>)
        requires
            plausible_now(now),
        ensures
            (r is Ok <==> timestamp_ok_at(node.last_seen, now) && transaction_ok(
                    transaction,
                    now,
                )) && match r {
                    Ok(m) => m matches ConsensusMessage::Query { id: mid, address: a, node: n, time, transaction: t }
                        && mid == id && a@ == address@ && same_node(n, *node) && time == now && t == transaction,
                    Err(e) => !timestamp_ok_at(node.last_seen, now) ==> e is InvalidTimestamp,
                },
    {
        node.validate_at(now)?;
        transaction.validate_at(now)?;
        Ok(ConsensusMessage::Query {
            id,
            address: copy_bytes(address),
            node: node.clone(),
            time: now,
            transaction,
        })
    }

    /// `new_reply` creates a new `Reply` `ConsensusMessage`, the chit of
    /// the transaction `tx_id`, in reply to the query `query_id`.
    pub fn new_reply(address: &[u8], query_id: u64, node: &Node, tx_id: Digest, chit: bool) -> (r: Result<
        ConsensusMessage,
    >)
        requires
            query_id < u64::MAX,
        ensures
            exists|now: Timestamp|
                #[trigger] plausible_now(now) && (r is Ok <==> timestamp_ok_at(node.last_seen, now) && tx_id@
                    != node.address@) && match r {
                    Ok(m) => m matches ConsensusMessage::Reply { id, address: a, node: n, time, tx_id: t, chit: c }
                        && id == query_id + 1 && a@ == address@ && same_node(n, *node) && plausible_now(time) && t
                        == tx_id && c == chit,
                    Err(e) => if !timestamp_ok_at(node.last_seen, now) {
                        e is InvalidTimestamp
                    } else {
                        e is InvalidId
                    },
                },
    {
        let now = Timestamp::now();
        Self::new_reply_at(address, query_id, node, tx_id, chit, now)
    }

    /// `new_reply_at` creates, as `new_reply` does, a new `Reply`
    /// `ConsensusMessage`, the chit of the transaction `tx_id`, in reply to the
    /// query `query_id`, checked and stamped at the time `now`.
    pub fn new_reply_at(address: &[u8], query_id: u64, node: &Node, tx_id: Digest, chit: bool, now: Timestamp) -> (r: Result<
        ConsensusMessage,
    >)
        requires
            plausible_now(now),
            query_id < u64::MAX,
        ensures
            (r is Ok <==> timestamp_ok_at(node.last_seen, now) && tx_id@
                    != node.address@) && match r {
                    Ok(m) => m matches ConsensusMessage::Reply { id, address: a, node: n, time, tx_id: t, chit: c }
                        && id == query_id + 1 && a@ == address@ && same_node(n, *node) && time == now && t
                        == tx_id && c == chit,
                    Err(e) => if !timestamp_ok_at(node.last_seen, now) {
                        e is InvalidTimestamp
                    } else {
                        e is InvalidId
                    },
                },
    {
        node.validate_at(now)?;
        if bytes_equal(tx_id.as_slice(), node.address.as_slice()) {
            return Err(Error::InvalidId);
        }
        Ok(ConsensusMessage::Reply {
            id: query_id + 1,
            address: copy_bytes(address),
            node: node.clone(),
            time: now,
            tx_id,
            chit,
        })
    }

    /// The id of the message.
    pub open spec fn id_of(&self) -> u64 {
        match *self {
            ConsensusMessage::FetchNodes { id, .. } => id,
            ConsensusMessage::FetchRandomNodes { id, .. } => id,
            ConsensusMessage::PushNodes { id, .. } => id,
            ConsensusMessage::FetchTransactions { id, .. } => id,
            ConsensusMessage::FetchRandomTransactions { id, .. } => id,
            ConsensusMessage::PushTransactions { id, .. } => id,
            ConsensusMessage::Mine { id, .. } => id,
            ConsensusMessage::Query { id, .. } => id,
            ConsensusMessage::Reply { id, .. } => id,
        }
    }

    /// `id` returns the `ConsensusMessage` id.
    pub fn id(&self) -> (r: u64)
        ensures
            r == self.id_of(),
            r == match *self {
                ConsensusMessage::FetchNodes { id, .. } => id,
                ConsensusMessage::FetchRandomNodes { id, .. } => id,
                ConsensusMessage::PushNodes { id, .. } => id,
                ConsensusMessage::FetchTransactions { id, .. } => id,
                ConsensusMessage::FetchRandomTransactions { id, .. } => id,
                ConsensusMessage::PushTransactions { id, .. } => id,
                ConsensusMessage::Mine { id, .. } => id,
                ConsensusMessage::Query { id, .. } => id,
                ConsensusMessage::Reply { id, .. } => id,
            },
    {
        match self {
            ConsensusMessage::FetchNodes { id, .. } => *id,
            ConsensusMessage::FetchRandomNodes { id, .. } => *id,
            ConsensusMessage::PushNodes { id, .. } => *id,
            ConsensusMessage::FetchTransactions { id, .. } => *id,
            ConsensusMessage::FetchRandomTransactions { id, .. } => *id,
            ConsensusMessage::PushTransactions { id, .. } => *id,
            ConsensusMessage::Mine { id, .. } => *id,
            ConsensusMessage::Query { id, .. } => *id,
            ConsensusMessage::Reply { id, .. } => *id,
        }
    }

    /// `time` returns the `ConsensusMessage` time.
    pub fn time(&self) -> (r: Timestamp)
        ensures
            r == message_time(*self),
    {
        match self {
            ConsensusMessage::FetchNodes { time, .. } => *time,
            ConsensusMessage::FetchRandomNodes { time, .. } => *time,
            ConsensusMessage::PushNodes { time, .. } => *time,
            ConsensusMessage::FetchTransactions { time, .. } => *time,
            ConsensusMessage::FetchRandomTransactions { time, .. } => *time,
            ConsensusMessage::PushTransactions { time, .. } => *time,
            ConsensusMessage::Mine { time, .. } => *time,
            ConsensusMessage::Query { time, .. } => *time,
            ConsensusMessage::Reply { time, .. } => *time,
        }
    }

    /// `node` returns the `ConsensusMessage` `Node`.
    pub fn node(&self) -> (r: Node)
        ensures
            same_node(r, message_node(*self)),
    {
        match self {
            ConsensusMessage::FetchNodes { node, .. } => node.clone(),
            ConsensusMessage::FetchRandomNodes { node, .. } => node.clone(),
            ConsensusMessage::PushNodes { node, .. } => node.clone(),
            ConsensusMessage::FetchTransactions { node, .. } => node.clone(),
            ConsensusMessage::FetchRandomTransactions { node, .. } => node.clone(),
            ConsensusMessage::PushTransactions { node, .. } => node.clone(),
            ConsensusMessage::Mine { node, .. } => node.clone(),
            ConsensusMessage::Query { node, .. } => node.clone(),
            ConsensusMessage::Reply { node, .. } => node.clone(),
        }
    }

    /// Validates the message at `now`, whatever its kind.
    pub(crate) fn check_at(&self, now: Timestamp) -> (r: Result<()>)
        requires
            plausible_now(now),
        ensures
            message_outcome(*self, now, r),
    {
        match self {
            ConsensusMessage::FetchNodes { node, time, count, ids, .. } => check_fetch(node, *time, *count, ids, now),
            ConsensusMessage::FetchRandomNodes { node, time, .. } => check_header(node, *time, now),
            ConsensusMessage::PushNodes { node, time, count, ids, nodes, .. } => check_push_nodes(
                node,
                *time,
                *count,
                ids,
                nodes,
                now,
            ),
            ConsensusMessage::FetchTransactions { node, time, count, ids, .. } => check_fetch(node, *time, *count, ids, now),
            ConsensusMessage::FetchRandomTransactions { node, time, .. } => check_header(node, *time, now),
            ConsensusMessage::PushTransactions { node, time, count, ids, transactions, .. } => check_push_txs(
                node,
                *time,
                *count,
                ids,
                transactions,
                false,
                now,
            ),
            ConsensusMessage::Mine { node, time, count, ids, transactions, .. } => check_push_txs(
                node,
                *time,
                *count,
                ids,
                transactions,
                true,
                now,
            ),
            ConsensusMessage::Query { node, time, transaction, .. } => {
                check_header(node, *time, now)?;
                transaction.validate_at(now)
            },
            ConsensusMessage::Reply { node, time, tx_id, .. } => {
                check_header(node, *time, now)?;
                if bytes_equal(tx_id.as_slice(), node.address.as_slice()) {
                    return Err(Error::InvalidId);
                }
                Ok(())
            },
        }
    }

    /// Validates the message at the current time when it is of the given
    /// kind, else `InvalidMessage`.
    fn check_kind(&self, kind: u8) -> (r: Result<()>)
        ensures
            exists|now: Timestamp| #[trigger] plausible_now(now) && kind_outcome(*self, kind as int, now, r),
    {
        let now = Timestamp::now();
        let actual: u8 = match self {
            ConsensusMessage::FetchNodes { .. } => 0,
            ConsensusMessage::FetchRandomNodes { .. } => 1,
            ConsensusMessage::PushNodes { .. } => 2,
            ConsensusMessage::FetchTransactions { .. } => 3,
            ConsensusMessage::FetchRandomTransactions { .. } => 4,
            ConsensusMessage::PushTransactions { .. } => 5,
            ConsensusMessage::Mine { .. } => 6,
            ConsensusMessage::Query { .. } => 7,
            ConsensusMessage::Reply { .. } => 8,
        };
        if actual != kind {
            let r = Err(Error::InvalidMessage);
            assert(kind_outcome(*self, kind as int, now, r));
            return r;
        }
        let r = self.check_at(now);
        assert(kind_outcome(*self, kind as int, now, r));
        r
    }

    /// `validate_fetch_nodes` validates a `FetchNodes` `ConsensusMessage`.
    pub fn validate_fetch_nodes(&self) -> (r: Result<()>)
        ensures
            exists|now: Timestamp| #[trigger] plausible_now(now) && kind_outcome(*self, 0, now, r),
    {
        self.check_kind(0)
    }

    /// `validate_fetch_random_nodes` validates a `FetchRandomNodes`
    /// `ConsensusMessage`.
    pub fn validate_fetch_random_nodes(&self) -> (r: Result<()>)
        ensures
            exists|now: Timestamp| #[trigger] plausible_now(now) && kind_outcome(*self, 1, now, r),
    {
        self.check_kind(1)
    }

    /// `validate_push_nodes` validates a `PushNodes` `ConsensusMessage`.
    pub fn validate_push_nodes(&self) -> (r: Result<()>)
        ensures
            exists|now: Timestamp| #[trigger] plausible_now(now) && kind_outcome(*self, 2, now, r),
    {
        self.check_kind(2)
    }

    /// `validate_fetch_transactions` validates a `FetchTransactions`
    /// `ConsensusMessage`.
    pub fn validate_fetch_transactions(&self) -> (r: Result<()>)
        ensures
            exists|now: Timestamp| #[trigger] plausible_now(now) && kind_outcome(*self, 3, now, r),
    {
        self.check_kind(3)
    }

    /// `validate_fetch_random_transactions` validates a
    /// `FetchRandomTransactions` `ConsensusMessage`.
    pub fn validate_fetch_random_transactions(&self) -> (r: Result<()>)
        ensures
            exists|now: Timestamp| #[trigger] plausible_now(now) && kind_outcome(*self, 4, now, r),
    {
        self.check_kind(4)
    }

    /// `validate_push_transactions` validates a `PushTransactions`
    /// `ConsensusMessage`.
    pub fn validate_push_transactions(&self) -> (r: Result<()>)
        ensures
            exists|now: Timestamp| #[trigger] plausible_now(now) && kind_outcome(*self, 5, now, r),
    {
        self.check_kind(5)
    }

    /// `validate_mine` validates a `Mine` `ConsensusMessage`.
    pub fn validate_mine(&self) -> (r: Result<()>)
        ensures
            exists|now: Timestamp| #[trigger] plausible_now(now) && kind_outcome(*self, 6, now, r),
    {
        self.check_kind(6)
    }

    /// `validate_query` validates a `Query` `ConsensusMessage`.
    pub fn validate_query(&self) -> (r: Result<()>)
        ensures
            exists|now: Timestamp| #[trigger] plausible_now(now) && kind_outcome(*self, 7, now, r),
    {
        self.check_kind(7)
    }

    /// `validate_reply` validates a `Reply` `ConsensusMessage`.
    pub fn validate_reply(&self) -> (r: Result<()>)
        ensures
            exists|now: Timestamp| #[trigger] plausible_now(now) && kind_outcome(*self, 8, now, r),
    {
        self.check_kind(8)
    }

    /// `validate` validates a `ConsensusMessage`, whatever its kind.
    pub fn validate(&self) -> (r: Result<()>)
        ensures
            exists|now: Timestamp| #[trigger] plausible_now(now) && message_outcome(*self, now, r),
    {
        let now = Timestamp::now();
        self.check_at(now)
    }

    /// Whether the message, once validated, is of the given kind.
    fn is_kind(&self, kind: u8) -> (r: Result<bool>)
        ensures
            exists|now: Timestamp| #[trigger] plausible_now(now) && match r {
                Ok(b) => message_outcome(*self, now, Ok(())) && b == (message_kind(*self) == kind as int),
                Err(e) => message_outcome(*self, now, Err(e)),
            },
    {
        let now = Timestamp::now();
        self.check_at(now)?;
        let actual: u8 = match self {
            ConsensusMessage::FetchNodes { .. } => 0,
            ConsensusMessage::FetchRandomNodes { .. } => 1,
            ConsensusMessage::PushNodes { .. } => 2,
            ConsensusMessage::FetchTransactions { .. } => 3,
            ConsensusMessage::FetchRandomTransactions { .. } => 4,
            ConsensusMessage::PushTransactions { .. } => 5,
            ConsensusMessage::Mine { .. } => 6,
            ConsensusMessage::Query { .. } => 7,
            ConsensusMessage::Reply { .. } => 8,
        };
        Ok(actual == kind)
    }

    /// `is_fetch_nodes` returns if the `ConsensusMessage` is a `FetchNodes` message.
    pub fn is_fetch_nodes(&self) -> (r: Result<bool>)
        ensures
            exists|now: Timestamp| #[trigger] plausible_now(now) && match r {
                Ok(b) => message_outcome(*self, now, Ok(())) && b == (self is FetchNodes),
                Err(e) => message_outcome(*self, now, Err(e)),
            },
    {
        self.is_kind(0)
    }

    /// `is_fetch_random_nodes` returns if the `ConsensusMessage` is a
    /// `FetchRandomNodes` message.
    pub fn is_fetch_random_nodes(&self) -> (r: Result<bool>)
        ensures
            exists|now: Timestamp| #[trigger] plausible_now(now) && match r {
                Ok(b) => message_outcome(*self, now, Ok(())) && b == (self is FetchRandomNodes),
                Err(e) => message_outcome(*self, now, Err(e)),
            },
    {
        self.is_kind(1)
    }

    /// `is_push_nodes` returns if the `ConsensusMessage` is a `PushNodes` message.
    pub fn is_push_nodes(&self) -> (r: Result<bool>)
        ensures
            exists|now: Timestamp| #[trigger] plausible_now(now) && match r {
                Ok(b) => message_outcome(*self, now, Ok(())) && b == (self is PushNodes),
                Err(e) => message_outcome(*self, now, Err(e)),
            },
    {
        self.is_kind(2)
    }

    /// `is_fetch_transactions` returns if the `ConsensusMessage` is a
    /// `FetchTransactions` message.
    pub fn is_fetch_transactions(&self) -> (r: Result<bool>)
        ensures
            exists|now: Timestamp| #[trigger] plausible_now(now) && match r {
                Ok(b) => message_outcome(*self, now, Ok(())) && b == (self is FetchTransactions),
                Err(e) => message_outcome(*self, now, Err(e)),
            },
    {
        self.is_kind(3)
    }

    /// `is_fetch_random_transactions` returns if the `ConsensusMessage` is a
    /// `FetchRandomTransactions` message.
    pub fn is_fetch_random_transactions(&self) -> (r: Result<bool>)
        ensures
            exists|now: Timestamp| #[trigger] plausible_now(now) && match r {
                Ok(b) => message_outcome(*self, now, Ok(())) && b == (self is FetchRandomTransactions),
                Err(e) => message_outcome(*self, now, Err(e)),
            },
    {
        self.is_kind(4)
    }

    /// `is_push_transactions` returns if the `ConsensusMessage` is a
    /// `PushTransactions` message.
    pub fn is_push_transactions(&self) -> (r: Result<bool>)
        ensures
            exists|now: Timestamp| #[trigger] plausible_now(now) && match r {
                Ok(b) => message_outcome(*self, now, Ok(())) && b == (self is PushTransactions),
                Err(e) => message_outcome(*self, now, Err(e)),
            },
    {
        self.is_kind(5)
    }

    /// `is_mine` returns if the `ConsensusMessage` is a `Mine` message.
    pub fn is_mine(&self) -> (r: Result<bool>)
        ensures
            exists|now: Timestamp| #[trigger] plausible_now(now) && match r {
                Ok(b) => message_outcome(*self, now, Ok(())) && b == (self is Mine),
                Err(e) => message_outcome(*self, now, Err(e)),
            },
    {
        self.is_kind(6)
    }

    /// `is_query` returns if the `ConsensusMessage` is a `Query` message.
    pub fn is_query(&self) -> (r: Result<bool>)
        ensures
            exists|now: Timestamp| #[trigger] plausible_now(now) && match r {
                Ok(b) => message_outcome(*self, now, Ok(())) && b == (self is Query),
                Err(e) => message_outcome(*self, now, Err(e)),
            },
    {
        self.is_kind(7)
    }

    /// `is_reply` returns if the `ConsensusMessage` is a `Reply` message.
    pub fn is_reply(&self) -> (r: Result<bool>)
        ensures
            exists|now: Timestamp| #[trigger] plausible_now(now) && match r {
                Ok(b) => message_outcome(*self, now, Ok(())) && b == (self is Reply),
                Err(e) => message_outcome(*self, now, Err(e)),
            },
    {
        self.is_kind(8)
    }
}

/// The time of a message.
pub open spec fn message_time(m: ConsensusMessage) -> Timestamp {
    match m {
        ConsensusMessage::FetchNodes { time, .. } => time,
        ConsensusMessage::FetchRandomNodes { time, .. } => time,
        ConsensusMessage::PushNodes { time, .. } => time,
        ConsensusMessage::FetchTransactions { time, .. } => time,
        ConsensusMessage::FetchRandomTransactions { time, .. } => time,
        ConsensusMessage::PushTransactions { time, .. } => time,
        ConsensusMessage::Mine { time, .. } => time,
        ConsensusMessage::Query { time, .. } => time,
        ConsensusMessage::Reply { time, .. } => time,
    }
}

/// The node of a message.
pub open spec fn message_node(m: ConsensusMessage) -> Node {
    match m {
        ConsensusMessage::FetchNodes { node, .. } => node,
        ConsensusMessage::FetchRandomNodes { node, .. } => node,
        ConsensusMessage::PushNodes { node, .. } => node,
        ConsensusMessage::FetchTransactions { node, .. } => node,
        ConsensusMessage::FetchRandomTransactions { node, .. } => node,
        ConsensusMessage::PushTransactions { node, .. } => node,
        ConsensusMessage::Mine { node, .. } => node,
        ConsensusMessage::Query { node, .. } => node,
        ConsensusMessage::Reply { node, .. } => node,
    }
}

} // verus!
