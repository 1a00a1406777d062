use alsacoin::collections::ByteSet;
use alsacoin::models::account::Account;
use alsacoin::models::conflict_set::ConflictSet;
use alsacoin::models::consensus_message::ConsensusMessage;
use alsacoin::models::consensus_params::ConsensusParams;
use alsacoin::models::consensus_state::ConsensusState;
use alsacoin::models::input::Input;
use alsacoin::models::node::Node;
use alsacoin::models::signers::{Signer, Signers};
use alsacoin::models::stage::Stage;
use alsacoin::models::timestamp::Timestamp;
use alsacoin::models::transaction::Transaction;
use alsacoin::protocol::consensus::{
    avalanche_step, avalanche_step_at, handle_node_at, is_accepted_deep, is_strongly_preferred, is_strongly_preferred_at,
    receive_transaction_at, AvalancheAction, ReceiveAction,
};
use alsacoin::protocol::error::Error;
use alsacoin::protocol::replies::{
    accepts_pushed_count, accepts_pushed_ids, accepts_reply, accepts_reply_at, fetch_nodes_reply, fetch_transactions_reply,
    first_fetch_step, mine_request_check, next_fetch_step, push_transactions_reply, query_reply_at, reply_chit_at,
    FetchAction,
};

fn bytes_of(b: u8) -> Vec<u8> {
    vec![b; 64]
}

fn account_of(b: u8, value: u64, tx: u8) -> Account {
    let mut signers = Signers::new();
    signers.address = bytes_of(b);
    signers.add(&Signer { public_key: bytes_of(b + 100), weight: 1 }).unwrap();
    Account::new(Stage::Testing, &signers, value, Some(bytes_of(tx))).unwrap()
}

fn conflict_set_of(ids: &[u8]) -> ConflictSet {
    let mut cs = ConflictSet::new(bytes_of(200), Stage::Testing);
    for id in ids {
        cs.add_transaction(bytes_of(*id));
    }
    cs
}

#[test]
fn avalanche_step_with_enough_chits_stores() {
    let mut tx = Transaction::new(1).unwrap();
    tx.id = bytes_of(1);
    let mut state = ConsensusState::new(0, Stage::Testing);
    state.add_known_transaction(bytes_of(1));
    state.add_known_transaction(bytes_of(2));
    let mut cs = conflict_set_of(&[2, 1]);
    let params = ConsensusParams::new(Stage::Testing, 3, None, None).unwrap();

    let action = avalanche_step(&mut state, &mut cs, &tx, 3, &params, true, Some(&ByteSet::new())).unwrap();
    assert!(matches!(action, AvalancheAction::StoreTransaction));
    assert_eq!(state.get_transaction_chit(&bytes_of(1)), Some(1));
    assert_eq!(state.get_transaction_confidence(&bytes_of(1)), Some(1));
    assert!(state.lookup_queried_transaction(&bytes_of(1)));
    // The confidence 1 passes the preferred one's 0, and the last one changes.
    assert_eq!(cs.preferred, Some(bytes_of(1)));
    assert_eq!(cs.last, Some(bytes_of(1)));
    assert_eq!(cs.count, 1);
}

#[test]
fn avalanche_step_without_enough_chits_resets_ancestors() {
    let mut tx = Transaction::new(1).unwrap();
    tx.id = bytes_of(1);
    tx.add_input(&Input::new(&account_of(3, 5, 11), 1, 0).unwrap(), 0).unwrap();
    tx.add_input(&Input::new(&account_of(4, 5, 12), 1, 0).unwrap(), 0).unwrap();
    let mut state = ConsensusState::new(0, Stage::Testing);
    state.add_known_transaction(bytes_of(1));
    state.add_known_transaction(bytes_of(11));
    let mut cs = conflict_set_of(&[1]);
    let params = ConsensusParams::new(Stage::Testing, 3, None, None).unwrap();

    match avalanche_step(&mut state, &mut cs, &tx, 2, &params, true, None).unwrap() {
        AvalancheAction::ResetAncestorCounts(ids) => {
            assert_eq!(ids.len(), 1);
            assert!(ids.contains(&bytes_of(11)));
        },
        _ => panic!("expected a reset"),
    }
    assert!(state.lookup_queried_transaction(&bytes_of(1)));
    assert_eq!(state.get_transaction_chit(&bytes_of(1)), None);
    assert_eq!(cs.count, 0);

    // An unknown transaction is refused.
    let mut other = Transaction::new(2).unwrap();
    other.id = bytes_of(9);
    assert!(avalanche_step(&mut state, &mut cs, &other, 5, &params, true, None).is_err());
}

#[test]
fn fetch_transactions_is_answered() {
    let now = Timestamp::now();
    let own = vec![1u8; 10];
    let me = Node::new(&own, Stage::Testing);
    let mut ids = ByteSet::new();
    ids.insert(&bytes_of(5));
    let request = ConsensusMessage::new_fetch_transactions(&vec![2u8; 10], &me, &ids, 41).unwrap();

    let mut found = Transaction::new(5).unwrap();
    found.id = bytes_of(5);
    let reply = fetch_transactions_reply(&own, Stage::Testing, &request, vec![found], now).unwrap();
    match &reply {
        ConsensusMessage::PushTransactions { id, address, node, count, transactions, .. } => {
            assert_eq!(*id, 42);
            assert_eq!(address, &own);
            assert_eq!(node.address, vec![2u8; 10]);
            assert_eq!(*count, 1);
            assert_eq!(transactions.len(), 1);
        },
        _ => panic!("expected a push"),
    }
    assert!(accepts_reply(&reply, &vec![2u8; 10], 41, true).unwrap());
    assert!(!accepts_reply(&reply, &vec![2u8; 10], 40, true).unwrap());
    assert!(!accepts_reply(&reply, &own, 41, true).unwrap());
    assert!(!accepts_reply(&reply, &vec![2u8; 10], 41, false).unwrap());

    // Addressed to another node.
    assert!(matches!(
        fetch_transactions_reply(&vec![3u8; 10], Stage::Testing, &request, Vec::new(), now),
        Err(Error::InvalidAddress)
    ));
    // Of another kind.
    let nodes_request = ConsensusMessage::new_fetch_random_nodes(&vec![2u8; 10], &me, 3, 7).unwrap();
    assert!(matches!(
        fetch_transactions_reply(&own, Stage::Testing, &nodes_request, Vec::new(), now),
        Err(Error::InvalidMessage)
    ));
    // An invalid transaction is not sent.
    let mut invalid = Transaction::new(6).unwrap();
    invalid.distance = 0;
    assert!(matches!(
        push_transactions_reply(&own, Stage::Testing, &vec![2u8; 10], 41, vec![invalid], now),
        Err(Error::Model { .. })
    ));
}

#[test]
fn fetch_nodes_is_answered() {
    let now = Timestamp::now();
    let own = vec![1u8; 10];
    let me = Node::new(&own, Stage::Testing);
    let mut ids = ByteSet::new();
    ids.insert(&vec![4u8; 10]);
    let request = ConsensusMessage::new_fetch_nodes(&vec![2u8; 10], &me, &ids, 9).unwrap();
    let known = Node::new(&vec![4u8; 10], Stage::Testing);
    let reply = fetch_nodes_reply(&own, Stage::Testing, &request, vec![known], now).unwrap();
    match &reply {
        ConsensusMessage::PushNodes { id, count, nodes, .. } => {
            assert_eq!(*id, 10);
            assert_eq!(*count, 1);
            assert_eq!(nodes.len(), 1);
        },
        _ => panic!("expected a push"),
    }
    assert!(accepts_reply(&reply, &vec![2u8; 10], 9, false).unwrap());
    assert!(matches!(fetch_nodes_reply(&vec![3u8; 10], Stage::Testing, &request, Vec::new(), now), Err(Error::InvalidAddress)));
}

#[test]
fn mine_request_is_checked() {
    let now = Timestamp::now();
    let own = vec![1u8; 10];
    let me = Node::new(&own, Stage::Testing);
    let mut tx = Transaction::new(5).unwrap();
    tx.id = bytes_of(5);
    let request = ConsensusMessage::new_mine(&vec![2u8; 10], &me, vec![tx], 3).unwrap();
    assert!(mine_request_check(&own, &request, now).is_ok());
    assert!(matches!(mine_request_check(&vec![3u8; 10], &request, now), Err(Error::InvalidAddress)));
}

#[test]
fn fetch_retries_are_bounded() {
    let (tries, action) = first_fetch_step(None);
    assert_eq!(tries, 1);
    assert!(matches!(action, FetchAction::Receive));
    assert!(matches!(first_fetch_step(Some(0)).1, FetchAction::GiveUp));
    let (tries, action) = next_fetch_step(2, false);
    assert_eq!(tries, 1);
    assert!(matches!(action, FetchAction::Receive));
    let (tries, action) = next_fetch_step(1, false);
    assert_eq!(tries, 0);
    assert!(matches!(action, FetchAction::GiveUp));
    assert!(matches!(next_fetch_step(1, true).1, FetchAction::Handle));
}

#[test]
fn fallback_nodes_are_new() {
    let own = vec![1u8; 10];
    let mut sampled = ByteSet::new();
    sampled.insert(&vec![2u8; 10]);
    assert!(alsacoin::protocol::replies::fallback_node_ok(&own, &sampled, &Node::new(&vec![3u8; 10], Stage::Testing)));
    assert!(!alsacoin::protocol::replies::fallback_node_ok(&own, &sampled, &Node::new(&vec![2u8; 10], Stage::Testing)));
    assert!(!alsacoin::protocol::replies::fallback_node_ok(&own, &sampled, &Node::new(&own, Stage::Testing)));
}

#[test]
fn strongly_preferred_needs_preferred_ancestors() {
    let mut tx = Transaction::new(1).unwrap();
    tx.add_input(&Input::new(&account_of(3, 5, 11), 1, 0).unwrap(), 0).unwrap();
    tx.add_input(&Input::new(&account_of(4, 5, 12), 1, 0).unwrap(), 0).unwrap();
    let mut state = ConsensusState::new(0, Stage::Testing);
    state.add_known_transaction(bytes_of(11));

    // Out of the pool: the store decides.
    assert!(is_strongly_preferred(&state, None, true, &Vec::new()).unwrap());
    assert!(!is_strongly_preferred(&state, None, false, &Vec::new()).unwrap());
    // The known ancestor 11 is preferred in its conflict set.
    assert!(is_strongly_preferred(&state, Some(&tx), false, &vec![conflict_set_of(&[11, 13])]).unwrap());
    assert!(!is_strongly_preferred(&state, Some(&tx), false, &vec![conflict_set_of(&[13, 11])]).unwrap());
    // A missing conflict set.
    assert!(matches!(is_strongly_preferred(&state, Some(&tx), false, &Vec::new()), Err(Error::NotFound)));
}

#[test]
fn acceptance_looks_at_ancestors() {
    let now = Timestamp::now();
    let mut tx = Transaction::new(1).unwrap();
    tx.id = bytes_of(1);
    tx.add_input(&Input::new(&account_of(3, 5, 11), 1, 0).unwrap(), 0).unwrap();
    let pool = vec![tx];
    let mut state = ConsensusState::new(0, Stage::Testing);
    state.add_known_transaction(bytes_of(1));
    state.add_known_transaction(bytes_of(11));
    let stored = ByteSet::new();
    let no_sets = Vec::new();

    // The known ancestor 11 is neither accepted nor decided by a counter.
    assert!(!is_accepted_deep(&state, &bytes_of(1), &pool, &stored, &no_sets, None, None, 5, now).unwrap());
    // Once the ancestor is stored, the transaction is accepted.
    let mut stored_11 = ByteSet::new();
    stored_11.insert(&bytes_of(11));
    assert!(is_accepted_deep(&state, &bytes_of(1), &pool, &stored_11, &no_sets, None, None, 5, now).unwrap());
    // With a chit, at once.
    state.add_transaction_chit(bytes_of(1), 1).unwrap();
    assert!(is_accepted_deep(&state, &bytes_of(1), &pool, &stored, &no_sets, None, None, 0, now).unwrap());
    // Without depth left, an error.
    let fresh = ConsensusState::new(0, Stage::Testing);
    assert!(matches!(
        is_accepted_deep(&fresh, &bytes_of(1), &pool, &stored, &no_sets, None, None, 0, now),
        Err(Error::InvalidLength)
    ));
    // A counter decides where a beta is given.
    let mut cs = conflict_set_of(&[1]);
    cs.count = 9;
    let sets = vec![(bytes_of(1), cs)];
    assert!(is_accepted_deep(&fresh, &bytes_of(1), &Vec::new(), &stored, &sets, Some(3), None, 5, now).unwrap());
    assert!(matches!(
        is_accepted_deep(&fresh, &bytes_of(2), &Vec::new(), &stored, &sets, Some(3), None, 5, now),
        Err(Error::NotFound)
    ));
}

#[test]
fn received_transactions_become_known() {
    let now = Timestamp::now();
    let mut tx = Transaction::new(1).unwrap();
    tx.id = bytes_of(1);
    let mut state = ConsensusState::new(0, Stage::Testing);

    assert!(matches!(receive_transaction_at(&mut state, &tx, true, now).unwrap(), ReceiveAction::AlreadyHeld));
    assert!(!state.lookup_known_transaction(&bytes_of(1)));

    assert!(matches!(receive_transaction_at(&mut state, &tx, false, now).unwrap(), ReceiveAction::AddToPool));
    assert!(state.lookup_known_transaction(&bytes_of(1)));
    assert_eq!(state.get_transaction_chit(&bytes_of(1)), Some(0));
    assert_eq!(state.get_transaction_confidence(&bytes_of(1)), Some(0));

    let mut invalid = Transaction::new(2).unwrap();
    invalid.distance = 0;
    assert!(matches!(receive_transaction_at(&mut state, &invalid, false, now), Err(Error::Model { .. })));
}

#[test]
fn replies_are_checked_at_a_time() {
    let now = Timestamp::now();
    let own = vec![1u8; 10];
    let me = Node::new(&own, Stage::Testing);
    let mut ids = ByteSet::new();
    ids.insert(&vec![4u8; 10]);
    let request = ConsensusMessage::new_fetch_nodes(&vec![2u8; 10], &me, &ids, 9).unwrap();
    let reply = fetch_nodes_reply(&own, Stage::Testing, &request, Vec::new(), now).unwrap();
    assert!(accepts_reply_at(&reply, &vec![2u8; 10], 9, false, now).unwrap());
    assert!(!accepts_reply_at(&reply, &vec![2u8; 10], 9, true, now).unwrap());
    // A reply from the future is no valid reply.
    let early = Timestamp(now.0 - 1_000_000);
    assert!(matches!(accepts_reply_at(&reply, &vec![2u8; 10], 9, false, early), Err(Error::Model { .. })));
}

#[test]
fn avalanche_step_at_a_time_checks_the_transaction() {
    let now = Timestamp::now();
    let mut tx = Transaction::new(1).unwrap();
    tx.id = bytes_of(1);
    tx.add_input(&Input::new(&account_of(3, 5, 11), 1, 0).unwrap(), 0).unwrap();
    let mut state = ConsensusState::new(0, Stage::Testing);
    state.add_known_transaction(bytes_of(1));
    state.add_known_transaction(bytes_of(11));
    let mut cs = conflict_set_of(&[1]);
    let params = ConsensusParams::new(Stage::Testing, 3, None, None).unwrap();

    // A transaction made after `early` is not valid then: the state is kept.
    let early = Timestamp(tx.time.0 - 1_000_000);
    assert!(matches!(
        avalanche_step_at(&mut state, &mut cs, &tx, 2, &params, true, None, early),
        Err(Error::Model { .. })
    ));
    assert!(!state.lookup_queried_transaction(&bytes_of(1)));

    match avalanche_step_at(&mut state, &mut cs, &tx, 2, &params, true, None, now).unwrap() {
        AvalancheAction::ResetAncestorCounts(ids) => {
            assert_eq!(ids.len(), 1);
            assert!(ids.contains(&bytes_of(11)));
        },
        _ => panic!("expected a reset"),
    }
    assert!(state.lookup_queried_transaction(&bytes_of(1)));
}

#[test]
fn strong_preference_at_a_time() {
    let now = Timestamp::now();
    let mut tx = Transaction::new(1).unwrap();
    tx.add_input(&Input::new(&account_of(3, 5, 11), 1, 0).unwrap(), 0).unwrap();
    let mut state = ConsensusState::new(0, Stage::Testing);
    state.add_known_transaction(bytes_of(11));

    assert!(is_strongly_preferred_at(&state, None, true, &Vec::new(), now).unwrap());
    assert!(is_strongly_preferred_at(&state, Some(&tx), false, &vec![conflict_set_of(&[11, 13])], now).unwrap());
    assert!(!is_strongly_preferred_at(&state, Some(&tx), false, &vec![conflict_set_of(&[13, 11])], now).unwrap());
    let early = Timestamp(tx.time.0 - 1_000_000);
    assert!(is_strongly_preferred_at(&state, Some(&tx), false, &vec![conflict_set_of(&[11])], early).is_err());
}

#[test]
fn pushed_ids_and_counts_are_checked() {
    let now = Timestamp::now();
    let mut a = Transaction::new(5).unwrap();
    a.id = bytes_of(5);
    let mut b = Transaction::new(6).unwrap();
    b.id = bytes_of(6);
    let push = push_transactions_reply(&vec![1u8; 10], Stage::Testing, &vec![2u8; 10], 41, vec![a, b], now).unwrap();

    let mut requested = ByteSet::new();
    requested.insert(&bytes_of(5));
    assert!(!accepts_pushed_ids(&push, &requested).unwrap());
    requested.insert(&bytes_of(6));
    assert!(accepts_pushed_ids(&push, &requested).unwrap());
    requested.insert(&bytes_of(7));
    assert!(accepts_pushed_ids(&push, &requested).unwrap());

    assert!(accepts_pushed_count(&push, 2).unwrap());
    assert!(accepts_pushed_count(&push, 3).unwrap());
    assert!(!accepts_pushed_count(&push, 1).unwrap());

    let me = Node::new(&vec![1u8; 10], Stage::Testing);
    let fetch = ConsensusMessage::new_fetch_random_nodes(&vec![2u8; 10], &me, 3, 7).unwrap();
    assert!(matches!(accepts_pushed_ids(&fetch, &requested), Err(Error::InvalidMessage)));
    assert!(matches!(accepts_pushed_count(&fetch, 3), Err(Error::InvalidMessage)));
}

#[test]
fn queries_are_answered_and_replies_read() {
    let now = Timestamp::now();
    let own = vec![1u8; 10];
    let peer = vec![2u8; 10];
    let me = Node::new(&own, Stage::Testing);
    let mut tx = Transaction::new(5).unwrap();
    tx.id = bytes_of(5);
    let query = ConsensusMessage::new_query(&peer, &me, tx, 30).unwrap();

    let reply = query_reply_at(&own, Stage::Testing, &query, true, now).unwrap();
    match &reply {
        ConsensusMessage::Reply { id, address, node, time, tx_id, chit } => {
            assert_eq!(*id, 31);
            assert_eq!(address, &own);
            assert_eq!(node.address, peer);
            assert_eq!(node.last_seen, now);
            assert_eq!(*time, now);
            assert_eq!(tx_id, &bytes_of(5));
            assert!(*chit);
        },
        _ => panic!("expected a reply"),
    }
    assert!(matches!(query_reply_at(&vec![3u8; 10], Stage::Testing, &query, true, now), Err(Error::InvalidAddress)));
    let fetch = ConsensusMessage::new_fetch_random_nodes(&peer, &me, 3, 7).unwrap();
    assert!(matches!(query_reply_at(&own, Stage::Testing, &fetch, true, now), Err(Error::InvalidMessage)));

    // The peer reads the chit of the reply to its query 30.
    assert!(reply_chit_at(&reply, &peer, 30, &bytes_of(5), now).unwrap());
    assert!(matches!(reply_chit_at(&reply, &peer, 29, &bytes_of(5), now), Err(Error::InvalidId)));
    assert!(matches!(reply_chit_at(&reply, &own, 30, &bytes_of(5), now), Err(Error::InvalidAddress)));
    assert!(matches!(reply_chit_at(&reply, &peer, 30, &bytes_of(6), now), Err(Error::InvalidId)));
    assert!(matches!(reply_chit_at(&query, &peer, 29, &bytes_of(5), now), Err(Error::InvalidMessage)));
    let early = Timestamp(now.0 - 1_000_000);
    assert!(matches!(reply_chit_at(&reply, &peer, 30, &bytes_of(5), early), Err(Error::Model { .. })));
}

#[test]
fn heard_nodes_become_known() {
    let now = Timestamp::now();
    let own = vec![1u8; 10];
    let mut state = ConsensusState::new(0, Stage::Testing);
    let peer = Node::new(&vec![2u8; 10], Stage::Testing);

    assert!(handle_node_at(&mut state, &own, &peer, now).is_ok());
    assert!(state.lookup_known_node(&vec![2u8; 10]));
    assert!(matches!(handle_node_at(&mut state, &own, &Node::new(&own, Stage::Testing), now), Err(Error::InvalidNode)));
    assert!(!state.lookup_known_node(&own));
    let stale = Node { address: vec![3u8; 10], stage: Stage::Testing, last_seen: Timestamp(0) };
    assert!(matches!(handle_node_at(&mut state, &own, &stale, now), Err(Error::Model { .. })));
    assert!(!state.lookup_known_node(&vec![3u8; 10]));
}
