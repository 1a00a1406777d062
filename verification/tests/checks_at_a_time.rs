use alsacoin::models::account::Account;
use alsacoin::models::consensus_message::ConsensusMessage;
use alsacoin::models::error::Error;
use alsacoin::models::input::Input;
use alsacoin::models::node::Node;
use alsacoin::models::signers::{Signer, Signers};
use alsacoin::models::stage::Stage;
use alsacoin::models::timestamp::Timestamp;
use alsacoin::models::transaction::Transaction;
use alsacoin::network::error::Error as NetworkError;
use alsacoin::network::message::Message;
use alsacoin::store::memory::MemoryStoreFactory;

fn bytes_of(b: u8) -> Vec<u8> {
    vec![b; 64]
}

fn account_of(b: u8, value: u64) -> Account {
    let mut signers = Signers::new();
    signers.address = bytes_of(b);
    signers.add(&Signer { public_key: bytes_of(b + 100), weight: 1 }).unwrap();
    Account::new(Stage::Testing, &signers, value, Some(bytes_of(b + 50))).unwrap()
}

fn tx_of(b: u8) -> Transaction {
    let mut tx = Transaction::new(b as u64).unwrap();
    tx.id = bytes_of(b);
    tx
}

/// A time more than the noise before `t`.
fn before(t: Timestamp) -> Timestamp {
    Timestamp(t.0 - 1_000_000)
}

#[test]
fn messages_are_stamped_with_the_given_time() {
    let now = Timestamp::now();
    let own = vec![1u8; 10];
    let me = Node::new(&own, Stage::Testing);
    let mut ids = alsacoin::collections::ByteSet::new();
    ids.insert(&bytes_of(5));

    let m = ConsensusMessage::new_fetch_transactions_at(&vec![2u8; 10], &me, &ids, 4, now).unwrap();
    assert!(matches!(m, ConsensusMessage::FetchTransactions { time, id: 4, count: 1, .. } if time == now));
    let m = ConsensusMessage::new_fetch_nodes_at(&vec![2u8; 10], &me, &ids, 4, now).unwrap();
    assert!(matches!(m, ConsensusMessage::FetchNodes { time, .. } if time == now));
    let m = ConsensusMessage::new_push_nodes_at(&vec![2u8; 10], 4, &me, &vec![me.clone()], now).unwrap();
    assert!(matches!(m, ConsensusMessage::PushNodes { time, id: 5, count: 1, .. } if time == now));

    let m = ConsensusMessage::new_push_transactions_at(&vec![2u8; 10], 4, &me, vec![tx_of(5)], now).unwrap();
    assert!(matches!(m, ConsensusMessage::PushTransactions { time, id: 5, count: 1, .. } if time == now));
    let m = ConsensusMessage::new_mine_at(&vec![2u8; 10], &me, vec![tx_of(5)], 8, now).unwrap();
    assert!(matches!(m, ConsensusMessage::Mine { time, id: 8, .. } if time == now));
    let m = ConsensusMessage::new_query_at(&vec![2u8; 10], &me, tx_of(5), 9, now).unwrap();
    assert!(matches!(m, ConsensusMessage::Query { time, id: 9, .. } if time == now));
    let m = ConsensusMessage::new_reply_at(&vec![2u8; 10], 9, &me, bytes_of(5), true, now).unwrap();
    assert!(matches!(m, ConsensusMessage::Reply { time, id: 10, chit: true, .. } if time == now));

    // The node was seen after `before(now)`, by more than the noise.
    let early = before(now);
    assert!(matches!(
        ConsensusMessage::new_fetch_nodes_at(&vec![2u8; 10], &me, &ids, 4, early),
        Err(Error::InvalidTimestamp)
    ));
    assert!(matches!(
        ConsensusMessage::new_push_transactions_at(&vec![2u8; 10], 4, &me, vec![tx_of(5)], early),
        Err(Error::InvalidTimestamp)
    ));
    assert!(matches!(
        ConsensusMessage::new_reply_at(&vec![2u8; 10], 9, &me, own.clone(), true, now),
        Err(Error::InvalidId)
    ));
}

#[test]
fn network_messages_are_checked_at_a_time() {
    let now = Timestamp::now();
    let me = Node::new(&vec![1u8; 10], Stage::Testing);
    let fetch = || ConsensusMessage::new_fetch_random_nodes(&vec![2u8; 10], &me, 3, 7).unwrap();
    let msg = Message { address: vec![1u8; 10], data: Vec::new() };
    assert!(msg.to_consensus_message_at(fetch(), now).is_ok());
    let other = Message { address: vec![3u8; 10], data: Vec::new() };
    assert!(matches!(other.to_consensus_message_at(fetch(), now), Err(NetworkError::InvalidAddress)));
    assert!(matches!(msg.to_consensus_message_at(fetch(), before(now)), Err(NetworkError::Model { .. })));
}

#[test]
fn inputs_are_checked_at_a_time() {
    let now = Timestamp::now();
    let account = account_of(1, 100);
    let input = Input::new_at(&account, 3, 100, now).unwrap();
    assert_eq!(input.amount, 100);
    assert_eq!(input.distance, 3);
    assert!(matches!(Input::new_at(&account, 3, 101, now), Err(Error::InvalidAmount)));
    assert!(matches!(Input::new_at(&account, 0, 100, now), Err(Error::InvalidDistance)));
    assert!(matches!(Input::new_at(&account, 3, 100, before(now)), Err(Error::InvalidTimestamp)));

    let mut tx = Transaction::new(3).unwrap();
    tx.stage = Stage::Testing;
    assert!(tx.add_input_at(&input, 0, now).is_ok());
    assert!(matches!(tx.add_input_at(&input, 0, now), Err(Error::AlreadyFound)));
    let mut changed = input.clone();
    changed.amount = 10;
    assert!(tx.update_input_at(&changed, 0, now).is_ok());
    assert_eq!(tx.get_input(&input.address()).unwrap().amount, 10);
    assert!(tx.update_input_at(&Input::new_at(&account_of(2, 5), 1, 5, now).unwrap(), 0, now).is_err());
    let count = tx.inputs.len();
    assert!(tx.add_input_at(&input, 0, before(now)).is_err());
    assert_eq!(tx.inputs.len(), count);

    let time = tx.time;
    assert!(tx.set_locktime_at(Timestamp(time.0 + 10), now).is_ok());
    assert_eq!(tx.locktime, Some(Timestamp(time.0 + 10)));
    assert!(matches!(tx.set_locktime_at(Timestamp(time.0 - 10), now), Err(Error::InvalidTimestamp)));
    assert!(matches!(tx.set_locktime_at(Timestamp(now.0 + 1_000_000), now), Err(Error::InvalidTimestamp)));
    assert_eq!(tx.locktime, Some(Timestamp(time.0 + 10)));
}

#[test]
fn stored_values_are_validated_at_a_time() {
    let now = Timestamp::now();
    let store = MemoryStoreFactory::new_btree(1 << 10, 1 << 20).unwrap();
    let me = Node::new(&vec![1u8; 10], Stage::Testing);
    let fetch = || ConsensusMessage::new_fetch_random_nodes(&vec![2u8; 10], &me, 3, 7).unwrap();
    assert!(ConsensusMessage::validate_all_at(&store, Stage::Testing, &[fetch()], now).is_ok());
    assert!(ConsensusMessage::validate_all_at(&store, Stage::Testing, &[], before(now)).is_ok());
    assert!(ConsensusMessage::validate_all_at(&store, Stage::Testing, &[fetch()], before(now)).is_err());
    assert!(matches!(
        ConsensusMessage::validate_all_at(&store, Stage::Production, &[fetch()], now),
        Err(Error::InvalidStage)
    ));

    let testing = || {
        let mut tx = tx_of(3);
        tx.stage = Stage::Testing;
        tx
    };
    assert!(Transaction::validate_all_at(&store, Stage::Testing, &[testing()], now).is_ok());
    assert!(Transaction::validate_all_at(&store, Stage::Production, &[testing()], now).is_err());
    assert!(Transaction::validate_all_at(&store, Stage::Testing, &[testing()], before(now)).is_err());
}
