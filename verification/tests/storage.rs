use alsacoin::models::account::Account;
use alsacoin::models::consensus_message::ConsensusMessage;
use alsacoin::models::node::Node;
use alsacoin::models::stage::Stage;
use alsacoin::models::transaction::Transaction;
use alsacoin::models::storage::{digest_key, number_key};
use alsacoin::models::timestamp::Timestamp;
use alsacoin::store::memory::MemoryStoreFactory;

fn bytes_of(b: u8) -> Vec<u8> {
    vec![b; 64]
}

#[test]
fn test_account_storable() {
    let max_value_size = 1 << 10;
    let max_size = 1 << 30;

    let mut store = MemoryStoreFactory::new_btree(max_value_size, max_size).unwrap();
    let stage = Stage::Testing;

    let items: Vec<(Vec<u8>, Vec<u8>)> = (0..10u8).map(|i| (bytes_of(i), vec![i; 40])).collect();

    for (key, value) in &items {
        let res = Account::count(&store, stage, Some(key), None, None);
        assert!(res.is_ok());
        assert_eq!(res.unwrap(), 0);

        let res = Account::query(&store, stage, Some(key), None, None, None);
        assert!(res.is_ok());
        assert_eq!(res.unwrap().len(), 0);

        let res = Account::lookup(&store, stage, key);
        assert!(res.is_ok());
        assert!(!res.unwrap());

        let res = Account::get(&store, stage, key);
        assert!(res.is_err());

        let res = Account::insert(&mut store, stage, key, value);
        assert!(res.is_ok());

        let res = Account::count(&store, stage, Some(key), None, None);
        assert!(res.is_ok());
        assert_eq!(res.unwrap(), 1);

        let res = Account::query(&store, stage, Some(key), None, None, None);
        assert!(res.is_ok());
        assert_eq!(res.unwrap().iter().next(), Some(value));

        let res = Account::lookup(&store, stage, key);
        assert!(res.is_ok());
        assert!(res.unwrap());

        let res = Account::get(&store, stage, key);
        assert!(res.is_ok());
        assert_eq!(&res.unwrap(), value);

        let res = Account::remove(&mut store, stage, key);
        assert!(res.is_ok());

        let res = Account::count(&store, stage, Some(key), None, None);
        assert!(res.is_ok());
        assert_eq!(res.unwrap(), 0);

        let res = Account::query(&store, stage, Some(key), None, None, None);
        assert!(res.is_ok());
        assert_eq!(res.unwrap().len(), 0);

        let res = Account::lookup(&store, stage, key);
        assert!(res.is_ok());
        assert!(!res.unwrap());

        let res = Account::get(&store, stage, key);
        assert!(res.is_err());

        let res = Account::insert(&mut store, stage, key, value);
        assert!(res.is_ok());

        let res = Account::clear(&mut store, stage);
        assert!(res.is_ok());

        let res = Account::lookup(&store, stage, key);
        assert!(res.is_ok());
        assert!(!res.unwrap());
    }
}

#[test]
fn account_stages_are_apart() {
    let mut store = MemoryStoreFactory::new_btree(1 << 10, 1 << 30).unwrap();
    let key = bytes_of(5);
    Account::insert(&mut store, Stage::Testing, &key, &[1, 2, 3]).unwrap();
    assert!(!Account::lookup(&store, Stage::Production, &key).unwrap());
    assert!(Account::create(&mut store, Stage::Testing, &key, &[4]).is_err());
    assert!(Account::update_stored(&mut store, Stage::Testing, &key, &[4]).is_ok());
    assert_eq!(Account::get(&store, Stage::Testing, &key).unwrap(), vec![4]);
    assert!(Account::update_stored(&mut store, Stage::Production, &key, &[4]).is_err());
    Account::clear(&mut store, Stage::Production).unwrap();
    assert!(Account::lookup(&store, Stage::Testing, &key).unwrap());
}

#[test]
fn store_keys_are_framed() {
    let key = digest_key(Stage::Production, 2, &[9, 9]);
    assert_eq!(key[0], 2);
    assert_eq!(key[1], 2);
    assert_eq!(&key[2..], &[9u8, 9][..]);
    let key = number_key(Stage::Development, 7, 0x0102).unwrap();
    assert_eq!(key, vec![0, 7, 0, 0, 0, 0, 0, 0, 1, 2]);
}

#[test]
fn test_consensus_message_storable() {
    let max_value_size = 1 << 10;
    let max_size = 1 << 30;

    let mut store = MemoryStoreFactory::new_btree(max_value_size, max_size).unwrap();

    let stage = Stage::Testing;

    let items: Vec<(u64, ConsensusMessage)> = (0..10u64)
        .map(|query_id| {
            let address = vec![query_id as u8; 100];
            let node = Node::new(&address, stage);
            let tx_id = bytes_of(200);
            let chit = query_id % 2 == 0;

            let cons_msg = ConsensusMessage::new_reply(&address, query_id, &node, tx_id, chit).unwrap();
            (cons_msg.id(), cons_msg)
        })
        .collect();

    for (key, value) in &items {
        let bytes = vec![*key as u8; 30];

        let res = ConsensusMessage::count(&store, stage, Some(*key), None, None);
        assert!(res.is_ok());
        assert_eq!(res.unwrap(), 0);

        let res = ConsensusMessage::query(&store, stage, Some(*key), None, None, None);
        assert!(res.is_ok());
        assert_eq!(res.unwrap().len(), 0);

        let res = ConsensusMessage::lookup(&store, stage, *key);
        assert!(res.is_ok());
        assert!(!res.unwrap());

        let res = ConsensusMessage::get(&store, stage, *key);
        assert!(res.is_err());

        let res = ConsensusMessage::insert(&mut store, stage, value, &bytes);
        assert!(res.is_ok());

        let res = ConsensusMessage::count(&store, stage, Some(*key), None, None);
        assert!(res.is_ok());
        assert_eq!(res.unwrap(), 1);

        let res = ConsensusMessage::query(&store, stage, Some(*key), None, None, None);
        assert!(res.is_ok());
        assert_eq!(res.unwrap().iter().next(), Some(&bytes));

        let res = ConsensusMessage::lookup(&store, stage, *key);
        assert!(res.is_ok());
        assert!(res.unwrap());

        let res = ConsensusMessage::get(&store, stage, *key);
        assert!(res.is_ok());
        assert_eq!(res.unwrap(), bytes);

        let res = ConsensusMessage::remove(&mut store, stage, *key);
        assert!(res.is_ok());

        let res = ConsensusMessage::count(&store, stage, Some(*key), None, None);
        assert!(res.is_ok());
        assert_eq!(res.unwrap(), 0);

        let res = ConsensusMessage::query(&store, stage, Some(*key), None, None, None);
        assert!(res.is_ok());
        assert_eq!(res.unwrap().len(), 0);

        let res = ConsensusMessage::lookup(&store, stage, *key);
        assert!(res.is_ok());
        assert!(!res.unwrap());

        let res = ConsensusMessage::get(&store, stage, *key);
        assert!(res.is_err());

        let res = ConsensusMessage::insert(&mut store, stage, value, &bytes);
        assert!(res.is_ok());

        let res = ConsensusMessage::clear(&mut store, stage);
        assert!(res.is_ok());

        let res = ConsensusMessage::lookup(&store, stage, *key);
        assert!(res.is_ok());
        assert!(!res.unwrap());
    }

    let other_stage = ConsensusMessage::insert(&mut store, Stage::Production, &items[0].1, &[1]);
    assert!(other_stage.is_err());
}

#[test]
fn test_store_keys_of_stages_and_kinds_differ() {
    let id = bytes_of(9);
    let account_key = Account::key_to_bytes(Stage::Testing, &id).unwrap();
    let transaction_key = Transaction::key_to_bytes(Stage::Testing, &id).unwrap();
    let production_key = Account::key_to_bytes(Stage::Production, &id).unwrap();
    assert_ne!(account_key, transaction_key);
    assert_ne!(account_key, production_key);
    assert_eq!(account_key[0], 1);
    assert_eq!(account_key[1], 2);
    assert_eq!(transaction_key[1], 3);
    assert_eq!(production_key[0], 2);
    assert_eq!(&account_key[2..], id.as_slice());
}

#[test]
fn test_consensus_message() {
    let address = vec![5u8; 100];
    let node = Node::new(&vec![6u8; 100], Stage::Testing);
    let query_id = 77;
    let tx_id = vec![8u8; 64];
    let chit = true;

    let mut invalid_node = node.clone();
    invalid_node.last_seen = Timestamp(Timestamp::now().0 + 1_000_000);

    let res = ConsensusMessage::new_reply(&address, query_id, &invalid_node, tx_id.clone(), chit);
    assert!(res.is_err());

    let res = ConsensusMessage::new_reply(&address, query_id, &node, node.address.clone(), chit);
    assert!(res.is_err());

    let res = ConsensusMessage::new_reply(&address, query_id, &node, tx_id.clone(), chit);
    assert!(res.is_ok());

    let cons_msg = res.unwrap();

    let res = cons_msg.validate_query();
    assert!(res.is_err());

    let res = cons_msg.validate_reply();
    assert!(res.is_ok());

    let res = cons_msg.validate();
    assert!(res.is_ok());

    let cons_msg = ConsensusMessage::Reply {
        address,
        id: query_id,
        node: invalid_node.clone(),
        time: Timestamp::now(),
        tx_id,
        chit,
    };

    let res = cons_msg.validate();
    assert!(res.is_err());

    let res = cons_msg.validate_reply();
    assert!(res.is_err());
}
