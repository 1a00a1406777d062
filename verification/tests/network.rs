use alsacoin::models::consensus_message::ConsensusMessage;
use alsacoin::models::node::Node;
use alsacoin::models::stage::Stage;
use alsacoin::network::tcp::{address_from_bytes, address_to_bytes};
use alsacoin::network::error::Error;
use alsacoin::network::factory::NetworkFactory;
use alsacoin::network::message::Message;

#[test]
fn network_factory_picks_the_address_of_the_kind() {
    assert_eq!(NetworkFactory::create("consensus", "a:1", "b:2", "c:3").unwrap(), "a:1");
    assert_eq!(NetworkFactory::create("miner", "a:1", "b:2", "c:3").unwrap(), "b:2");
    assert_eq!(NetworkFactory::create("client", "a:1", "b:2", "c:3").unwrap(), "c:3");
    assert!(matches!(NetworkFactory::create("server", "a:1", "b:2", "c:3"), Err(Error::InvalidKind)));
}

#[test]
fn network_errors_wrap_other_errors() {
    let e = Error::from_store(&alsacoin::store::error::Error::NotFound);
    assert_eq!(e.message(), "Store: Not found");
    let e = Error::from_model(&alsacoin::models::error::Error::InvalidStage);
    assert_eq!(e.message(), "Model: Invalid stage");
    let m = Message { address: vec![1], data: vec![2, 3] };
    assert_eq!(m.clone(), m);
}

#[test]
fn test_message_consensus_message() {

    let address = vec![7u8; 100];
    let node = Node::new(&address, Stage::Testing);
    let query_id = 41;
    let tx_id = vec![9u8; 64];
    let chit = true;

    let cons_msg_a = ConsensusMessage::new_reply(&address, query_id, &node, tx_id.clone(), chit).unwrap();
    let data = vec![1u8, 2, 3];

    let res = Message::from_consensus_message(&cons_msg_a, data.clone());
    assert!(res.is_ok());

    let msg = res.unwrap();
    assert_eq!(msg.address, address);
    assert_eq!(msg.data, data);

    let decoded = ConsensusMessage::new_reply(&address, query_id, &node, tx_id.clone(), chit).unwrap();
    let res = msg.to_consensus_message(decoded);
    assert!(res.is_ok());

    let cons_msg_b = res.unwrap();
    assert_eq!(cons_msg_a.id(), cons_msg_b.id());
    assert_eq!(cons_msg_a.node().address, cons_msg_b.node().address);

    let other = Message { address: vec![8u8; 100], data: vec![] };
    let decoded = ConsensusMessage::new_reply(&address, query_id, &node, tx_id, chit).unwrap();
    assert!(matches!(other.to_consensus_message(decoded), Err(Error::InvalidAddress)));
}

#[test]
fn tcp_addresses_as_bytes() {

    let bytes = address_to_bytes([127, 0, 0, 1], 2019).unwrap();
    assert_eq!(bytes, vec![127, 0, 0, 1, 7, 227]);
    assert_eq!(address_from_bytes(&bytes).unwrap(), ([127, 0, 0, 1], 2019));
    assert_eq!(address_from_bytes(&[1, 2, 3, 4, 0, 80, 99]).unwrap(), ([1, 2, 3, 4], 80));
    assert!(matches!(address_from_bytes(&[1, 2, 3, 4, 0]), Err(Error::IO { .. })));
    assert!(matches!(address_from_bytes(&[1, 2]), Err(Error::IO { .. })));
}
