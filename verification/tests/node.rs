use alsacoin::models::node::Node;
use alsacoin::models::stage::Stage;
use alsacoin::models::timestamp::Timestamp;

#[test]
fn test_node_validate() {
    let address: Vec<u8> = (0u8..10).collect();
    let stage = Stage::Testing;
    let invalid_timestamp = Timestamp::new(2012, 12, 31, 12, 12, 12).unwrap();

    let mut node = Node::new(&address, stage);
    let res = node.validate();
    assert!(res.is_ok());

    node.last_seen = invalid_timestamp;
    let res = node.validate();
    assert!(res.is_err());
}

#[test]
fn node_new_keeps_address_and_stage() {
    let node = Node::new(&[1, 2, 3], Stage::Production);
    assert_eq!(node.address, vec![1, 2, 3]);
    assert_eq!(node.stage, Stage::Production);
}
