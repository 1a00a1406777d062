use alsacoin::models::consensus_state::ConsensusState;
use alsacoin::models::error::Error;
use alsacoin::models::stage::Stage;

fn digest(seed: u8) -> Vec<u8> {
    (0..64u8).map(|i| i.wrapping_mul(13).wrapping_add(seed)).collect()
}

#[test]
fn test_consensus_state_known_transactions_ops() {
    let mut state = ConsensusState::new(42, Stage::Testing);

    let res = state.validate();
    assert!(res.is_ok());

    let tx_id = digest(1);

    let found = state.lookup_known_transaction(&tx_id);
    assert!(!found);

    let res = state.remove_known_transaction(&tx_id);
    assert!(res.is_err());

    state.add_known_transaction(tx_id.clone());

    let res = state.validate();
    assert!(res.is_ok());

    let found = state.lookup_known_transaction(&tx_id);
    assert!(found);

    let res = state.remove_known_transaction(&tx_id);
    assert!(res.is_ok());

    state.clear();
    assert!(state.known_transactions.is_empty());

    let res = state.validate();
    assert!(res.is_ok());
}

#[test]
fn test_consensus_state_queried_transactions_ops() {
    let mut state = ConsensusState::new(7, Stage::Production);

    let res = state.validate();
    assert!(res.is_ok());

    let tx_id_1 = digest(1);
    let tx_id_2 = digest(2);

    state.add_known_transaction(tx_id_1.clone());

    let found = state.lookup_queried_transaction(&tx_id_2);
    assert!(!found);

    let res = state.remove_queried_transaction(&tx_id_2);
    assert!(res.is_err());

    let res = state.add_queried_transaction(tx_id_2.clone());
    assert!(res.is_err());

    let found = state.lookup_queried_transaction(&tx_id_1);
    assert!(!found);

    let res = state.remove_queried_transaction(&tx_id_1);
    assert!(res.is_err());

    let res = state.add_queried_transaction(tx_id_1.clone());
    assert!(res.is_ok());

    let res = state.validate();
    assert!(res.is_ok());

    let found = state.lookup_queried_transaction(&tx_id_1);
    assert!(found);

    let res = state.remove_queried_transaction(&tx_id_1);
    assert!(res.is_ok());

    state.clear();
    assert!(state.queried_transactions.is_empty());

    let res = state.validate();
    assert!(res.is_ok());
}

#[test]
fn test_consensus_state_conflict_sets_ops() {
    let mut state = ConsensusState::new(3, Stage::Development);
    let res = state.validate();
    assert!(res.is_ok());
    let cs_id = 1947;
    let found = state.lookup_conflict_set(cs_id);
    assert!(!found);
    let res = state.remove_conflict_set(cs_id);
    assert!(res.is_err());
    state.add_conflict_set(cs_id);
    let res = state.validate();
    assert!(res.is_ok());
    let found = state.lookup_conflict_set(cs_id);
    assert!(found);
    let res = state.remove_conflict_set(cs_id);
    assert!(res.is_ok());
    state.clear();
    assert!(state.conflict_sets.is_empty());
    let res = state.validate();
    assert!(res.is_ok());
}

#[test]
fn test_consensus_state_transaction_conflict_add_ops() {
    let mut state = ConsensusState::new(5, Stage::Testing);

    let res = state.validate();
    assert!(res.is_ok());

    let tx_id = digest(9);
    let tx_cs_id = 77;

    state.add_known_transaction(tx_id.clone());

    let found = state.lookup_transaction_conflict_set(&tx_id);
    assert!(!found);

    let res = state.remove_transaction_conflict_set(&tx_id);
    assert!(res.is_err());

    let res = state.add_transaction_conflict_set(tx_id.clone(), tx_cs_id);
    assert!(res.is_err());

    state.add_conflict_set(tx_cs_id);

    let res = state.add_transaction_conflict_set(tx_id.clone(), tx_cs_id);
    assert!(res.is_ok());

    let res = state.validate();
    assert!(res.is_ok());

    let found = state.lookup_transaction_conflict_set(&tx_id);
    assert!(found);

    let opt = state.get_transaction_conflict_set(&tx_id);
    assert!(opt.is_some());
    assert_eq!(opt.unwrap(), tx_cs_id);

    let res = state.remove_transaction_conflict_set(&tx_id);
    assert!(res.is_ok());

    state.clear();
    assert!(state.transaction_conflict_set.is_empty());

    let res = state.validate();
    assert!(res.is_ok());
}

#[test]
fn test_consensus_state_transaction_chit_ops() {
    let mut state = ConsensusState::new(6, Stage::Testing);
    let res = state.validate();
    assert!(res.is_ok());
    let tx_id = digest(4);
    let tx_chit = 12;
    state.add_known_transaction(tx_id.clone());
    let found = state.lookup_transaction_chit(&tx_id);
    assert!(!found);
    let res = state.remove_transaction_chit(&tx_id);
    assert!(res.is_err());
    let res = state.add_transaction_chit(tx_id.clone(), tx_chit);
    assert!(res.is_ok());
    let res = state.validate();
    assert!(res.is_ok());
    let found = state.lookup_transaction_chit(&tx_id);
    assert!(found);
    let opt = state.get_transaction_chit(&tx_id);
    assert!(opt.is_some());
    assert_eq!(opt.unwrap(), tx_chit);
    let res = state.remove_transaction_chit(&tx_id);
    assert!(res.is_ok());
    state.clear();
    assert!(state.transaction_chit.is_empty());
    let res = state.validate();
    assert!(res.is_ok());
}

#[test]
fn test_consensus_state_transaction_confidence_ops() {
    let mut state = ConsensusState::new(8, Stage::Testing);
    let res = state.validate();
    assert!(res.is_ok());
    let tx_id = digest(5);
    let tx_confidence = 99;
    state.add_known_transaction(tx_id.clone());
    let found = state.lookup_transaction_confidence(&tx_id);
    assert!(!found);
    let res = state.remove_transaction_confidence(&tx_id);
    assert!(res.is_err());
    let res = state.add_transaction_confidence(tx_id.clone(), tx_confidence);
    assert!(res.is_ok());
    let res = state.validate();
    assert!(res.is_ok());
    let found = state.lookup_transaction_confidence(&tx_id);
    assert!(found);
    let opt = state.get_transaction_confidence(&tx_id);
    assert!(opt.is_some());
    assert_eq!(opt.unwrap(), tx_confidence);
    let res = state.remove_transaction_confidence(&tx_id);
    assert!(res.is_ok());
    state.clear();
    assert!(state.transaction_confidence.is_empty());
    let res = state.validate();
    assert!(res.is_ok());
}

#[test]
fn test_consensus_state_known_nodes_ops() {
    let mut state = ConsensusState::new(9, Stage::Testing);
    let res = state.validate();
    assert!(res.is_ok());
    let node_id = digest(6);
    let found = state.lookup_known_node(&node_id);
    assert!(!found);
    let res = state.remove_known_node(&node_id);
    assert!(res.is_err());
    state.add_known_node(node_id.clone());
    let res = state.validate();
    assert!(res.is_ok());
    let found = state.lookup_known_node(&node_id);
    assert!(found);
    let res = state.remove_known_node(&node_id);
    assert!(res.is_ok());
    state.clear();
    assert!(state.known_nodes.is_empty());
    let res = state.validate();
    assert!(res.is_ok());
}

#[test]
fn consensus_state_invalid_when_referenced_transaction_is_forgotten() {
    let mut state = ConsensusState::new(1, Stage::Testing);
    state.add_known_transaction(digest(1));
    state.add_queried_transaction(digest(1)).unwrap();
    state.remove_known_transaction(&digest(1)).unwrap();
    assert!(matches!(state.validate(), Err(Error::NotFound)));
    let copy = state.clone();
    assert_eq!(copy, state);
}
