use alsacoin::collections::ByteSet;
use alsacoin::models::account::Account;
use alsacoin::models::conflict_set::ConflictSet;
use alsacoin::models::consensus_state::ConsensusState;
use alsacoin::models::input::Input;
use alsacoin::models::signers::{Signer, Signers};
use alsacoin::models::stage::Stage;
use alsacoin::models::transaction::Transaction;
use alsacoin::protocol::error::Error;
use alsacoin::protocol::state::{
    apply_chit, calc_confidence, get_known_ancestors, get_unknown_ancestors, is_accepted, is_preferred,
    reset_count, update_confidence, upsert_conflict_set,
};

fn bytes_of(b: u8) -> Vec<u8> {
    vec![b; 64]
}

fn account_of(b: u8, value: u64, tx: u8) -> Account {
    let mut signers = Signers::new();
    signers.address = bytes_of(b);
    signers.add(&Signer { public_key: bytes_of(b + 100), weight: 1 }).unwrap();
    Account::new(Stage::Testing, &signers, value, Some(bytes_of(tx))).unwrap()
}

#[test]
fn ancestors_known_and_unknown() {
    let mut tx = Transaction::new(1).unwrap();
    tx.add_input(&Input::new(&account_of(1, 5, 11), 1, 0).unwrap(), 0).unwrap();
    tx.add_input(&Input::new(&account_of(2, 5, 12), 1, 0).unwrap(), 0).unwrap();

    let mut state = ConsensusState::new(0, Stage::Testing);
    state.add_known_transaction(bytes_of(11));

    let known = get_known_ancestors(&state, &tx).unwrap();
    assert_eq!(known.len(), 1);
    assert!(known.contains(&bytes_of(11)));

    let unknown = get_unknown_ancestors(&state, &tx).unwrap();
    assert_eq!(unknown.len(), 1);
    assert!(unknown.contains(&bytes_of(12)));

    let eve = Transaction::new_eve(Stage::Testing, &bytes_of(1), 2).unwrap();
    assert_eq!(get_unknown_ancestors(&state, &eve).unwrap().len(), 0);

    let mut invalid = Transaction::new(3).unwrap();
    invalid.distance = 0;
    assert!(get_known_ancestors(&state, &invalid).is_err());
}

#[test]
fn preferred_transaction_of_a_conflict_set() {
    let mut cs = ConflictSet::new(bytes_of(1), Stage::Testing);
    assert!(!is_preferred(&cs, &bytes_of(2)).unwrap());
    cs.add_transaction(bytes_of(2));
    cs.add_transaction(bytes_of(3));
    assert!(is_preferred(&cs, &bytes_of(2)).unwrap());
    assert!(!is_preferred(&cs, &bytes_of(3)).unwrap());
    cs.preferred = Some(bytes_of(9));
    assert!(matches!(is_preferred(&cs, &bytes_of(9)), Err(Error::Model { .. })));
}

#[test]
fn confidence_counts_chits_of_successors() {
    let mut state = ConsensusState::new(0, Stage::Testing);
    for b in 1..5u8 {
        state.add_known_transaction(bytes_of(b));
    }
    state.add_transaction_chit(bytes_of(1), 1).unwrap();
    state.add_transaction_chit(bytes_of(2), 1).unwrap();
    state.add_transaction_chit(bytes_of(3), 0).unwrap();

    let mut successors = ByteSet::new();
    successors.insert(&bytes_of(2));
    successors.insert(&bytes_of(3));
    successors.insert(&bytes_of(4));

    assert_eq!(calc_confidence(&state, &bytes_of(1), true, Some(&successors)).unwrap(), 2);
    assert_eq!(calc_confidence(&state, &bytes_of(1), true, None).unwrap(), 0);
    assert!(matches!(calc_confidence(&state, &bytes_of(1), false, Some(&successors)), Err(Error::NotFound)));

    successors.insert(&bytes_of(50));
    assert!(matches!(calc_confidence(&state, &bytes_of(1), true, Some(&successors)), Err(Error::NotFound)));
}

#[test]
fn acceptance_rules() {
    let mut state = ConsensusState::new(0, Stage::Testing);
    state.add_known_transaction(bytes_of(1));
    state.add_transaction_chit(bytes_of(1), 1).unwrap();

    assert!(is_accepted(&state, &bytes_of(1), None, false, None, None, None).unwrap());
    assert!(is_accepted(&state, &bytes_of(2), Some(true), false, None, None, None).unwrap());
    assert!(is_accepted(&state, &bytes_of(2), None, true, None, None, None).unwrap());
    assert!(!is_accepted(&state, &bytes_of(2), Some(false), true, None, None, None).unwrap());
    assert!(matches!(is_accepted(&state, &bytes_of(2), None, false, None, Some(1), None), Err(Error::NotFound)));

    let mut cs = ConflictSet::new(bytes_of(7), Stage::Testing);
    cs.add_transaction(bytes_of(2));
    cs.count = 5;
    assert!(is_accepted(&state, &bytes_of(2), None, false, Some(&cs), Some(4), None).unwrap());
    assert!(!is_accepted(&state, &bytes_of(2), None, false, Some(&cs), Some(5), None).unwrap());
    cs.add_transaction(bytes_of(3));
    assert!(!is_accepted(&state, &bytes_of(2), None, false, Some(&cs), Some(4), None).unwrap());
    assert!(is_accepted(&state, &bytes_of(2), None, false, Some(&cs), Some(4), Some(4)).unwrap());
    assert!(!is_accepted(&state, &bytes_of(2), None, false, Some(&cs), None, Some(5)).unwrap());
}

#[test]
fn conflict_set_follows_queries() {
    let fresh = upsert_conflict_set(None, &bytes_of(1), Stage::Testing, &bytes_of(2)).unwrap();
    assert_eq!(fresh.transactions.len(), 1);
    assert_eq!(fresh.last, Some(bytes_of(2)));
    assert_eq!(fresh.preferred, Some(bytes_of(2)));
    assert_eq!(fresh.count, 0);

    let mut cs = upsert_conflict_set(Some(fresh), &bytes_of(1), Stage::Testing, &bytes_of(3)).unwrap();
    assert_eq!(cs.transactions.len(), 2);
    assert_eq!(cs.last, Some(bytes_of(2)));

    apply_chit(&mut cs, &bytes_of(2), 1, 1).unwrap();
    assert_eq!(cs.count, 1);
    assert_eq!(cs.preferred, Some(bytes_of(2)));
    apply_chit(&mut cs, &bytes_of(3), 5, 1).unwrap();
    assert_eq!(cs.preferred, Some(bytes_of(3)));
    assert_eq!(cs.last, Some(bytes_of(3)));
    assert_eq!(cs.count, 1);
    apply_chit(&mut cs, &bytes_of(3), 6, 5).unwrap();
    assert_eq!(cs.count, 2);

    reset_count(&mut cs).unwrap();
    assert_eq!(cs.count, 0);

    let mut empty = ConflictSet::new(bytes_of(5), Stage::Testing);
    assert!(matches!(apply_chit(&mut empty, &bytes_of(3), 1, 0), Err(Error::NotFound)));
}

#[test]
fn confidence_is_recorded_for_known_transactions() {
    let mut state = ConsensusState::new(0, Stage::Testing);
    state.add_known_transaction(bytes_of(1));
    state.add_known_transaction(bytes_of(2));
    state.add_transaction_chit(bytes_of(2), 1).unwrap();
    let mut successors = ByteSet::new();
    successors.insert(&bytes_of(2));

    update_confidence(&mut state, &bytes_of(1), true, Some(&successors)).unwrap();
    assert_eq!(state.get_transaction_confidence(&bytes_of(1)), Some(1));

    assert!(update_confidence(&mut state, &bytes_of(3), true, None).is_err());
    assert_eq!(state.get_transaction_confidence(&bytes_of(3)), None);
}
