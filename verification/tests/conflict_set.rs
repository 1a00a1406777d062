use alsacoin::models::conflict_set::ConflictSet;
use alsacoin::models::stage::Stage;

fn digest(seed: u8) -> Vec<u8> {
    (0..64u8).map(|i| i.wrapping_mul(7).wrapping_add(seed)).collect()
}

#[test]
fn test_conflict_set_ops() {
    let addr = digest(1);
    let stage = Stage::Testing;
    let mut conflict_set = ConflictSet::new(addr, stage);

    let res = conflict_set.validate();
    assert!(res.is_ok());

    let tx_id_1 = digest(11);

    let found = conflict_set.lookup_transaction(&tx_id_1);
    assert!(!found);

    let res = conflict_set.remove_transaction(&tx_id_1);
    assert!(res.is_err());

    conflict_set.add_transaction(tx_id_1.clone());

    assert_eq!(conflict_set.last, Some(tx_id_1.clone()));
    assert_eq!(conflict_set.preferred, Some(tx_id_1.clone()));

    let found = conflict_set.lookup_transaction(&tx_id_1);
    assert!(found);

    let res = conflict_set.remove_transaction(&tx_id_1);
    assert!(res.is_ok());

    assert_eq!(conflict_set.last, None);
    assert_eq!(conflict_set.preferred, None);

    let res = conflict_set.set_last(tx_id_1.clone());
    assert!(res.is_err());

    let res = conflict_set.set_preferred(tx_id_1.clone());
    assert!(res.is_err());

    conflict_set.add_transaction(tx_id_1.clone());

    let tx_id_2 = digest(22);

    conflict_set.add_transaction(tx_id_2.clone());

    assert_eq!(conflict_set.last, Some(tx_id_2.clone()));
    assert_eq!(conflict_set.preferred, Some(tx_id_1.clone()));

    let tx_id_3 = digest(33);

    let res = conflict_set.set_last(tx_id_3.clone());
    assert!(res.is_err());

    let res = conflict_set.set_preferred(tx_id_3.clone());
    assert!(res.is_err());

    let res = conflict_set.set_last(tx_id_1.clone());
    assert!(res.is_ok());
    assert_eq!(conflict_set.last, Some(tx_id_1.clone()));

    let res = conflict_set.set_preferred(tx_id_2.clone());
    assert!(res.is_ok());
    assert_eq!(conflict_set.preferred, Some(tx_id_2.clone()));

    conflict_set.clear();
    assert!(conflict_set.transactions.is_empty());
    assert_eq!(conflict_set.last, None);
    assert_eq!(conflict_set.preferred, None);
    assert_eq!(conflict_set.count, 0);
}

#[test]
fn conflict_set_validity() {
    let mut cs = ConflictSet::new(digest(1), Stage::Development);
    cs.add_transaction(digest(2));
    cs.add_transaction(digest(3));
    assert!(cs.validate().is_ok());
    // Removing the last one but not the preferred one breaks the set.
    cs.remove_transaction(&digest(3)).unwrap();
    assert_eq!(cs.preferred, Some(digest(2)));
    assert_eq!(cs.last, None);
    assert!(matches!(cs.validate(), Err(alsacoin::models::error::Error::NotFound)));
    cs.set_last(digest(2)).unwrap();
    assert!(cs.validate().is_ok());
}
