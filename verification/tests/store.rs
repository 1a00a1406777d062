use alsacoin::store::btree_store::BTreeStore;
use alsacoin::store::error::Error;
use alsacoin::store::factory::{StoreFactory, StoreKind};
use alsacoin::store::memory::MemoryStoreFactory;
use alsacoin::store::traits::Store;

fn bytes(seed: u8, len: usize) -> Vec<u8> {
    (0..len).map(|i| (i as u8).wrapping_mul(31).wrapping_add(seed)).collect()
}

#[test]
fn test_btree_store_ops() {
    let max_value_size = 1 << 10;
    let max_size = 1 << 30;

    let res = BTreeStore::new(max_size, max_value_size);
    assert!(res.is_err());

    let res = BTreeStore::new(max_value_size, max_size);
    assert!(res.is_ok());

    let mut store = res.unwrap();

    let key_len = 100;
    let value_len = 1000;
    let mut expected_size = 0;

    let items: Vec<(Vec<u8>, Vec<u8>)> = (0..10u8).map(|i| (bytes(i, key_len), bytes(i + 100, value_len))).collect();

    for (key, value) in &items {
        let size = store.size();
        assert_eq!(size, expected_size);

        let res = store.count(Some(&key), None, None);
        assert!(res.is_ok());
        assert_eq!(res.unwrap(), 0);

        let res = store.lookup(&key);
        assert!(res.is_ok());
        let found = res.unwrap();
        assert!(!found);

        let res = store.get(&key);
        assert!(res.is_err());

        let res = store.insert(&key, &value);
        assert!(res.is_ok());

        expected_size += (key.len() + value.len()) as u32;

        let res = store.count(Some(&key), None, None);
        assert!(res.is_ok());
        assert_eq!(res.unwrap(), 1);

        let res = store.query(Some(&key), None, None, None);
        assert!(res.is_ok());
        assert_eq!(res.unwrap(), vec![value.to_owned()]);

        let res = store.lookup(&key);
        assert!(res.is_ok());
        let found = res.unwrap();
        assert!(found);

        let res = store.get(&key);
        assert!(res.is_ok());
        assert_eq!(&res.unwrap(), value);

        let res = store.remove(&key);
        assert!(res.is_ok());

        expected_size -= (key.len() + value.len()) as u32;

        let res = store.count(Some(&key), None, None);
        assert!(res.is_ok());
        assert_eq!(res.unwrap(), 0);

        let res = store.query(Some(&key), None, None, None);
        assert!(res.is_ok());
        assert_eq!(res.unwrap(), vec![] as Vec<Vec<u8>>);

        let res = store.lookup(&key);
        assert!(res.is_ok());
        let found = res.unwrap();
        assert!(!found);

        let res = store.get(&key);
        assert!(res.is_err());

        let res = store.insert(&key, &value);
        assert!(res.is_ok());

        let res = store.clear();
        assert!(res.is_ok());

        assert_eq!(store.keys_size(), 0);
        assert_eq!(store.values_size(), 0);
    }

    let invalid_value_len = max_value_size + 1;

    let invalid_item = (bytes(7, key_len), bytes(9, invalid_value_len as usize));

    let res = store.insert(&invalid_item.0, &invalid_item.1);
    assert!(res.is_err());

    store.set_max_value_size(invalid_value_len as u32);

    let res = store.insert(&invalid_item.0, &invalid_item.1);
    assert!(res.is_ok());

    let res = store.lookup(&invalid_item.0);
    assert!(res.is_ok());
    let found = res.unwrap();
    assert!(found);
}

fn filled() -> BTreeStore {
    let mut store = BTreeStore::new(100, 1000).unwrap();
    for k in [5u8, 1, 3, 9, 7] {
        store.insert(&[k], &[k, k]).unwrap();
    }
    store
}

#[test]
fn btree_store_query_orders_and_windows() {
    let store = filled();
    let all = store.query(None, None, None, None).unwrap();
    assert_eq!(all, vec![vec![1, 1], vec![3, 3], vec![5, 5], vec![7, 7], vec![9, 9]]);
    let range = store.query(Some(&[3]), Some(&[9]), None, None).unwrap();
    assert_eq!(range, vec![vec![3, 3], vec![5, 5], vec![7, 7]]);
    let window = store.query(Some(&[3]), None, Some(2), Some(1)).unwrap();
    assert_eq!(window, vec![vec![5, 5], vec![7, 7]]);
    // Without a lower bound the upper bound plays no part.
    let no_from = store.query(None, Some(&[3]), None, None).unwrap();
    assert_eq!(no_from.len(), 5);
    assert_eq!(store.count(Some(&[3]), Some(&[9]), Some(1)).unwrap(), 2);
    assert_eq!(store.count(None, None, Some(10)).unwrap(), 0);
    assert!(matches!(store.query(Some(&[9]), Some(&[3]), None, None), Err(Error::InvalidRange)));
    assert!(matches!(store.count(Some(&[9]), Some(&[3]), None), Err(Error::InvalidRange)));
}

#[test]
fn btree_store_sizes_and_limits() {
    let mut store = BTreeStore::new(4, 10).unwrap();
    assert!(matches!(store.insert(&[1], &[1, 2, 3, 4, 5]), Err(Error::InvalidSize)));
    store.insert(&[1], &[1, 2, 3]).unwrap();
    assert_eq!(store.size(), 4);
    store.insert(&[2], &[1, 2, 3]).unwrap();
    assert_eq!(store.size(), 8);
    assert!(matches!(store.insert(&[3], &[1, 2]), Err(Error::InvalidSize)));
    assert_eq!(store.size(), 8);
    // Writing a key again replaces its value in the sizes.
    store.insert(&[1], &[9]).unwrap();
    assert_eq!(store.size(), 6);
    assert_eq!(store.get(&[1]).unwrap(), vec![9]);
    store.insert(&[1], &[9]).unwrap();
    assert_eq!(store.size(), 6);
    // A rewrite fits where the size after it does.
    store.insert(&[2], &[1, 2, 3, 4]).unwrap();
    assert_eq!(store.size(), 7);
    store.insert(&[3], &[1, 2]).unwrap();
    assert_eq!(store.size(), 10);
    assert!(matches!(store.set_max_size(3), Err(Error::InvalidSize)));
    assert!(store.set_max_size(4).is_ok());
    assert_eq!(store.get_max_size(), 4);
    assert_eq!(store.get_max_value_size(), 4);
}

#[test]
fn btree_store_create_update_remove() {
    let mut store = BTreeStore::new(10, 100).unwrap();
    assert!(matches!(store.update(&[1], &[1]), Err(Error::NotFound)));
    store.create(&[1], &[1]).unwrap();
    assert!(matches!(store.create(&[1], &[2]), Err(Error::AlreadyFound)));
    store.update(&[1], &[2]).unwrap();
    assert_eq!(store.get(&[1]).unwrap(), vec![2]);
    assert_eq!(store.size(), 2);
    let size = store.size();
    store.create(&[2], &[7, 7]).unwrap();
    store.remove(&[2]).unwrap();
    assert_eq!(store.size(), size);
    assert!(matches!(store.remove(&[2]), Err(Error::NotFound)));
    assert!(matches!(store.insert_batch(&[]), Err(Error::NotImplemented)));
    assert!(matches!(store.remove_batch(&[]), Err(Error::NotImplemented)));
}

#[test]
fn btree_store_remove_range() {
    let mut store = filled();
    store.remove_range(Some(&[3]), Some(&[9]), Some(1)).unwrap();
    assert_eq!(store.query(None, None, None, None).unwrap(), vec![vec![1, 1], vec![3, 3], vec![9, 9]]);
    assert_eq!(store.size(), 9);
    let mut store = filled();
    store.remove_range(None, Some(&[5]), None).unwrap();
    assert_eq!(store.query(None, None, None, None).unwrap(), vec![vec![5, 5], vec![7, 7], vec![9, 9]]);
    let mut store = filled();
    store.remove_range(None, None, Some(4)).unwrap();
    assert_eq!(store.query(None, None, None, None).unwrap().len(), 4);
    assert!(matches!(store.remove_range(Some(&[9]), Some(&[1]), None), Err(Error::InvalidRange)));
}

#[test]
fn btree_store_sample_picks() {
    let store = filled();
    // count skipping 2 gives 3; at most 2 values are drawn from.
    let res = store.sample(None, None, 2, &[1, 4]).unwrap();
    assert_eq!(res, vec![vec![3, 3]]);
    assert!(matches!(store.sample(Some(&[9]), Some(&[1]), 2, &[0]), Err(Error::InvalidRange)));
}

#[test]
fn memory_and_store_factories() {
    assert!(MemoryStoreFactory::new_btree(10, 100).is_ok());
    assert!(matches!(MemoryStoreFactory::new_btree(100, 10), Err(Error::InvalidSize)));
    assert!(matches!(StoreFactory::create(None, "temporary"), Ok(StoreKind::Temporary)));
    assert!(matches!(StoreFactory::create(None, "persistent"), Err(Error::InvalidPath)));
    match StoreFactory::create(Some("db".to_string()), "persistent") {
        Ok(StoreKind::Persistent { path }) => assert_eq!(path, "db"),
        _ => panic!("expected a persistent store"),
    }
    assert!(matches!(StoreFactory::create(None, "memory"), Err(Error::InvalidKind)));
    assert_eq!(Error::InvalidRange.message(), "Invalid range");
    assert_eq!(Error::Store { msg: "x".to_string() }.message(), "Store: x");
}

#[test]
fn btree_store_count_needs_skip() {
    let store = filled();
    // Without a skip, the count is not looked at.
    assert_eq!(store.query(None, None, Some(2), None).unwrap().len(), 5);
    assert_eq!(store.query(None, None, Some(2), Some(0)).unwrap().len(), 2);
    assert_eq!(store.query(None, None, Some(2), Some(4)).unwrap().len(), 1);
}
