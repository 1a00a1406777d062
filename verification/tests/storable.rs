use alsacoin::models::account::Account;
use alsacoin::models::conflict_set::ConflictSet;
use alsacoin::models::consensus_params::ConsensusParams;
use alsacoin::models::consensus_state::ConsensusState;
use alsacoin::models::error::Error;
use alsacoin::models::signers::{Signer, Signers};
use alsacoin::models::stage::Stage;
use alsacoin::models::timestamp::Timestamp;
use alsacoin::models::transaction::Transaction;
use alsacoin::models::wallet::Wallet;
use alsacoin::store::memory::MemoryStoreFactory;

fn bytes_of(b: u8) -> Vec<u8> {
    vec![b; 64]
}

#[test]
fn test_transaction_storable() {
    let max_value_size = 1 << 10;
    let max_size = 1 << 30;

    let mut store = MemoryStoreFactory::new_btree(max_value_size, max_size).unwrap();

    let stage = Stage::Production;
    let no_accounts: Vec<Vec<u8>> = Vec::new();

    let items: Vec<(Vec<u8>, Transaction)> = (0..10u8)
        .map(|i| {
            let mut transaction = Transaction::new(i as u64).unwrap();
            transaction.stage = stage;
            transaction.id = bytes_of(i);
            (transaction.id.clone(), transaction)
        })
        .collect();

    for (key, value) in &items {
        let bytes = vec![key[0]; 48];

        let res = Transaction::count(&store, stage, Some(key), None, None);
        assert!(res.is_ok());
        assert_eq!(res.unwrap(), 0);

        let res = Transaction::query(&store, stage, Some(key), None, None, None);
        assert!(res.is_ok());
        assert_eq!(res.unwrap().len(), 0);

        let res = Transaction::lookup(&store, stage, key);
        assert!(res.is_ok());
        assert!(!res.unwrap());

        let res = Transaction::get(&store, stage, key);
        assert!(res.is_err());

        let res = Transaction::insert(&mut store, stage, value, &bytes, &no_accounts);
        assert!(res.is_ok());

        let res = Transaction::count(&store, stage, Some(key), None, None);
        assert!(res.is_ok());
        assert_eq!(res.unwrap(), 1);

        let res = Transaction::query(&store, stage, Some(key), None, None, None);
        assert!(res.is_ok());
        assert_eq!(res.unwrap().iter().next(), Some(&bytes));

        let res = Transaction::lookup(&store, stage, key);
        assert!(res.is_ok());
        assert!(res.unwrap());

        let res = Transaction::get(&store, stage, key);
        assert!(res.is_ok());
        assert_eq!(res.unwrap(), bytes);

        let res = Transaction::remove(&mut store, stage, key);
        assert!(res.is_ok());

        let res = Transaction::count(&store, stage, Some(key), None, None);
        assert!(res.is_ok());
        assert_eq!(res.unwrap(), 0);

        let res = Transaction::query(&store, stage, Some(key), None, None, None);
        assert!(res.is_ok());
        assert_eq!(res.unwrap().len(), 0);

        let res = Transaction::lookup(&store, stage, key);
        assert!(res.is_ok());
        assert!(!res.unwrap());

        let res = Transaction::get(&store, stage, key);
        assert!(res.is_err());

        let res = Transaction::insert(&mut store, stage, value, &bytes, &no_accounts);
        assert!(res.is_ok());

        let res = Transaction::clear(&mut store, stage);
        assert!(res.is_ok());

        let res = Transaction::lookup(&store, stage, key);
        assert!(res.is_ok());
        assert!(!res.unwrap());
    }

    let mut other = items[0].1.clone_for_test();
    other.stage = Stage::Testing;
    assert!(matches!(
        Transaction::insert(&mut store, stage, &other, &[1], &no_accounts),
        Err(Error::InvalidStage)
    ));
}

trait CloneForTest {
    fn clone_for_test(&self) -> Self;
}

impl CloneForTest for Transaction {
    fn clone_for_test(&self) -> Transaction {
        let mut t = Transaction::new(self.nonce).unwrap();
        t.id = self.id.clone();
        t.stage = self.stage;
        t.time = self.time;
        t
    }
}

#[test]
fn transaction_update_and_cleanup() {
    let mut store = MemoryStoreFactory::new_btree(1 << 10, 1 << 30).unwrap();
    let stage = Stage::Testing;
    let no_accounts: Vec<Vec<u8>> = Vec::new();

    let mut old = Transaction::new(1).unwrap();
    old.stage = stage;
    old.id = bytes_of(1);
    let mut young = Transaction::new(2).unwrap();
    young.stage = stage;
    young.id = bytes_of(2);

    assert!(Transaction::update(&mut store, stage, &old, &[1], &no_accounts).is_err());
    Transaction::create(&mut store, stage, &old, &[1], &no_accounts).unwrap();
    assert!(Transaction::create(&mut store, stage, &old, &[1], &no_accounts).is_err());
    Transaction::update(&mut store, stage, &old, &[7], &no_accounts).unwrap();
    assert_eq!(Transaction::get(&store, stage, &bytes_of(1)).unwrap(), vec![7]);
    Transaction::insert(&mut store, stage, &young, &[2], &no_accounts).unwrap();

    let min_time = Timestamp(young.time.0 + 1);
    old.time = Timestamp(young.time.0 - 100);
    young.time = Timestamp(young.time.0 + 100);
    let decoded = vec![old.clone_for_test(), young.clone_for_test()];
    Transaction::cleanup(&mut store, stage, Some(min_time), &decoded).unwrap();
    assert!(!Transaction::lookup(&store, stage, &bytes_of(1)).unwrap());
    assert!(Transaction::lookup(&store, stage, &bytes_of(2)).unwrap());

    let mut fresh = Transaction::new(3).unwrap();
    fresh.stage = stage;
    assert!(Transaction::validate_all(&store, stage, &[fresh]).is_ok());
    let mut elsewhere = Transaction::new(4).unwrap();
    elsewhere.stage = Stage::Production;
    assert!(matches!(Transaction::validate_all(&store, stage, &[elsewhere]), Err(Error::InvalidStage)));
    let batch = vec![vec![1u8]];
    let only_old = vec![old.clone_for_test()];
    assert!(Transaction::insert_batch(&mut store, stage, &only_old, &batch, &Vec::new()).is_err());
    assert!(Transaction::remove_batch(&mut store, stage, &vec![bytes_of(2)]).is_err());
    assert!(Transaction::lookup(&store, stage, &bytes_of(2)).unwrap());
    let key = Transaction::key_to_bytes(stage, &bytes_of(2)).unwrap();
    assert_eq!(key[0], 1);
    assert_eq!(key[1], 3);
    assert_eq!(key.len(), 66);
}

#[test]
fn test_conflict_set_storable() {
    let max_value_size = 1 << 10;
    let max_size = 1 << 30;

    let mut store = MemoryStoreFactory::new_btree(max_value_size, max_size).unwrap();

    let stage = Stage::Testing;

    let weight = 1;
    let signer = Signer { public_key: bytes_of(77), weight };
    let mut signers = Signers::new();
    signers.address = bytes_of(5);
    signers.add(&signer).unwrap();
    signers.set_threshold(weight).unwrap();

    let mut account = Account::new_eve(stage, &signers).unwrap();
    let mut transaction = Transaction::new_eve(stage, &account.address(), 9).unwrap();
    transaction.id = bytes_of(6);

    Transaction::create(&mut store, stage, &transaction, &[6], &Vec::new()).unwrap();

    account.transaction_id = Some(transaction.id.clone());
    account.counter += 1;

    Account::create(&mut store, stage, &account.address(), &[5]).unwrap();

    let address = account.address();
    let cs = ConflictSet::new(address.clone(), stage);
    let cs_bytes = vec![42u8; 12];

    let res = ConflictSet::count(&store, stage, Some(&address), None, None);
    assert!(res.is_ok());
    assert_eq!(res.unwrap(), 0);

    let res = ConflictSet::query(&store, stage, Some(&address), None, None, None);
    assert!(res.is_ok());
    assert_eq!(res.unwrap().len(), 0);

    let res = ConflictSet::lookup(&store, stage, &address);
    assert!(res.is_ok());
    assert!(!res.unwrap());

    let res = ConflictSet::get(&store, stage, &address);
    assert!(res.is_err());

    let res = ConflictSet::insert(&mut store, stage, &cs, &cs_bytes);
    assert!(res.is_ok());

    let res = ConflictSet::count(&store, stage, Some(&address), None, None);
    assert!(res.is_ok());
    assert_eq!(res.unwrap(), 1);

    let res = ConflictSet::query(&store, stage, Some(&address), None, None, None);
    assert!(res.is_ok());
    assert_eq!(res.unwrap().iter().next(), Some(&cs_bytes));

    let res = ConflictSet::lookup(&store, stage, &address);
    assert!(res.is_ok());
    assert!(res.unwrap());

    let res = ConflictSet::get(&store, stage, &address);
    assert!(res.is_ok());
    assert_eq!(res.unwrap(), cs_bytes);

    let res = ConflictSet::remove(&mut store, stage, &address);
    assert!(res.is_ok());

    let res = ConflictSet::count(&store, stage, Some(&address), None, None);
    assert!(res.is_ok());
    assert_eq!(res.unwrap(), 0);

    let res = ConflictSet::lookup(&store, stage, &address);
    assert!(res.is_ok());
    assert!(!res.unwrap());

    let mut with_unknown = ConflictSet::new(address.clone(), stage);
    with_unknown.add_transaction(bytes_of(99));
    assert!(matches!(ConflictSet::validate_single(&store, stage, &with_unknown), Err(Error::NotFound)));
    let mut with_known = ConflictSet::new(address.clone(), stage);
    with_known.add_transaction(bytes_of(6));
    assert!(ConflictSet::validate_single(&store, stage, &with_known).is_ok());
    assert!(ConflictSet::validate_all(&store, stage, &[with_known]).is_ok());
    assert!(ConflictSet::validate_all(&store, stage, &[with_unknown]).is_err());
    assert!(ConflictSet::remove_batch(&mut store, stage, &vec![address]).is_err());
}

#[test]
fn test_consensus_state_storable() {
    let max_value_size = 1 << 10;
    let max_size = 1 << 30;

    let mut store = MemoryStoreFactory::new_btree(max_value_size, max_size).unwrap();

    let stage = Stage::Development;

    let items: Vec<(u64, ConsensusState)> = (0..10u64).map(|id| (id, ConsensusState::new(id, stage))).collect();

    for (key, _value) in &items {
        let bytes = vec![*key as u8 + 1; 20];

        let res = ConsensusState::count(&store, stage, Some(*key), None, None);
        assert!(res.is_ok());
        assert_eq!(res.unwrap(), 0);

        let res = ConsensusState::query(&store, stage, Some(*key), None, None, None);
        assert!(res.is_ok());
        assert_eq!(res.unwrap().len(), 0);

        let res = ConsensusState::lookup(&store, stage, *key);
        assert!(res.is_ok());
        assert!(!res.unwrap());

        let res = ConsensusState::get(&store, stage, *key);
        assert!(res.is_err());

        let res = ConsensusState::insert(&mut store, stage, *key, &bytes);
        assert!(res.is_ok());

        let res = ConsensusState::count(&store, stage, Some(*key), None, None);
        assert!(res.is_ok());
        assert_eq!(res.unwrap(), 1);

        let res = ConsensusState::query(&store, stage, Some(*key), None, None, None);
        assert!(res.is_ok());
        assert_eq!(res.unwrap().iter().next(), Some(&bytes));

        let res = ConsensusState::lookup(&store, stage, *key);
        assert!(res.is_ok());
        assert!(res.unwrap());

        let res = ConsensusState::get(&store, stage, *key);
        assert!(res.is_ok());
        assert_eq!(res.unwrap(), bytes);

        let res = ConsensusState::remove(&mut store, stage, *key);
        assert!(res.is_ok());

        let res = ConsensusState::count(&store, stage, Some(*key), None, None);
        assert!(res.is_ok());
        assert_eq!(res.unwrap(), 0);

        let res = ConsensusState::lookup(&store, stage, *key);
        assert!(res.is_ok());
        assert!(!res.unwrap());

        let res = ConsensusState::insert(&mut store, stage, *key, &bytes);
        assert!(res.is_ok());

        let res = ConsensusState::clear_stored(&mut store, stage);
        assert!(res.is_ok());

        let res = ConsensusState::lookup(&store, stage, *key);
        assert!(res.is_ok());
        assert!(!res.unwrap());
    }

    assert!(ConsensusState::insert_batch(&mut store, stage, &vec![(1, vec![1])]).is_err());
    assert!(ConsensusState::remove_batch(&mut store, stage, &vec![1]).is_err());
    assert_eq!(ConsensusState::key_to_bytes(stage, 258).unwrap(), vec![0, 6, 0, 0, 0, 0, 0, 0, 1, 2]);
}

#[test]
fn test_consensus_params_validate() {
    for alfa in 0..10u64 {
        let beta1 = if alfa % 2 == 0 { Some(alfa * 3) } else { None };
        let beta2 = if alfa % 3 == 0 { Some(alfa * 5) } else { None };
        let mut params = ConsensusParams::new(Stage::Testing, alfa, beta1, beta2).unwrap();
        let calc_id = bytes_of(alfa as u8);
        params.id = calc_id.clone();

        let res = params.validate(&calc_id);
        assert!(res.is_ok());

        params.id = Vec::new();
        let res = params.validate(&calc_id);
        assert!(matches!(res, Err(Error::InvalidId)));
    }
}

#[test]
fn test_consensus_params_storable() {
    let max_value_size = 1000;
    let mut store = MemoryStoreFactory::new_btree(max_value_size, 1 << 20).unwrap();

    let items: Vec<(Vec<u8>, Vec<u8>)> = (0..10u8).map(|i| (bytes_of(i), vec![i; 33])).collect();

    for (key, value) in &items {
        let res = ConsensusParams::count(&store, Some(key), None, None);
        assert!(res.is_ok());
        assert_eq!(res.unwrap(), 0);

        let res = ConsensusParams::query(&store, Some(key), None, None, None);
        assert!(res.is_ok());
        assert_eq!(res.unwrap().len(), 0);

        let res = ConsensusParams::lookup(&store, key);
        assert!(res.is_ok());
        assert!(!res.unwrap());

        let res = ConsensusParams::get(&store, key);
        assert!(res.is_err());

        let res = ConsensusParams::insert(&mut store, key, value);
        assert!(res.is_ok());

        let res = ConsensusParams::count(&store, Some(key), None, None);
        assert!(res.is_ok());
        assert_eq!(res.unwrap(), 1);

        let res = ConsensusParams::query(&store, Some(key), None, None, None);
        assert!(res.is_ok());
        assert_eq!(res.unwrap().iter().next(), Some(value));

        let res = ConsensusParams::lookup(&store, key);
        assert!(res.is_ok());
        assert!(res.unwrap());

        let res = ConsensusParams::get(&store, key);
        assert!(res.is_ok());
        assert_eq!(&res.unwrap(), value);

        let res = ConsensusParams::remove(&mut store, key);
        assert!(res.is_ok());

        let res = ConsensusParams::count(&store, Some(key), None, None);
        assert!(res.is_ok());
        assert_eq!(res.unwrap(), 0);

        let res = ConsensusParams::lookup(&store, key);
        assert!(res.is_ok());
        assert!(!res.unwrap());

        let res = ConsensusParams::get(&store, key);
        assert!(res.is_err());

        let res = ConsensusParams::insert(&mut store, key, value);
        assert!(res.is_ok());

        let res = ConsensusParams::clear(&mut store);
        assert!(res.is_ok());

        let res = ConsensusParams::lookup(&store, key);
        assert!(res.is_ok());
        assert!(!res.unwrap());
    }

    assert!(matches!(ConsensusParams::cleanup(&mut store), Err(Error::NotImplemented)));
    assert!(ConsensusParams::create(&mut store, &bytes_of(1), &[1]).is_ok());
    assert!(ConsensusParams::create(&mut store, &bytes_of(1), &[1]).is_err());
    assert!(ConsensusParams::update(&mut store, &bytes_of(1), &[2]).is_ok());
    assert_eq!(ConsensusParams::get(&store, &bytes_of(1)).unwrap(), vec![2]);
    assert_eq!(ConsensusParams::key_to_bytes(&vec![9, 9]).unwrap(), vec![4, 9, 9]);
    assert!(ConsensusParams::insert_batch(&mut store, &vec![(bytes_of(2), vec![2])]).is_err());
    assert!(ConsensusParams::remove_batch(&mut store, &vec![bytes_of(1)]).is_err());
}

fn wallet_of(b: u8, time: i64) -> Wallet {
    Wallet { public_key: bytes_of(b), secret_key: bytes_of(b + 100), stage: Stage::Testing, time: Timestamp(time), checksum: Vec::new() }
}

#[test]
fn wallet_storable() {
    let mut store = MemoryStoreFactory::new_btree(1 << 10, 1 << 30).unwrap();
    let stage = Stage::Testing;
    let a = wallet_of(1, 2_000_000_000);
    let b = wallet_of(2, 1_600_000_000);

    assert!(!Wallet::lookup(&store, stage, &a.public_key).unwrap());
    Wallet::insert(&mut store, stage, &a.public_key, &[1]).unwrap();
    Wallet::create(&mut store, stage, &b.public_key, &[2]).unwrap();
    assert!(Wallet::create(&mut store, stage, &b.public_key, &[2]).is_err());
    Wallet::update(&mut store, stage, &b.public_key, &[3]).unwrap();
    assert_eq!(Wallet::get(&store, stage, &b.public_key).unwrap(), vec![3]);
    assert_eq!(Wallet::count(&store, stage, None, None, None).unwrap(), 2);
    assert_eq!(Wallet::query(&store, stage, None, None, None, None).unwrap(), vec![vec![1], vec![3]]);

    let picks = [0u32];
    assert_eq!(Wallet::sample(&store, stage, None, None, 1, &picks).unwrap(), vec![vec![1]]);
    assert_eq!(Wallet::sample(&store, stage, None, None, 2, &picks).unwrap().len(), 0);

    Wallet::cleanup(&mut store, stage, Some(Timestamp(1_700_000_000)), &[a.clone(), b.clone()]).unwrap();
    assert!(Wallet::lookup(&store, stage, &a.public_key).unwrap());
    assert!(!Wallet::lookup(&store, stage, &b.public_key).unwrap());

    assert!(Wallet::insert_batch(&mut store, stage, &vec![(bytes_of(3), vec![3])]).is_err());
    assert!(Wallet::remove_batch(&mut store, stage, &vec![bytes_of(1)]).is_err());
    Wallet::remove(&mut store, stage, &a.public_key).unwrap();
    assert!(Wallet::remove(&mut store, stage, &a.public_key).is_err());
    Wallet::insert(&mut store, stage, &a.public_key, &[1]).unwrap();
    Wallet::clear(&mut store, stage).unwrap();
    assert_eq!(Wallet::count(&store, stage, None, None, None).unwrap(), 0);
    assert_eq!(Wallet::key_to_bytes(stage, &vec![7]).unwrap(), vec![1, 8, 7]);
}

#[test]
fn account_sample_batch_and_cleanup() {
    let mut store = MemoryStoreFactory::new_btree(1 << 10, 1 << 30).unwrap();
    let stage = Stage::Production;
    let mut signers = Signers::new();
    signers.address = bytes_of(1);
    let mut first = Account::new_eve(stage, &signers).unwrap();
    signers.address = bytes_of(2);
    let mut second = Account::new_eve(stage, &signers).unwrap();
    first.timestamp = Timestamp(1_600_000_000);
    second.timestamp = Timestamp(1_900_000_000);

    Account::insert(&mut store, stage, &first.address, &[1]).unwrap();
    Account::insert(&mut store, stage, &second.address, &[2]).unwrap();

    let picks = [0u32, 1];
    assert_eq!(Account::sample(&store, stage, None, None, 1, &picks).unwrap(), vec![vec![1]]);
    assert!(Account::insert_batch(&mut store, stage, &vec![(bytes_of(3), vec![3])]).is_err());
    assert!(Account::remove_batch(&mut store, stage, &vec![bytes_of(1)]).is_err());
    assert_eq!(Account::count(&store, stage, None, None, None).unwrap(), 2);

    Account::cleanup(&mut store, stage, Some(Timestamp(1_700_000_000)), &[first.clone(), second.clone()]).unwrap();
    assert!(!Account::lookup(&store, stage, &first.address).unwrap());
    assert!(Account::lookup(&store, stage, &second.address).unwrap());
    assert!(Account::cleanup(&mut store, stage, Some(Timestamp(1_700_000_000)), &[first]).is_err());
    assert_eq!(Account::key_to_bytes(stage, &vec![5]).unwrap(), vec![2, 2, 5]);
}

#[test]
fn test_wallet_storable() {
    let max_value_size = 1 << 10;
    let max_size = 1 << 30;

    let mut store = MemoryStoreFactory::new_btree(max_value_size, max_size).unwrap();

    let stage = Stage::Testing;

    let items: Vec<(Vec<u8>, Vec<u8>)> = (0..10u8).map(|i| (bytes_of(i), vec![i; 50])).collect();

    for (key, value) in &items {
        let res = Wallet::count(&store, stage, Some(key), None, None);
        assert!(res.is_ok());
        assert_eq!(res.unwrap(), 0);

        let res = Wallet::query(&store, stage, Some(key), None, None, None);
        assert!(res.is_ok());
        assert_eq!(res.unwrap().len(), 0);

        let res = Wallet::lookup(&store, stage, key);
        assert!(res.is_ok());
        let found = res.unwrap();
        assert!(!found);

        let res = Wallet::get(&store, stage, key);
        assert!(res.is_err());

        let res = Wallet::insert(&mut store, stage, key, value);
        assert!(res.is_ok());

        let res = Wallet::count(&store, stage, Some(key), None, None);
        assert!(res.is_ok());
        assert_eq!(res.unwrap(), 1);

        let res = Wallet::query(&store, stage, Some(key), None, None, None);
        assert!(res.is_ok());
        assert_eq!(res.unwrap().iter().next(), Some(value));

        let res = Wallet::lookup(&store, stage, key);
        assert!(res.is_ok());
        let found = res.unwrap();
        assert!(found);

        let res = Wallet::get(&store, stage, key);
        assert!(res.is_ok());
        assert_eq!(&res.unwrap(), value);

        let res = Wallet::remove(&mut store, stage, key);
        assert!(res.is_ok());

        let res = Wallet::count(&store, stage, Some(key), None, None);
        assert!(res.is_ok());
        assert_eq!(res.unwrap(), 0);

        let res = Wallet::query(&store, stage, Some(key), None, None, None);
        assert!(res.is_ok());
        assert_eq!(res.unwrap().len(), 0);

        let res = Wallet::lookup(&store, stage, key);
        assert!(res.is_ok());
        let found = res.unwrap();
        assert!(!found);

        let res = Wallet::get(&store, stage, key);
        assert!(res.is_err());

        let res = Wallet::insert(&mut store, stage, key, value);
        assert!(res.is_ok());

        let res = Wallet::clear(&mut store, stage);
        assert!(res.is_ok());

        let res = Wallet::lookup(&store, stage, key);
        assert!(res.is_ok());
        let found = res.unwrap();
        assert!(!found);
    }
}

#[test]
fn transaction_insert_at_fits_or_fails() {
    let stage = Stage::Testing;
    let no_accounts: Vec<Vec<u8>> = Vec::new();
    let mut t = Transaction::new(9).unwrap();
    t.stage = stage;
    t.id = bytes_of(9);
    let now = Timestamp::now();

    // The key (2 + 64 bytes) and the 4 bytes fit in 70.
    let mut store = MemoryStoreFactory::new_btree(10, 70).unwrap();
    assert!(Transaction::validate_single_at(&store, stage, &t, now).is_ok());
    assert!(Transaction::insert_at(&mut store, stage, &t, &[1, 2, 3, 4], &no_accounts, now).is_ok());
    assert_eq!(Transaction::get(&store, stage, &bytes_of(9)).unwrap(), vec![1, 2, 3, 4]);
    assert!(Transaction::create_at(&mut store, stage, &t, &[1], &no_accounts, now).is_err());
    assert!(Transaction::update_at(&mut store, stage, &t, &[5, 6, 7, 8], &no_accounts, now).is_ok());
    assert_eq!(store.size(), 70);

    // They do not fit in 69.
    let mut small = MemoryStoreFactory::new_btree(10, 69).unwrap();
    assert!(matches!(Transaction::insert_at(&mut small, stage, &t, &[1, 2, 3, 4], &no_accounts, now), Err(Error::Store { .. })));
    assert_eq!(small.size(), 0);

    // A transaction of another stage is refused.
    assert!(matches!(
        Transaction::insert_at(&mut small, Stage::Production, &t, &[1], &no_accounts, now),
        Err(Error::InvalidStage)
    ));
}
