use alsacoin::collections::ByteMap;
use alsacoin::models::account::Account;
use alsacoin::models::coinbase::{Coinbase, BASE_AMOUNT};
use alsacoin::models::error::Error;
use alsacoin::models::input::Input;
use alsacoin::models::output::Output;
use alsacoin::models::signers::{Signer, Signers};
use alsacoin::models::stage::Stage;
use alsacoin::models::timestamp::Timestamp;
use alsacoin::models::transaction::Transaction;

/// A 64 byte value, all of `b`, standing for a random digest or key.
fn bytes_of(b: u8) -> Vec<u8> {
    vec![b; 64]
}

/// Signers with the given weights, keyed by distinct public keys, and
/// threshold 0.
fn signers_with(weights: &[u64]) -> Signers {
    let mut signers = Signers::new();
    for (i, w) in weights.iter().enumerate() {
        let signer = Signer { public_key: bytes_of(i as u8 + 1), weight: *w };
        signers.add(&signer).unwrap();
    }
    signers
}

#[test]
fn test_signers_ops() {
    let mut signers = Signers::new();

    for i in 0..10u8 {
        let signer = Signer { public_key: bytes_of(i), weight: 1000 + i as u64 };

        let found = signers.lookup(&signer.public_key);
        assert!(!found);

        let res = signers.get(&signer.public_key);
        assert!(res.is_err());

        let res = signers.delete(&signer.public_key);
        assert!(res.is_err());

        let res = signers.add(&signer);
        assert!(res.is_ok());

        let found = signers.lookup(&signer.public_key);
        assert!(found);

        let res = signers.get(&signer.public_key);
        assert!(res.is_ok());

        let entry = res.unwrap();
        assert_eq!(signer, entry);

        let res = signers.delete(&signer.public_key);
        assert!(res.is_ok());

        let found = signers.lookup(&signer.public_key);
        assert!(!found);
    }
}

#[test]
fn test_signers_weight() {
    let weights = [3u64, 10, 1, 7, 7, 2, 9, 4, 6, 5];
    let signers = signers_with(&weights);

    let mut expected_max_weight = 0;
    let mut expected_total_weight = 0;
    for w in weights.iter() {
        if *w > expected_max_weight {
            expected_max_weight = *w;
        }
        expected_total_weight += *w;
    }

    assert_eq!(signers.max_weight(), expected_max_weight);
    assert_eq!(signers.total_weight(), expected_total_weight);
    assert_eq!(signers.max_weight(), 10);
    assert_eq!(signers.total_weight(), 54);
}

#[test]
fn signers_threshold_and_update() {
    let mut signers = signers_with(&[4, 6]);
    assert!(signers.set_threshold(10).is_ok());
    assert_eq!(signers.threshold, 10);
    assert!(matches!(signers.set_threshold(11), Err(Error::InvalidThreshold)));
    assert_eq!(signers.threshold, 10);
    assert!(signers.validate().is_ok());

    let signer = Signer { public_key: bytes_of(1), weight: 9 };
    assert!(signers.update(&signer).is_ok());
    assert_eq!(signers.get(&bytes_of(1)).unwrap().weight, 9);
    let stranger = Signer { public_key: bytes_of(200), weight: 9 };
    assert!(matches!(signers.update(&stranger), Err(Error::NotFound)));
    assert!(matches!(signers.add(&signer), Err(Error::AlreadyFound)));

    signers.threshold = 100;
    assert!(matches!(signers.validate(), Err(Error::InvalidThreshold)));
}

#[test]
fn test_output_validate() {
    for custom_len in 0..11u32 {
        let custom: Vec<u8> = (0..custom_len as u8).collect();
        let mut output = Output::new(&bytes_of(custom_len as u8), 1000 + custom_len as u64, &custom);
        assert_eq!(output.custom_len, custom_len);

        let res = output.validate();
        assert!(res.is_ok());

        output.custom_len += 1;
        let res = output.validate();
        assert!(matches!(res, Err(Error::InvalidLength)));
    }
}

#[test]
fn test_coinbase_new() {
    let hs = [1u64, 1000, 1_000_000];
    let ds = [1u64, 255, 512];

    let address = bytes_of(7);
    let res = Coinbase::new(&address, 0, 1, 0);
    assert!(matches!(res, Err(Error::InvalidDistance)));

    let res = Coinbase::new(&address, 1, 0, 0);
    assert!(matches!(res, Err(Error::InvalidDifficulty)));

    for h in hs.iter() {
        for d in ds.iter() {
            let res = Coinbase::new(&address, *h, *d, 12345);
            assert!(res.is_ok());
            let coinbase = res.unwrap();
            assert_eq!(coinbase.amount, 12345);
            assert_eq!(coinbase.distance, *h);
            assert_eq!(coinbase.difficulty, *d);
        }
    }

    assert!(matches!(Coinbase::new(&address, 1, 513, 0), Err(Error::OutOfBound)));
}

#[test]
fn test_coinbase_new_eve() {
    let address = bytes_of(3);

    let res = Coinbase::new_eve(&address);
    assert!(res.is_ok());

    let mut eve_coinbase = res.unwrap();
    assert_eq!(eve_coinbase.amount, BASE_AMOUNT);

    let res = eve_coinbase.validate();
    assert!(res.is_ok());

    eve_coinbase.distance = 1;

    let res = eve_coinbase.is_eve();
    assert!(res.is_err());

    eve_coinbase.distance = 0;

    let res = eve_coinbase.is_eve();
    assert!(res.is_ok());
    assert!(res.unwrap());

    let hs = [1u64, 1000, 1_000_000];
    let ds = [1u64, 255, 512];

    for h in hs.iter() {
        for d in ds.iter() {
            let coinbase = Coinbase::new(&address, *h, *d, 1).unwrap();
            let res = coinbase.is_eve();
            assert!(res.is_ok());
            assert!(!res.unwrap());
        }
    }
}

#[test]
fn test_coinbase_amount() {
    let hs = [1u64, 1000, 1_000_000];
    let ds = [1u64, 255, 512];
    let expected = [
        [BASE_AMOUNT, 609377028, 608649080],
        [1250000000, 761721286, 760811350],
        [1643935564, 1001776569, 1000579870],
    ];

    assert!(matches!(Coinbase::amount_base(0, 1), Err(Error::OutOfBound)));
    assert!(matches!(Coinbase::amount_base(1, 0), Err(Error::OutOfBound)));
    assert!(matches!(Coinbase::amount_base(0, 0), Ok(Some(BASE_AMOUNT))));

    for (i, h) in hs.iter().enumerate() {
        for (j, d) in ds.iter().enumerate() {
            assert!(matches!(Coinbase::amount_base(*h, *d), Ok(None)));
            let mut coinbase = Coinbase::new(&bytes_of(1), *h, *d, expected[i][j]).unwrap();
            assert_eq!(coinbase.amount, expected[i][j]);
            coinbase.amount = 0;
            assert!(coinbase.update_amount(expected[i][j]).is_ok());
            assert_eq!(coinbase.amount, expected[i][j]);
        }
    }
}

#[test]
fn test_coinbase_validate() {
    let invalid_distance = 0;
    let invalid_difficulty = 513;

    for valid_distance in 1..10u64 {
        let valid_difficulty = 10 - valid_distance;

        let mut coinbase = Coinbase::default();
        let res = coinbase.validate();
        assert!(res.is_ok());

        coinbase.distance = valid_distance;
        coinbase.difficulty = valid_difficulty;
        let res = coinbase.validate();
        assert!(res.is_ok());

        coinbase.distance = invalid_distance;
        let res = coinbase.validate();
        assert!(res.is_err());
        coinbase.distance = valid_distance;

        coinbase.difficulty = invalid_difficulty;
        let res = coinbase.validate();
        assert!(res.is_err());
    }
}

#[test]
fn coinbase_clear_and_mined() {
    let mut coinbase = Coinbase::new(&bytes_of(2), 5, 5, 77).unwrap();
    assert!(!coinbase.is_mined());
    coinbase.nonce = 42;
    coinbase.digest = bytes_of(9);
    assert!(coinbase.is_mined());
    coinbase.clear();
    assert_eq!(coinbase.nonce, 0);
    assert!(coinbase.digest.is_empty());
    assert!(!coinbase.is_mined());
    assert_eq!(coinbase.amount, 77);
}

#[test]
fn test_account_new() {
    let stage = Stage::Testing;
    let value = 123_456_789;
    let mut valid_signers = signers_with(&[1, 2, 3, 4, 5, 6, 7, 8, 9, 10]);
    valid_signers.address = bytes_of(100);

    let mut invalid_signers = valid_signers.clone();
    invalid_signers.threshold = invalid_signers.total_weight() + 1;

    let tx_id = bytes_of(200);

    let res = Account::new(stage, &valid_signers, value, Some(tx_id.clone()));
    assert!(res.is_ok());
    let account = res.unwrap();
    assert_eq!(account.address, bytes_of(100));
    assert_eq!(account.value, value);
    assert_eq!(account.counter, 0);

    let res = Account::new(stage, &invalid_signers, value, Some(tx_id));
    assert!(matches!(res, Err(Error::InvalidThreshold)));
}

#[test]
fn test_account_new_eve() {
    let stage = Stage::Production;
    let valid_signers = signers_with(&[1, 2, 3, 4, 5, 6, 7, 8, 9, 10]);

    let mut invalid_signers = valid_signers.clone();
    invalid_signers.threshold = invalid_signers.total_weight() + 1;

    let res = Account::new_eve(stage, &invalid_signers);
    assert!(res.is_err());

    let res = Account::new_eve(stage, &valid_signers);
    assert!(res.is_ok());

    let mut eve_account = res.unwrap();

    let res = eve_account.is_eve();
    assert!(res.is_ok());
    assert!(res.unwrap());

    let res = eve_account.validate();
    assert!(res.is_ok());

    eve_account.value = 1;

    let res = eve_account.is_eve();
    assert!(res.is_ok());
    assert!(!res.unwrap());

    let res = eve_account.validate();
    assert!(res.is_err());

    eve_account.value = 0;

    eve_account.counter = 1;

    let res = eve_account.is_eve();
    assert!(res.is_ok());
    assert!(!res.unwrap());

    let res = eve_account.validate();
    assert!(res.is_err());
}

#[test]
fn test_account_validate() {
    let stage = Stage::Development;
    let value = 987_654_321;
    let mut valid_signers = signers_with(&[1, 2, 3, 4, 5, 6, 7, 8, 9, 10]);
    valid_signers.address = bytes_of(50);
    let invalid_address = bytes_of(51);

    let mut invalid_signers = valid_signers.clone();
    invalid_signers.threshold = invalid_signers.total_weight() + 1;
    let tx_id = bytes_of(60);

    let mut account = Account::new(stage, &valid_signers, value, Some(tx_id)).unwrap();

    let res = account.validate();
    assert!(res.is_ok());

    account.address = invalid_address;
    let res = account.validate();
    assert!(matches!(res, Err(Error::InvalidAddress)));

    account.address = valid_signers.address.clone();

    account.signers = invalid_signers;
    let res = account.validate();
    assert!(matches!(res, Err(Error::InvalidThreshold)));
}

#[test]
fn account_update_counts() {
    let signers = signers_with(&[5]);
    let mut account = Account::new_eve(Stage::Testing, &signers).unwrap();
    account.update(40, bytes_of(8));
    assert_eq!(account.value, 40);
    assert_eq!(account.counter, 1);
    assert_eq!(account.transaction_id, Some(bytes_of(8)));
    assert!(account.validate().is_ok());
    assert!(!account.is_eve().unwrap());
}

/// A valid account of the given value, whose address is `bytes_of(b)`,
/// signed by one signer of weight 10 and threshold 10.
fn account_of(b: u8, value: u64) -> Account {
    let mut signers = Signers::new();
    signers.address = bytes_of(b);
    signers.add(&Signer { public_key: bytes_of(b.wrapping_add(128)), weight: 10 }).unwrap();
    signers.set_threshold(10).unwrap();
    Account::new(Stage::Testing, &signers, value, Some(bytes_of(b.wrapping_add(64)))).unwrap()
}

#[test]
fn test_input_new() {
    let amount = 5_000;
    let account = account_of(1, amount);
    let distance = 17;

    let res = Input::new(&account, distance, amount);
    assert!(res.is_ok());

    let input = res.unwrap();
    assert_eq!(input.address(), bytes_of(1));

    let res = input.validate();
    assert!(res.is_ok());

    assert!(matches!(Input::new(&account, 0, amount), Err(Error::InvalidDistance)));
    assert!(matches!(Input::new(&account, distance, amount + 1), Err(Error::InvalidAmount)));
}

#[test]
fn test_input_validate() {
    let amount = 77;
    let account = account_of(2, amount);
    let distance = 3;

    let mut input = Input::new(&account, distance, amount).unwrap();

    let res = input.validate();
    assert!(res.is_ok());

    input.distance = 0;
    let res = input.validate();
    assert!(res.is_err());

    input.distance += 1;
    assert!(input.validate().is_ok());

    let invalid_public_key = bytes_of(250);
    assert!(!input.account.signers.lookup(&invalid_public_key));
    let invalid_signature = [0u8; 64];

    input.signatures.insert(&invalid_public_key, invalid_signature);
    let res = input.validate();
    assert!(matches!(res, Err(Error::InvalidPublicKey)));
    assert!(!input.is_signed());
}

#[test]
fn input_signature_weights() {
    let mut signers = Signers::new();
    signers.address = bytes_of(9);
    signers.add(&Signer { public_key: bytes_of(20), weight: 10 }).unwrap();
    signers.add(&Signer { public_key: bytes_of(21), weight: 10 }).unwrap();
    signers.set_threshold(20).unwrap();
    let account = Account::new(Stage::Testing, &signers, 100, Some(bytes_of(30))).unwrap();
    let mut input = Input::new(&account, 4, 100).unwrap();

    assert!(!input.is_signed());
    assert_eq!(input.signatures_weight().unwrap(), 0);
    assert!(!input.is_fully_signed().unwrap());

    input.signatures.insert(&bytes_of(20), [1u8; 64]);
    assert!(input.is_signed());
    assert_eq!(input.signatures_weight().unwrap(), 10);
    assert!(!input.is_fully_signed().unwrap());

    input.signatures.insert(&bytes_of(21), [2u8; 64]);
    assert_eq!(input.signatures_weight().unwrap(), 20);
    assert!(input.is_fully_signed().unwrap());
}

#[test]
fn test_transaction_new() {
    let res = Transaction::new(42);
    assert!(res.is_ok());

    let transaction = res.unwrap();
    assert_eq!(transaction.nonce, 42);
    assert_eq!(transaction.distance, 1);
    let res = transaction.validate();
    assert!(res.is_ok())
}

#[test]
fn test_transaction_eve() {
    let stage = Stage::Testing;
    let address = bytes_of(11);

    let res = Transaction::new_eve(stage, &address, 7);
    assert!(res.is_ok());

    let mut eve_transaction = res.unwrap();

    let res = eve_transaction.validate();
    assert!(res.is_ok());

    let res = eve_transaction.is_eve();
    assert!(res.is_ok());
    assert!(res.unwrap());

    let ancestors = eve_transaction.ancestors().unwrap();
    assert_eq!(ancestors.len(), 0);

    eve_transaction.distance = 1;

    let res = eve_transaction.validate();
    assert!(res.is_err());

    let transaction = Transaction::new(8).unwrap();
    let res = transaction.is_eve();
    assert!(res.is_ok());
    assert!(!res.unwrap());
}

#[test]
fn test_transaction_id() {
    let mut transaction = Transaction::new(21).unwrap();
    transaction.id = bytes_of(40);
    let calc_id = bytes_of(40);

    assert!(transaction.validate_id(&calc_id).is_ok());

    let invalid_id = bytes_of(41);
    assert_ne!(invalid_id, transaction.id);
    transaction.id = invalid_id;

    assert!(matches!(transaction.validate_id(&calc_id), Err(Error::InvalidId)));
}

#[test]
fn test_transaction_times() {
    let mut transaction = Transaction::new(1).unwrap();

    let res = transaction.validate_times();
    assert!(res.is_ok());

    let invalid_date = "2012-12-12T00:00:00Z";
    let invalid_timestamp = Timestamp::parse(invalid_date).unwrap();

    let res = transaction.set_time(invalid_timestamp);
    assert!(res.is_err());
    let res = transaction.set_locktime(invalid_timestamp);
    assert!(res.is_err());

    transaction.time = Timestamp::now();
    let res = transaction.validate_times();
    assert!(res.is_ok());

    let invalid_locktime = Timestamp(transaction.time.0 - 1_000);

    transaction.locktime = Some(invalid_locktime);
    let res = transaction.validate_times();
    assert!(res.is_err());

    assert!(transaction.set_locktime(invalid_locktime).is_err());
    let locktime = transaction.time;
    assert!(transaction.set_locktime(locktime).is_ok());
    assert_eq!(transaction.locktime, Some(locktime));
    assert!(transaction.validate_times().is_ok());
}

#[test]
fn test_transaction_outputs() {
    let custom: Vec<u8> = (0..10u8).collect();
    let mut transaction = Transaction::new(2).unwrap();

    for i in 0..10u8 {
        let mut output = Output::new(&bytes_of(i), 500 + i as u64, &custom);

        let found = transaction.lookup_output(&output.address);
        assert!(!found);

        let res = transaction.get_output(&output.address);
        assert!(res.is_err());

        let res = transaction.add_output(&output);
        assert!(res.is_ok());

        let res = transaction.validate_outputs();
        assert!(res.is_ok());

        let found = transaction.lookup_output(&output.address);
        assert!(found);

        let res = transaction.get_output(&output.address);
        assert!(res.is_ok());

        let entry = res.unwrap();
        assert_eq!(entry, output);

        output.amount = 10;

        let res = transaction.update_output(&output);
        assert!(res.is_ok());

        let res = transaction.validate_outputs();
        assert!(res.is_ok());

        let entry = transaction.get_output(&output.address).unwrap();
        assert_eq!(entry, output);

        let res = transaction.delete_output(&output.address);
        assert!(res.is_ok());

        let found = transaction.lookup_output(&output.address);
        assert!(!found);

        let res = transaction.get_output(&output.address);
        assert!(res.is_err());
    }

    let res = transaction.validate_outputs();
    assert!(res.is_ok());
}

#[test]
fn test_transaction_inputs() {
    let mut transaction = Transaction::new(3).unwrap();
    transaction.stage = Stage::Testing;

    for i in 0..10u8 {
        let amount = 1_000 + i as u64;
        let account = account_of(i, amount);
        let distance = 1 + i as u64 * 3;
        let mut input = Input::new(&account, distance, amount).unwrap();
        let address = input.address();

        assert!(!transaction.lookup_input(&address));
        assert!(transaction.get_input(&address).is_err());

        assert!(transaction.add_input(&input, 0).is_ok());
        assert!(matches!(transaction.add_input(&input, 0), Err(Error::AlreadyFound)));
        assert!(transaction.lookup_input(&address));

        let entry = transaction.get_input(&address).unwrap();
        assert_eq!(entry, input);

        input.amount = 10;
        assert!(transaction.update_input(&input, 0).is_ok());
        let entry = transaction.get_input(&address).unwrap();
        assert_eq!(entry, input);

        assert!(!entry.is_fully_signed().unwrap());
        assert!(!transaction.is_fully_signed().unwrap());
        assert!(!transaction.is_signed());

        assert!(transaction.validate_input(&address).is_ok());
        assert!(transaction.validate_fully_signed_input(&address, &[]).is_err());
        assert!(transaction.validate_fully_signed_inputs(&vec![]).is_err());

        let mut signed = entry.clone();
        signed.signatures.insert(&bytes_of(i.wrapping_add(128)), [7u8; 64]);
        assert!(transaction.update_input(&signed, 0).is_ok());
        let entry = transaction.get_input(&address).unwrap();
        assert!(entry.is_fully_signed().unwrap());
        assert!(transaction.is_fully_signed().unwrap());

        assert!(transaction.validate_input(&address).is_ok());
        assert!(transaction.validate_fully_signed_input(&address, &[true]).is_ok());
        assert!(transaction.validate_fully_signed_input(&address, &[false]).is_err());
        assert!(transaction.validate_inputs().is_ok());
        assert!(transaction.validate_fully_signed_inputs(&vec![vec![true]]).is_ok());
        assert!(transaction.validate_fully_signed_inputs(&vec![vec![false]]).is_err());

        assert!(transaction.delete_input(&address, 0).is_ok());
        assert!(!transaction.lookup_input(&address));
        assert!(transaction.get_input(&address).is_err());
        assert!(matches!(transaction.delete_input(&address, 0), Err(Error::NotFound)));
        assert!(transaction.validate_inputs().is_ok());
    }
}

#[test]
fn test_transaction_update_same_input() {
    let mut transaction = Transaction::new(3).unwrap();
    transaction.stage = Stage::Testing;
    let account = account_of(7, 500);
    let input = Input::new(&account, 2, 500).unwrap();
    assert!(transaction.add_input(&input, 0).is_ok());
    let distance = transaction.distance;
    let count = transaction.inputs.len();

    assert!(input.same_as(&input.clone()));
    assert!(input.account.same_as(&account));
    let mut other = input.clone();
    other.amount = 499;
    assert!(!input.same_as(&other));
    assert!(!account.same_as(&account_of(8, 500)));

    assert!(transaction.update_input(&input, 0).is_ok());
    assert_eq!(transaction.distance, distance);
    assert_eq!(transaction.inputs.len(), count);
    assert_eq!(transaction.get_input(&input.address()).unwrap(), input);
}

#[test]
fn test_transaction_distance() {
    let mut transaction = Transaction::new(4).unwrap();
    transaction.stage = Stage::Testing;

    let mut max_distance = transaction.distance;
    let distances = [5u64, 3, 40, 2, 41, 7, 100, 99, 1, 60];

    for (i, distance) in distances.iter().enumerate() {
        let amount = 300;
        let account = account_of(i as u8, amount);
        let input = Input::new(&account, *distance, amount).unwrap();

        transaction.add_input(&input, 0).unwrap();

        if input.distance > max_distance {
            max_distance = input.distance;
        }

        assert_eq!(transaction.distance, max_distance);

        let res = transaction.validate_distance();
        assert!(res.is_ok());
    }

    transaction.distance -= 1;

    let res = transaction.validate_distance();
    assert!(matches!(res, Err(Error::InvalidDistance)));

    assert!(transaction.update_distance(0).is_ok());
    assert_eq!(transaction.distance, 100);
    assert!(transaction.validate_distance().is_ok());
}

#[test]
fn transaction_distance_moves_coinbase() {
    let mut transaction = Transaction::new(5).unwrap();
    assert!(transaction.set_coinbase(&bytes_of(1), 3, 111).is_ok());
    assert_eq!(transaction.coinbase.as_ref().unwrap().amount, 111);

    let input = Input::new(&account_of(4, 50), 9, 50).unwrap();
    assert!(transaction.add_input(&input, 222).is_ok());
    assert_eq!(transaction.distance, 9);
    let coinbase = transaction.coinbase.as_ref().unwrap();
    assert_eq!(coinbase.distance, 9);
    assert_eq!(coinbase.amount, 222);
    assert!(transaction.validate_coinbase().is_ok());
    assert!(transaction.validate_distance().is_ok());
}

#[test]
fn test_transaction_balance() {
    let mut transaction = Transaction::new(6).unwrap();
    transaction.stage = Stage::Testing;

    let mut input_balance = 0;
    let mut output_balance = 0;
    let mut expected_balance = 0i64;

    for i in 0..10u8 {
        let amount = 10;
        let account = account_of(i, amount);
        let distance = 1 + i as u64;

        let input = Input::new(&account, distance, amount).unwrap();

        transaction.add_input(&input, 0).unwrap();
        input_balance += input.amount;
        expected_balance += input.amount as i64;

        let balance = transaction.balance().unwrap();
        assert_eq!(balance, expected_balance);
        assert_eq!(balance, input_balance as i64);

        let res = transaction.validate_balance();
        assert!(res.is_err());

        transaction.delete_input(&input.address(), 0).unwrap();
        input_balance -= input.amount;
        expected_balance -= input.amount as i64;

        let balance = transaction.balance().unwrap();
        assert_eq!(balance, expected_balance);
        assert_eq!(balance, input_balance as i64);

        let res = transaction.validate_balance();
        assert!(res.is_ok());
    }

    assert_eq!(expected_balance, 0);

    let custom: Vec<u8> = (0..10u8).collect();

    for i in 0..10u8 {
        let mut output = Output::new(&bytes_of(i), 0, &custom);
        output.amount = 10;

        transaction.add_output(&output).unwrap();
        output_balance += output.amount;
        expected_balance -= output.amount as i64;

        let balance = transaction.balance().unwrap();
        assert_eq!(balance, expected_balance);
        assert_eq!(balance, -(output_balance as i64));

        let res = transaction.validate_balance();
        assert!(res.is_err());

        transaction.delete_output(&output.address).unwrap();
        output_balance -= output.amount;
        expected_balance += output.amount as i64;

        let balance = transaction.balance().unwrap();
        assert_eq!(expected_balance, 0);
        assert_eq!(balance, expected_balance);

        let res = transaction.validate_balance();
        assert!(res.is_ok());
    }

    let balance = transaction.balance().unwrap();
    assert_eq!(balance, expected_balance);

    let res = transaction.validate_balance();
    assert!(res.is_ok());
}

#[test]
fn transaction_balance_counts_coinbase() {
    let mut transaction = Transaction::new(7).unwrap();
    transaction.set_coinbase(&bytes_of(1), 2, 500).unwrap();
    assert_eq!(transaction.coinbase_amount(), 500);
    assert_eq!(transaction.balance().unwrap(), 500);
    assert!(transaction.validate_balance().is_ok());

    let output = Output::new(&bytes_of(2), 200, &[]);
    transaction.add_output(&output).unwrap();
    assert_eq!(transaction.output_balance().unwrap(), 200);
    assert_eq!(transaction.balance().unwrap(), 300);
    assert!(matches!(transaction.validate_balance(), Err(Error::InvalidBalance)));

    let overflowing = Output::new(&bytes_of(3), u64::MAX, &[]);
    transaction.add_output(&overflowing).unwrap();
    assert!(matches!(transaction.output_balance(), Err(Error::InvalidBalance)));
    assert!(matches!(transaction.balance(), Err(Error::InvalidBalance)));
}

#[test]
fn test_transaction_coinbase() {
    let invalid_difficulty = 0;

    for valid_difficulty in 1..10u64 {
        let mut transaction = Transaction::new(valid_difficulty).unwrap();
        let address = bytes_of(valid_difficulty as u8);

        let res = transaction.validate_coinbase();
        assert!(res.is_ok());

        let res = transaction.set_coinbase(&address, invalid_difficulty, 1);
        assert!(matches!(res, Err(Error::InvalidDifficulty)));

        let res = transaction.set_coinbase(&address, valid_difficulty, 1);
        assert!(res.is_ok());

        let res = transaction.validate_coinbase();
        assert!(res.is_ok());
    }
}

#[test]
fn transaction_ancestors_are_account_transactions() {
    let mut transaction = Transaction::new(9).unwrap();
    let a = account_of(1, 10);
    let b = account_of(2, 10);
    transaction.add_input(&Input::new(&a, 1, 10).unwrap(), 0).unwrap();
    transaction.add_input(&Input::new(&b, 1, 10).unwrap(), 0).unwrap();
    let ancestors = transaction.ancestors().unwrap();
    assert_eq!(ancestors.len(), 2);
    assert!(ancestors.contains(&bytes_of(65)));
    assert!(ancestors.contains(&bytes_of(66)));
}

#[test]
fn byte_map_keeps_one_value_per_key() {
    let mut map: ByteMap<u64> = ByteMap::new();
    map.insert(&[2, 1], 5);
    map.insert(&[1], 6);
    map.insert(&[2, 1], 7);
    assert_eq!(map.len(), 2);
    assert_eq!(map.get(&[2, 1]), Some(7));
    assert_eq!(map.key_at(0), &[1u8][..]);
    assert!(map.remove(&[1]));
    assert!(!map.contains(&[1]));
}

#[test]
fn input_from_transaction_spends_the_output() {
    let stage = Stage::Testing;
    let payer = account_of(1, 10);
    let payee = account_of(2, 0);

    let mut transaction = Transaction::new(11).unwrap();
    transaction.stage = stage;
    transaction.id = bytes_of(222);
    transaction.add_input(&Input::new(&payer, 1, 10).unwrap(), 0).unwrap();
    transaction.add_output(&Output::new(&payee.address, 10, &[])).unwrap();
    assert!(transaction.validate().is_ok());

    let input = Input::from_transaction(&payee, &transaction).unwrap();
    assert_eq!(input.amount, 10);
    assert_eq!(input.distance, transaction.distance);
    assert_eq!(input.account.value, 10);
    assert_eq!(input.account.counter, payee.counter + 1);
    assert_eq!(input.account.transaction_id, Some(bytes_of(222)));
    assert_eq!(input.account.locktime, transaction.locktime);

    let stranger = account_of(3, 0);
    assert!(matches!(Input::from_transaction(&stranger, &transaction), Err(Error::NotFound)));

    let mut elsewhere = account_of(2, 0);
    elsewhere.stage = Stage::Production;
    assert!(matches!(Input::from_transaction(&elsewhere, &transaction), Err(Error::InvalidStage)));
}

#[test]
fn transaction_id_and_input_checks() {
    let mut transaction = Transaction::new(12).unwrap();
    transaction.id = bytes_of(1);
    assert!(transaction.validate_id(&bytes_of(1)).is_ok());
    assert!(matches!(transaction.validate_id(&bytes_of(2)), Err(Error::InvalidId)));

    let account = account_of(5, 20);
    let input = Input::new(&account, 1, 20).unwrap();
    transaction.add_input(&input, 0).unwrap();
    assert!(transaction.validate_input(&bytes_of(5)).is_ok());
    assert!(transaction.validate_input(&bytes_of(6)).is_err());

    transaction.id = bytes_of(69);
    assert!(transaction.validate_input(&bytes_of(5)).is_err());
}

#[test]
fn transaction_set_time_and_new_eve_fields() {
    let mut transaction = Transaction::new(13).unwrap();
    let now = Timestamp::now();
    assert!(transaction.set_time(now).is_ok());
    assert_eq!(transaction.time, now);
    assert!(transaction.set_time(Timestamp(now.0 + 100_000)).is_err());
    assert_eq!(transaction.time, now);

    let eve = Transaction::new_eve(Stage::Production, &bytes_of(4), 5).unwrap();
    assert_eq!(eve.distance, 0);
    assert_eq!(eve.nonce, 5);
    assert_eq!(eve.coinbase_amount(), BASE_AMOUNT);
    assert!(eve.id.is_empty());
}

#[test]
fn signatures_checked_with_the_verification_results() {
    let mut signers = Signers::new();
    signers.address = bytes_of(9);
    signers.add(&Signer { public_key: bytes_of(20), weight: 10 }).unwrap();
    signers.add(&Signer { public_key: bytes_of(21), weight: 10 }).unwrap();
    signers.set_threshold(20).unwrap();
    let account = Account::new(Stage::Testing, &signers, 100, Some(bytes_of(30))).unwrap();
    let mut input = Input::new(&account, 1, 0).unwrap();

    assert!(matches!(input.verify_signatures(&[]), Err(Error::NotSigned)));

    input.signatures.insert(&bytes_of(20), [1u8; 64]);
    assert!(input.verify_signatures(&[true]).is_ok());
    assert!(matches!(input.verify_signatures(&[false]), Err(Error::InvalidSignature)));
    assert!(matches!(input.verify_fully_signed(&[true]), Err(Error::NotFullySigned)));

    input.signatures.insert(&bytes_of(21), [2u8; 64]);
    assert!(input.verify_fully_signed(&[true, true]).is_ok());
    assert!(matches!(input.verify_fully_signed(&[true]), Err(Error::InvalidSignature)));

    let mut transaction = Transaction::new(14).unwrap();
    transaction.id = bytes_of(1);
    transaction.add_input(&input, 0).unwrap();
    assert!(transaction.validate_fully_signed_input(&bytes_of(9), &[true, true]).is_ok());
    assert!(transaction.validate_fully_signed_input(&bytes_of(9), &[true, false]).is_err());
    assert!(transaction.validate_fully_signed(&bytes_of(1), &vec![vec![true, true]]).is_ok());
    assert!(matches!(
        transaction.validate_fully_signed(&bytes_of(2), &vec![vec![true, true]]),
        Err(Error::InvalidId)
    ));
    assert!(transaction.validate_fully_signed(&bytes_of(1), &vec![]).is_err());
    assert!(transaction.is_fully_signed().unwrap());
    assert!(transaction.is_signed());
}
