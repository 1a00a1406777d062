use alsacoin::models::timestamp::{Timestamp, MAX_TIMENOISE};

#[test]
fn test_timestamp_parse() {
    let valid_date = "2012-12-12T00:00:00Z";
    let invalid_date = "2012-12-32T00:00:00Z";

    let res = Timestamp::parse(valid_date);
    assert!(res.is_ok());

    let res = Timestamp::parse(invalid_date);
    assert!(res.is_err())
}

#[test]
fn test_timestamp_to_string() {
    let date = "2012-12-12T00:00:00Z";

    let timestamp_a = Timestamp::parse(date).unwrap();
    let timestamp_str = timestamp_a.to_string();
    let timestamp_b = Timestamp::from_string(&timestamp_str).unwrap();

    assert_eq!(timestamp_a, timestamp_b)
}

#[test]
fn test_timestamp_new() {
    let cases: [(u32, u32, u32, u32, u32, u32); 8] = [
        (2019, 7, 25, 0, 0, 0),
        (1969, 1, 1, 0, 0, 0),
        (1, 7, 25, 0, 0, 0),
        (2019, 13, 25, 0, 0, 0),
        (2019, 7, 32, 0, 0, 0),
        (2019, 7, 25, 24, 0, 0),
        (2019, 7, 25, 0, 60, 0),
        (2019, 7, 25, 0, 0, 60),
    ];
    for (i, (year, month, day, hour, min, sec)) in cases.iter().enumerate() {
        let res = Timestamp::new(*year, *month, *day, *hour, *min, *sec);
        if i == 0 {
            assert!(res.is_ok());
        } else {
            assert!(res.is_err());
        }
    }
}

#[test]
fn test_timestamp_validate() {
    let date = "2012-12-12T00:00:00Z";
    let invalid_timestamp = Timestamp::parse(date).unwrap();
    let valid_timestamp = Timestamp::parse("2020-01-01T00:00:00Z").unwrap();

    let res = invalid_timestamp.validate();
    assert!(res.is_err());

    let res = valid_timestamp.validate();
    assert!(res.is_ok());
}

#[test]
fn timestamp_exact_values() {
    assert_eq!(Timestamp::new(2019, 7, 25, 0, 0, 0).unwrap().0, 1564012800);
    assert_eq!(Timestamp::min_value().0, 1564012800);
    assert_eq!(Timestamp::parse("2012-12-12T00:00:00Z").unwrap().0, 1355270400);
    assert_eq!(Timestamp(-42).to_string(), "-42");
    assert_eq!(Timestamp::from_string("-42").unwrap(), Timestamp(-42));
    assert!(Timestamp::from_string("12a").is_err());
    assert_eq!(Timestamp(10).with_noise().0, 10 + MAX_TIMENOISE);
    assert_eq!(Timestamp(10).diff(Timestamp(25)), -15);
}

#[test]
fn timestamp_validate_at_bounds() {
    let now = Timestamp(1_600_000_000);
    assert!(Timestamp::min_value().validate_at(now).is_ok());
    assert!(Timestamp(1564012799).validate_at(now).is_err());
    assert!(Timestamp(1_600_000_000 + MAX_TIMENOISE).validate_at(now).is_ok());
    assert!(Timestamp(1_600_000_001 + MAX_TIMENOISE).validate_at(now).is_err());
}

#[test]
fn timestamp_new_starts_at_the_epoch() {
    assert_eq!(Timestamp::new(1970, 1, 1, 0, 0, 0).unwrap(), Timestamp(0));
    assert!(Timestamp::new(1969, 12, 31, 23, 59, 59).is_err());
}
