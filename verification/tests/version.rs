use alsacoin::models::version::Order;
use alsacoin::models::error::Error;
use alsacoin::models::version::{Version, VERSION};

#[test]
fn test_version_new() {
    let res = Version::new(1, 2, 3, "alpha", "build-01");
    assert!(res.is_ok());

    let res = Version::new(1, 2, 3, "///", "build-02");
    assert!(res.is_err());

    let res = Version::new(1, 2, 3, "beta", "àòlè@*)");
    assert!(res.is_err());
}

#[test]
fn test_version_default() {
    let version = Version::default();
    assert!(version.validate().is_ok());

    assert!(&version.to_string() == VERSION);
}

#[test]
fn test_version_validate_numeric() {
    let valid_numeric = "12345";

    let res = Version::validate_numeric(valid_numeric);
    assert!(res.is_ok());

    let invalid_numeric_a = "1234.9";
    let res = Version::validate_numeric(invalid_numeric_a);
    assert!(res.is_err());

    let invalid_numeric_b = "sdf8873439hf-pewrfjhdsjgvbcru";
    let res = Version::validate_numeric(invalid_numeric_b);
    assert!(res.is_err());
}

#[test]
fn test_version_validate_prerelease() {
    let valid_prerelease = "abc-DEF-ghj-";

    let res = Version::validate_prerelease(valid_prerelease);
    assert!(res.is_ok());

    let invalid_prerelease_a = "1234";
    let res = Version::validate_prerelease(invalid_prerelease_a);
    assert!(res.is_err());

    let invalid_prerelease_b = "!£$%";
    let res = Version::validate_prerelease(invalid_prerelease_b);
    assert!(res.is_err());
}

#[test]
fn test_version_validate_buildmeta() {
    let valid_buildmeta = "123-abc-DEF-";

    let res = Version::validate_buildmeta(valid_buildmeta);
    assert!(res.is_ok());

    let invalid_buildmeta = "&/(.";
    let res = Version::validate_buildmeta(invalid_buildmeta);
    assert!(res.is_err());
}

#[test]
fn test_version_validate_semver() {
    let valid_semver = "1.10.1947-abcd-EFG+1A-bc-2";

    let res = Version::validate_semver(valid_semver);
    assert!(res.is_ok());

    let invalid_semver_a = "1.10.194a";
    let res = Version::validate_semver(invalid_semver_a);
    assert!(res.is_err());

    let invalid_semver_b = "1.10.1947-";
    let res = Version::validate_semver(invalid_semver_b);
    assert!(res.is_err());
}

#[test]
fn test_version_parse() {
    let valid_version = "1.10.1947-abcd-EFG+1A-bc-2";

    let res = Version::parse(valid_version);
    assert!(res.is_ok());

    let invalid_version_a = "1.10.1947+";

    let res = Version::parse(invalid_version_a);
    assert!(res.is_err());

    let invalid_version_b = "a.10.1947";

    let res = Version::parse(invalid_version_b);
    assert!(res.is_err());

    let invalid_version_c = "1.b.1947";

    let res = Version::parse(invalid_version_c);
    assert!(res.is_err());

    let invalid_version_d = "1.10.c";

    let res = Version::parse(invalid_version_d);
    assert!(res.is_err());

    let invalid_version_e = "a.b.c";
    let res = Version::parse(invalid_version_e);
    assert!(res.is_err());
}

#[test]
fn test_version_to_string() {
    let valid_version = "1.10.1947-abcd-EFG+1A-bc-2";

    let version_a = Version::parse(valid_version).unwrap();
    let version_a_str = version_a.to_string();

    let version_b = Version::parse(&version_a_str).unwrap();
    assert_eq!(version_a, version_b);
}

#[test]
fn test_version_format() {
    let valid_version = "1.10.1947-abcd-EFG+1A-bc-2";

    let version_a = Version::parse(valid_version).unwrap();
    let version_a_str = version_a.to_string();

    let version_b = Version::parse(&version_a_str).unwrap();
    assert_eq!(version_a, version_b);
}

#[test]
fn test_version_ord() {
    let version_a = Version::parse("0.1.0").unwrap();
    let version_b = Version::parse("0.2.0").unwrap();
    let version_c = Version::parse("1.0.0").unwrap();
    let version_d = Version::parse("0.0.6").unwrap();
    let version_e = Version::parse("0.0.6-alpha").unwrap();
    let version_f = Version::parse("0.0.6-beta").unwrap();
    let version_g = Version::parse("0.0.6-beta+abuild").unwrap();

    assert!(version_a < version_b);
    assert!(version_a < version_c);
    assert!(version_b < version_c);
    assert!(version_d < version_a);
    assert!(version_d < version_b);
    assert!(version_d < version_c);
    assert!(version_e < version_d);
    assert!(version_e < version_f);
    assert!(version_f < version_d);
    assert!(version_g == version_f);
}

#[test]
fn test_version_is_compatible() {
    let version_a = Version::parse("1.0.2-alpha").unwrap();
    let version_b = Version::parse("1.0.2-beta").unwrap();
    let version_c = Version::parse("0.0.1+build-1947").unwrap();
    let mut invalid_version = Version::default();
    invalid_version.buildmeta = "....".into();

    let res = version_a.is_compatible(&version_b);
    assert!(res.is_ok());
    assert!(res.unwrap());

    let res = version_b.is_compatible(&version_c);
    assert!(res.is_ok());
    assert!(!res.unwrap());

    let res = version_c.is_compatible(&invalid_version);
    assert!(res.is_err());
}

#[test]
fn version_parse_exact_fields() {
    let v = Version::parse("1.10.1947-abcd-EFG+1A-bc-2").unwrap();
    assert_eq!(v.major, 1);
    assert_eq!(v.minor, 10);
    assert_eq!(v.patch, 1947);
    assert_eq!(v.prerelease, "abcd-EFG");
    assert_eq!(v.buildmeta, "1A-bc-2");
    assert_eq!(v.to_string(), "1.10.1947-abcd-EFG+1A-bc-2");
}

#[test]
fn version_parse_needs_dots_and_numbers() {
    // The separators are literal dots.
    assert!(matches!(Version::validate_semver("1x2x3"), Err(Error::InvalidVersion)));
    assert!(matches!(Version::parse("1x2y3"), Err(Error::NoRegexMatch)));
    // No number is empty.
    assert!(matches!(Version::validate_semver(".."), Err(Error::InvalidVersion)));
    assert!(matches!(Version::parse("1..3"), Err(Error::NoRegexMatch)));
    assert!(matches!(Version::parse("1.2."), Err(Error::NoRegexMatch)));
    // A number too large for a u32 does not parse.
    assert!(matches!(Version::parse("4294967296.0.0"), Err(Error::Parse { .. })));
    assert!(matches!(Version::parse("a.b.c"), Err(Error::NoRegexMatch)));
    let v = Version::parse("1.2.3").unwrap();
    assert_eq!((v.major, v.minor, v.patch), (1, 2, 3));
}

#[test]
fn version_order_is_antisymmetric_and_ignores_buildmeta() {
    let a = Version::parse("2.0.0-rc").unwrap();
    let b = Version::parse("2.0.0").unwrap();
    let c = Version::parse("2.0.0-rc+meta").unwrap();
    assert!(a < b);
    assert!(b > a);
    assert_eq!(a.partial_cmp(&c), Some(std::cmp::Ordering::Equal));
    assert_eq!(a.partial_cmp(&a), Some(std::cmp::Ordering::Equal));
}

#[test]
fn version_errors_are_invalid_version() {
    assert!(matches!(Version::new(0, 0, 0, "1", ""), Err(alsacoin::models::error::Error::InvalidVersion)));
    assert!(matches!(Version::validate_numeric("x"), Err(alsacoin::models::error::Error::InvalidVersion)));
    assert_eq!(Version::new(0, 1, 0, "", "").unwrap().to_string(), VERSION);
}

#[test]
fn version_compare_orders_and_reverses() {
    let a = Version::parse("1.2.3-alpha").unwrap();
    let b = Version::parse("1.2.3").unwrap();
    let c = Version::parse("1.2.3-beta+build").unwrap();
    assert_eq!(a.compare(&b), Order::Less);
    assert_eq!(b.compare(&a), Order::Greater);
    assert_eq!(a.compare(&c), Order::Less);
    assert_eq!(c.compare(&a), Order::Greater);
    assert_eq!(b.compare(&b), Order::Equal);
    assert_eq!(Version::parse("2.0.0").unwrap().compare(&b), Order::Greater);
}
