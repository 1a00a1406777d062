use alsacoin::models::error::Error;
use alsacoin::models::utils::{captures, is_match};

const EMAIL_PATTERN: &str = "(^(?P<username>[a-zA-Z0-9_.+-]+)@(?P<host>[a-zA-Z0-9-]+)\\.(?P<domain>[a-zA-Z0-9-.]+)$)";

/// The text captured under a name.
fn get<'a>(capts: &'a [(String, String)], name: &str) -> Option<&'a String> {
    capts.iter().find(|(k, _)| k == name).map(|(_, v)| v)
}

#[test]
fn test_regex_is_match() {
    let valid_email = "test@example.com";

    let res = is_match(EMAIL_PATTERN, valid_email);
    assert!(res.is_ok());
    assert!(res.unwrap());

    let invalid_email = "test/@example.com";

    let res = is_match(EMAIL_PATTERN, invalid_email);
    assert!(res.is_ok());
    assert!(!res.unwrap())
}

#[test]
fn test_regex_captures() {
    let valid_email = "test@example.com";

    let res = captures(EMAIL_PATTERN, valid_email);
    assert!(res.is_ok());

    let capts = res.unwrap();

    let username_ = get(&capts, "username");
    assert!(username_.is_some());
    let username = username_.unwrap();
    assert_eq!(username, "test");

    let host_ = get(&capts, "host");
    assert!(host_.is_some());
    let host = host_.unwrap();
    assert_eq!(host, "example");

    let domain_ = get(&capts, "domain");
    assert!(domain_.is_some());
    let domain = domain_.unwrap();
    assert_eq!(domain, "com");

    let invalid_email = "test/@example.com";

    let res = captures(EMAIL_PATTERN, invalid_email);
    assert!(matches!(res, Err(Error::NoRegexMatch)));
}

#[test]
fn regex_groups_come_in_order_and_default_to_empty() {
    let res = captures("(?P<a>x)(?P<b>y)?", "x").unwrap();
    assert_eq!(res, vec![("a".to_string(), "x".to_string()), ("b".to_string(), String::new())]);
    assert!(matches!(is_match("(", "x"), Err(Error::Regex { .. })));
    assert!(matches!(captures("(", "x"), Err(Error::Regex { .. })));
}
