use schoolthings::apps::validate_domain;
use schoolthings::common::validate_title;
use schoolthings::text::parse_i64;

#[test]
fn title_two_chars_fails() {
    assert!(!validate_title("ab"));
}

#[test]
fn title_three_chars_passes() {
    assert!(validate_title("abc"));
}

#[test]
fn title_inner_punctuation() {
    assert!(validate_title("my_app-1"));
    assert!(!validate_title("-app"));
    assert!(!validate_title("app-"));
    assert!(!validate_title("my app"));
    assert!(!validate_title(""));
}

#[test]
fn domain_https_passes() {
    assert!(validate_domain("https://example.com"));
}

#[test]
fn domain_http_fails() {
    assert!(!validate_domain("http://example.com"));
}

#[test]
fn domain_large_port_fails() {
    assert!(!validate_domain("https://example.com:70000"));
}

#[test]
fn domain_small_port_passes() {
    assert!(validate_domain("https://example.com:8080"));
    assert!(validate_domain("https://example.com:65535"));
    assert!(!validate_domain("https://example.com:65536"));
}

#[test]
fn domain_subdomain_passes() {
    assert!(validate_domain("https://sub.example.com"));
}

#[test]
fn domain_oddities() {
    assert!(!validate_domain("https://"));
    assert!(!validate_domain("https://ab.com"));
    assert!(!validate_domain("example.com"));
    assert!(!validate_domain("https://example.c"));
}

#[test]
fn parse_plain() {
    assert_eq!(parse_i64("123"), Some(123));
    assert_eq!(parse_i64("+42"), Some(42));
    assert_eq!(parse_i64("-7"), Some(-7));
    assert_eq!(parse_i64("0"), Some(0));
}

#[test]
fn parse_bounds() {
    assert_eq!(parse_i64("9223372036854775807"), Some(i64::MAX));
    assert_eq!(parse_i64("-9223372036854775808"), Some(i64::MIN));
    assert_eq!(parse_i64("9223372036854775808"), None);
    assert_eq!(parse_i64("-9223372036854775809"), None);
}

#[test]
fn parse_rejects_junk() {
    assert_eq!(parse_i64(""), None);
    assert_eq!(parse_i64("+"), None);
    assert_eq!(parse_i64("-"), None);
    assert_eq!(parse_i64("12a"), None);
    assert_eq!(parse_i64(" 12"), None);
}
