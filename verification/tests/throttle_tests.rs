use local_gist::text::{parse_u32, str_contains, u32_to_string};
use local_gist::throttle::{should_continue, RateStatus, PAUSE_MILLIS};

#[test]
fn pause_when_remaining_header_is_absent() {
    let status = RateStatus::from_headers(Some("5000"), None);
    assert_eq!(status.limit, Some(5000));
    assert_eq!(status.remaining, None);
    assert!(status.should_pause());
}

#[test]
fn no_pause_when_budget_remains() {
    let status = RateStatus::from_headers(Some("5000"), Some("50"));
    assert_eq!(status.remaining, Some(50));
    assert!(!status.should_pause());
}

#[test]
fn no_pause_on_plus_prefixed_remaining() {
    let status = RateStatus::from_headers(Some("5000"), Some("+50"));
    assert_eq!(status.remaining, Some(50));
    assert!(!status.should_pause());
}

#[test]
fn pause_when_budget_is_exhausted() {
    let status = RateStatus::from_headers(Some("5000"), Some("0"));
    assert_eq!(status.remaining, Some(0));
    assert!(status.should_pause());
}

#[test]
fn pause_when_remaining_header_is_unreadable() {
    let status = RateStatus::from_headers(None, Some("soon"));
    assert_eq!(status.limit, None);
    assert_eq!(status.remaining, None);
    assert!(status.should_pause());
}

#[test]
fn continue_only_on_positive_remaining() {
    assert!(should_continue(Some("50")));
    assert!(should_continue(Some("1")));
    assert!(should_continue(Some("+50")));
    assert!(!should_continue(Some("+0")));
    assert!(!should_continue(Some("+")));
    assert!(!should_continue(Some("0")));
    assert!(!should_continue(Some("")));
    assert!(!should_continue(Some("abc")));
    assert!(!should_continue(Some("12a")));
    assert!(!should_continue(None));
}

#[test]
fn pause_length_is_fixed() {
    assert_eq!(PAUSE_MILLIS, 3000);
}

#[test]
fn parse_u32_accepts_exactly_u32_numerals() {
    assert_eq!(parse_u32("0"), Some(0));
    assert_eq!(parse_u32("007"), Some(7));
    assert_eq!(parse_u32("+7"), Some(7));
    assert_eq!(parse_u32("+0"), Some(0));
    assert_eq!(parse_u32("+4294967295"), Some(4294967295));
    assert_eq!(parse_u32("+"), None);
    assert_eq!(parse_u32("++1"), None);
    assert_eq!(parse_u32("1+2"), None);
    assert_eq!(parse_u32("4294967295"), Some(4294967295));
    assert_eq!(parse_u32("4294967296"), None);
    assert_eq!(parse_u32("99999999999"), None);
    assert_eq!(parse_u32(""), None);
    assert_eq!(parse_u32("-1"), None);
    assert_eq!(parse_u32("1 2"), None);
}

#[test]
fn u32_renders_in_decimal() {
    assert_eq!(u32_to_string(0), "0");
    assert_eq!(u32_to_string(7), "7");
    assert_eq!(u32_to_string(100), "100");
    assert_eq!(u32_to_string(4294967295), "4294967295");
}

#[test]
fn substring_search_finds_needles() {
    assert!(str_contains("hello world", "o w"));
    assert!(str_contains("hello", "hello"));
    assert!(str_contains("hello", ""));
    assert!(str_contains("hello", "lo"));
    assert!(!str_contains("hello", "world"));
    assert!(!str_contains("lo", "hello"));
}
