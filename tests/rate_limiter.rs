use git_chest::error::AppError;
use git_chest::rate_limit::{
    is_exhausted, parse_decimal_i64, parse_header_num, RateLimit, RateLimitHeaders, RateLimitStore,
};

fn headers(remaining: &str, reset: &str) -> RateLimitHeaders {
    RateLimitHeaders {
        limit: Some("60".to_string()),
        remaining: Some(remaining.to_string()),
        used: Some("60".to_string()),
        reset: Some(reset.to_string()),
        resource: Some("core".to_string()),
    }
}

#[test]
fn check_fails_when_exhausted_and_reset_in_future() {
    let mut store = RateLimitStore::new();
    store.update("github", &headers("0", "2000")).unwrap();
    match store.check_at("github", "core", 1000) {
        Err(AppError::RateLimited(r)) => assert_eq!(r, "core"),
        other => panic!("unexpected: {:?}", other),
    }
}

#[test]
fn check_succeeds_when_exhausted_and_reset_in_past() {
    let mut store = RateLimitStore::new();
    store.update("github", &headers("0", "500")).unwrap();
    assert!(store.check_at("github", "core", 1000).is_ok());
}

#[test]
fn check_succeeds_without_prior_state() {
    let store = RateLimitStore::new();
    assert!(store.check_at("github", "core", 1000).is_ok());
    assert!(store.check_at("github", "core", i64::MIN).is_ok());
}

#[test]
fn check_blocks_until_the_reset_second() {
    let mut store = RateLimitStore::new();
    store.update("github", &headers("0", "4102444800")).unwrap();
    assert!(store.check_at("github", "core", 4102444799).is_err());
    assert!(store.check_at("github", "core", 4102444800).is_ok());
    store.update("github", &headers("0", "1")).unwrap();
    assert!(store.check_at("github", "core", 1700000000).is_ok());
}

#[test]
fn check_succeeds_with_budget_left() {
    let mut store = RateLimitStore::new();
    store.update("github", &headers("3", "4102444800")).unwrap();
    assert!(store.check_at("github", "core", 1000).is_ok());
}

#[test]
fn rows_are_keyed_by_platform_and_resource() {
    let mut store = RateLimitStore::new();
    store.update("github", &headers("0", "2000")).unwrap();
    assert!(store.check_at("github", "search", 1000).is_ok());
    assert!(store.check_at("gitlab", "core", 1000).is_ok());
    let row = store.get("github", "core").unwrap();
    assert_eq!(row.max, 60);
    assert_eq!(row.remaining, 0);
    assert_eq!(row.used, 60);
    assert_eq!(row.reset_at, 2000);
    store.update("github", &headers("59", "3000")).unwrap();
    let row = store.get("github", "core").unwrap();
    assert_eq!(row.remaining, 59);
    assert_eq!(row.reset_at, 3000);
}

#[test]
fn missing_resource_header_is_parse_error() {
    let mut store = RateLimitStore::new();
    let mut h = headers("0", "2000");
    h.resource = None;
    assert!(matches!(store.update("github", &h), Err(AppError::Parse(_))));
    assert!(store.get("github", "core").is_none());
}

#[test]
fn malformed_numbers_read_as_zero() {
    let h = RateLimitHeaders {
        limit: Some("abc".to_string()),
        remaining: None,
        used: Some("".to_string()),
        reset: Some("17".to_string()),
        resource: Some("graphql".to_string()),
    };
    let r = RateLimit::from_headers(&h).unwrap();
    assert_eq!((r.max, r.remaining, r.used, r.reset_at), (0, 0, 0, 17));
    assert_eq!(r.resource, "graphql");
}

#[test]
fn decimal_parsing_matches_integer_syntax() {
    assert_eq!(parse_decimal_i64("42"), Some(42));
    assert_eq!(parse_decimal_i64("+7"), Some(7));
    assert_eq!(parse_decimal_i64("-15"), Some(-15));
    assert_eq!(parse_decimal_i64("0"), Some(0));
    assert_eq!(parse_decimal_i64(""), None);
    assert_eq!(parse_decimal_i64("-"), None);
    assert_eq!(parse_decimal_i64("+"), None);
    assert_eq!(parse_decimal_i64("1a"), None);
    assert_eq!(parse_decimal_i64(" 1"), None);
    assert_eq!(parse_decimal_i64("9223372036854775807"), Some(i64::MAX));
    assert_eq!(parse_decimal_i64("9223372036854775808"), None);
    assert_eq!(parse_decimal_i64("-9223372036854775808"), Some(i64::MIN));
    assert_eq!(parse_decimal_i64("-9223372036854775809"), None);
    assert_eq!(parse_decimal_i64("123456789012345678901234567890"), None);
    assert_eq!(parse_header_num(&Some("1700000000".to_string())), Some(1700000000));
    assert_eq!(parse_header_num(&None), None);
}

#[test]
fn exhaustion_needs_a_converted_future_reset() {
    let r = RateLimit { max: 1, remaining: 0, used: 1, reset_at: 10, resource: "core".to_string() };
    assert!(is_exhausted(&r, Some(10), 5));
    assert!(!is_exhausted(&r, Some(10), 10));
    assert!(is_exhausted(&r, None, 5));
    assert!(!is_exhausted(&r, None, 10));
    let r2 = RateLimit { remaining: 1, ..r };
    assert!(!is_exhausted(&r2, Some(10), 5));
}

#[test]
fn reset_times_beyond_the_calendar_still_compare() {
    let mut store = RateLimitStore::new();
    store.update("github", &headers("0", "9223372036854775807")).unwrap();
    assert!(store.check_at("github", "core", 0).is_err());
    store.update("github", &headers("0", "-9223372036854775808")).unwrap();
    assert!(store.check_at("github", "core", 0).is_ok());
    store.update("github", &headers("0", "8000000000000")).unwrap();
    assert!(store.check_at("github", "core", 0).is_err());
}
