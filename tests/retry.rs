use grit_find::retry::{
    parse_u64, retry_wait, RateLimitRetry, RetryAction, FALLBACK_WAIT_SECS, MAX_ATTEMPTS,
    TOO_MANY_REQUESTS,
};

#[test]
fn parses_decimal_like_std() {
    assert_eq!(parse_u64("42"), Some(42));
    assert_eq!(parse_u64("+7"), Some(7));
    assert_eq!(parse_u64("007"), Some(7));
    assert_eq!(parse_u64("18446744073709551615"), Some(u64::MAX));
    assert_eq!(parse_u64("18446744073709551616"), None);
    assert_eq!(parse_u64("99999999999999999999x"), None);
    assert_eq!(parse_u64(""), None);
    assert_eq!(parse_u64("+"), None);
    assert_eq!(parse_u64("-1"), None);
    assert_eq!(parse_u64(" 1"), None);
    assert_eq!(parse_u64("1.5"), None);
    for s in ["0", "1", "+12", "65536", "abc", "12a"] {
        assert_eq!(parse_u64(s), s.parse::<u64>().ok());
    }
}

#[test]
fn retry_wait_falls_back() {
    assert_eq!(retry_wait(Some("30")), 30);
    assert_eq!(retry_wait(Some("soon")), FALLBACK_WAIT_SECS);
    assert_eq!(retry_wait(None), 5);
}

#[test]
fn rate_limit_then_success_is_retried_once() {
    let mut r = RateLimitRetry::new();
    assert_eq!(
        r.on_response(TOO_MANY_REQUESTS, Some("1")),
        RetryAction::Retry { wait_secs: 1 }
    );
    assert_eq!(r.on_response(200, None), RetryAction::Accept);
    assert_eq!(r.attempts, 2);
}

#[test]
fn three_rate_limits_end_after_three_attempts() {
    let mut r = RateLimitRetry::new();
    let mut attempts = 0;
    let outcome = loop {
        attempts += 1;
        match r.on_response(429, None) {
            RetryAction::Retry { wait_secs } => assert_eq!(wait_secs, 5),
            other => break other,
        }
    };
    assert_eq!(attempts, 3);
    assert_eq!(r.attempts, MAX_ATTEMPTS);
    assert_eq!(outcome, RetryAction::Fail { status: 429 });
}

#[test]
fn other_failures_are_not_retried() {
    let mut r = RateLimitRetry::new();
    assert_eq!(r.on_response(500, None), RetryAction::Fail { status: 500 });
    let mut r = RateLimitRetry::new();
    assert_eq!(r.on_response(422, Some("3")), RetryAction::Fail { status: 422 });
    let mut r = RateLimitRetry::new();
    assert_eq!(r.on_response(304, None), RetryAction::Fail { status: 304 });
    let mut r = RateLimitRetry::new();
    assert_eq!(r.on_response(204, None), RetryAction::Accept);
}
