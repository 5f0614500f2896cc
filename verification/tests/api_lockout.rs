use govee2mqtt::api_lockout::{
    clear_api_lockout, is_recoverable_error, is_recoverable_text, should_attempt_api_call_at, ApiLockout,
    LockoutType,
};
use std::time::Duration;

#[test]
fn test_lockout_type_from_error() {
    let abnormal = anyhow::Error::msg("Your account is abnormal, please contact support");
    assert_eq!(LockoutType::from_error(&abnormal), LockoutType::AbnormalActivity);

    let rate_limit = anyhow::Error::msg("HTTP 429: rate limit exceeded");
    assert_eq!(LockoutType::from_error(&rate_limit), LockoutType::RateLimit);

    let network = anyhow::Error::msg("DNS resolution failed");
    assert_eq!(LockoutType::from_error(&network), LockoutType::NetworkError);
}

#[test]
fn test_lockout_duration() {
    assert_eq!(
        LockoutType::AbnormalActivity.lockout_duration(),
        Duration::from_secs(24 * 60 * 60)
    );
    assert_eq!(
        LockoutType::NetworkError.lockout_duration(),
        Duration::from_secs(5 * 60)
    );
}

#[test]
fn test_is_recoverable() {
    assert!(is_recoverable_error(&anyhow::Error::msg("connection timeout")));
    assert!(is_recoverable_error(&anyhow::Error::msg("HTTP 429 rate limit")));
    assert!(is_recoverable_error(&anyhow::Error::msg("account is abnormal")));
    // Generic errors are not recoverable by default
    assert!(!is_recoverable_error(&anyhow::Error::msg("unknown error xyz")));
}

#[test]
fn classified_text_is_recoverable() {
    for text in ["Your account is abnormal", "rate limit hit", "HTTP 429", "connection reset"] {
        assert_ne!(LockoutType::from_error_text(text), LockoutType::Unknown);
        assert!(is_recoverable_text(text));
    }
}

#[test]
fn lockout_is_active_until_it_expires() {
    let lockout = ApiLockout::from_error_text_at("HTTP 429: rate limit exceeded", 1_000);
    assert_eq!(lockout.lockout_type, LockoutType::RateLimit);
    assert!(lockout.is_active_at(1_000));
    assert!(!should_attempt_api_call_at(Some(&lockout), 1_000));
    let after = 1_000 + (LockoutType::RateLimit.lockout_secs() as i64) * 1000;
    assert!(!lockout.is_active_at(after));
    assert!(should_attempt_api_call_at(Some(&lockout), after));
    assert!(should_attempt_api_call_at(None, 0));
}

#[test]
fn clearing_names_the_lockout_entry() {
    let (topic, key) = clear_api_lockout();
    assert_eq!(topic, "lockout");
    assert_eq!(key, "api-lockout-state");
}

#[test]
fn lockout_time_remaining_and_retries() {
    let mut lockout = ApiLockout::from_error_text_at("HTTP 429: rate limit exceeded", 1_000);
    assert_eq!(lockout.lockout_type, LockoutType::RateLimit);
    assert_eq!(lockout.lockout_until, 1_000 + 86_400_000);
    assert_eq!(lockout.time_remaining_at(1_000), Some(86_400_000));
    assert_eq!(lockout.time_remaining_at(1_000 + 86_400_000), None);

    lockout.increment_retry_at("still limited", 5_000);
    lockout.increment_retry_at("still limited", 6_000);
    assert_eq!(lockout.retry_count, 3);
    assert_eq!(lockout.lockout_until, 1_000 + 86_400_000);
    lockout.increment_retry_at("limited again", 7_000);
    assert_eq!(lockout.retry_count, 4);
    assert_eq!(lockout.last_error, "limited again");
    assert_eq!(lockout.lockout_until, 7_000 + 86_400_000);
    assert_eq!(lockout.created_at, 1_000);
}

#[test]
fn lockout_from_an_error_records_its_text() {
    let err = anyhow::Error::msg("HTTP 429: rate limit exceeded");
    let lockout = ApiLockout::from_error(&err);
    assert_eq!(lockout.lockout_type, LockoutType::RateLimit);
    assert_eq!(lockout.last_error, "HTTP 429: rate limit exceeded");
    assert_eq!(lockout.retry_count, 1);
    assert_eq!(lockout.lockout_until, lockout.created_at + 86_400_000);
}
