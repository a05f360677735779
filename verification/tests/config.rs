use waxum::config::{webhook_retry_delay, AccountLockBackoffConfig, WebhookRetryConfig};

#[test]
fn retry_policy_has_defaults() {
    let config = WebhookRetryConfig::from_env(None, None, None);
    assert_eq!(config.max_attempts, 3);
    assert!(config.retry_on_4xx);
    assert_eq!(config.dlq_capacity, 100);
}

#[test]
fn retry_policy_reads_its_variables() {
    let config = WebhookRetryConfig::from_env(Some("7"), Some("off"), Some("+12"));
    assert_eq!(config.max_attempts, 7);
    assert!(!config.retry_on_4xx);
    assert_eq!(config.dlq_capacity, 12);
}

#[test]
fn numbers_that_are_not_positive_fall_back() {
    for text in ["0", "-1", "", " 5", "5 ", "1_000", "99999999999999999999999"] {
        let config = WebhookRetryConfig::from_env(Some(text), None, Some(text));
        assert_eq!(config.max_attempts, 3, "{text:?}");
        assert_eq!(config.dlq_capacity, 100, "{text:?}");
    }
}

#[test]
fn the_4xx_switch_ignores_case() {
    for text in ["0", "false", "FALSE", "No", "oFF"] {
        assert!(!WebhookRetryConfig::from_env(None, Some(text), None).retry_on_4xx);
    }
    for text in ["1", "true", "", "yes", "off ", "ＯＦＦ"] {
        assert!(WebhookRetryConfig::from_env(None, Some(text), None).retry_on_4xx);
    }
}

#[test]
fn lock_schedule_has_a_default() {
    assert_eq!(AccountLockBackoffConfig::from_env(None).schedule, vec![300, 900, 3600]);
    assert_eq!(AccountLockBackoffConfig::from_env(Some("")).schedule, vec![300, 900, 3600]);
    assert_eq!(AccountLockBackoffConfig::from_env(Some("0,-5,x")).schedule, vec![300, 900, 3600]);
}

#[test]
fn lock_schedule_keeps_the_positive_steps() {
    let config = AccountLockBackoffConfig::from_env(Some(" 10 ,x,-5,,\t20,0,+30"));
    assert_eq!(config.schedule, vec![10, 20, 30]);
}

#[test]
fn lock_schedule_drops_numbers_that_do_not_fit() {
    let config = AccountLockBackoffConfig::from_env(Some("9223372036854775807,9223372036854775808"));
    assert_eq!(config.schedule, vec![9223372036854775807]);
}

#[test]
fn delays_follow_the_backoff() {
    let delays: Vec<u64> = (0..9).map(webhook_retry_delay).collect();
    assert_eq!(delays, vec![0, 5, 30, 60, 120, 240, 300, 300, 300]);
    assert_eq!(webhook_retry_delay(usize::MAX), 300);
}

#[test]
fn a_lock_schedule_is_copied() {
    let config = AccountLockBackoffConfig::from_env(Some("10,20"));
    assert_eq!(config.clone().schedule, vec![10, 20]);
}
