use dlsite::{DlsiteError, RetryConfig};

#[test]
fn test_retry_config_default() {
    let config = RetryConfig::default();
    assert_eq!(config.max_retries, 3);
    assert_eq!(config.initial_delay_ms, 100);
    assert_eq!(config.max_delay_ms, 10_000);
}

#[test]
fn test_calculate_delay() {
    let config = RetryConfig::default();
    let delay_0 = config.calculate_delay(0);
    let delay_1 = config.calculate_delay(1);
    let delay_2 = config.calculate_delay(2);

    assert_eq!(delay_0, 100);
    assert_eq!(delay_1, 200);
    assert_eq!(delay_2, 400);
}

#[test]
fn test_calculate_delay_max_cap() {
    let config = RetryConfig::new(3, 100, 1_000);
    let delay_10 = config.calculate_delay(10);
    assert!(delay_10 <= 1_000);
}

#[test]
fn test_is_retryable() {
    let config = RetryConfig::default();

    assert!(config.is_retryable(&DlsiteError::Timeout));
    assert!(config.is_retryable(&DlsiteError::RateLimit("test".to_string())));
    assert!(config.is_retryable(&DlsiteError::HttpStatus(500)));
    assert!(config.is_retryable(&DlsiteError::HttpStatus(503)));

    assert!(!config.is_retryable(&DlsiteError::HttpStatus(404)));
    assert!(!config.is_retryable(&DlsiteError::HttpStatus(400)));
}

#[test]
fn other_errors_are_not_retryable() {
    let config = RetryConfig::default();
    assert!(!config.is_retryable(&DlsiteError::HttpStatus(499)));
    assert!(!config.is_retryable(&DlsiteError::Parse("x".to_string())));
    assert!(!config.is_retryable(&DlsiteError::Json("x".to_string())));
    assert!(!config.is_retryable(&DlsiteError::Transport("x".to_string())));
    assert!(!config.is_retryable(&DlsiteError::Server("x".to_string())));
}

#[test]
fn delay_caps_exactly_at_max() {
    let config = RetryConfig::default();
    assert_eq!(config.calculate_delay(6), 6_400);
    assert_eq!(config.calculate_delay(7), 10_000);
    assert_eq!(config.calculate_delay(u32::MAX), 10_000);
    let small = RetryConfig::new(3, 100, 1_000);
    assert_eq!(small.calculate_delay(10), 1_000);
}

#[test]
fn delays_never_shrink() {
    let config = RetryConfig::default();
    let mut prev = 0;
    for a in 0..40 {
        let d = config.calculate_delay(a);
        assert!(d >= prev);
        assert!(d <= config.max_delay_ms);
        prev = d;
    }
}

#[test]
fn other_multipliers() {
    let mut config = RetryConfig::new(5, 10, u64::MAX);
    config.backoff_multiplier = 3;
    assert_eq!(config.calculate_delay(4), 810);
    config.backoff_multiplier = 1;
    assert_eq!(config.calculate_delay(9), 10);
    config.backoff_multiplier = 0;
    assert_eq!(config.calculate_delay(0), 10);
    assert_eq!(config.calculate_delay(1), 0);
    let over = RetryConfig::new(1, 500, 200);
    assert_eq!(over.calculate_delay(0), 200);
}
