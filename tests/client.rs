use dlsite::client::{
    dispatch_delay, request_url, status_error, FetchStep, RetryLoop, MIN_REQUEST_INTERVAL_MS,
};
use dlsite::{DlsiteClientBuilder, DlsiteError, RetryConfig};

#[test]
fn rate_limiter_waits_for_the_rest_of_the_interval() {
    assert_eq!(dispatch_delay(1_000, 1_200, MIN_REQUEST_INTERVAL_MS), 300);
    assert_eq!(dispatch_delay(1_000, 1_000, 500), 500);
    assert_eq!(dispatch_delay(1_000, 1_500, 500), 0);
    assert_eq!(dispatch_delay(1_000, 9_000, 500), 0);
    // A clock that went backwards counts as no time elapsed.
    assert_eq!(dispatch_delay(5_000, 4_000, 500), 500);
    // The first request after start-up does not wait.
    assert_eq!(dispatch_delay(0, 1_700_000_000_000, 500), 0);
}

#[test]
fn back_to_back_dispatches_are_an_interval_apart() {
    let first = 10_000u64;
    let now = 10_040u64;
    let sent = now + dispatch_delay(first, now, 500);
    assert!(sent - first >= 500);
}

#[test]
fn status_codes_are_classified() {
    assert_eq!(status_error(200), None);
    assert_eq!(status_error(204), None);
    assert_eq!(
        status_error(429),
        Some(DlsiteError::RateLimit("Too many requests, please retry later".to_string()))
    );
    assert_eq!(status_error(404), Some(DlsiteError::HttpStatus(404)));
    assert_eq!(status_error(503), Some(DlsiteError::HttpStatus(503)));
    assert_eq!(status_error(301), Some(DlsiteError::HttpStatus(301)));
}

#[test]
fn retry_loop_retries_transient_errors_then_gives_up() {
    let config = RetryConfig::default();
    let mut l = RetryLoop::new();
    let mut delays = vec![];
    loop {
        match l.on_outcome(&config, Err(DlsiteError::HttpStatus(503))) {
            FetchStep::Retry { delay_ms } => delays.push(delay_ms),
            FetchStep::Done(r) => {
                assert_eq!(r, Err(DlsiteError::HttpStatus(503)));
                break;
            }
        }
    }
    assert_eq!(delays, vec![100, 200, 400]);
    assert_eq!(l.attempt(), 3);
}

#[test]
fn retry_loop_stops_on_client_errors_and_success() {
    let config = RetryConfig::default();
    let mut l = RetryLoop::new();
    match l.on_outcome(&config, Err(DlsiteError::HttpStatus(404))) {
        FetchStep::Done(r) => assert_eq!(r, Err(DlsiteError::HttpStatus(404))),
        other => panic!("unexpected {:?}", other),
    }
    let mut l = RetryLoop::new();
    match l.on_outcome(&config, Err(DlsiteError::Timeout)) {
        FetchStep::Retry { delay_ms } => assert_eq!(delay_ms, 100),
        other => panic!("unexpected {:?}", other),
    }
    match l.on_outcome(&config, Ok("body".to_string())) {
        FetchStep::Done(r) => assert_eq!(r, Ok("body".to_string())),
        other => panic!("unexpected {:?}", other),
    }
    let none = RetryConfig::new(0, 100, 1_000);
    let mut l = RetryLoop::new();
    match l.on_outcome(&none, Err(DlsiteError::Timeout)) {
        FetchStep::Done(r) => assert_eq!(r, Err(DlsiteError::Timeout)),
        other => panic!("unexpected {:?}", other),
    }
}

#[test]
fn urls_join_base_and_path() {
    assert_eq!(
        request_url("https://www.dlsite.com/maniax", "/fsr/ajax?page=1"),
        "https://www.dlsite.com/maniax/fsr/ajax?page=1"
    );
    assert_eq!(request_url("", "x"), "x");
}

#[test]
fn builder_defaults_and_setters() {
    let b = DlsiteClientBuilder::new("https://example.com");
    assert_eq!(b.base_url, "https://example.com");
    assert_eq!(b.pool_max_idle_per_host, 10);
    assert_eq!(b.timeout_ms, 30_000);
    assert_eq!(b.cache_capacity, 100);
    assert_eq!(b.cache_ttl_ms, 3_600_000);
    assert_eq!(b.retry_config.max_retries, 3);
    let b = b
        .pool_max_idle_per_host(2)
        .timeout(5)
        .cache(7, 8)
        .retry_config(RetryConfig::new(1, 2, 3));
    assert_eq!(b.pool_max_idle_per_host, 2);
    assert_eq!(b.timeout_ms, 5);
    assert_eq!((b.cache_capacity, b.cache_ttl_ms), (7, 8));
    assert_eq!(b.retry_config.max_delay_ms, 3);
    assert!(b.cache_settings_valid());
    assert!(!b.cache(0, 8).cache_settings_valid());
}
