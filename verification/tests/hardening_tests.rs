use upp_gateway::hardening::{
    backoff_with_draw, exponential_backoff, next_retry_step, retry_step_with_draw, reports_client_error, CircuitBreaker, CircuitBreakerConfig, CircuitState,
    ConfigValidator, RetryConfig, RetryStep,
};

#[test]
fn test_exponential_backoff() {
    let base: u64 = 100;
    let max: u64 = 5_000;

    let delay1 = exponential_backoff(0, base, max, false);
    let delay2 = exponential_backoff(1, base, max, false);
    let delay3 = exponential_backoff(2, base, max, false);

    assert_eq!(delay1, 100);
    assert_eq!(delay2, 200);
    assert_eq!(delay3, 400);

    let delay_capped = exponential_backoff(10, base, max, false);
    assert!(delay_capped <= max);
}

#[test]
fn test_circuit_breaker_transitions() {
    let config = CircuitBreakerConfig { failure_threshold: 3, recovery_timeout_ms: 100, half_open_max_requests: 2 };
    let mut cb = CircuitBreaker::new(config);

    assert_eq!(cb.get_state(), CircuitState::Closed);
    assert!(cb.check().is_ok());

    cb.record_failure();
    cb.record_failure();
    cb.record_failure();
    assert_eq!(cb.get_state(), CircuitState::Open);
    assert!(cb.check().is_err());

    let started = std::time::Instant::now();
    while started.elapsed() < std::time::Duration::from_millis(150) {}
    assert_eq!(cb.get_state(), CircuitState::Open);
    assert!(cb.check().is_ok());
    assert_eq!(cb.get_state(), CircuitState::HalfOpen);

    cb.record_success();
    cb.record_success();
    assert_eq!(cb.get_state(), CircuitState::Closed);
}

#[test]
fn half_open_admits_at_most_the_limit() {
    let config = CircuitBreakerConfig { failure_threshold: 1, recovery_timeout_ms: 10, half_open_max_requests: 2 };
    let mut cb = CircuitBreaker::new_at(config, 0);
    cb.record_failure_at(0);
    assert!(cb.check_at(20).is_ok());
    assert_eq!(cb.get_state(), CircuitState::HalfOpen);
    assert!(cb.check_at(21).is_ok());
    assert!(cb.check_at(22).is_err());
    assert_eq!(cb.get_state(), CircuitState::HalfOpen);
    cb.record_success_at(23);
    cb.record_success_at(24);
    assert_eq!(cb.get_state(), CircuitState::Closed);
    assert!(cb.check_at(25).is_ok());
}

#[test]
fn backoff_is_capped_for_huge_attempts() {
    assert_eq!(exponential_backoff(64, 100, 5_000, false), 5_000);
    assert_eq!(exponential_backoff(usize::MAX, 100, 5_000, false), 5_000);
    assert_eq!(exponential_backoff(62, 100, u64::MAX, false), u64::MAX);
    assert_eq!(exponential_backoff(200, 0, 5_000, false), 0);
}

#[test]
fn retry_gives_up_on_any_client_status() {
    let config = RetryConfig { max_retries: 3, base_delay_ms: 100, max_delay_ms: 5_000, jitter: false };
    assert_eq!(next_retry_step(&config, 0, "422 Unprocessable Entity"), RetryStep::GiveUp);
    assert_eq!(next_retry_step(&config, 0, "HTTP 404"), RetryStep::GiveUp);
    assert_eq!(next_retry_step(&config, 0, "503 Service Unavailable"), RetryStep::RetryAfter(100));
    assert!(reports_client_error("status 429: slow down"));
    assert!(!reports_client_error("took 4500 ms"));
    assert!(!reports_client_error("500 Internal Server Error"));
}

#[test]
fn retry_makes_max_retries_retries_with_doubling_delays() {
    let config = RetryConfig { max_retries: 3, base_delay_ms: 100, max_delay_ms: 5_000, jitter: false };
    let err = "503 Service Unavailable";
    assert_eq!(next_retry_step(&config, 0, err), RetryStep::RetryAfter(100));
    assert_eq!(next_retry_step(&config, 1, err), RetryStep::RetryAfter(200));
    assert_eq!(next_retry_step(&config, 2, err), RetryStep::RetryAfter(400));
    assert_eq!(next_retry_step(&config, 3, err), RetryStep::GiveUp);
}

#[test]
fn backoff_doubles_until_capped() {
    assert_eq!(exponential_backoff(3, 100, 5_000, false), 800);
    assert_eq!(exponential_backoff(6, 100, 5_000, false), 5_000);
    assert_eq!(exponential_backoff(40, 100, 5_000, false), 5_000);
}

#[test]
fn backoff_jitter_varies_by_a_fifth() {
    assert_eq!(backoff_with_draw(2, 100, 5_000, true, 0), 320);
    assert_eq!(backoff_with_draw(2, 100, 5_000, true, 80), 400);
    assert_eq!(backoff_with_draw(2, 100, 5_000, true, 160), 480);
    assert_eq!(backoff_with_draw(2, 100, 5_000, true, 161), 320);
    assert_eq!(backoff_with_draw(10, 100, 5_000, true, 2_000), 6_000);
    assert_eq!(backoff_with_draw(0, u64::MAX, u64::MAX, true, 7_378_697_629_483_820_646), u64::MAX);
    for _ in 0..50 {
        let d = exponential_backoff(2, 100, 5_000, true);
        assert!((320..=480).contains(&d));
    }
    let config = RetryConfig { max_retries: 3, base_delay_ms: 100, max_delay_ms: u64::MAX, jitter: true };
    match next_retry_step(&config, 1, "503 Service Unavailable") {
        RetryStep::RetryAfter(d) => assert!((160..=240).contains(&d)),
        RetryStep::GiveUp => panic!("a server error is retried"),
    }
    assert_eq!(retry_step_with_draw(&config, 0, "503", 20), RetryStep::RetryAfter(100));
}

#[test]
fn test_config_validator() {
    assert!(ConfigValidator::validate_port(8080).is_ok());
    assert!(ConfigValidator::validate_port(0).is_err());
}

#[test]
fn validator_checks_url_scheme() {
    assert!(ConfigValidator::validate_url("https://example.com").is_ok());
    assert!(ConfigValidator::validate_url("http://example.com").is_ok());
    assert!(ConfigValidator::validate_url("ftp://example.com").is_err());
}

#[test]
fn breaker_stays_closed_below_threshold() {
    let config = CircuitBreakerConfig { failure_threshold: 3, recovery_timeout_ms: 100, half_open_max_requests: 2 };
    let mut cb = CircuitBreaker::new_at(config, 0);
    cb.record_failure_at(0);
    cb.record_failure_at(0);
    assert_eq!(cb.get_state(), CircuitState::Closed);
    cb.record_success_at(0);
    cb.record_failure_at(0);
    cb.record_failure_at(0);
    assert_eq!(cb.get_state(), CircuitState::Closed);
}

#[test]
fn half_open_failure_reopens() {
    let config = CircuitBreakerConfig { failure_threshold: 1, recovery_timeout_ms: 10, half_open_max_requests: 2 };
    let mut cb = CircuitBreaker::new_at(config, 0);
    cb.record_failure_at(0);
    assert_eq!(cb.get_state(), CircuitState::Open);
    assert!(cb.check_at(20).is_ok());
    assert_eq!(cb.get_state(), CircuitState::HalfOpen);
    cb.record_failure_at(20);
    assert_eq!(cb.get_state(), CircuitState::Open);
}
