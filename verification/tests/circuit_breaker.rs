use oben_gateway::circuit_breaker::{
    CircuitBreaker, CircuitBreakerConfig, CircuitBreakerManager, CircuitState,
};

#[test]
fn test_circuit_breaker_closed_initially() {
    let mut breaker = CircuitBreaker::with_defaults();
    assert_eq!(breaker.state(), CircuitState::Closed);
}

#[test]
fn test_circuit_breaker_opens_after_failures() {
    let mut breaker = CircuitBreaker::with_defaults();
    assert_eq!(breaker.state(), CircuitState::Closed);

    for _ in 0..5 {
        breaker.record_failure();
    }

    assert_eq!(breaker.state(), CircuitState::Open);
}

#[test]
fn test_circuit_breaker_half_open_transition() {
    let mut breaker = CircuitBreaker::new(CircuitBreakerConfig {
        failure_threshold: 2,
        success_threshold: 2,
        timeout_seconds: 1,
        half_open_max_requests: 1,
    });

    breaker.record_failure();
    breaker.record_failure();
    assert_eq!(breaker.state(), CircuitState::Open);
}

#[test]
fn test_circuit_breaker_allows_half_open() {
    let mut breaker = CircuitBreaker::new(CircuitBreakerConfig {
        failure_threshold: 2,
        success_threshold: 2,
        timeout_seconds: 1,
        half_open_max_requests: 2,
    });

    breaker.record_failure();
    breaker.record_failure();
}

#[test]
fn test_circuit_breaker_manager() {
    let mut manager = CircuitBreakerManager::new();

    for _ in 0..5 {
        manager.record_failure("service-a");
    }

    assert_eq!(manager.state("service-a"), Some(CircuitState::Open));
    assert!(!manager.allow("service-a"));
}

#[test]
fn test_circuit_breaker_reset() {
    let mut manager = CircuitBreakerManager::new();

    for _ in 0..5 {
        manager.record_failure("service-a");
    }

    assert_eq!(manager.state("service-a"), Some(CircuitState::Open));

    manager.reset("service-a");

    assert!(manager.allow("service-a"));
    assert_eq!(manager.state("service-a"), Some(CircuitState::Closed));
}

#[test]
fn breaker_timeline_with_explicit_time() {
    let cfg = CircuitBreakerConfig::new()
        .with_failure_threshold(2)
        .with_success_threshold(2)
        .with_timeout(10)
        .with_half_open_max_requests(1);
    let now = std::time::Instant::now();
    let mut b = CircuitBreaker::new_at(cfg, now);
    assert!(b.allow_at(0, now));
    b.record_failure_at(0, now);
    assert_eq!(b.state_immutable(), CircuitState::Closed);
    b.record_failure_at(0, now);
    assert_eq!(b.state_immutable(), CircuitState::Open);
    assert_eq!(b.remaining_secs_at(3), Some(7));
    assert!(!b.allow_at(9, now));
    // timeout has run out: one probe is let through, the next is refused
    assert!(b.allow_at(10, now));
    assert_eq!(b.state_immutable(), CircuitState::HalfOpen);
    assert!(!b.allow_at(0, now));
    b.record_success_at(0, now);
    assert_eq!(b.state_immutable(), CircuitState::HalfOpen);
    b.record_success_at(0, now);
    assert_eq!(b.state_immutable(), CircuitState::Closed);
    assert_eq!(b.remaining_secs_at(0), None);
}

#[test]
fn half_open_failure_reopens() {
    let cfg = CircuitBreakerConfig::new().with_failure_threshold(1).with_timeout(5);
    let now = std::time::Instant::now();
    let mut b = CircuitBreaker::new_at(cfg, now);
    b.record_failure_at(0, now);
    assert_eq!(b.state_immutable(), CircuitState::Open);
    b.check_state_at(5, now);
    assert_eq!(b.state_immutable(), CircuitState::HalfOpen);
    b.record_failure_at(0, now);
    assert_eq!(b.state_immutable(), CircuitState::Open);
}

#[test]
fn manager_counts_by_state() {
    let mut m = CircuitBreakerManager::with_config(CircuitBreakerConfig::new().with_failure_threshold(1));
    m.record_failure("a");
    m.record_success("b");
    assert!(m.allow("c"));
    assert_eq!(m.open_count(), 1);
    assert_eq!(m.closed_count(), 2);
    assert_eq!(m.half_open_count(), 0);
    assert_eq!(m.state("zzz"), None);
    m.clear();
    assert_eq!(m.closed_count(), 0);
}

#[test]
fn default_config_values() {
    let c = CircuitBreakerConfig::default();
    assert_eq!(c.failure_threshold, 5);
    assert_eq!(c.success_threshold, 3);
    assert_eq!(c.timeout_seconds, 30);
    assert_eq!(c.half_open_max_requests, 1);
}

#[test]
fn failures_past_the_threshold_keep_the_circuit_open() {
    let mut breaker = CircuitBreaker::with_defaults();
    for _ in 0..4 {
        breaker.record_failure();
        assert_eq!(breaker.state(), CircuitState::Closed);
    }
    for _ in 0..3 {
        breaker.record_failure();
        assert_eq!(breaker.state(), CircuitState::Open);
    }
}

#[test]
fn cleared_manager_starts_keys_afresh() {
    let mut manager = CircuitBreakerManager::new();
    for _ in 0..5 {
        manager.record_failure("svc");
    }
    assert_eq!(manager.state("svc"), Some(CircuitState::Open));
    manager.clear();
    assert_eq!(manager.state("svc"), None);
    assert!(manager.allow("svc"));
    assert_eq!(manager.state("svc"), Some(CircuitState::Closed));
}

#[test]
fn manager_with_explicit_time() {
    let mut manager = CircuitBreakerManager::new();
    let t = std::time::Instant::now();
    for _ in 0..5 {
        manager.record_failure_at("svc", 0, t);
    }
    assert_eq!(manager.state("svc"), Some(CircuitState::Open));
    assert!(!manager.allow_at("svc", 29, t));
    assert!(manager.allow_at("svc", 30, t));
    assert_eq!(manager.state("svc"), Some(CircuitState::HalfOpen));
    assert!(!manager.allow_at("svc", 0, t));
    manager.record_success_at("svc", 0, t);
    assert_eq!(manager.state("svc"), Some(CircuitState::HalfOpen));
}
