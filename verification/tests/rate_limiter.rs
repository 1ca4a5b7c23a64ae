use oben_gateway::rate_limiter::{RateLimitAlgorithm, RateLimitConfig, RateLimitError, SlidingWindow};

#[test]
fn test_sliding_window() {
    let config = RateLimitConfig {
        limit: 10,
        window_seconds: 10,
        algorithm: RateLimitAlgorithm::SlidingWindow,
    };
    let mut limiter = SlidingWindow::from_config(&config);
    for _ in 0..5 {
        assert!(limiter.allow());
    }
}

#[test]
fn window_admits_the_configured_limit() {
    let config = RateLimitConfig::with_algorithm(10, 10, RateLimitAlgorithm::SlidingWindow);
    let mut w = SlidingWindow::from_config(&config);
    for _ in 0..10 {
        assert!(w.allow_at(500));
    }
    assert!(!w.allow_at(500));
    assert_eq!(w.max_requests(), 10);
}

#[test]
fn config_constructors() {
    let c = RateLimitConfig::new(10, 20);
    assert_eq!(c.algorithm, RateLimitAlgorithm::TokenBucket);
    assert_eq!((c.limit, c.window_seconds), (10, 20));
    let d = RateLimitConfig::default();
    assert_eq!((d.limit, d.window_seconds), (100, 60));
    let s = RateLimitConfig::with_algorithm(5, 6, RateLimitAlgorithm::SlidingWindow);
    assert_eq!(s.algorithm, RateLimitAlgorithm::SlidingWindow);
}

#[test]
fn window_admits_at_most_one_hundred() {
    let mut w = SlidingWindow::new(60, 100);
    for _ in 0..100 {
        assert!(w.allow_at(1000));
    }
    assert!(!w.allow_at(1000));
    assert_eq!(w.request_count(), 100);
    assert_eq!(w.max_requests(), 100);
}

#[test]
fn old_requests_leave_the_window() {
    let mut w = SlidingWindow::new(60, 100);
    for _ in 0..100 {
        w.allow_at(1000);
    }
    // At 1060 the window starts at 1000, and requests at 1000 are no longer inside it.
    assert!(w.allow_at(1060));
    assert_eq!(w.request_count(), 1);
    assert_eq!(w.window_size(), 60);
}

#[test]
fn rate_limit_error_fields() {
    let e = RateLimitError::new("user-1", 30);
    assert_eq!(e.key, "user-1");
    assert_eq!(e.retry_after, 30);
}
