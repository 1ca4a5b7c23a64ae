use oben_gateway::health_check::{
    status_for_outcome, HealthCheckHandler, HealthCheckResult, HealthCheckSummary, HealthChecker,
    HealthStatus,
};
use oben_gateway::strmap::StrMap;

#[test]
fn test_health_checker_healthy() {
    let mut checker = HealthChecker::new();
    let result = checker.record_outcome("telegram", Some(true), 3);
    assert_eq!(result.status, HealthStatus::Healthy);
    assert!(result.is_healthy());
}

#[test]
fn test_health_checker_unhealthy() {
    let mut checker = HealthChecker::new();
    let result = checker.record_outcome("discord", Some(false), 3);
    assert_eq!(
        result.status,
        HealthStatus::Unhealthy { reason: "Health check returned false".to_string() }
    );
    assert!(!result.is_healthy());
}

#[test]
fn test_health_checker_timeout() {
    let mut checker = HealthChecker::with_timeout(100);
    let result = checker.record_outcome("slow", None, 100);
    assert_eq!(result.status, HealthStatus::Unhealthy { reason: "Health check timed out".to_string() });
    assert!(!result.is_healthy());
    assert_eq!(checker.timeout_ms(), 100);
}

#[test]
fn test_health_check_handler() {
    let mut handler = HealthCheckHandler::new();
    handler.checker_mut().record_outcome("healthy", Some(true), 1);
    handler.checker_mut().record_outcome("unhealthy", Some(false), 1);
    assert!(handler.checker().get("healthy").unwrap().is_healthy());
    assert!(!handler.checker().get("unhealthy").unwrap().is_healthy());
}

#[test]
fn test_health_summary() {
    let summary = HealthCheckSummary {
        overall: HealthStatus::Healthy,
        healthy_count: 2,
        unhealthy_count: 0,
        components: StrMap::new(),
    };
    assert!(summary.is_healthy());
    assert_eq!(summary.healthy_count, 2);
}

#[test]
fn summary_counts_and_reason() {
    let mut handler = HealthCheckHandler::new();
    handler.checker_mut().record_outcome("a", Some(true), 1);
    handler.checker_mut().record_outcome("b", Some(false), 1);
    handler.checker_mut().record_outcome("c", None, 1);
    let s = handler.check();
    assert_eq!(s.healthy_count, 1);
    assert_eq!(s.unhealthy_count, 2);
    assert_eq!(s.overall, HealthStatus::Unhealthy { reason: "2 components unhealthy".to_string() });
    assert!(!s.is_healthy());
    assert_eq!(s.components.len(), 3);
}

#[test]
fn empty_checker_is_all_healthy() {
    let handler = HealthCheckHandler::new();
    let s = handler.check();
    assert!(s.is_healthy());
    assert!(handler.checker().are_all_healthy());
    assert_eq!(handler.checker().timeout_ms(), 5000);
}

#[test]
fn latest_result_replaces_earlier_one() {
    let mut checker = HealthChecker::new();
    checker.record_outcome("x", Some(false), 1);
    assert!(!checker.are_all_healthy());
    checker.record_outcome("x", Some(true), 1);
    assert!(checker.are_all_healthy());
    let names: Vec<String> = checker.healthy_components().into_iter().cloned().collect();
    assert_eq!(names, vec!["x".to_string()]);
    assert!(checker.unhealthy_components().is_empty());
}

#[test]
fn result_at_keeps_given_time() {
    let r = HealthCheckResult::at("db", status_for_outcome(Some(true)), 12, 1700000000);
    assert_eq!(r.timestamp, 1700000000);
    assert_eq!(r.component, "db");
    assert_eq!(r.response_time_ms, 12);
}
