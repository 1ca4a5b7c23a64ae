use oben_gateway::diagnostics::{DiagnosticProvider, GatewayDiagnostic, PlatformDiagnostic};
use oben_gateway::platform::PlatformStatus;

#[test]
fn test_platform_diagnostic() {
    let diag = PlatformDiagnostic::new("telegram")
        .with_status(PlatformStatus::Running)
        .with_start_time(1234567890);
    assert_eq!(diag.platform, "telegram");
    assert_eq!(diag.status, PlatformStatus::Running);
    assert_eq!(diag.started_at, Some(1234567890));
}

#[test]
fn test_gateway_diagnostic() {
    let mut diag = GatewayDiagnostic::new();
    diag.add_platform(PlatformDiagnostic::new("telegram"));
    diag.add_platform(PlatformDiagnostic::new("discord"));
    assert_eq!(diag.platforms.len(), 2);
    assert!(diag.uptime_seconds < u64::MAX);
}

#[test]
fn test_diagnostic_provider() {
    let mut provider = DiagnosticProvider::new();
    let diag = provider.collect();
    assert_eq!(diag.platform_count, 0);
    assert!(diag.uptime_seconds < u64::MAX);
}

#[test]
fn uptime_is_now_minus_start() {
    let mut diag = GatewayDiagnostic::started_at(1000);
    diag.update_uptime_at(1600);
    assert_eq!(diag.uptime_seconds, 600);
    assert_eq!(diag.start_time, 1000);
}

#[test]
fn builders_set_one_field() {
    let d = GatewayDiagnostic::started_at(5).with_memory(128);
    assert_eq!(d.memory_mb, Some(128));
    assert_eq!(d.start_time, 5);
    let p = PlatformDiagnostic::new("slack").with_error("token revoked");
    assert_eq!(p.error.as_deref(), Some("token revoked"));
    assert_eq!(p.status, PlatformStatus::Idle);
}

#[test]
fn provider_snapshot_matches_kept_diagnostic() {
    let mut provider = DiagnosticProvider::new();
    provider.diagnostic_mut().add_platform(PlatformDiagnostic::new("qq"));
    let snap = provider.collect();
    assert_eq!(snap.platforms.len(), 1);
    assert_eq!(provider.diagnostic().platforms.len(), 1);
    assert_eq!(snap.start_time, provider.diagnostic().start_time);
}

#[test]
fn platform_count_follows_added_platforms() {
    let mut diag = GatewayDiagnostic::new();
    diag.add_platform(PlatformDiagnostic::new("telegram"));
    diag.add_platform(PlatformDiagnostic::new("discord"));
    assert_eq!(diag.platform_count, 2);
    assert_eq!(diag.platforms.len(), 2);
}
