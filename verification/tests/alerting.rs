use oben_gateway::alerting::{Alert, AlertConfig, AlertManager, AlertSeverity, AlertType};

#[test]
fn test_create_alert() {
    let mut manager = AlertManager::new();
    let id = manager.create_alert(AlertType::PlatformFailure, "Platform failed");
    assert!(manager.get_alert(&id).is_some());
}

#[test]
fn test_platform_alert() {
    let mut manager = AlertManager::new();
    manager.create_platform_alert("telegram", AlertType::PlatformFailure, "Telegram failed");

    let alerts = manager.platform_alerts("telegram");
    assert_eq!(alerts.len(), 1);
    assert_eq!(alerts[0].platform, Some("telegram".to_string()));
}

#[test]
fn test_resolve_alert() {
    let mut manager = AlertManager::new();
    let id = manager.create_alert(AlertType::PlatformFailure, "Platform failed");
    assert!(manager.resolve_alert(&id));
    assert!(manager.get_alert(&id).is_none());
}

#[test]
fn test_critical_alerts() {
    let mut manager = AlertManager::new();
    let id = manager.create_alert(AlertType::PlatformFailure, "Critical failure");
    manager.set_alert_severity(&id, AlertSeverity::Critical);

    let critical = manager.critical_alerts();
    assert_eq!(critical.len(), 1);
}

#[test]
fn alert_ids_and_history() {
    let mut manager = AlertManager::new();
    let id = manager.create_alert(AlertType::CircuitOpen, "open");
    assert!(id.starts_with("alert_3_"));
    assert_eq!(manager.alert_count(), 1);
    assert_eq!(manager.warning_alerts().len(), 1);
    assert!(!manager.resolve_alert("nope"));
    assert!(manager.resolve_alert(&id));
    assert!(!manager.resolve_alert(&id));
    assert_eq!(manager.history().len(), 1);
    assert_eq!(manager.history()[0].message, "Resolved");
    assert_eq!(manager.history()[0].id, id);
    assert_eq!(manager.alert_count(), 1);
    manager.clear_history();
    assert_eq!(manager.alert_count(), 0);
}

#[test]
fn alert_builders() {
    let a = Alert::new(AlertType::HighLatency, "slow").with_platform("slack").with_id("x");
    assert_eq!(a.platform.as_deref(), Some("slack"));
    assert_eq!(a.id, "x");
    assert!(a.is_warning());
    assert!(!a.is_critical());
    let c = AlertConfig::new().with_max_history(7);
    assert_eq!(c.max_history, 7);
    assert_eq!(c.cooldown_period, std::time::Duration::from_secs(60));
}

#[test]
fn history_keeps_at_most_max_history() {
    let mut m = AlertManager::with_config(AlertConfig::new().with_max_history(1));
    let a = m.create_alert(AlertType::PlatformFailure, "x");
    let b = m.create_alert(AlertType::HighLatency, "y");
    assert!(m.resolve_alert(&a));
    assert!(m.resolve_alert(&b));
    assert_eq!(m.history().len(), 1);
    assert_eq!(m.history()[0].id, b);
}

#[test]
fn alerts_of_one_type_get_distinct_ids() {
    let mut m = AlertManager::new();
    let id1 = m.create_alert(AlertType::PlatformFailure, "a");
    let id2 = m.create_alert(AlertType::PlatformFailure, "b");
    assert_ne!(id1, id2);
    assert_eq!(m.active_alerts().len(), 2);
    assert_eq!(id1, "alert_0_0");
    assert_eq!(id2, "alert_0_1");
}
