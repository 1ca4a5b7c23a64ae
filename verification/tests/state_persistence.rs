use oben_gateway::platform::PlatformStatus;
use oben_gateway::state_persistence::{GatewayState, GatewayStatePersister};

#[test]
fn test_gateway_state_new() {
    let state = GatewayState::new();
    assert_eq!(state.messages_processed, 0);
    assert_eq!(state.messages_failed, 0);
    assert!(state.platforms.is_empty());
    assert!(state.last_activity > 0);
    assert!(state.startup_time > 0);
}

#[test]
fn test_gateway_state_increment_counters() {
    let mut state = GatewayState::new();
    state.increment_processed();
    state.increment_processed();
    state.increment_failed();
    assert_eq!(state.messages_processed, 2);
    assert_eq!(state.messages_failed, 1);
}

#[test]
fn test_gateway_state_platform_status() {
    let mut state = GatewayState::new();
    state.set_platform_status("telegram".to_string(), PlatformStatus::Running);
    assert_eq!(state.get_platform_status("telegram"), Some(&PlatformStatus::Running));
    assert_eq!(state.get_platform_status("discord"), None);
}

#[test]
fn activity_time_is_recorded() {
    let mut state = GatewayState::starting_at(100);
    assert_eq!(state.last_activity, 100);
    assert_eq!(state.startup_time, 100);
    state.record_activity_at(250);
    assert_eq!(state.last_activity, 250);
    assert_eq!(state.startup_time, 100);
}

#[test]
fn later_status_replaces_earlier() {
    let mut state = GatewayState::starting_at(1);
    state.set_platform_status("slack".to_string(), PlatformStatus::Running);
    state.set_platform_status("slack".to_string(), PlatformStatus::Failed("down".to_string()));
    assert_eq!(
        state.get_platform_status("slack"),
        Some(&PlatformStatus::Failed("down".to_string()))
    );
    assert_eq!(state.platforms.len(), 1);
}

#[test]
fn persister_path_and_updates() {
    let mut p = GatewayStatePersister::new("/var/lib/gw");
    assert_eq!(p.state_path(), "/var/lib/gw/state.json");
    p.update_platform_status("discord".to_string(), PlatformStatus::Running);
    assert_eq!(p.state().get_platform_status("discord"), Some(&PlatformStatus::Running));
    let mut fresh = GatewayState::starting_at(7);
    fresh.increment_failed();
    p.replace_state(fresh);
    assert_eq!(p.state().messages_failed, 1);
    assert!(p.state().get_platform_status("discord").is_none());
    p.state_mut().increment_processed();
    assert_eq!(p.state().messages_processed, 1);
}
