use oben_gateway::logging::{EventTracker, GatewayEvent, GatewayEventLogger, LogLevel};

#[test]
fn test_gateway_event_logger() {
    let logger = GatewayEventLogger::new();
    logger.platform_started("telegram");
    logger.message_received("telegram", "user-1", 100);
    logger.message_sent("telegram", "user-1", 50);
    logger.message_failed("telegram", "user-1", "timeout");
}

#[test]
fn test_event_tracker() {
    let mut tracker = EventTracker::new();
    tracker.record(GatewayEvent::PlatformStarted { platform: "telegram".to_string() });
    tracker.record(GatewayEvent::PlatformError {
        platform: "discord".to_string(),
        error: "auth failed".to_string(),
    });
    assert_eq!(tracker.events().len(), 2);
    let telegram_events = tracker.platform_events("telegram");
    assert_eq!(telegram_events.len(), 1);
    let discord_events = tracker.platform_events("discord");
    assert_eq!(discord_events.len(), 1);
}

#[test]
fn test_event_tracker_capacity() {
    let mut tracker = EventTracker::with_capacity(3);
    for i in 1..=4 {
        tracker.record(GatewayEvent::PlatformStarted { platform: format!("platform-{}", i) });
    }
    assert_eq!(tracker.events().len(), 3);
}

#[test]
fn test_event_count() {
    let mut tracker = EventTracker::new();
    tracker.record(GatewayEvent::PlatformStarted { platform: "telegram".to_string() });
    tracker.record(GatewayEvent::PlatformStarted { platform: "discord".to_string() });
    tracker.record(GatewayEvent::PlatformError {
        platform: "telegram".to_string(),
        error: "error".to_string(),
    });
    assert_eq!(tracker.event_count("platform_started"), 2);
    assert_eq!(tracker.event_count("platform_error"), 1);
    assert_eq!(tracker.event_count("message_received"), 0);
}

#[test]
fn log_lines_have_name_and_fields() {
    let logger = GatewayEventLogger::new();
    let r = logger.message_received("telegram", "user-1", 100).unwrap();
    assert_eq!(r.level, LogLevel::Debug);
    assert_eq!(r.message, "message_received telegram user-1 100");
    let r = logger.message_sent("telegram", "user-1", 50).unwrap();
    assert_eq!(r.message, "message_sent telegram user-1");
    let r = logger.platform_error("discord", "auth failed").unwrap();
    assert_eq!(r.level, LogLevel::Error);
    assert_eq!(r.message, "platform_error discord auth failed");
    let r = logger.message_failed("telegram", "u", "timeout").unwrap();
    assert_eq!(r.level, LogLevel::Warn);
    assert_eq!(r.message, "message_failed telegram u timeout");
}

#[test]
fn disabled_logger_writes_nothing() {
    let logger = GatewayEventLogger::with_enabled(false);
    assert!(logger.platform_started("telegram").is_none());
    assert!(logger.log(&GatewayEvent::StateSaved { path: "/tmp/x".to_string() }).is_none());
}

#[test]
fn capacity_keeps_most_recent_in_order() {
    let mut tracker = EventTracker::with_capacity(2);
    for p in ["a", "b", "c"] {
        tracker.record(GatewayEvent::PlatformStarted { platform: p.to_string() });
    }
    let names: Vec<String> = tracker
        .events()
        .iter()
        .map(|e| match e {
            GatewayEvent::PlatformStarted { platform } => platform.clone(),
            _ => String::new(),
        })
        .collect();
    assert_eq!(names, vec!["b".to_string(), "c".to_string()]);
}

#[test]
fn state_events_belong_to_no_platform() {
    let mut tracker = EventTracker::new();
    tracker.record(GatewayEvent::StateSaved { path: "telegram".to_string() });
    assert_eq!(tracker.platform_events("telegram").len(), 0);
    assert_eq!(tracker.event_count("state_saved"), 1);
}
