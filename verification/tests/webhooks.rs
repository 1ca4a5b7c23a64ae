use oben_gateway::webhooks::{WebhookConfig, WebhookEvent, WebhookHandler, WebhookManager};

#[test]
fn test_webhook_config() {
    let config = WebhookConfig::new("http://example.com/webhook")
        .with_method("POST")
        .with_header("Content-Type", "application/json")
        .with_timeout(60);
    assert_eq!(config.url, "http://example.com/webhook");
    assert_eq!(config.method, "POST");
    assert_eq!(config.headers.get("Content-Type"), Some(&"application/json".to_string()));
    assert_eq!(config.timeout_seconds, 60);
}

#[test]
fn test_webhook_handler() {
    let mut handler = WebhookHandler::new();
    handler.register_url("http://example.com/webhook1");
    handler.register_url("http://example.com/webhook2");
    assert_eq!(handler.url_count(), 2);
}

#[test]
fn test_webhook_manager() {
    let mut manager = WebhookManager::new();
    manager.register("http://example.com/webhook");
    manager.record_event(WebhookEvent::PlatformStarted { platform: "telegram".to_string() });
    assert_eq!(manager.webhook_count(), 1);
    assert_eq!(manager.recent_events().len(), 1);
}

#[test]
fn recent_events_keep_the_last_hundred() {
    let mut manager = WebhookManager::new();
    for i in 0..105 {
        manager.record_event(WebhookEvent::PlatformStarted { platform: format!("p{}", i) });
    }
    let events = manager.recent_events();
    assert_eq!(events.len(), 100);
    assert_eq!(events[0], WebhookEvent::PlatformStarted { platform: "p5".to_string() });
    assert_eq!(events[99], WebhookEvent::PlatformStarted { platform: "p104".to_string() });
}

#[test]
fn config_registration_and_defaults() {
    let mut manager = WebhookManager::new();
    manager.register_with_config("http://a", WebhookConfig::new("http://a").with_method("PUT"));
    assert_eq!(manager.handler().config_for("http://a").unwrap().method, "PUT");
    assert!(manager.handler().config_for("http://b").is_none());
    assert_eq!(manager.handler().urls().to_vec(), vec!["http://a".to_string()]);
    let d = WebhookConfig::default();
    assert_eq!(d.url, "http://localhost:8080/webhook");
    assert_eq!(d.timeout_seconds, 30);
    assert!(d.headers.is_empty());
}
