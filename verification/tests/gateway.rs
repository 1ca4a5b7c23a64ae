use oben_gateway::gateway::{preview, Gateway, PlatformInfo, PlatformRegistry};
use oben_gateway::messaging::Channel;
use oben_gateway::platform::{IncomingMessage, PlatformSessionContext, PlatformStatus};
use oben_gateway::router::{
    no_adapter_error, outgoing_for_context, outgoing_for_response, parse_session_key, session_key_for,
    turn_response, ResponseMessage,
};

fn make_gateway() -> Gateway {
    Gateway::new(vec![])
}

fn message(platform: &str, user: &str, content: &str, thread: Option<&str>) -> IncomingMessage {
    IncomingMessage {
        platform: platform.to_string(),
        user_id: user.to_string(),
        username: None,
        content: content.to_string(),
        thread_id: thread.map(String::from),
    }
}

#[test]
fn test_handle_message_echo() {
    let gateway = make_gateway();
    let mut msg = message("telegram", "user-1", "hello there", None);
    msg.username = Some("alice".to_string());
    let result = gateway.handle_message(&msg).unwrap();
    assert_eq!(result, "Echo: hello there");
}

#[test]
fn test_handle_message_short_content() {
    let gateway = make_gateway();
    let msg = message("discord", "user-2", "hi", Some("thread-1"));
    let result = gateway.handle_message(&msg).unwrap();
    assert_eq!(result, "Echo: hi");
}

#[test]
fn test_handle_message_long_content_preview() {
    let gateway = make_gateway();
    let long_content = "a".repeat(50);
    let msg = message("slack", "user-3", &long_content, None);
    let result = gateway.handle_message(&msg).unwrap();
    assert_eq!(result, format!("Echo: {}", long_content));
    assert_eq!(preview(&long_content), "a".repeat(30));
}

#[test]
fn test_handle_message_empty_content() {
    let gateway = make_gateway();
    let msg = message("test", "user-0", "", None);
    let result = gateway.handle_message(&msg).unwrap();
    assert_eq!(result, "Echo: ");
}

#[test]
fn test_preview_counts_bytes() {
    // 20 two-byte characters are 40 bytes: cut to 30 characters, that is all 20.
    let s = "é".repeat(20);
    assert_eq!(preview(&s), s);
    assert_eq!(preview("short"), "short");
}

#[test]
fn test_platform_registry_register() {
    let mut gateway = make_gateway();
    let info = PlatformInfo { name: "test".to_string(), status: PlatformStatus::Running, started_at: None, error: None };
    gateway.register_platform(info);
    assert!(gateway.platform_registry.has("test"));
    assert_eq!(gateway.status_for_name("test"), Some(PlatformStatus::Running));
}

#[test]
fn test_platform_registry_update_status() {
    let mut gateway = make_gateway();
    let info = PlatformInfo { name: "test".to_string(), status: PlatformStatus::Idle, started_at: None, error: None };
    gateway.register_platform(info);
    gateway.update_platform_status(
        "test",
        PlatformStatus::Failed("auth_expired".to_string()),
        Some("auth_expired".to_string()),
    );
    let info = gateway.platform_registry.get("test").unwrap();
    assert_eq!(info.status, PlatformStatus::Failed("auth_expired".to_string()));
    assert_eq!(info.error, Some("auth_expired".to_string()));
}

#[test]
fn test_registry_register_all_and_names() {
    let mut reg = PlatformRegistry::new();
    reg.register_all(vec![
        PlatformInfo { name: "a".into(), status: PlatformStatus::Idle, started_at: None, error: None },
        PlatformInfo { name: "b".into(), status: PlatformStatus::Running, started_at: None, error: None },
    ]);
    assert_eq!(reg.names(), vec!["a".to_string(), "b".to_string()]);
    reg.set_status("zzz", PlatformStatus::Running, None);
    assert!(!reg.has("zzz"));
}

#[test]
fn test_platform_session_context_isolation() {
    let telegram_ctx = PlatformSessionContext::new("telegram", "user-123");
    let discord_ctx = PlatformSessionContext::new("discord", "user-123");
    let slack_ctx = PlatformSessionContext::new("slack", "user-123");
    assert_ne!(telegram_ctx.session_key(), discord_ctx.session_key());
    assert_ne!(discord_ctx.session_key(), slack_ctx.session_key());
    assert_ne!(telegram_ctx.session_key(), slack_ctx.session_key());
    assert_eq!(telegram_ctx.session_key(), "telegram/user-123/global");
    assert_eq!(discord_ctx.session_key(), "discord/user-123/global");
    assert_eq!(slack_ctx.session_key(), "slack/user-123/global");
}

#[test]
fn test_platform_session_context_with_thread() {
    let ctx = PlatformSessionContext::with_thread_id("telegram", "user-123", Some("thread-456".to_string()));
    assert_eq!(ctx.session_key(), "telegram/user-123/thread-456");
    let ctx = PlatformSessionContext::with_thread_id("telegram", "user-123", None);
    assert_eq!(ctx.session_key(), "telegram/user-123/global");
}

#[test]
fn test_parse_session_key_cases() {
    let c = parse_session_key("telegram/u1/g1/c1");
    assert_eq!((c.platform.as_str(), c.user_id.as_str(), c.thread_id.as_deref()), ("telegram", "u1", Some("g1/c1")));
    let c = parse_session_key("slack/u2/global");
    assert_eq!(c.thread_id, None);
    let c = parse_session_key("solo");
    assert_eq!((c.platform.as_str(), c.user_id.as_str()), ("solo", ""));
    let c = parse_session_key("p/u/");
    assert_eq!(c.thread_id, None);
}

#[test]
fn test_reply_routes_back_to_its_conversation() {
    let msg = message("discord", "u7", "hi", Some("g1/c9"));
    let key = session_key_for(&msg);
    assert_eq!(key, "discord/u7/g1/c9");
    let out = outgoing_for_response(ResponseMessage { session_key: key, content: "pong".into() });
    assert_eq!(out.platform, "discord");
    assert_eq!(out.user_id, "u7");
    assert_eq!(out.thread_id, Some("g1/c9".to_string()));
    assert_eq!(out.content, "pong");
}

#[test]
fn test_turn_response_and_context() {
    let (go_on, resp) = turn_response("slack", "u1", &None, "answer", true);
    assert!(go_on);
    let resp = resp.unwrap();
    assert_eq!(resp.session_key, "slack/u1/global");
    assert_eq!(resp.content, "answer");
    let (go_on, resp) = turn_response("slack", "u1", &None, "answer", false);
    assert!(!go_on);
    assert!(resp.is_none());
    let ctx = PlatformSessionContext::new("test_platform", "user-123");
    let out = outgoing_for_context(&ctx, "hello from context".to_string());
    assert_eq!(out.platform, "test_platform");
    assert_eq!(no_adapter_error("x"), "No adapter registered for platform: x");
}

#[test]
fn test_channel_topics_and_delivery() {
    let mut ch = Channel::new();
    let mut rx1 = ch.subscribe("news");
    let mut rx2 = ch.subscribe("alerts");
    assert_eq!(ch.subscriber_count("news"), 1);
    assert_eq!(ch.subscriber_count("none"), 0);
    ch.publish("news", "n1".to_string());
    ch.publish("nobody", "x".to_string());
    ch.broadcast("all".to_string());
    assert_eq!(rx1.try_recv().unwrap(), "n1");
    assert_eq!(rx1.try_recv().unwrap(), "all");
    assert_eq!(rx2.try_recv().unwrap(), "all");
    assert!(rx2.try_recv().is_err());
    let mut topics = ch.topics();
    topics.sort();
    assert_eq!(topics, vec!["alerts".to_string(), "news".to_string()]);
}
