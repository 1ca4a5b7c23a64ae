use oben_gateway::delivery::{DeadTargetRegistry, DeliveryRouter, DeliveryStep, DeliveryTarget};
use oben_gateway::platform::PlatformSessionContext;

fn explicit(platform: &str, chat: &str) -> DeliveryTarget {
    DeliveryTarget {
        platform: platform.to_string(),
        chat_id: Some(chat.to_string()),
        thread_id: None,
        is_origin: false,
        is_explicit: true,
    }
}

#[test]
fn test_delivery_target_parse() {
    let target = DeliveryTarget::parse("origin");
    assert_eq!(target.is_origin, true);
    assert_eq!(target.platform, "unknown");

    let target = DeliveryTarget::parse("telegram");
    assert_eq!(target.is_origin, false);
    assert_eq!(target.platform, "telegram");
    assert_eq!(target.chat_id, None);

    let target = DeliveryTarget::parse("telegram:123456");
    assert_eq!(target.is_origin, false);
    assert_eq!(target.platform, "telegram");
    assert_eq!(target.chat_id, Some("123456".to_string()));

    let target = DeliveryTarget::parse("telegram:123456:thread-789");
    assert_eq!(target.is_origin, false);
    assert_eq!(target.platform, "telegram");
    assert_eq!(target.chat_id, Some("123456".to_string()));
    assert_eq!(target.thread_id, Some("thread-789".to_string()));
}

#[test]
fn test_delivery_target_to_string() {
    let target = DeliveryTarget {
        platform: "unknown".to_string(),
        chat_id: None,
        thread_id: None,
        is_origin: true,
        is_explicit: false,
    };
    assert_eq!(target.to_string(), "origin");

    let target = DeliveryTarget {
        platform: "telegram".to_string(),
        chat_id: None,
        thread_id: None,
        is_origin: false,
        is_explicit: false,
    };
    assert_eq!(target.to_string(), "telegram");

    let target = explicit("telegram", "123456");
    assert_eq!(target.to_string(), "telegram:123456");

    let target = DeliveryTarget {
        platform: "telegram".to_string(),
        chat_id: Some("123456".to_string()),
        thread_id: Some("thread-789".to_string()),
        is_origin: false,
        is_explicit: true,
    };
    assert_eq!(target.to_string(), "telegram:123456:thread-789");
}

#[test]
fn test_delivery_router_register_adapter() {
    let mut router = DeliveryRouter::new();
    assert_eq!(router.adapter_count(), 0);
    router.register_adapter("test_platform");
    assert_eq!(router.adapter_count(), 1);
}

#[test]
fn test_delivery_router_deliver_to_registered_platform() {
    let mut router = DeliveryRouter::new();
    router.register_adapter("test_platform");
    let target = explicit("test_platform", "user-123");
    match router.plan_delivery("Hello, world!", &target) {
        DeliveryStep::Send(msg) => {
            assert_eq!(msg.platform, "test_platform");
            assert_eq!(msg.user_id, "user-123");
            assert_eq!(msg.content, "Hello, world!");
        }
        other => panic!("expected a send, got {:?}", other),
    }
    let result = router.complete_delivery(&target, Ok(()));
    assert!(result.success);
    assert!(result.delivered);
}

#[test]
fn test_delivery_router_deliver_to_unknown_platform() {
    let router = DeliveryRouter::new();
    let target = explicit("unknown_platform", "user-123");
    match router.plan_delivery("Hello, world!", &target) {
        DeliveryStep::NoAdapter(e) => assert!(e.contains("No adapter registered")),
        other => panic!("expected an error, got {:?}", other),
    }
}

#[test]
fn test_dead_target_registry() {
    let mut registry = DeadTargetRegistry::new();
    assert!(!registry.is_dead("telegram", "123456"));
    registry.mark_dead("telegram", "123456", "chat deleted");
    assert!(registry.is_dead("telegram", "123456"));
    registry.clear("telegram", "123456");
    assert!(!registry.is_dead("telegram", "123456"));
}

#[test]
fn test_delivery_skips_dead_target() {
    let mut router = DeliveryRouter::new();
    router.register_adapter("telegram");
    router.dead_targets.mark_dead("telegram", "123456", "user deleted");
    let target = explicit("telegram", "123456");
    match router.plan_delivery("Hello, world!", &target) {
        DeliveryStep::Done(result) => {
            assert!(!result.success);
            assert!(!result.delivered);
            assert_eq!(result.skipped, Some("dead_target".to_string()));
            assert!(result.error.is_some());
        }
        other => panic!("expected a skip, got {:?}", other),
    }
}

#[test]
fn test_delivery_clears_dead_flag_on_success() {
    let mut router = DeliveryRouter::new();
    router.register_adapter("telegram");
    router.dead_targets.mark_dead("telegram", "123456", "previous failure");
    let target = explicit("telegram", "123456");
    assert!(matches!(router.plan_delivery("Hello, world!", &target), DeliveryStep::Done(_)));
    router.dead_targets.clear("telegram", "123456");
    assert!(matches!(router.plan_delivery("Hello, world!", &target), DeliveryStep::Send(_)));
    let result = router.complete_delivery(&target, Ok(()));
    assert!(result.success);
    assert!(result.delivered);
    assert!(!router.dead_targets.is_dead("telegram", "123456"));
}

#[test]
fn success_clears_a_dead_mark_set_meanwhile() {
    let mut router = DeliveryRouter::new();
    router.register_adapter("telegram");
    let target = explicit("telegram", "42");
    router.dead_targets.mark_dead("telegram", "42", "flaky");
    router.complete_delivery(&target, Ok(()));
    assert!(!router.dead_targets.is_dead("telegram", "42"));
}

#[test]
fn failed_send_reports_error_and_keeps_marks() {
    let mut router = DeliveryRouter::new();
    router.register_adapter("slack");
    let target = explicit("slack", "C1");
    let r = router.complete_delivery(&target, Err("boom".to_string()));
    assert!(!r.success);
    assert!(!r.delivered);
    assert_eq!(r.error.as_deref(), Some("boom"));
    assert!(!router.dead_targets.is_dead("slack", "C1"));
}

#[test]
fn origin_target_needs_context() {
    let router = DeliveryRouter::new();
    let ctx = PlatformSessionContext::new("discord", "u1");
    let target = DeliveryTarget::from_session_context(&ctx);
    assert!(target.is_origin);
    match router.plan_delivery("hi", &target) {
        DeliveryStep::Done(r) => assert_eq!(r.skipped.as_deref(), Some("origin_requires_context")),
        other => panic!("unexpected {:?}", other),
    }
}

#[test]
fn parse_trims_and_lowercases() {
    let t = DeliveryTarget::parse("  ORIGIN ");
    assert!(t.is_origin);
    let t = DeliveryTarget::parse(" Telegram ");
    assert_eq!(t.platform, "telegram");
    assert!(!t.is_explicit);
    let t = DeliveryTarget::parse("Slack:C1:T2:extra");
    assert_eq!(t.platform, "slack");
    assert_eq!(t.chat_id.as_deref(), Some("C1"));
    assert_eq!(t.thread_id.as_deref(), Some("T2"));
    let t = DeliveryTarget::parse("discord:");
    assert_eq!(t.chat_id.as_deref(), Some(""));
    assert_eq!(t.to_string(), "discord:");
}

#[test]
fn router_marks_and_clears_dead_targets() {
    let mut router = DeliveryRouter::new();
    router.register_adapter("telegram");
    let target = DeliveryTarget::parse("telegram:42");
    router.mark_dead("telegram", "42", "blocked");
    assert!(router.is_dead("telegram", "42"));
    assert!(matches!(router.plan_delivery("hi", &target), DeliveryStep::Done(_)));
    router.clear_dead("telegram", "42");
    assert!(!router.is_dead("telegram", "42"));
    assert!(matches!(router.plan_delivery("hi", &target), DeliveryStep::Send(_)));
}

#[test]
fn target_text_round_trip_examples() {
    for text in ["telegram:123", "slack:C1:T9", "discord", "origin"] {
        let t = DeliveryTarget::parse(text);
        assert_eq!(DeliveryTarget::parse(&t.to_string()), t);
        assert_eq!(t.to_string(), text);
    }
}

#[test]
fn non_ascii_target_round_trip() {
    let t = DeliveryTarget {
        platform: "télégram".to_string(),
        chat_id: Some("чат".to_string()),
        thread_id: Some("話題".to_string()),
        is_origin: false,
        is_explicit: true,
    };
    assert_eq!(t.to_string(), "télégram:чат:話題");
    assert_eq!(DeliveryTarget::parse(&t.to_string()), t);
    let home = DeliveryTarget::parse("ÉCOLE");
    assert_eq!(home.platform, "école");
    assert_eq!(DeliveryTarget::parse(&home.to_string()), home);
}

#[test]
fn text_with_colon_is_never_origin() {
    let t = DeliveryTarget::parse("ORIGIN:7");
    assert!(!t.is_origin);
    assert!(t.is_explicit);
    assert_eq!(t.platform, "origin");
    assert_eq!(t.chat_id, Some("7".to_string()));
}
