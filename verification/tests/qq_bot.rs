use oben_gateway::platform::OutgoingMessage;
use oben_gateway::qq_bot::{
    auth_value, base_url, clean_content, event_to_incoming, gateway_path, gateway_still_good, heartbeat_interval,
    is_awaited_dispatch, on_frame, send_endpoint, token_still_good, websocket_url, FrameAction, QqEventFields,
};
use oben_gateway::qq_protocol::{EventType, OpCode};

fn fields() -> QqEventFields {
    QqEventFields {
        author_id: None,
        author_username: None,
        content: None,
        openid: None,
        group_openid: None,
        guild_id: None,
        channel_id: None,
    }
}

#[test]
fn test_c2c_event_to_incoming() {
    let data = QqEventFields {
        author_id: Some("user-123".into()),
        author_username: Some("Alice".into()),
        content: Some("Hello bot!".into()),
        openid: Some("c2c-openid-abc".into()),
        ..fields()
    };
    let msg = event_to_incoming(&EventType::C2cMessageCreate, &data).unwrap();
    assert_eq!(msg.platform, "qq_bot");
    assert_eq!(msg.user_id, "c2c-openid-abc");
    assert_eq!(msg.username, Some("Alice".into()));
    assert_eq!(msg.content, "Hello bot!");
}

#[test]
fn test_group_at_event_to_incoming() {
    let data = QqEventFields {
        author_id: Some("u1".into()),
        author_username: Some("Bob".into()),
        content: Some("@Hi there".into()),
        group_openid: Some("group-xyz".into()),
        ..fields()
    };
    let msg = event_to_incoming(&EventType::GroupAtMessageCreate, &data).unwrap();
    assert_eq!(msg.user_id, "group-xyz");
    assert_eq!(msg.content, "@Hi there");
}

#[test]
fn test_at_message_event_to_incoming() {
    let data = QqEventFields {
        author_id: Some("u2".into()),
        content: Some("@Bot guild-msg".into()),
        guild_id: Some("g1".into()),
        channel_id: Some("c1".into()),
        ..fields()
    };
    let msg = event_to_incoming(&EventType::AtMessageCreate, &data).unwrap();
    assert_eq!(msg.thread_id, Some("g1/c1".into()));
    assert_eq!(msg.user_id, "u2");
}

#[test]
fn test_content_cleaned_of_control_chars() {
    let data = QqEventFields {
        author_id: Some("u3".into()),
        content: Some("Hello\x00World\u{2}!".into()),
        ..fields()
    };
    let msg = event_to_incoming(&EventType::C2cMessageCreate, &data).unwrap();
    assert!(!msg.content.contains('\0'));
    assert_eq!(msg.content, "HelloWorld!");
}

#[test]
fn test_empty_content_defaults() {
    let msg = event_to_incoming(&EventType::C2cMessageCreate, &fields()).unwrap();
    assert_eq!(msg.user_id, "unknown");
    assert_eq!(msg.content, "");
}

#[test]
fn test_direct_message_thread() {
    let data = QqEventFields { author_id: Some("u4".into()), guild_id: Some("g7".into()), ..fields() };
    let msg = event_to_incoming(&EventType::DirectMessageCreate, &data).unwrap();
    assert_eq!(msg.thread_id, Some("dm/g7".into()));
}

#[test]
fn test_clean_content_trims() {
    assert_eq!(clean_content("  a\u{7f}b\u{9f}  "), "ab");
}

#[test]
fn test_on_frame_actions() {
    let mut seq: i64 = 0;
    assert_eq!(
        on_frame(&mut seq, OpCode::Dispatch, Some(5), Some("C2C_MESSAGE_CREATE")),
        FrameAction::Dispatch(EventType::C2cMessageCreate)
    );
    assert_eq!(seq, 5);
    assert_eq!(on_frame(&mut seq, OpCode::Dispatch, None, Some("GUILD_CREATE")), FrameAction::Continue);
    assert_eq!(seq, 5);
    assert_eq!(on_frame(&mut seq, OpCode::Reconnect, Some(9), None), FrameAction::Reconnect);
    assert_eq!(seq, 5);
    assert_eq!(on_frame(&mut seq, OpCode::InvalidSession, None, None), FrameAction::InvalidSession);
    assert_eq!(on_frame(&mut seq, OpCode::HeartbeatAck, None, None), FrameAction::Continue);
}

#[test]
fn test_awaited_dispatch() {
    assert!(is_awaited_dispatch(OpCode::Dispatch, Some("READY"), "READY"));
    assert!(!is_awaited_dispatch(OpCode::Hello, Some("READY"), "READY"));
    assert!(!is_awaited_dispatch(OpCode::Dispatch, None, "READY"));
}

#[test]
fn test_send_endpoints() {
    let base = base_url(false);
    assert_eq!(base, "https://api.sgroup.qq.com");
    let mut msg = OutgoingMessage {
        platform: "qq_bot".into(),
        user_id: "u1".into(),
        thread_id: Some("group/g42".into()),
        content: "hi".into(),
    };
    assert_eq!(send_endpoint(&base, &msg).unwrap(), "https://api.sgroup.qq.com/v2/groups/g42/messages");
    msg.thread_id = None;
    assert_eq!(send_endpoint(&base, &msg).unwrap(), "https://api.sgroup.qq.com/v2/users/u1/messages");
    msg.thread_id = Some("g1/c1".into());
    assert_eq!(send_endpoint(&base, &msg).unwrap(), "https://api.sgroup.qq.com/channels/g1/c1/messages");
    msg.content = String::new();
    assert_eq!(send_endpoint(&base, &msg).err(), Some("Cannot send empty message".to_string()));
}

#[test]
fn test_cache_windows_and_addresses() {
    assert!(token_still_good(7139));
    assert!(!token_still_good(7140));
    assert!(gateway_still_good(86399));
    assert!(!gateway_still_good(86400));
    assert_eq!(gateway_path(true), "/gateway/bot");
    assert_eq!(gateway_path(false), "/gateway");
    assert_eq!(websocket_url("wss://x"), "wss://x/websocket");
    assert_eq!(auth_value("tok"), "QQBot tok");
    assert_eq!(heartbeat_interval(None), 45000);
    assert_eq!(heartbeat_interval(Some(41250)), 41250);
    assert_eq!(base_url(true), "https://sandbox.api.sgroup.qq.com");
}
