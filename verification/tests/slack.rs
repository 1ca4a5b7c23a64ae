use oben_gateway::slack::{
    is_control_frame, outgoing_texts, thread_ts_of, AppMentionEvent, SlackAdapterConfig, SlackBlock, SlackState,
    SlackTextElement,
};

fn make_state() -> SlackState {
    let mut state = SlackState::new(SlackAdapterConfig {
        app_token: "xapp-test".into(),
        bot_token: "xoxb-test".into(),
        allowed_channels: vec![],
        slash_commands: vec![],
    });
    state.bot_user_id = Some("U123456".into());
    state
}

fn mention(text: Option<&str>, thread_ts: Option<&str>) -> AppMentionEvent {
    AppMentionEvent {
        user: Some("U789".into()),
        text: text.map(String::from),
        channel_id: Some("C001".into()),
        message_ts: Some("1234567890.000100".into()),
        thread_ts: thread_ts.map(String::from),
        blocks: None,
    }
}

#[test]
fn test_build_incoming_message_basic() {
    let state = make_state();
    let event = mention(Some("<@U123456> hello"), None);
    let incoming = state.build_incoming_msg(&event).unwrap();
    assert_eq!(incoming.platform, "slack");
    assert_eq!(incoming.user_id, "U789");
    assert_eq!(incoming.content, "hello");
}

#[test]
fn test_build_incoming_message_with_thread() {
    let state = make_state();
    let event = mention(Some("help"), Some("1234567890.000200"));
    let incoming = state.build_incoming_msg(&event).unwrap();
    assert_eq!(incoming.thread_id, Some("msg/1234567890.000200".into()));
}

#[test]
fn test_build_incoming_message_empty_content() {
    let state = make_state();
    let event = mention(Some("<@U123456>"), None);
    let result = state.build_incoming_msg(&event);
    assert!(result.is_err());
}

#[test]
fn test_build_incoming_message_strips_slash() {
    let state = make_state();
    let event = mention(Some("<@U123456> /ask help me"), None);
    let incoming = state.build_incoming_msg(&event).unwrap();
    assert_eq!(incoming.content, "ask help me");
}

#[test]
fn test_build_incoming_message_slash_no_args() {
    let state = make_state();
    let event = mention(Some("/reset"), None);
    let incoming = state.build_incoming_msg(&event).unwrap();
    assert_eq!(incoming.content, "reset");
}

#[test]
fn test_duplicate_event_detection() {
    let mut state = make_state();
    assert!(!state.is_duplicate_event("123"));
    assert!(state.is_duplicate_event("123"));
    assert!(!state.is_duplicate_event("456"));
}

#[test]
fn test_duplicate_event_empty_ts() {
    let mut state = make_state();
    assert!(!state.is_duplicate_event(""));
    assert!(!state.is_duplicate_event(""));
}

#[test]
fn test_duplicate_memory_is_cut_when_full() {
    let mut state = make_state();
    for i in 0..101 {
        assert!(!state.is_duplicate_event(&format!("ts-{}", i)));
    }
    // 101 remembered: the next look keeps the oldest 50 only.
    assert!(!state.is_duplicate_event("ts-80"));
    assert!(state.is_duplicate_event("ts-10"));
    assert_eq!(state.seen.len(), 51);
}

#[test]
fn test_channel_allowed() {
    let state = SlackState::new(SlackAdapterConfig {
        app_token: "xapp-test".into(),
        bot_token: "xoxb-test".into(),
        allowed_channels: vec!["C001".into(), "C002".into()],
        slash_commands: vec![],
    });
    assert!(state.is_channel_allowed("C001"));
    assert!(state.is_channel_allowed("C002"));
    assert!(!state.is_channel_allowed("C999"));
}

#[test]
fn test_channel_allowed_all() {
    let state = make_state();
    assert!(state.is_channel_allowed("C001"));
    assert!(state.is_channel_allowed("Cany"));
}

#[test]
fn test_build_incoming_message_from_blocks() {
    let state = make_state();
    let event = AppMentionEvent {
        user: Some("U789".into()),
        text: None,
        channel_id: Some("C001".into()),
        message_ts: Some("1234567890.000100".into()),
        thread_ts: None,
        blocks: Some(vec![SlackBlock {
            block_type: Some("rich_text".into()),
            text: Some(SlackTextElement { text: Some("hello from blocks".into()) }),
        }]),
    };
    let incoming = state.build_incoming_msg(&event).unwrap();
    assert_eq!(incoming.content, "hello from blocks");
}

#[test]
fn test_blocks_joined_with_spaces() {
    let state = make_state();
    let blocks = Some(vec![
        SlackBlock { block_type: None, text: Some(SlackTextElement { text: Some("a".into()) }) },
        SlackBlock { block_type: None, text: None },
        SlackBlock { block_type: None, text: Some(SlackTextElement { text: Some("b".into()) }) },
    ]);
    assert_eq!(state.extract_text_from_blocks(&blocks), "a b");
    assert_eq!(state.extract_text_from_blocks(&None), "");
}

#[test]
fn test_missing_user_is_an_error() {
    let state = make_state();
    let mut event = mention(Some("hi"), None);
    event.user = None;
    assert_eq!(state.build_incoming_msg(&event).err(), Some("event missing user".to_string()));
}

#[test]
fn test_strip_bot_mention_everywhere() {
    let state = make_state();
    assert_eq!(state.strip_bot_mention(" <@U123456> hi <@U123456>there "), "hi there");
    let plain = make_state_without_bot();
    assert_eq!(plain.strip_bot_mention(" <@U123456> hi "), "<@U123456> hi");
}

fn make_state_without_bot() -> SlackState {
    let mut s = make_state();
    s.bot_user_id = None;
    s
}

#[test]
fn test_handle_event_filters() {
    let mut state = SlackState::new(SlackAdapterConfig {
        app_token: "a".into(),
        bot_token: "b".into(),
        allowed_channels: vec!["C001".into()],
        slash_commands: vec![],
    });
    assert!(matches!(state.handle_event("message", Some(mention(Some("hi"), None))), Ok(None)));
    let m = state.handle_event("app_mention", Some(mention(Some("hi"), None))).unwrap().unwrap();
    assert_eq!(m.content, "hi");
    // Same timestamp again: dropped.
    assert!(matches!(state.handle_event("app_mention", Some(mention(Some("hi"), None))), Ok(None)));
    let mut other = mention(Some("hi"), None);
    other.message_ts = Some("2".into());
    other.channel_id = Some("C999".into());
    assert!(matches!(state.handle_event("app_mention", Some(other)), Ok(None)));
}

#[test]
fn handle_event_reports_missing_user_and_channel() {
    let mut state = make_state_without_bot();
    let mut no_user = mention(Some("hi"), None);
    no_user.user = None;
    no_user.message_ts = Some("10".into());
    assert_eq!(state.handle_event("app_mention", Some(no_user)).err(), Some("app_mention event missing user".to_string()));
    let mut no_channel = mention(Some("hi"), None);
    no_channel.channel_id = None;
    no_channel.message_ts = Some("11".into());
    assert_eq!(state.handle_event("app_mention", Some(no_channel)).err(), Some("app_mention missing channel".to_string()));
    let mut empty = mention(Some("   "), None);
    empty.channel_id = None;
    empty.message_ts = Some("12".into());
    assert!(matches!(state.handle_event("app_mention", Some(empty)), Ok(None)));
}

#[test]
fn test_check_tokens() {
    let state = SlackState::new(SlackAdapterConfig {
        app_token: "".into(),
        bot_token: "".into(),
        allowed_channels: vec![],
        slash_commands: vec![],
    });
    assert_eq!(state.check_tokens(), Err("Slack app_token not configured".to_string()));
    assert_eq!(make_state().check_tokens(), Ok(()));
}

#[test]
fn test_outgoing_texts_split_and_label() {
    assert_eq!(outgoing_texts(""), Err("Cannot send empty message".to_string()));
    assert_eq!(outgoing_texts("short").unwrap(), vec!["short".to_string()]);
    let long: String = std::iter::repeat('x').take(8001).collect();
    let posts = outgoing_texts(&long).unwrap();
    assert_eq!(posts.len(), 3);
    assert_eq!(posts[0].chars().count(), 4000);
    assert!(posts[1].starts_with("[2/3] "));
    assert_eq!(posts[2], "[3/3] x");
}

#[test]
fn test_thread_ts_of() {
    assert_eq!(thread_ts_of(&Some("msg/123.4".into())), Some("123.4".to_string()));
    assert_eq!(thread_ts_of(&Some("other".into())), None);
    assert_eq!(thread_ts_of(&None), None);
}

#[test]
fn test_control_frames() {
    assert!(is_control_frame("hello"));
    assert!(is_control_frame("ack"));
    assert!(!is_control_frame("events_api"));
}
