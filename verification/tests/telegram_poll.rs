use oben_gateway::telegram::{Chat, Message, User};
use oben_gateway::telegram_poll::{parse_telegram_command, process_update, process_updates, PollSettings, Update, UpdateStep};

fn message(id: u64, from: Option<u64>, chat: i64, chat_type: &str, text: &str, topic: Option<u64>) -> Message {
    Message {
        message_id: id,
        from: from.map(|u| User { id: u, first_name: Some("Ann".into()), username: None, is_bot: Some(false) }),
        chat: Chat { id: chat, chat_type: chat_type.into(), title: None },
        text: Some(text.into()),
        caption: None,
        reply_to_message: None,
        message_thread_id: topic,
        is_forum: None,
        entity: None,
        photo: None,
        document: None,
        audio: None,
        voice: None,
        video_note: None,
    }
}

fn open_settings() -> PollSettings {
    PollSettings { allowed_users: vec![], allowed_chats: vec![], forum_topics: false }
}

#[test]
fn test_command_parsing() {
    assert_eq!(parse_telegram_command("/ask  what is up "), ("ask".to_string(), Some("what is up".to_string())));
    assert_eq!(parse_telegram_command("/ask@mybot what"), ("ask".to_string(), None));
    assert_eq!(parse_telegram_command("/start"), ("start".to_string(), None));
}

#[test]
fn test_plain_message_dispatched_with_thread() {
    let u = Update { update_id: 5, message: Some(message(1, Some(42), -100, "supergroup", "hello", Some(7))) };
    let (step, advances) = process_update(&open_settings(), true, &u);
    assert!(advances);
    match step {
        UpdateStep::Dispatch(m) => {
            assert_eq!(m.platform, "telegram");
            assert_eq!(m.user_id, "42");
            assert_eq!(m.username, Some("Ann".to_string()));
            assert_eq!(m.thread_id, Some("topic/7".to_string()));
            assert_eq!(m.content, "hello");
        }
        _ => panic!("expected a dispatch"),
    }
}

#[test]
fn test_forum_private_chat_uses_chat_key() {
    let settings = PollSettings { forum_topics: true, ..open_settings() };
    let u = Update { update_id: 5, message: Some(message(1, Some(42), 99, "private", "hi", Some(7))) };
    match process_update(&settings, true, &u).0 {
        UpdateStep::Dispatch(m) => assert_eq!(m.thread_id, Some("chat/99".to_string())),
        _ => panic!("expected a dispatch"),
    }
}

#[test]
fn test_commands_answered_or_dispatched() {
    let u = Update { update_id: 1, message: Some(message(1, Some(42), 99, "private", "/status", None)) };
    let (step, advances) = process_update(&open_settings(), false, &u);
    assert!(!advances);
    match step {
        UpdateStep::Reply { chat_id, reply, after } => {
            assert_eq!(chat_id, 99);
            assert!(reply.contains("Status: Offline"));
            assert_eq!(after.content, "");
            assert_eq!(after.thread_id, Some("chat/99".to_string()));
        }
        _ => panic!("expected a reply"),
    }
    let u = Update { update_id: 2, message: Some(message(2, Some(42), 99, "private", "/reset", None)) };
    match process_update(&open_settings(), true, &u).0 {
        UpdateStep::Dispatch(m) => assert_eq!(m.content, "\u{0}reset_session\u{0}"),
        _ => panic!("expected a dispatch"),
    }
    let u = Update { update_id: 3, message: Some(message(3, Some(42), 99, "private", "/ask tell me", None)) };
    match process_update(&open_settings(), true, &u).0 {
        UpdateStep::Dispatch(m) => assert_eq!(m.content, "tell me"),
        _ => panic!("expected a dispatch"),
    }
    let u = Update { update_id: 4, message: Some(message(4, Some(42), 99, "private", "/weather now", None)) };
    match process_update(&open_settings(), true, &u).0 {
        UpdateStep::Dispatch(m) => assert_eq!(m.content, "/weather now"),
        _ => panic!("expected a dispatch"),
    }
}

#[test]
fn test_filters_skip() {
    let mut bot_msg = message(1, Some(42), 99, "private", "hi", None);
    bot_msg.from.as_mut().unwrap().is_bot = Some(true);
    let (step, advances) = process_update(&open_settings(), true, &Update { update_id: 1, message: Some(bot_msg) });
    assert!(matches!(step, UpdateStep::Skip) && !advances);
    let restricted = PollSettings { allowed_users: vec!["7".into()], ..open_settings() };
    let u = Update { update_id: 1, message: Some(message(1, Some(42), 99, "private", "hi", None)) };
    assert!(matches!(process_update(&restricted, true, &u).0, UpdateStep::Skip));
    let (step, advances) = process_update(&open_settings(), true, &Update { update_id: 9, message: None });
    assert!(matches!(step, UpdateStep::Skip) && advances);
}

#[test]
fn test_offset_after_batch() {
    let updates = vec![
        Update { update_id: 10, message: Some(message(1, Some(42), 99, "private", "a", None)) },
        Update { update_id: 11, message: Some(message(2, Some(42), 99, "private", "/help", None)) },
    ];
    let (steps, offset) = process_updates(&open_settings(), true, -1, &updates);
    assert_eq!(steps.len(), 2);
    // The command does not move the offset: it stays after the first update.
    assert_eq!(offset, 11);
    let (_, offset) = process_updates(&open_settings(), true, 11, &[Update { update_id: 12, message: None }]);
    assert_eq!(offset, 13);
}
