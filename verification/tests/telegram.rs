use oben_gateway::telegram::{
    chat_to_thread_key, escape_markdown_v2, extract_message_content, extract_username,
    is_allowed, split_message_utf16, Chat, Message, User,
};


// --- MarkdownV2 escaping ---

/// Given: A string with no special characters
/// When: escape_markdown_v2 is called
/// Then: Returns the original string unchanged
#[test]
fn test_escape_markdown_v2_no_special() {
    assert_eq!(escape_markdown_v2("Hello World"), "Hello World");
}

/// Given: A string with underscore
/// When: escape_markdown_v2 is called
/// Then: Returns the string with underscore escaped
#[test]
fn test_escape_markdown_v2_underscore() {
    assert_eq!(escape_markdown_v2("Hello_World"), "Hello\\_World");
}

/// Given: A string with multiple MarkdownV2 special characters
/// When: escape_markdown_v2 is called
/// Then: All special characters are escaped
#[test]
fn test_escape_markdown_v2_multiple() {
    let input = "[link](url)";
    let result = escape_markdown_v2(input);
    assert_eq!(result, "\\[link\\]\\(url\\)");
}

/// Given: A string with backslash
/// When: escape_markdown_v2 is called
/// Then: Backslash itself is escaped
#[test]
fn test_escape_markdown_v2_backslash() {
    assert_eq!(escape_markdown_v2(r"\test"), "\\\\test");
}

/// Given: An empty string
/// When: escape_markdown_v2 is called
/// Then: Returns empty string
#[test]
fn test_escape_markdown_v2_empty() {
    assert_eq!(escape_markdown_v2(""), "");
}

/// Given: A CJK string (no MarkdownV2 special chars in CJK range)
/// When: escape_markdown_v2 is called
/// Then: Returns the original string unchanged
#[test]
fn test_escape_markdown_v2_cjk() {
    assert_eq!(escape_markdown_v2("你好世界"), "你好世界");
}

/// Given: A mixed string with CJK and MarkdownV2 special chars
/// When: escape_markdown_v2 is called
/// Then: Only ASCII special chars are escaped, CJK passed through
#[test]
fn test_escape_markdown_v2_mixed() {
    assert_eq!(escape_markdown_v2("你好_World"), "你好\\_World");
}

// --- UTF-16 text splitting ---

/// Given: An empty string with any max_len
/// When: split_message_utf16 is called
/// Then: Returns an empty Vec
#[test]
fn test_split_utf16_empty() {
    assert!(split_message_utf16("", 100).is_empty());
}

/// Given: A string under the UTF-16 limit
/// When: split_message_utf16 is called
/// Then: Returns the original string as a single element
#[test]
fn test_split_utf16_under_limit() {
    let result = split_message_utf16("hello", 100);
    assert_eq!(result, vec!["hello"]);
}

/// Given: A string exactly at the limit
/// When: split_message_utf16 is called with the string's length as max_len
/// Then: Returns the original string as a single element
#[test]
fn test_split_utf16_exact_limit() {
    let s = "hello";
    let result = split_message_utf16(s, 5);
    assert_eq!(result, vec!["hello"]);
}

/// Given: An ASCII string exceeding the UTF-16 limit
/// When: split_message_utf16 is called with max_len = 10
/// Then: Returns segments each with <= 10 UTF-16 code units
#[test]
fn test_split_utf16_ascii() {
    let result = split_message_utf16("Hello, World! This is a test.", 10);
    for chunk in &result {
        assert!(chunk.encode_utf16().count() <= 10, "Chunk '{}' exceeds limit", chunk);
    }
}

/// Given: A string with emoji that encode as 2 UTF-16 code units each
/// When: split_message_utf16 is called with a tight limit
/// Then: Respects UTF-16 code unit boundaries, not char boundaries
#[test]
fn test_split_utf16_with_emoji() {
    let with_emoji = "Hi👋Hello, World!";
    let result = split_message_utf16(with_emoji, 5);
    for chunk in &result {
        let utf16_count = chunk.encode_utf16().count();
        assert!(utf16_count <= 5, "Chunk '{}' has {} UTF-16 units", chunk, utf16_count);
    }
}

/// Given: A CJK string
/// When: split_message_utf16 is called with max_len = 2
/// Then: Splits correctly (CJK chars are 1 UTF-16 unit each)
#[test]
fn test_split_utf16_cjk() {
    let cjk = "你好世界今天天气如何";
    let result = split_message_utf16(cjk, 2);
    assert_eq!(result[0], "你好");
    assert_eq!(result[1], "世界");
    for chunk in &result {
        assert!(chunk.encode_utf16().count() <= 2);
    }
}

/// Given: max_len = 0
/// When: split_message_utf16 is called
/// Then: Returns an empty Vec
#[test]
fn test_split_utf16_zero_limit() {
    assert!(split_message_utf16("test", 0).is_empty());
}

// --- Allowed users/chats filtering ---

/// Given: Empty allowed_users and allowed_chats lists
/// When: is_allowed is called
/// Then: Returns true for any user/chat
#[test]
fn test_filter_no_restrictions() {
    assert!(is_allowed("user1", "chat1", &[], &[]));
    assert!(is_allowed("user99", "chat99", &[], &[]));
}

/// Given: A list of allowed users that doesn't include the target
/// When: is_allowed is called with that user
/// Then: Returns false
#[test]
fn test_filter_blocked_user() {
    let allowed = vec!["user1".to_string(), "user2".to_string()];
    assert!(!is_allowed("user3", "chat1", &allowed, &[]));
}

/// Given: A list of allowed users that does include the target
/// When: is_allowed is called with that user
/// Then: Returns true
#[test]
fn test_filter_allowed_user() {
    let allowed = vec!["user1".to_string(), "user2".to_string()];
    assert!(is_allowed("user1", "chat1", &allowed, &[]));
}

/// Given: A list of allowed chats that doesn't include the target
/// When: is_allowed is called with that chat
/// Then: Returns false
#[test]
fn test_filter_blocked_chat() {
    let allowed = vec!["chat1".to_string(), "chat2".to_string()];
    assert!(!is_allowed("user1", "chat3", &[], &allowed));
}

/// Given: Both allowed_users and allowed_chats lists
/// When: is_allowed is called with a valid user and valid chat
/// Then: Returns true
#[test]
fn test_filter_both_allowed() {
    let users = vec!["user1".to_string()];
    let chats = vec!["chat1".to_string()];
    assert!(is_allowed("user1", "chat1", &users, &chats));
}

/// Given: Both allowed_users and allowed_chats lists
/// When: is_allowed is called with valid user but non-allowed chat
/// Then: Returns false
#[test]
fn test_filter_user_allowed_chat_blocked() {
    let users = vec!["user1".to_string()];
    let chats = vec!["chat2".to_string()];
    assert!(!is_allowed("user1", "chat1", &users, &chats));
}

// --- Message content extraction ---

/// Given: A message with text field
/// When: extract_message_content is called
/// Then: Returns the text
#[test]
fn test_extract_message_content_text() {
    let msg = Message {
        message_id: 1,
        from: None,
        chat: Chat { id: 123, chat_type: "private".into(), title: None },
        text: Some("Hello".into()),
        caption: None,
        reply_to_message: None,
        message_thread_id: None,
        is_forum: None,
        entity: None,
        photo: None,
        document: None,
        audio: None,
        voice: None,
        video_note: None,
    };
    assert_eq!(extract_message_content(&msg), Some("Hello".to_string()));
}

/// Given: A message with only caption, no text
/// When: extract_message_content is called
/// Then: Returns the caption
#[test]
fn test_extract_message_content_caption() {
    let msg = Message {
        message_id: 2,
        from: None,
        chat: Chat { id: 123, chat_type: "private".into(), title: None },
        text: None,
        caption: Some("Photo caption".into()),
        reply_to_message: None,
        message_thread_id: None,
        is_forum: None,
        entity: None,
        photo: None,
        document: None,
        audio: None,
        voice: None,
        video_note: None,
    };
    assert_eq!(extract_message_content(&msg), Some("Photo caption".to_string()));
}

/// Given: A message with both caption but text takes priority
/// When: extract_message_content is called
/// Then: Returns the text, not the caption
#[test]
fn test_extract_message_content_text_priority() {
    let msg = Message {
        message_id: 3,
        from: None,
        chat: Chat { id: 123, chat_type: "private".into(), title: None },
        text: Some("Message text".into()),
        caption: Some("Caption text".into()),
        reply_to_message: None,
        message_thread_id: None,
        is_forum: None,
        entity: None,
        photo: None,
        document: None,
        audio: None,
        voice: None,
        video_note: None,
    };
    assert_eq!(extract_message_content(&msg), Some("Message text".to_string()));
}

/// Given: A message with neither text nor caption
/// When: extract_message_content is called
/// Then: Returns None
#[test]
fn test_extract_message_content_none() {
    let msg = Message {
        message_id: 4,
        from: None,
        chat: Chat { id: 123, chat_type: "private".into(), title: None },
        text: None,
        caption: None,
        reply_to_message: None,
        message_thread_id: None,
        is_forum: None,
        entity: None,
        photo: None,
        document: None,
        audio: None,
        voice: None,
        video_note: None,
    };
    assert_eq!(extract_message_content(&msg), None);
}

/// Given: A message with empty text but a caption
/// When: extract_message_content is called
/// Then: Returns the caption (empty text is skipped)
#[test]
fn test_extract_empty_text_falls_to_caption() {
    let msg = Message {
        message_id: 5,
        from: None,
        chat: Chat { id: 123, chat_type: "private".into(), title: None },
        text: Some("   ".into()),
        caption: Some("Caption".into()),
        reply_to_message: None,
        message_thread_id: None,
        is_forum: None,
        entity: None,
        photo: None,
        document: None,
        audio: None,
        voice: None,
        video_note: None,
    };
    assert_eq!(extract_message_content(&msg), Some("Caption".to_string()));
}

// --- Username extraction ---

/// Given: A message with both username and first_name
/// When: extract_username is called
/// Then: Returns the username
#[test]
fn test_extract_username_with_username() {
    let msg = Message {
        message_id: 1,
        from: Some(User { id: 123, first_name: Some("Alice".into()), username: Some("alice_u".into()), is_bot: Some(false) }),
        chat: Chat { id: 123, chat_type: "private".into(), title: None },
        text: None, caption: None, reply_to_message: None,
        message_thread_id: None, is_forum: None, entity: None,
        photo: None, document: None, audio: None, voice: None, video_note: None,
    };
    assert_eq!(extract_username(&msg), Some("alice_u".into()));
}

/// Given: A message with only first_name
/// When: extract_username is called
/// Then: Returns the first_name
#[test]
fn test_extract_username_first_name_fallback() {
    let msg = Message {
        message_id: 1,
        from: Some(User { id: 123, first_name: Some("Bob".into()), username: None, is_bot: None }),
        chat: Chat { id: 123, chat_type: "private".into(), title: None },
        text: None, caption: None, reply_to_message: None,
        message_thread_id: None, is_forum: None, entity: None,
        photo: None, document: None, audio: None, voice: None, video_note: None,
    };
    assert_eq!(extract_username(&msg), Some("Bob".into()));
}

/// Given: A message with no from field
/// When: extract_username is called
/// Then: Returns None
#[test]
fn test_extract_username_no_from() {
    let msg = Message {
        message_id: 1,
        from: None,
        chat: Chat { id: 123, chat_type: "private".into(), title: None },
        text: None, caption: None, reply_to_message: None,
        message_thread_id: None, is_forum: None, entity: None,
        photo: None, document: None, audio: None, voice: None, video_note: None,
    };
    assert_eq!(extract_username(&msg), None);
}

// --- Chat threading key ---

/// Given: A private chat
/// When: chat_to_thread_key is called
/// Then: Returns "user/{id}" format
#[test]
fn test_chat_thread_key_private() {
    let chat = Chat { id: 987, chat_type: "private".into(), title: None };
    assert_eq!(chat_to_thread_key(&chat), "chat/987");
}

/// Given: A group chat
/// When: chat_to_thread_key is called
/// Then: Returns "chat/{id}" format
#[test]
fn test_chat_thread_key_group() {
    let chat = Chat { id: -1001234567890, chat_type: "group".into(), title: Some("My Group".into()) };
    assert_eq!(chat_to_thread_key(&chat), "chat/-1001234567890");
}

#[test]
fn escape_every_special_character() {
    assert_eq!(
        escape_markdown_v2("_*[]()~`>#+-=|{}.!\\"),
        "\\_\\*\\[\\]\\(\\)\\~\\`\\>\\#\\+\\-\\=\\|\\{\\}\\.\\!\\\\"
    );
}

#[test]
fn split_utf16_segments_rejoin() {
    let s = "Hi👋Hello, World!";
    let parts = split_message_utf16(s, 5);
    assert_eq!(parts, vec!["Hi👋H", "ello,", " Worl", "d!"]);
    assert_eq!(parts.concat(), s);
}

#[test]
fn split_utf16_wide_char_alone() {
    assert_eq!(split_message_utf16("👋a", 1), vec!["👋", "a"]);
}

#[test]
fn thread_key_formats() {
    let chat = Chat { id: 0, chat_type: "private".into(), title: None };
    assert_eq!(chat_to_thread_key(&chat), "chat/0");
    let chat = Chat { id: i64::MIN, chat_type: "group".into(), title: None };
    assert_eq!(chat_to_thread_key(&chat), "chat/-9223372036854775808");
}

#[test]
fn split_segments_are_greedy() {
    // "a" is one UTF-16 unit and each emoji two: with a limit of 3 the first
    // segment takes "a" and one emoji, and the next emoji would not fit.
    let parts = oben_gateway::telegram::split_message_utf16("a\u{1F600}\u{1F600}b", 3);
    assert_eq!(parts, vec!["a\u{1F600}".to_string(), "\u{1F600}b".to_string()]);
}
