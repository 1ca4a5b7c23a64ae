use oben_gateway::platform::OutgoingMessage;
use oben_gateway::telegram_poll::{api_url, message_thread_id, reply_chunks, send_target};
use oben_gateway::text::parse_i64;

#[test]
fn test_api_url() {
    assert_eq!(api_url("123:abc", "sendMessage"), "https://api.telegram.org/bot123:abc/sendMessage");
}

#[test]
fn test_message_thread_id_forms() {
    assert_eq!(message_thread_id(""), None);
    assert_eq!(message_thread_id("global"), None);
    assert_eq!(message_thread_id("topic/42"), Some(42));
    assert_eq!(message_thread_id("topic/x"), None);
    assert_eq!(message_thread_id("17"), Some(17));
    assert_eq!(message_thread_id("-100123"), None);
}

#[test]
fn test_reply_chunks_escape_and_split() {
    assert!(reply_chunks("").is_empty());
    assert_eq!(reply_chunks("Hi. (ok)"), vec!["Hi\\. \\(ok\\)".to_string()]);
    let long = "a".repeat(4096 + 10);
    let chunks = reply_chunks(&long);
    assert_eq!(chunks.len(), 2);
    assert_eq!(chunks[0].len(), 4096);
    assert_eq!(chunks[1].len(), 10);
}

fn outgoing(user_id: &str, thread: Option<&str>, content: &str) -> OutgoingMessage {
    OutgoingMessage {
        platform: "telegram".to_string(),
        user_id: user_id.to_string(),
        thread_id: thread.map(|t| t.to_string()),
        content: content.to_string(),
    }
}

#[test]
fn test_send_target() {
    assert_eq!(send_target(&outgoing("-1001", Some("topic/5"), "hi")), Ok((-1001, "topic/5".to_string())));
    assert_eq!(send_target(&outgoing("42", None, "hi")), Ok((42, String::new())));
    assert_eq!(send_target(&outgoing("42", None, "")), Err("Cannot send empty message".to_string()));
    assert_eq!(send_target(&outgoing("abc", None, "hi")), Err("Invalid Telegram chat_id: abc".to_string()));
}

#[test]
fn test_parse_i64_matches_std() {
    for s in ["0", "-0", "+7", "-7", "9223372036854775807", "-9223372036854775808", "9223372036854775808",
              "-9223372036854775809", "", "-", "+", "+-1", "-+1", "1a", " 1"] {
        assert_eq!(parse_i64(s), s.parse::<i64>().ok(), "input {s:?}");
    }
}
