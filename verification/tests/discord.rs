use oben_gateway::discord::{split_message, DiscordIntent, MAX_MESSAGE_LENGTH};


// -- split_message tests --

#[test]
fn test_split_empty() {
    let chunks = split_message("");
    assert!(chunks.is_empty());
}

#[test]
fn test_split_short_message() {
    let chunks = split_message("hello world");
    assert_eq!(chunks, vec!["hello world"]);
}

#[test]
fn test_split_within_limit() {
    let msg = "a".repeat(MAX_MESSAGE_LENGTH / 2);
    let chunks = split_message(&msg);
    assert_eq!(chunks.len(), 1);
    assert!(chunks[0].len() <= MAX_MESSAGE_LENGTH);
}

#[test]
fn test_split_long_message() {
    let msg = "hello world ".repeat(300);
    let chunks = split_message(&msg);
    assert!(chunks.len() > 1);
    for chunk in &chunks {
        assert!(chunk.len() <= MAX_MESSAGE_LENGTH);
    }
}

#[test]
fn test_split_no_whitespace_hard_break() {
    // All chars are "abcde" — no whitespace, should hard-truncate
    let msg = "abcde".repeat(600);
    let chunks = split_message(&msg);
    assert!(chunks.len() > 1);
    for chunk in &chunks {
        assert!(chunk.len() <= MAX_MESSAGE_LENGTH);
    }
}

#[test]
fn test_split_exact_limit() {
    let msg = "a".repeat(MAX_MESSAGE_LENGTH);
    let chunks = split_message(&msg);
    assert_eq!(chunks.len(), 1);
}

#[test]
fn test_split_just_over_limit() {
    let msg = "a".repeat(MAX_MESSAGE_LENGTH + 10);
    let chunks = split_message(&msg);
    assert!(chunks.len() >= 1);
    for chunk in &chunks {
        assert!(chunk.len() <= MAX_MESSAGE_LENGTH);
    }
}

#[test]
fn test_split_preserves_word_boundaries() {
    let sentences = vec![
        "first sentence.",
        "second sentence.",
        "third sentence.",
    ];
    let long = sentences.repeat(50).join(" ");
    let chunks = split_message(&long);
    assert!(chunks.len() > 1);
    for chunk in &chunks {
        // Chunks shouldn't end mid-word (shouldn't end with a letter)
        if !chunk.is_empty() {
            let last_char = chunk.chars().last().unwrap();
            assert!(last_char.is_whitespace() || !last_char.is_alphanumeric(),
                "Chunk ends mid-word: {:?}", chunk);
        }
    }
}

#[test]
fn test_split_multibyte_utf8() {
    // Multi-byte chars: each Chinese char is 3 bytes in UTF-8
    // But we split by .chars() which counts characters, not bytes
    let msg = "你好世界".repeat(800); // 4 chars each = 3200 chars total
    let chunks = split_message(&msg);
    assert!(chunks.len() > 1);
    for chunk in &chunks {
        assert!(chunk.chars().count() <= MAX_MESSAGE_LENGTH);
        // Ensure no truncated multi-byte sequences
        assert!(chunk.chars().next_back().map_or(true, |c| !c.is_ascii()),
            "Potential truncation in Chinese text");
    }
}

#[test]
fn test_split_preserves_emojis() {
    // Emoji are multi-char sequences in Rust (surrogate pairs)
    let msg = "Hello 🦀 world ".repeat(200);
    let chunks = split_message(&msg);
    assert!(chunks.len() > 0);
    for chunk in &chunks {
        assert!(chunk.chars().count() <= MAX_MESSAGE_LENGTH);
        // Crabs should be preserved
        assert!(chunk.contains("🦀") || chunks.last() == Some(chunk));
    }
}

#[test]
fn test_split_single_chunk_no_wrap() {
    let msg = "short";
    let chunks = split_message(msg);
    assert_eq!(chunks, vec!["short"]);
}

// -- dedup tests --

#[test]
fn test_split_handles_whitespace_only() {
    let chunks = split_message("   ");
    assert!(chunks.is_empty() || chunks.iter().all(|c| c.is_empty()));
}

#[test]
fn test_split_handles_tabs_and_newlines() {
    let msg = "word1\tword2\nword3\tword4";
    let chunks = split_message(msg);
    assert!(chunks.len() >= 1);
    for chunk in &chunks {
        assert!(chunk.len() <= MAX_MESSAGE_LENGTH);
    }
}

#[test]
fn test_split_very_long_single_word() {
    let word = "x".repeat(5000);
    let chunks = split_message(&word);
    // Should produce chunks all under the limit
    assert!(chunks.iter().all(|c| c.len() <= MAX_MESSAGE_LENGTH));
}

#[test]
fn split_cuts_after_last_whitespace() {
    let msg = format!("{} {}", "a".repeat(1800), "b".repeat(300));
    let chunks = split_message(&msg);
    assert_eq!(chunks, vec!["a".repeat(1800), "b".repeat(300)]);
}

#[test]
fn split_hard_cut_at_threshold() {
    let msg = "x".repeat(4000);
    let chunks = split_message(&msg);
    assert_eq!(chunks.len(), 3);
    assert_eq!(chunks[0].len(), 1900);
    assert_eq!(chunks[1].len(), 1900);
    assert_eq!(chunks[2].len(), 200);
}

#[test]
fn short_message_keeps_surrounding_whitespace() {
    assert_eq!(split_message("  hi  "), vec!["  hi  "]);
}

#[test]
fn intent_bits() {
    assert_eq!(DiscordIntent::GuildMessages.to_intent_bits(), 1 << 9);
    assert_eq!(DiscordIntent::MessageContent.to_intent_bits(), 1 << 15);
    assert_eq!(DiscordIntent::default(), DiscordIntent::GuildMessages);
}

use oben_gateway::discord::{
    intents_bits, send_plan, DiscordCommand, DiscordMessage, DiscordState, DiscordUser,
    InteractionAction,
};
use oben_gateway::platform::OutgoingMessage;

fn user(id: &str, bot: bool) -> DiscordUser {
    DiscordUser { id: id.into(), bot: Some(bot), username: format!("name-{}", id), discriminator: None }
}

fn message(id: &str, guild: Option<&str>, content: &str, mentions: Vec<DiscordUser>) -> DiscordMessage {
    DiscordMessage {
        id: id.into(),
        author: Some(user("u1", false)),
        guild_id: guild.map(String::from),
        channel_id: "c1".into(),
        content: content.into(),
        mentions,
    }
}

#[test]
fn test_intents_bits_combined() {
    assert_eq!(intents_bits(&[DiscordIntent::GuildMessages, DiscordIntent::MessageContent]), 0x8200);
    assert_eq!(intents_bits(&[]), 0);
}

#[test]
fn test_process_message_guild_with_bot_mention() {
    let mut state = DiscordState::new(vec![], vec![]);
    let msg = message("m1", Some("g1"), "<@!42> hello <@42>", vec![user("42", true), user("7", false)]);
    let incoming = state.process_message(&msg).unwrap();
    assert_eq!(incoming.platform, "discord");
    assert_eq!(incoming.user_id, "u1");
    assert_eq!(incoming.content, "hello");
    assert_eq!(incoming.thread_id, Some("g1/c1".to_string()));
    assert_eq!(incoming.username, Some("name-u1".to_string()));
    // The same message id again is dropped.
    assert!(state.process_message(&msg).is_none());
}

#[test]
fn test_process_message_dm_and_filters() {
    let mut state = DiscordState::new(vec!["u1".into()], vec!["g9".into()]);
    let mut dm = message("m2", None, "hi", vec![]);
    if let Some(a) = dm.author.as_mut() {
        a.discriminator = Some("0001".into());
    }
    let incoming = state.process_message(&dm).unwrap();
    assert_eq!(incoming.thread_id, Some("dm/u1".to_string()));
    assert_eq!(incoming.username, Some("name-u1#0001".to_string()));
    // A guild that is not served.
    assert!(state.process_message(&message("m3", Some("g1"), "x", vec![])).is_none());
    // A bot's message.
    let mut from_bot = message("m4", Some("g9"), "x", vec![]);
    from_bot.author = Some(user("b", true));
    assert!(state.process_message(&from_bot).is_none());
}

fn command(name: &str, options: Vec<(String, Option<String>)>) -> Option<DiscordCommand> {
    Some(DiscordCommand {
        name: Some(name.into()),
        user_id: Some("u1".into()),
        channel_id: Some("c1".into()),
        guild_id: Some("g1".into()),
        options,
    })
}

#[test]
fn test_process_interaction_commands() {
    let state = DiscordState::new(vec![], vec![]);
    match state.process_interaction(&command("ask", vec![]), true) {
        InteractionAction::Reply { channel_id, text } => {
            assert_eq!(channel_id, "c1");
            assert!(text.starts_with("Usage: /ask <text>"));
        }
        _ => panic!("expected the usage reply"),
    }
    match state.process_interaction(&command("ask", vec![("text".into(), Some("do it".into()))]), true) {
        InteractionAction::Ask { message, channel_id, ack } => {
            assert_eq!(message.content, "do it");
            assert_eq!(message.thread_id, Some("g1/c1".to_string()));
            assert_eq!(channel_id, "c1");
            assert_eq!(ack, "Got it, processing your request...");
        }
        _ => panic!("expected an ask"),
    }
    match state.process_interaction(&command("status", vec![]), false) {
        InteractionAction::Reply { text, .. } => assert_eq!(text, "Offline"),
        _ => panic!("expected a status reply"),
    }
    assert!(matches!(state.process_interaction(&command("stop", vec![]), true), InteractionAction::Stop { .. }));
    assert!(matches!(state.process_interaction(&command("dance", vec![]), true), InteractionAction::Ignore));
    assert!(matches!(state.process_interaction(&None, true), InteractionAction::Ignore));
    let restricted = DiscordState::new(vec!["other".into()], vec![]);
    assert!(matches!(restricted.process_interaction(&command("reset", vec![]), true), InteractionAction::Ignore));
}

#[test]
fn test_send_plan_targets() {
    let msg = OutgoingMessage {
        platform: "discord".into(),
        user_id: "u1".into(),
        thread_id: Some("t1".into()),
        content: "hello".into(),
    };
    let (channel, pieces) = send_plan(&msg).unwrap();
    assert_eq!(channel, "t1");
    assert_eq!(pieces, vec!["hello".to_string()]);
    let empty = OutgoingMessage { content: "".into(), ..msg };
    assert_eq!(send_plan(&empty).err(), Some("Cannot send empty message".to_string()));
}
