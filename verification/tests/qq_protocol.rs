use oben_gateway::qq_protocol::{CloseCode, EventType, Intents, OpCode, Properties};

#[test]
fn test_intent_bitflags_or() {
    let intents = Intents::new().with_guilds().with_group_and_c2c().with_direct_message();
    assert_eq!(intents.to_u64(), Intents::GUILDS | Intents::GROUP_AND_C2C | Intents::DIRECT_MESSAGE);
}

#[test]
fn test_event_type_parse() {
    assert_eq!(EventType::from_str("READY"), Some(EventType::Ready));
    assert_eq!(EventType::from_str("C2C_MESSAGE_CREATE"), Some(EventType::C2cMessageCreate));
    assert_eq!(EventType::from_str("GROUP_AT_MESSAGE_CREATE"), Some(EventType::GroupAtMessageCreate));
    assert_eq!(EventType::from_str("UNKNOWN_EVENT"), None);
}

#[test]
fn test_event_type_message_detection() {
    assert!(EventType::C2cMessageCreate.is_message_event());
    assert!(EventType::GroupAtMessageCreate.is_message_event());
    assert!(EventType::AtMessageCreate.is_message_event());
    assert!(!EventType::GuildCreate.is_message_event());
    assert!(!EventType::FriendAdd.is_message_event());
}

#[test]
fn test_close_code_classification() {
    assert!(CloseCode::from_code(4006).requires_reidentify());
    assert!(CloseCode::from_code(4004).requires_reidentify());
    assert!(CloseCode::from_code(4009).should_resume());
    assert!(CloseCode::from_code(4008).should_resume());
    assert!(CloseCode::from_code(4914).is_fatal());
    assert!(CloseCode::from_code(4915).is_fatal());
    assert!(!CloseCode::from_code(4006).is_fatal());
}

#[test]
fn intent_bit_values() {
    assert_eq!(Intents::new().with_guilds().with_group_and_c2c().to_u64(), 33554433);
    assert_eq!(Intents::AUDIO_ACTION, 1 << 30);
    assert_eq!(Intents::GUILD_MESSAGES, 1 << 9);
}

#[test]
fn opcode_numbers() {
    assert_eq!(OpCode::Hello.code(), 10);
    assert_eq!(OpCode::from_code(0), Some(OpCode::Dispatch));
    assert_eq!(OpCode::from_code(3), None);
    assert_eq!(CloseCode::from_code(1000), CloseCode::Unknown(1000));
    assert_eq!(Properties::default().os, "linux");
}
