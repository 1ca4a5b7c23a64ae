use oben_gateway::whatsapp::{
    extract_message_content, normalize_phone_number, parse_url_encoded, trancate_content,
    url_decode, verify_challenge_response, WaMessageFields, WhatsAppConfig,
};


#[test]
fn test_content_truncate_ascii() {
    let result = trancate_content("Hello, world! This is a very long message that should be truncated", 20);
    assert_eq!(result, "Hello, world! This i");
}

#[test]
fn test_normalize_phone_with_plus() {
    let result = normalize_phone_number("+1234567890");
    assert_eq!(result, "1234567890");
}

#[test]
fn test_normalize_phone_without_plus() {
    let result = normalize_phone_number("1234567890");
    assert_eq!(result, "1234567890");
}

#[test]
fn test_normalize_phone_with_spaces() {
    let result = normalize_phone_number(" +1 234 567 890 ");
    assert_eq!(result, "1234567890");
}

#[test]
fn test_whatsapp_config_default_fields() {
    let config = WhatsAppConfig {
        access_token: "test-token".into(),
        phone_number_id: "12345".into(),
        business_account_id: "67890".into(),
        webhook_verify_token: "my-secret".into(),
        api_version: "v17.0".into(),
        allowed_numbers: vec![],
        default_language: "en_US".into(),
    };
    assert_eq!(config.access_token, "test-token");
    assert_eq!(config.api_version, "v17.0");
    assert_eq!(config.default_language, "en_US");
}

#[test]
fn test_url_decode_basic() {
    assert_eq!(url_decode("hello"), "hello");
    assert_eq!(url_decode("hello+world"), "hello world");
    assert_eq!(url_decode("hello%20world"), "hello world");
    assert_eq!(url_decode("%E4%B8%AD%E6%96%87"), "%E4%B8%AD%E6%96%87"); // invalid hex, returned as-is
}

#[test]
fn test_parse_url_encoded_empty() {
    let params = parse_url_encoded("");
    assert!(params.is_empty());
}

#[test]
fn test_parse_url_encoded_single_pair() {
    let params = parse_url_encoded("hub.mode=subscribe&hub.verify_token=test&hub.challenge=12345");
    assert_eq!(params.get("hub.mode"), Some(&"subscribe".to_string()));
    assert_eq!(params.get("hub.verify_token"), Some(&"test".to_string()));
    assert_eq!(params.get("hub.challenge"), Some(&"12345".to_string()));
}

#[test]
fn test_parse_url_encoded_multiple_pairs() {
    let params = parse_url_encoded("a=1&b=2&c=3");
    assert_eq!(params.len(), 3);
    assert_eq!(params.get("a"), Some(&"1".to_string()));
    assert_eq!(params.get("c"), Some(&"3".to_string()));
}


#[test]
fn url_decode_plus_sign_escape_and_truncated_escape() {
    assert_eq!(url_decode("%+4"), "\u{4}");
    assert_eq!(url_decode("ab%4"), "ab%4");
    assert_eq!(url_decode("%41%62"), "Ab");
    assert_eq!(url_decode("%zz"), "%zz");
}

#[test]
fn challenge_answers() {
    let ok = verify_challenge_response("secret", "hub.mode=subscribe&hub.verify_token=secret&hub.challenge=42");
    assert_eq!(ok, ("200 OK".to_string(), "42".to_string()));
    let wrong = verify_challenge_response("secret", "hub.mode=subscribe&hub.verify_token=nope");
    assert_eq!(wrong, ("403 Forbidden".to_string(), "Wrong verify token".to_string()));
    let bad = verify_challenge_response("secret", "hub.mode=unsubscribe");
    assert_eq!(bad, ("400 Bad Request".to_string(), "Forbidden".to_string()));
    let no_challenge = verify_challenge_response("s", "hub.mode=subscribe&hub.verify_token=s");
    assert_eq!(no_challenge.1, "");
}

#[test]
fn later_query_key_wins() {
    let params = parse_url_encoded("a=1&a=2&b");
    assert_eq!(params.get("a"), Some(&"2".to_string()));
    assert_eq!(params.get("b"), Some(&"".to_string()));
    assert_eq!(params.len(), 2);
}

#[test]
fn short_phone_number_kept_raw() {
    assert_eq!(normalize_phone_number("+12 34"), "+12 34");
}

#[test]
fn message_fields_extraction() {
    let msg = WaMessageFields {
        text_body: None,
        image_caption: None,
        image_id: None,
        document_caption: Some("report".to_string()),
        document_id: Some("doc-1".to_string()),
        audio_id: None,
        video_id: None,
    };
    let mut attachments = vec![];
    let contents = extract_message_content("document", &msg, &mut attachments);
    assert_eq!(contents, vec!["report"]);
    assert_eq!(attachments, vec![("document".to_string(), "doc-1".to_string())]);
    let mut attachments = vec![];
    let contents = extract_message_content("image", &msg, &mut attachments);
    assert!(contents.is_empty());
    assert_eq!(attachments, vec![("image".to_string(), "<unknown>".to_string())]);
}


fn send_config() -> oben_gateway::whatsapp::WhatsAppConfig {
    oben_gateway::whatsapp::WhatsAppConfig {
        access_token: "tok".to_string(),
        phone_number_id: "555".to_string(),
        business_account_id: "b".to_string(),
        webhook_verify_token: "v".to_string(),
        api_version: "v18.0".to_string(),
        allowed_numbers: vec![],
        default_language: "en".to_string(),
    }
}

#[test]
fn test_send_plan_refuses_empty() {
    let r = oben_gateway::whatsapp::send_plan(&send_config(), "+1 (555) 010", "");
    assert_eq!(r.unwrap_err(), "Cannot send empty message");
}

#[test]
fn test_send_plan_fields() {
    let long = "x".repeat(5000);
    let p = oben_gateway::whatsapp::send_plan(&send_config(), "+1 (555) 010", &long).unwrap();
    assert_eq!(p.endpoint, "https://graph.facebook.com/v18.0/555");
    assert_eq!(p.authorization, "Bearer tok");
    assert_eq!(p.to, oben_gateway::whatsapp::normalize_phone_number("+1 (555) 010"));
    assert_eq!(p.body.len(), 4096);
}

fn fields() -> WaMessageFields {
    WaMessageFields {
        text_body: None,
        image_caption: None,
        image_id: None,
        document_caption: None,
        document_id: None,
        audio_id: None,
        video_id: None,
    }
}

#[test]
fn test_parse_text_message() {
    let msg = WaMessageFields { text_body: Some("Hello bot".to_string()), ..fields() };

    let mut attachments = vec![];
    let contents = extract_message_content("text", &msg, &mut attachments);
    assert_eq!(contents, vec!["Hello bot"]);
    assert!(attachments.is_empty());
}

#[test]
fn test_image_message_extract_caption_and_attachment() {
    let msg = WaMessageFields {
        image_id: Some("media-id-123".to_string()),
        image_caption: Some("Look at this".to_string()),
        ..fields()
    };

    let mut attachments = vec![];
    let contents = extract_message_content("image", &msg, &mut attachments);
    assert_eq!(contents, vec!["Look at this"]);
    assert_eq!(attachments.len(), 1);
}

#[test]
fn test_document_message_without_caption() {
    let msg = WaMessageFields { document_id: Some("media-id-456".to_string()), ..fields() };

    let mut attachments = vec![];
    let contents = extract_message_content("document", &msg, &mut attachments);
    assert!(contents.is_empty());
    assert_eq!(attachments.len(), 1);
    assert_eq!(attachments[0].0, "document");
}

#[test]
fn test_audio_message_has_no_content() {
    let msg = WaMessageFields { audio_id: Some("media-id-audio".to_string()), ..fields() };

    let mut attachments = vec![];
    let contents = extract_message_content("audio", &msg, &mut attachments);
    assert!(contents.is_empty());
    assert_eq!(attachments.len(), 1);
    assert_eq!(attachments[0].0, "audio");
}

#[test]
fn test_empty_text_body_produces_no_content() {
    let msg = WaMessageFields { text_body: Some(String::new()), ..fields() };

    let mut attachments = vec![];
    let contents = extract_message_content("text", &msg, &mut attachments);
    assert!(contents.is_empty());
}

#[test]
fn truncation_counts_characters_not_bytes() {
    let result = trancate_content("こんにちは世界", 3);
    assert_eq!(result, "こんに");
    assert_eq!(result.chars().count(), 3);
    assert_eq!(trancate_content("こんにちは世界", 5), "こんにちは");
}
