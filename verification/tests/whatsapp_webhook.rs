use oben_gateway::whatsapp_webhook::{
    http_response, parse_request_head, route_request, webhook_message, MessageDeduplicator, WebhookRoute,
};

#[test]
fn test_deduplicator_first_insert() {
    let mut dedup = MessageDeduplicator::new();
    assert!(dedup.try_insert("msg-001"));
}

#[test]
fn test_deduplicator_duplicate_rejected() {
    let mut dedup = MessageDeduplicator::new();
    assert!(dedup.try_insert("msg-001"));
    assert!(!dedup.try_insert("msg-001"));
}

#[test]
fn test_deduplicator_different_ids() {
    let mut dedup = MessageDeduplicator::new();
    assert!(dedup.try_insert("msg-001"));
    assert!(dedup.try_insert("msg-002"));
    assert!(dedup.try_insert("msg-003"));
}

#[test]
fn test_deduplicator_forgets_smallest_when_full() {
    let mut dedup = MessageDeduplicator::new();
    for i in 0..1000 {
        assert!(dedup.try_insert(&format!("id-{:04}", i)));
    }
    assert!(dedup.try_insert("id-9999"));
    assert_eq!(dedup.seen.len(), 1000);
    // "id-0000" was the smallest and is forgotten.
    assert!(dedup.try_insert("id-0000"));
    assert!(!dedup.try_insert("id-0500"));
}

#[test]
fn test_parse_request_head_and_route() {
    let text = "POST /webhook/whatsapp?x=1 HTTP/1.1\r\nHost: a\r\ncontent-LENGTH : 42\r\n\r\n";
    let head = parse_request_head(text).unwrap();
    assert_eq!(head.method, "POST");
    assert_eq!(head.path, "/webhook/whatsapp");
    assert_eq!(head.query, "x=1");
    assert_eq!(head.content_length, 42);
    assert_eq!(route_request(&head), WebhookRoute::Deliver);

    let get = parse_request_head("GET /webhook/whatsapp?hub.mode=subscribe HTTP/1.1\r\n\r\n").unwrap();
    assert_eq!(get.content_length, 0);
    assert_eq!(route_request(&get), WebhookRoute::Verify("hub.mode=subscribe".to_string()));

    let other = parse_request_head("GET /health HTTP/1.1\r\n\r\n").unwrap();
    assert_eq!(route_request(&other), WebhookRoute::NotFound);

    assert!(parse_request_head("GARBAGE\r\n\r\n").is_none());
}

#[test]
fn test_content_length_last_header_wins_and_bad_values() {
    let h = parse_request_head("POST / HTTP/1.1\r\nContent-Length: 5\r\nContent-Length: 7\r\n\r\n").unwrap();
    assert_eq!(h.content_length, 7);
    let h = parse_request_head("POST / HTTP/1.1\r\nContent-Length: abc\r\n\r\n").unwrap();
    assert_eq!(h.content_length, 0);
}

#[test]
fn test_http_response_counts_bytes() {
    assert_eq!(
        http_response("200 OK", "text/plain", "OK"),
        "HTTP/1.1 200 OK\r\nContent-Type: text/plain\r\nContent-Length: 2\r\nConnection: close\r\n\r\nOK"
    );
    assert!(http_response("200 OK", "text/plain", "é").contains("Content-Length: 2\r\n"));
}

#[test]
fn test_webhook_message_decisions() {
    let mut dedup = MessageDeduplicator::new();
    let contents = vec!["".to_string(), "hello".to_string(), "more".to_string()];
    let m = webhook_message(&mut dedup, &[], "628123", Some("Ann".into()), "m1", &contents).unwrap();
    assert_eq!(m.platform, "whatsapp");
    assert_eq!(m.user_id, "628123");
    assert_eq!(m.content, "hello");
    assert_eq!(m.username, Some("Ann".to_string()));
    // Same id again: dropped.
    assert!(webhook_message(&mut dedup, &[], "628123", None, "m1", &contents).is_none());
    // Not an allowed number: dropped, but the id is remembered.
    assert!(webhook_message(&mut dedup, &["999".to_string()], "628123", None, "m2", &contents).is_none());
    assert!(!dedup.try_insert("m2"));
    // Allowed when the number holds an allowed part.
    assert!(webhook_message(&mut dedup, &["8123".to_string()], "628123", None, "m3", &contents).is_some());
    // No non-empty content: nothing remembered.
    assert!(webhook_message(&mut dedup, &[], "1", None, "m4", &["".to_string()]).is_none());
    assert!(dedup.try_insert("m4"));
}
