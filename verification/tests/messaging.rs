use oben_gateway::messaging::Channel;

#[test]
fn test_channel_creation() {
    let channel = Channel::new();
    assert_eq!(channel.subscribers.len(), 0);
    assert_eq!(channel.topics().len(), 0);

    let default_channel = Channel::default();
    assert_eq!(default_channel.subscribers.len(), 0);
}

#[test]
fn test_subscribe_initial_state() {
    let mut channel = Channel::new();
    let _receiver = channel.subscribe("test-topic");

    assert_eq!(channel.topics().len(), 1);
    assert!(channel.topics().contains(&"test-topic".to_string()));
}

#[test]
fn test_publish_to_single_subscriber() {
    let mut channel = Channel::new();
    let mut receiver = channel.subscribe("chat-topic");

    channel.publish("chat-topic", "hello".to_string());

    assert_eq!(receiver.try_recv().ok(), Some("hello".to_string()));
}

#[test]
fn test_publish_to_multiple_subscribers() {
    let mut channel = Channel::new();
    let mut receiver1 = channel.subscribe("broadcast-topic");
    let mut receiver2 = channel.subscribe("broadcast-topic");

    channel.publish("broadcast-topic", "message".to_string());

    assert_eq!(receiver1.try_recv().ok(), Some("message".to_string()));
    assert_eq!(receiver2.try_recv().ok(), Some("message".to_string()));
}

#[test]
fn test_broadcast_all_subscribers() {
    let mut channel = Channel::new();
    let mut receiver1 = channel.subscribe("topic-a");
    let mut receiver2 = channel.subscribe("topic-b");

    channel.broadcast("global-msg".to_string());

    assert_eq!(receiver1.try_recv().ok(), Some("global-msg".to_string()));
    assert_eq!(receiver2.try_recv().ok(), Some("global-msg".to_string()));
}

#[test]
fn test_publish_to_nonexistent_topic() {
    let mut channel = Channel::new();

    channel.publish("nonexistent", "test".to_string());

    assert_eq!(channel.topics().len(), 0);
}

#[test]
fn test_subscriber_count() {
    let mut channel = Channel::new();

    let _a1 = channel.subscribe("topic-a");
    let _a2 = channel.subscribe("topic-a");

    let _b = channel.subscribe("topic-b");

    assert_eq!(channel.subscriber_count("topic-a"), 2);
    assert_eq!(channel.subscriber_count("topic-b"), 1);
    assert_eq!(channel.subscriber_count("nonexistent"), 0);
}

#[test]
fn test_topics_list() {
    let mut channel = Channel::new();
    let _r = channel.subscribe("active");

    assert_eq!(channel.topics().len(), 1);
    assert!(channel.topics().contains(&"active".to_string()));
}

#[test]
fn publish_reaches_only_its_topic_once() {
    let mut channel = Channel::new();
    let mut news = channel.subscribe("news");
    let mut other = channel.subscribe("other");
    channel.publish("news", "n".to_string());
    assert_eq!(news.try_recv().ok(), Some("n".to_string()));
    assert!(news.try_recv().is_err());
    assert!(other.try_recv().is_err());
    channel.broadcast("b".to_string());
    assert_eq!(news.try_recv().ok(), Some("b".to_string()));
    assert_eq!(other.try_recv().ok(), Some("b".to_string()));
    assert!(news.try_recv().is_err());
    assert!(other.try_recv().is_err());
}

#[test]
fn a_full_queue_drops_further_messages() {
    let mut channel = Channel::new();
    let mut r = channel.subscribe("t");
    for i in 0..40 {
        channel.publish("t", format!("m{i}"));
    }
    let mut got = 0;
    while r.try_recv().is_ok() {
        got += 1;
    }
    assert_eq!(got, 32);
}

#[test]
fn test_channel_multiple_subscribers() {
    let mut channel = Channel::new();

    let mut sub1 = channel.subscribe("task-queue");
    let mut sub2 = channel.subscribe("task-queue");
    let mut sub3 = channel.subscribe("task-queue");

    channel.publish("task-queue", "task-1".to_string());

    assert_eq!(sub1.try_recv().ok(), Some("task-1".to_string()));
    assert_eq!(sub2.try_recv().ok(), Some("task-1".to_string()));
    assert_eq!(sub3.try_recv().ok(), Some("task-1".to_string()));
}

#[test]
fn test_channel_topic_isolation() {
    let mut channel = Channel::new();

    let mut worker_rx = channel.subscribe("worker:task");
    let mut manager_rx = channel.subscribe("manager:指令");

    channel.publish("worker:task", "execute task A".to_string());
    channel.publish("manager:指令", "review work".to_string());

    assert_eq!(worker_rx.try_recv().ok(), Some("execute task A".to_string()));
    assert_eq!(manager_rx.try_recv().ok(), Some("review work".to_string()));
}

#[test]
fn test_agent_communication_flow() {
    let mut channel = Channel::new();

    let mut worker_input = channel.subscribe("worker:input");

    channel.publish("worker:input", "task completed".to_string());

    assert_eq!(worker_input.try_recv().ok(), Some("task completed".to_string()));
}

#[test]
fn test_channel_no_leak_on_unsubscribed_topic() {
    let mut channel = Channel::new();

    channel.publish("no-subscribers", "message".to_string());

    assert_eq!(channel.subscriber_count("no-subscribers"), 0);
}

#[test]
fn test_channel_broadcast() {
    let mut channel = Channel::new();

    let mut sub_a = channel.subscribe("topic-a");
    let mut sub_b = channel.subscribe("topic-b");
    let mut sub_c = channel.subscribe("topic-c");

    channel.broadcast("global-alert".to_string());

    assert_eq!(sub_a.try_recv().ok(), Some("global-alert".to_string()));
    assert_eq!(sub_b.try_recv().ok(), Some("global-alert".to_string()));
    assert_eq!(sub_c.try_recv().ok(), Some("global-alert".to_string()));
}
