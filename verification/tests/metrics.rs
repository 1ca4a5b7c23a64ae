use oben_gateway::metrics::{GatewayMetrics, MetricsRecorder, PlatformMetrics};

#[test]
fn test_platform_metrics() {
    let mut metrics = PlatformMetrics::new();
    metrics.record_received(100);
    assert_eq!(metrics.messages_received, 1);
    assert_eq!(metrics.bytes_received, 100);
    metrics.record_sent(50);
    assert_eq!(metrics.messages_sent, 1);
    assert_eq!(metrics.bytes_sent, 50);
    metrics.record_failed();
    assert_eq!(metrics.messages_failed, 1);
}

#[test]
fn test_gateway_metrics() {
    let mut metrics = GatewayMetrics::new();
    metrics.record_message("telegram", 100);
    assert_eq!(metrics.total_messages, 1);
    assert_eq!(metrics.platform_metrics("telegram").unwrap().messages_received, 1);
    metrics.record_failure("telegram");
    assert_eq!(metrics.total_failed, 1);
    metrics.record_sent("telegram", 200);
    assert_eq!(metrics.platform_metrics("telegram").unwrap().messages_sent, 1);
}

#[test]
fn test_metrics_collection() {
    let mut metrics = GatewayMetrics::new();
    for i in 0..10 {
        metrics.record_message("telegram", 100 + i * 10);
        metrics.record_latency(i * 10);
    }
    assert_eq!(metrics.total_messages, 10);
    assert!(metrics.peak_latency_ms > 0);
}

#[test]
fn test_metrics_aggregation() {
    let mut metrics = GatewayMetrics::new();
    metrics.record_message("telegram", 100);
    metrics.record_message("discord", 200);
    metrics.record_message("telegram", 300);
    let telegram_metrics = metrics.platform_metrics("telegram").unwrap();
    assert_eq!(telegram_metrics.messages_received, 2);
    assert_eq!(telegram_metrics.bytes_received, 400);
}

#[test]
fn peak_latency_is_the_maximum() {
    let mut m = GatewayMetrics::started_at(10);
    for l in [30u64, 90, 20, 90, 5] {
        m.record_latency(l);
    }
    assert_eq!(m.peak_latency_ms, 90);
    m.update_uptime_at(25);
    assert_eq!(m.uptime_seconds, 15);
}

#[test]
fn recording_time_is_kept() {
    let mut p = PlatformMetrics::new();
    p.record_received_at(10, 1234);
    assert_eq!(p.last_message, Some(1234));
    p.record_sent_at(5, 1300);
    assert_eq!(p.last_message, Some(1300));
    assert_eq!(p.bytes_sent, 5);
}

#[test]
fn names_listed_once_each() {
    let mut m = GatewayMetrics::new();
    m.record_message("a", 1);
    m.record_failure("b");
    m.record_sent("a", 2);
    let mut names: Vec<String> = m.platform_names().into_iter().cloned().collect();
    names.sort();
    assert_eq!(names, vec!["a".to_string(), "b".to_string()]);
    assert_eq!(m.platform_metrics("b").unwrap().messages_failed, 1);
    assert_eq!(m.platform_metrics("b").unwrap().messages_received, 0);
}

#[test]
fn recorder_counts_through() {
    let mut r = MetricsRecorder::new();
    r.record_received("telegram", 100);
    r.record_sent("telegram", 50);
    r.record_failed("telegram");
    r.record_latency(100);
    assert_eq!(r.metrics().total_messages, 1);
    assert_eq!(r.metrics().total_failed, 1);
    assert_eq!(r.metrics().peak_latency_ms, 100);
    assert_eq!(r.metrics().platform_metrics("telegram").unwrap().messages_received, 1);
}

#[test]
fn test_metrics_recorder() {
    let mut recorder = MetricsRecorder::new();

    recorder.record_received("telegram", 100);
    recorder.record_sent("telegram", 50);
    recorder.record_latency(100);

    assert_eq!(recorder.metrics().total_messages, 1);
    assert_eq!(recorder.metrics().platform_metrics("telegram").unwrap().messages_received, 1);
    // The library keeps the peak latency; the moving average is kept in floating point by the caller.
    assert_eq!(recorder.metrics().peak_latency_ms, 100);
}
