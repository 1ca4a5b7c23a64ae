use oben_gateway::memory_monitor::{memory_line, MemoryMonitor, DEFAULT_INTERVAL_SECONDS};

#[test]
fn test_start_stop_memory_monitoring() {
    let mut monitor = MemoryMonitor::new();
    let result = monitor.start_memory_monitoring(5, true, 1_700_000_000_000);
    assert!(result, "start_memory_monitoring should return true on first call");
    assert!(monitor.is_running(), "Monitor should be running after start");
    assert!(monitor.stop_memory_monitoring());
    assert!(!monitor.is_running());
    assert!(!monitor.stop_memory_monitoring());
}

#[test]
fn test_start_monitoring_when_already_running() {
    let mut monitor = MemoryMonitor::new();
    monitor.start_memory_monitoring(5, true, 1_000);
    let result = monitor.start_memory_monitoring(5, true, 2_000);
    assert!(!result, "start_memory_monitoring should return false when already running");
    assert_eq!(monitor.uptime_field(), 1);
    monitor.stop_memory_monitoring();
}

#[test]
fn test_multiple_stop_calls() {
    let mut monitor = MemoryMonitor::new();
    assert!(!monitor.stop_memory_monitoring());
    assert!(!monitor.stop_memory_monitoring());
    assert!(!monitor.stop_memory_monitoring());
    assert!(!monitor.is_running());
}

#[test]
fn test_start_without_rss_is_refused() {
    let mut monitor = MemoryMonitor::new();
    assert!(!monitor.start_memory_monitoring(5, false, 1_000));
    assert!(!monitor.is_running());
    assert_eq!(monitor.uptime_field(), 0);
    assert_eq!(monitor.interval_seconds(), DEFAULT_INTERVAL_SECONDS);
}

#[test]
fn test_restart_after_stop_records_new_start() {
    let mut monitor = MemoryMonitor::new();
    assert!(monitor.start_memory_monitoring(5, true, 10_000));
    monitor.stop_memory_monitoring();
    assert!(monitor.start_memory_monitoring(60, true, 25_999));
    assert_eq!(monitor.uptime_field(), 25);
    assert_eq!(monitor.interval_seconds(), 60);
}

#[test]
fn test_log_memory_usage_line_with_prefix() {
    assert_eq!(
        memory_line("test_prefix", Some(42), 8, 1700),
        "[MEMORY] test_prefix rss=42MB threads=8 uptime=1700s"
    );
}

#[test]
fn test_log_memory_usage_line_empty_prefix() {
    assert_eq!(memory_line("", Some(7), 1, 0), "[MEMORY] rss=7MB threads=1 uptime=0s");
}

#[test]
fn test_log_memory_usage_line_unavailable() {
    assert_eq!(
        memory_line("shutdown", None, 4, 12),
        "[MEMORY] shutdown rss=unavailable threads=4 uptime=12s"
    );
}
