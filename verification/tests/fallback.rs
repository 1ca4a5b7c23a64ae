use oben_gateway::fallback::{FallbackManager, FallbackResult, FallbackStrategy};

#[test]
fn test_fallback_result_success() {
    let result: FallbackResult<String> = FallbackResult::success("ok".to_string());
    assert!(result.is_success());
    assert!(!result.fallback_used);
    assert_eq!(result.value.unwrap(), "ok");
}

#[test]
fn test_fallback_result_fallback() {
    let result: FallbackResult<String> = FallbackResult::fallback(
        "fallback".to_string(),
        FallbackStrategy::Cached,
        Some("original error".to_string()),
    );
    assert!(result.is_success());
    assert!(result.fallback_used);
    assert_eq!(result.strategy.unwrap(), FallbackStrategy::Cached);
}

#[test]
fn test_fallback_result_failure() {
    let result: FallbackResult<String> = FallbackResult::failure("failed".to_string());
    assert!(!result.is_success());
    assert!(result.original_error.is_some());
}

#[test]
fn test_fallback_manager_strategies() {
    let mut manager = FallbackManager::new();
    manager.set_platform_strategy("telegram", FallbackStrategy::BackupPlatform("discord".to_string()));
    manager.set_platform_strategy("discord", FallbackStrategy::Cached);
    assert_eq!(
        manager.get_platform_strategy("telegram"),
        FallbackStrategy::BackupPlatform("discord".to_string())
    );
    assert_eq!(manager.get_platform_strategy("unknown"), FallbackStrategy::NoFallback);
}

#[test]
fn test_fallback_manager_cache() {
    let mut manager = FallbackManager::new();
    manager.cache_response("telegram", "cached response");
    assert_eq!(manager.get_cached_response("telegram"), Some(&"cached response".to_string()));
    manager.clear_cache();
    assert!(manager.get_cached_response("telegram").is_none());
}

#[test]
fn test_fallback_manager_apply_fallback() {
    let manager = FallbackManager::new();
    let result = manager.apply_fallback("test", Some("error".to_string()));
    assert!(!result.is_success());
}

#[test]
fn apply_fallback_backup_platform_names_backup() {
    let mut manager = FallbackManager::new();
    manager.set_platform_strategy("telegram", FallbackStrategy::BackupPlatform("discord".to_string()));
    let result = manager.apply_fallback("telegram", Some("boom".to_string()));
    assert!(result.fallback_used);
    assert_eq!(result.value.as_deref(), Some("Using backup platform: discord"));
    assert_eq!(result.original_error.as_deref(), Some("boom"));
}

#[test]
fn apply_fallback_cached_with_and_without_entry() {
    let mut manager = FallbackManager::with_default_strategy(FallbackStrategy::Cached);
    let missing = manager.apply_fallback("slack", None);
    assert!(!missing.fallback_used);
    assert_eq!(missing.original_error.as_deref(), Some("No cached response"));
    manager.cache_response("slack", "hello again");
    let hit = manager.apply_fallback("slack", None);
    assert!(hit.fallback_used);
    assert_eq!(hit.value.as_deref(), Some("hello again"));
    assert_eq!(manager.cache_size(), 1);
}

#[test]
fn apply_fallback_default_and_queue_messages() {
    let mut manager = FallbackManager::new();
    manager.set_platform_strategy("a", FallbackStrategy::Default);
    manager.set_platform_strategy("b", FallbackStrategy::Queue);
    assert_eq!(manager.apply_fallback("a", None).value.as_deref(), Some("Service temporarily unavailable"));
    assert_eq!(manager.apply_fallback("b", None).value.as_deref(), Some("Message queued for later retry"));
    let none = manager.apply_fallback("c", None);
    assert_eq!(none.original_error.as_deref(), Some("No fallback available"));
    assert!(none.strategy.is_none());
}

#[test]
fn unwrap_or_takes_default_on_failure() {
    let f: FallbackResult<u32> = FallbackResult::failure("x".to_string());
    assert_eq!(f.unwrap_or(7), 7);
    assert_eq!(FallbackResult::success(3u32).unwrap_or(7), 3);
}
