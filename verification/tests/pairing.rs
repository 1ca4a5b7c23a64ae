use oben_gateway::pairing::{PairingManager, PairingStore, CODE_LENGTH, MAX_FAILED_ATTEMPTS, MAX_PENDING_PER_PLATFORM};

const ALPHABET: &str = "ABCDEFGHJKLMNPQRSTUVWXYZ23456789";

fn now() -> u64 {
    std::time::SystemTime::now().duration_since(std::time::UNIX_EPOCH).unwrap().as_secs()
}

#[test]
fn test_generate_code_basic() {
    let mut manager = PairingManager::new();
    let code = manager.generate_code("telegram", "user-123", "Alice").unwrap();
    assert_eq!(code.len(), CODE_LENGTH);
    assert!(code.chars().all(|c| ALPHABET.contains(c)));
}

#[test]
fn test_rate_limiting() {
    let mut manager = PairingManager::new();
    let _ = manager.generate_code("telegram", "user-123", "Alice");
    let code = manager.generate_code("telegram", "user-123", "Alice");
    assert!(code.is_none(), "Should be rate limited");
}

#[test]
fn test_rate_limit_per_user() {
    let mut manager = PairingManager::new();
    let _ = manager.generate_code("telegram", "user-1", "Alice");
    assert!(manager.generate_code("telegram", "user-1", "Alice").is_none());
    let code = manager.generate_code("telegram", "user-2", "Bob");
    assert!(code.is_some(), "Different user should not be rate limited");
}

#[test]
fn test_max_pending() {
    let mut manager = PairingManager::new();
    for i in 0..MAX_PENDING_PER_PLATFORM {
        let code = manager.generate_code("telegram", &format!("user-{}", i), &format!("User {}", i));
        assert!(code.is_some(), "Should be able to create pending #{}", i);
    }
    let code = manager.generate_code("telegram", "user-overflow", "Overflow");
    assert!(code.is_none(), "Should be at max pending");
}

#[test]
fn test_lockout() {
    let mut manager = PairingManager::new();
    for _ in 0..MAX_FAILED_ATTEMPTS {
        manager.approve_code("telegram", "wrong-code");
    }
    assert!(
        manager.store.is_locked_out("telegram", now()),
        "Should be locked out after {} failed attempts",
        MAX_FAILED_ATTEMPTS
    );
    assert_eq!(manager.store.rate_limits.failed_attempts.get("telegram").copied(), Some(0));
}

#[test]
fn test_approve_code_valid() {
    let mut manager = PairingManager::new();
    let code = manager.generate_code("telegram", "user-123", "Alice").unwrap();
    let result = manager.approve_code("telegram", &code);
    assert!(result.is_some());
    let (user_id, user_name) = result.unwrap();
    assert_eq!(user_id, "user-123");
    assert_eq!(user_name, "Alice");
    assert!(manager.is_approved("telegram", "user-123"));
}

#[test]
fn test_approve_code_lower_case_and_spaces() {
    let mut manager = PairingManager::new();
    let code = manager.generate_code("telegram", "user-9", "Zed").unwrap();
    let typed = format!("  {}  ", code.to_lowercase());
    assert_eq!(manager.approve_code("telegram", &typed), Some(("user-9".to_string(), "Zed".to_string())));
    // The code is used up.
    assert_eq!(manager.approve_code("telegram", &code), None);
}

#[test]
fn test_approve_code_invalid() {
    let mut manager = PairingManager::new();
    let result = manager.approve_code("telegram", "INVALID1");
    assert!(result.is_none());
    assert_eq!(manager.store.rate_limits.failed_attempts.get("telegram"), Some(&1u64));
}

#[test]
fn test_revoke() {
    let mut manager = PairingManager::new();
    let code = manager.generate_code("telegram", "user-123", "Alice").unwrap();
    manager.approve_code("telegram", &code);
    let revoked = manager.revoke("telegram", "user-123");
    assert!(revoked);
    assert!(!manager.is_approved("telegram", "user-123"));
}

#[test]
fn test_revoke_not_found() {
    let mut manager = PairingManager::new();
    let revoked = manager.revoke("telegram", "user-never-approved");
    assert!(!revoked);
}

#[test]
fn test_list_pending() {
    let mut manager = PairingManager::new();
    manager.generate_code("telegram", "user-1", "Alice");
    manager.generate_code("telegram", "user-2", "Bob");
    manager.generate_code("discord", "user-3", "Charlie");
    let pending = manager.list_pending(None);
    assert_eq!(pending.len(), 3);
    let telegram_pending: Vec<_> = pending.iter().filter(|p| p.platform == "telegram").collect();
    assert_eq!(telegram_pending.len(), 2);
    assert_eq!(pending[0].code.len(), 8);
    assert_eq!(pending[0].age_minutes, 0);
}

#[test]
fn test_list_approved() {
    let mut manager = PairingManager::new();
    let code1 = manager.generate_code("telegram", "user-1", "Alice").unwrap();
    let code2 = manager.generate_code("telegram", "user-2", "Bob").unwrap();
    manager.approve_code("telegram", &code1);
    manager.approve_code("telegram", &code2);
    let approved = manager.list_approved(Some("telegram"));
    assert_eq!(approved.len(), 2);
    assert!(approved.iter().any(|u| u.user_id == "user-1"));
    assert!(approved.iter().any(|u| u.user_id == "user-2"));
    assert_eq!(manager.list_approved(None).len(), 2);
}

#[test]
fn test_cleanup_expired() {
    let mut manager = PairingManager::new();
    manager.generate_code("telegram", "user-1", "Alice");
    if let Some(i) = manager.store.pending.find("telegram") {
        for entry in manager.store.pending.value_at_mut(i).iter_mut() {
            entry.created_at = 0;
        }
    }
    manager.store.cleanup_expired("telegram", now());
    assert!(manager.store.pending.get("telegram").map(|v| v.is_empty()).unwrap_or(true));
}

#[test]
fn test_cross_platform_isolation() {
    let mut manager = PairingManager::new();
    let telegram_code = manager.generate_code("telegram", "user-123", "Alice").unwrap();
    let discord_code = manager.generate_code("discord", "user-123", "Alice").unwrap();
    assert_ne!(telegram_code, discord_code);
}

#[test]
fn test_store_with_explicit_times() {
    let mut store = PairingStore::new();
    let code = store.generate_code_at("slack", "u1", "Una", 1000).unwrap();
    // Within ten minutes: refused; after: granted.
    assert!(store.generate_code_at("slack", "u1", "Una", 1599).is_none());
    assert!(store.generate_code_at("slack", "u1", "Una", 1600).is_some());
    // After an hour the first code has expired.
    assert_eq!(store.approve_code_at("slack", &code, 4601), None);
}

#[test]
fn test_list_pending_all_platforms_drops_expired() {
    let mut store = PairingStore::new();
    store.generate_code_at("telegram", "u1", "Ann", 1_000).unwrap();
    store.generate_code_at("discord", "u2", "Bea", 4_000).unwrap();
    // At 4_700 the first code (one hour of validity) is gone, the second is eleven minutes old.
    let pending = store.list_pending_at(None, 4_700);
    assert_eq!(pending.len(), 1);
    assert_eq!(pending[0].platform, "discord");
    assert_eq!(pending[0].user_id, "u2");
    assert_eq!(pending[0].age_minutes, 11);
    assert!(store.list_pending_at(Some("telegram"), 4_700).is_empty());
}
