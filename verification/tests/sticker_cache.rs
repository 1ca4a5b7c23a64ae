use oben_gateway::sticker_cache::{StickerCache, StickerDescription};
use oben_gateway::strmap::StrMap;

#[test]
fn test_cache_and_retrieve_sticker() {
    let mut cache = StickerCache::new("/tmp/test_sticker_cache_1");
    let file_id = "file_unique_12345".to_string();
    let description = "A cat waving its paw".to_string();
    cache.cache_sticker_description(
        file_id.clone(),
        description.clone(),
        Some("🐱".to_string()),
        Some("MyStickers".to_string()),
    );
    let desc = cache.get_cached_description(&file_id).expect("cached");
    assert_eq!(desc.description, description);
    assert_eq!(desc.emoji, "🐱");
    assert_eq!(desc.set_name, "MyStickers");
    assert!(desc.cached_at > 0);
}

#[test]
fn test_miss_for_nonexistent_sticker() {
    let cache = StickerCache::new("/tmp/test_sticker_cache_2");
    assert!(cache.get_cached_description("nonexistent_file_id").is_none());
}

#[test]
fn test_clear_cache() {
    let mut cache = StickerCache::new("/tmp/test_sticker_cache_3");
    for i in 0..5 {
        cache.cache_sticker_description(
            format!("file_{}", i),
            format!("Description {}", i),
            Some(format!("emoji_{}", i)),
            None,
        );
    }
    assert_eq!(cache.len(), 5);
    cache.clear();
    assert_eq!(cache.len(), 0);
}

#[test]
fn test_evict_old_entries() {
    let mut entries = StrMap::new();
    entries.insert(
        "recent_file".to_string(),
        StickerDescription {
            description: "Recent sticker".to_string(),
            emoji: "😀".to_string(),
            set_name: String::new(),
            cached_at: 1000,
        },
    );
    entries.insert(
        "old_file".to_string(),
        StickerDescription {
            description: "Old sticker".to_string(),
            emoji: " aged".to_string(),
            set_name: String::new(),
            cached_at: 990,
        },
    );
    let mut cache = StickerCache::with_entries("/tmp/test_sticker_cache_4", entries);
    let removed = cache.evict_old_entries_at(1000, 1);
    assert_eq!(removed, 1);
    assert!(cache.get_cached_description("old_file").is_none());
    assert!(cache.get_cached_description("recent_file").is_some());
}

#[test]
fn test_build_injection_with_set_name() {
    let result = StickerCache::build_sticker_injection("A cat waving", "🐱", "MyStickers");
    assert!(result.contains("A cat waving"));
    assert!(result.contains("🐱"));
    assert!(result.contains("MyStickers"));
    assert!(result.contains("(=^.w.^=)"));
}

#[test]
fn test_build_injection_without_set_name() {
    let result = StickerCache::build_sticker_injection("A dog barking", "🐶", "");
    assert!(result.contains("A dog barking"));
    assert!(result.contains("🐶"));
    assert!(!result.contains("from"));
}

#[test]
fn test_build_animated_injection() {
    let result = StickerCache::build_animated_sticker_injection(Some("🔥"));
    assert!(result.contains("animated sticker"));
    assert!(result.contains("🔥"));
    assert!(result.contains("can't see animated ones yet"));
}

#[test]
fn injection_texts_exact() {
    assert_eq!(
        StickerCache::build_sticker_injection("A cat waving", "😀", "MyPack"),
        "[The user sent a sticker 😀 from \"MyPack\"~ It shows: \"A cat waving\" (=^.w.^=)]"
    );
    assert_eq!(
        StickerCache::build_sticker_injection("x", "", "SetOnly"),
        "[The user sent a sticker~ It shows: \"x\" (=^.w.^=)]"
    );
    assert_eq!(
        StickerCache::build_animated_sticker_injection(None),
        "[The user sent an animated sticker~ I can't see animated ones yet]"
    );
    assert_eq!(
        StickerCache::build_animated_sticker_injection(Some("🔥")),
        "[The user sent an animated sticker 🔥~ I can't see animated ones yet, but the emoji suggests: 🔥]"
    );
}

#[test]
fn eviction_boundary_keeps_exact_age() {
    let mut cache = StickerCache::new("/tmp/x");
    cache.cache_sticker_description_at("a".to_string(), "d".to_string(), None, None, 100);
    cache.cache_sticker_description_at("b".to_string(), "d".to_string(), None, None, 95);
    cache.cache_sticker_description_at("c".to_string(), "d".to_string(), None, None, 200);
    assert_eq!(cache.evict_old_entries_at(105, 5), 1);
    assert!(cache.get_cached_description("a").is_some());
    assert!(cache.get_cached_description("b").is_none());
    assert!(cache.get_cached_description("c").is_some());
    assert_eq!(cache.cache_path(), "/tmp/x/sticker_cache.json");
}
