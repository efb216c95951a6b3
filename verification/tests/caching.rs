use lsdiscovery::cache::{
    clear_all, get_stats, CacheManager, TtlCache, CSRF_TOKEN_KEY, PORTS_INFO_KEY,
};
use lsdiscovery::types::{CacheConfig, CacheStats, PortInfo};

fn bundle(https: u16) -> PortInfo {
    PortInfo {
        https_port: Some(https),
        http_port: None,
        extension_port: Some(https - 1),
        log_path: Some("/logs/Antigravity.log".to_string()),
        csrf_token: Some("tok".to_string()),
    }
}

#[test]
fn entry_is_absent_once_the_ttl_has_elapsed() {
    let mut cache: TtlCache<u32> = TtlCache::new(300, 4);
    cache.set("k".to_string(), 7, 1000);
    assert_eq!(cache.get("k", 1000), Some(&7));
    assert_eq!(cache.get("k", 301_000), Some(&7));
    assert_eq!(cache.get("k", 301_001), None);
    assert_eq!(cache.get("k", u64::MAX), None);
    assert_eq!(cache.get("other", 1000), None);
}

#[test]
fn entry_stored_later_than_now_is_fresh() {
    let mut cache: TtlCache<u32> = TtlCache::new(10, 4);
    cache.set("k".to_string(), 1, 500);
    assert_eq!(cache.get("k", 0), Some(&1));
    let mut long: TtlCache<u32> = TtlCache::new(u64::MAX, 4);
    long.set("k".to_string(), 1, 0);
    assert_eq!(long.get("k", u64::MAX), Some(&1));
}

#[test]
fn invalidate_all_is_seen_at_once() {
    let mut cache: TtlCache<u32> = TtlCache::new(300, 4);
    cache.set("a".to_string(), 1, 10);
    cache.set("b".to_string(), 2, 10);
    assert_eq!(cache.entry_count(10), 2);
    cache.invalidate_all();
    assert_eq!(cache.get("a", 10), None);
    assert_eq!(cache.get("b", 10), None);
    assert_eq!(cache.entry_count(10), 0);
    cache.set("a".to_string(), 3, 11);
    assert_eq!(cache.get("a", 11), Some(&3));
}

#[test]
fn storing_again_replaces_and_renews() {
    let mut cache: TtlCache<u32> = TtlCache::new(100, 4);
    cache.set("k".to_string(), 1, 0);
    cache.set("k".to_string(), 2, 90_000);
    assert_eq!(cache.entry_count(90_000), 1);
    assert_eq!(cache.get("k", 150_000), Some(&2));
    assert_eq!(cache.get("k", 190_000), Some(&2));
    assert_eq!(cache.get("k", 190_001), None);
}

#[test]
fn oldest_entry_makes_room() {
    let mut cache: TtlCache<u32> = TtlCache::new(100, 2);
    cache.set("a".to_string(), 1, 0);
    cache.set("b".to_string(), 2, 1);
    cache.set("c".to_string(), 3, 2);
    assert_eq!(cache.get("a", 2), None);
    assert_eq!(cache.get("b", 2), Some(&2));
    assert_eq!(cache.get("c", 2), Some(&3));
    cache.set("b".to_string(), 4, 3);
    assert_eq!(cache.get("c", 3), Some(&3));
    assert_eq!(cache.get("b", 3), Some(&4));
}

#[test]
fn cache_without_room_stays_empty() {
    let mut cache: TtlCache<u32> = TtlCache::new(100, 0);
    cache.set("a".to_string(), 1, 0);
    assert_eq!(cache.get("a", 0), None);
    assert_eq!(cache.entry_count(0), 0);
}

#[test]
fn entry_count_counts_fresh_entries() {
    let mut cache: TtlCache<u32> = TtlCache::new(10, 8);
    cache.set("a".to_string(), 1, 0);
    cache.set("b".to_string(), 2, 5_000);
    cache.set("c".to_string(), 3, 20_000);
    assert_eq!(cache.entry_count(5_000), 3);
    assert_eq!(cache.entry_count(10_001), 2);
    assert_eq!(cache.entry_count(15_001), 1);
    assert_eq!(cache.entry_count(30_001), 0);
}

#[test]
fn manager_keeps_token_and_ports_apart() {
    let mut manager = CacheManager::new();
    assert_eq!(manager.get_csrf_token(CSRF_TOKEN_KEY, 0), None);
    assert_eq!(manager.get_ports(PORTS_INFO_KEY, 0), None);
    manager.set_csrf_token(CSRF_TOKEN_KEY, "abc".to_string(), 100);
    assert_eq!(manager.get_csrf_token(CSRF_TOKEN_KEY, 100), Some("abc".to_string()));
    assert_eq!(manager.get_ports(PORTS_INFO_KEY, 100), None);
    manager.set_ports(PORTS_INFO_KEY, bundle(4001), 100);
    assert_eq!(manager.get_ports(PORTS_INFO_KEY, 300_100), Some(bundle(4001)));
    assert_eq!(manager.get_stats(300_100), CacheStats { csrf_cache_size: 1, ports_cache_size: 1 });
    assert_eq!(get_stats(&manager, 300_101), CacheStats { csrf_cache_size: 0, ports_cache_size: 0 });
    assert_eq!(manager.get_csrf_token(CSRF_TOKEN_KEY, 300_101), None);
}

#[test]
fn manager_default_ttl_is_five_minutes() {
    let config = CacheConfig::default();
    assert_eq!(config, CacheConfig { ttl_seconds: 300, max_cache_entries: 100 });
    let mut manager = CacheManager::new();
    manager.set_csrf_token("k", "v".to_string(), 0);
    assert_eq!(manager.get_csrf_token("k", 300_000), Some("v".to_string()));
    assert_eq!(manager.get_csrf_token("k", 300_001), None);
}

#[test]
fn clear_all_empties_both_caches() {
    let mut manager = CacheManager::with_config(CacheConfig { ttl_seconds: 60, max_cache_entries: 2 });
    manager.set_csrf_token(CSRF_TOKEN_KEY, "abc".to_string(), 1);
    manager.set_ports(PORTS_INFO_KEY, bundle(9), 1);
    manager.clear_all();
    assert_eq!(manager.get_csrf_token(CSRF_TOKEN_KEY, 1), None);
    assert_eq!(manager.get_ports(PORTS_INFO_KEY, 1), None);
    assert_eq!(manager.get_stats(1), CacheStats { csrf_cache_size: 0, ports_cache_size: 0 });
    manager.set_csrf_token(CSRF_TOKEN_KEY, "abc".to_string(), 2);
    clear_all(&mut manager);
    assert_eq!(manager.get_csrf_token(CSRF_TOKEN_KEY, 2), None);
}

#[test]
fn port_bundle_helpers() {
    let empty = PortInfo::default();
    assert!(!empty.is_usable());
    assert!(bundle(5).is_usable());
    assert_eq!(bundle(5).duplicate(), bundle(5));
    let only_extension = PortInfo { extension_port: Some(1), ..PortInfo::default() };
    assert!(only_extension.is_usable());
}
