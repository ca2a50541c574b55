use ping_monitor::dns_cache::{DnsCache, DnsCacheEntry};

#[test]
fn store_then_lookup_within_ttl() {
    let mut cache = DnsCache::new();
    let entry = DnsCacheEntry::new("93.184.216.34".to_string(), 300, 1_000_000);
    cache.insert("example.com".to_string(), entry);
    // Immediately after the store, and right up to the TTL, the stored
    // address comes back.
    assert_eq!(
        cache.get_valid_ip("example.com", 1_000_000),
        Some("93.184.216.34".to_string())
    );
    assert_eq!(
        cache.get_valid_ip("example.com", 1_000_000 + 300_000),
        Some("93.184.216.34".to_string())
    );
}

#[test]
fn lookup_after_ttl_is_absent() {
    let mut cache = DnsCache::new();
    let entry = DnsCacheEntry::new("93.184.216.34".to_string(), 300, 1_000_000);
    cache.insert("example.com".to_string(), entry);
    assert_eq!(cache.get_valid_ip("example.com", 1_000_000 + 300_001), None);
}

#[test]
fn clock_before_creation_counts_as_expired() {
    let mut cache = DnsCache::new();
    let entry = DnsCacheEntry::new("10.0.0.1".to_string(), 300, 1_000_000);
    cache.insert("host".to_string(), entry);
    assert_eq!(cache.get_valid_ip("host", 999_999), None);
}

#[test]
fn evict_if_expired_is_noop_on_fresh_entry() {
    let mut cache = DnsCache::new();
    let entry = DnsCacheEntry::new("10.0.0.1".to_string(), 300, 1_000_000);
    cache.insert("host".to_string(), entry);
    cache.clean_expired("host", 1_100_000);
    assert!(cache.get("host").is_some());
    assert_eq!(
        cache.get_valid_ip("host", 1_100_000),
        Some("10.0.0.1".to_string())
    );
}

#[test]
fn evict_if_expired_removes_stale_entry() {
    let mut cache = DnsCache::new();
    let entry = DnsCacheEntry::new("10.0.0.1".to_string(), 300, 1_000_000);
    cache.insert("host".to_string(), entry);
    cache.clean_expired("host", 2_000_000);
    assert!(cache.get("host").is_none());
}

#[test]
fn insert_overwrites_existing_entry() {
    let mut cache = DnsCache::new();
    cache.insert(
        "host".to_string(),
        DnsCacheEntry::new("10.0.0.1".to_string(), 300, 1_000_000),
    );
    cache.insert(
        "host".to_string(),
        DnsCacheEntry::new("10.0.0.2".to_string(), 300, 1_500_000),
    );
    assert_eq!(
        cache.get_valid_ip("host", 1_500_000),
        Some("10.0.0.2".to_string())
    );
}

#[test]
fn remove_drops_entry() {
    let mut cache = DnsCache::new();
    cache.insert(
        "a".to_string(),
        DnsCacheEntry::new("10.0.0.1".to_string(), 300, 0),
    );
    cache.insert(
        "b".to_string(),
        DnsCacheEntry::new("10.0.0.2".to_string(), 300, 0),
    );
    cache.remove("a");
    assert!(cache.get("a").is_none());
    assert_eq!(cache.get_valid_ip("b", 0), Some("10.0.0.2".to_string()));
}

#[test]
fn entry_expiry_boundary() {
    let entry = DnsCacheEntry::new("10.0.0.1".to_string(), 10, 1_000);
    assert!(!entry.is_expired(1_000));
    assert!(!entry.is_expired(11_000));
    assert!(entry.is_expired(11_001));
    assert!(entry.is_expired(999));
    assert_eq!(entry.ip_address(), "10.0.0.1".to_string());
}
