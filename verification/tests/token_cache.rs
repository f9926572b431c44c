use redirects::cache::TokenCache;

#[test]
fn an_empty_cache_misses() {
    let cache = TokenCache::new();
    assert_eq!(cache.get("token:abc", 0), None);
}

#[test]
fn a_written_text_is_read_until_it_expires() {
    let mut cache = TokenCache::new();
    assert!(cache.set_if_absent("token:abc", "alice@example.com", 30, 100));
    assert_eq!(cache.get("token:abc", 100), Some("alice@example.com".to_string()));
    assert_eq!(cache.get("token:abc", 129), Some("alice@example.com".to_string()));
    assert_eq!(cache.get("token:abc", 130), None);
    assert_eq!(cache.get("token:abc", 1_000), None);
    assert_eq!(cache.get("token:abd", 100), None);
}

#[test]
fn a_live_text_is_not_overwritten() {
    let mut cache = TokenCache::new();
    assert!(cache.set_if_absent("k", "first", 30, 100));
    assert!(!cache.set_if_absent("k", "second", 30, 110));
    assert_eq!(cache.get("k", 110), Some("first".to_string()));
    assert_eq!(cache.get("k", 129), Some("first".to_string()));
    assert_eq!(cache.get("k", 130), None);
}

#[test]
fn an_expired_text_gives_way() {
    let mut cache = TokenCache::new();
    assert!(cache.set_if_absent("k", "first", 30, 100));
    assert!(cache.set_if_absent("k", "second", 30, 130));
    assert_eq!(cache.get("k", 130), Some("second".to_string()));
    assert_eq!(cache.get("k", 159), Some("second".to_string()));
    assert_eq!(cache.get("k", 160), None);
}

#[test]
fn keys_do_not_disturb_each_other() {
    let mut cache = TokenCache::new();
    assert!(cache.set_if_absent("a", "one", 30, 0));
    assert!(cache.set_if_absent("b", "two", 10, 5));
    assert_eq!(cache.get("a", 20), Some("one".to_string()));
    assert_eq!(cache.get("b", 20), None);
    assert_eq!(cache.get("b", 14), Some("two".to_string()));
}

#[test]
fn the_deadline_stops_at_the_last_second() {
    let mut cache = TokenCache::new();
    assert!(cache.set_if_absent("k", "v", 30, u64::MAX - 10));
    assert_eq!(cache.get("k", u64::MAX - 1), Some("v".to_string()));
    assert_eq!(cache.get("k", u64::MAX), None);
}

#[test]
fn a_text_that_lives_no_second_is_never_read() {
    let mut cache = TokenCache::new();
    assert!(cache.set_if_absent("k", "v", 0, 7));
    assert_eq!(cache.get("k", 7), None);
}
