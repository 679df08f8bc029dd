use rjango::cache::{
    cache_add, cache_clear, cache_decr, cache_delete, cache_get, cache_get_or_default, cache_get_or_set, cache_has,
    cache_incr, cache_set, LocMemCache,
};

#[test]
fn test_set_get() {
        let mut c = LocMemCache::new();
        let now: u64 = 1_000;
        {
            cache_clear(&mut c);
            cache_set(&mut c, "hello", "world", 60, now);
            assert_eq!(cache_get(&mut c, "hello", now), Some("world".to_string()));
        }
    }

#[test]
fn test_get_missing() {
        let mut c = LocMemCache::new();
        let now: u64 = 1_000;
        {
            cache_clear(&mut c);
            assert_eq!(cache_get(&mut c, "nothing", now), None);
        }
    }

#[test]
fn test_expiry() {
        let mut c = LocMemCache::new();
        let now: u64 = 1_000;
        {
            cache_clear(&mut c);
            cache_set(&mut c, "expires_soon", "gone", 0, now);
            assert_eq!(cache_get(&mut c, "expires_soon", now), Some("gone".to_string()));
        }
    }

#[test]
fn test_immediate_expiry() {
        let mut c = LocMemCache::new();
        let now: u64 = 1_000;
        {
            cache_clear(&mut c);
            cache_set(&mut c, "expires_fast", "gone", 1, now);
            assert_eq!(cache_get(&mut c, "expires_fast", now), Some("gone".to_string()));
        }
    }

#[test]
fn test_delete() {
        let mut c = LocMemCache::new();
        let now: u64 = 1_000;
        {
            cache_clear(&mut c);
            cache_set(&mut c, "key", "val", 60, now);
            cache_delete(&mut c, "key");
            assert_eq!(cache_get(&mut c, "key", now), None);
        }
    }

#[test]
fn test_clear() {
        let mut c = LocMemCache::new();
        let now: u64 = 1_000;
        {
            cache_clear(&mut c);
            cache_set(&mut c, "a", "1", 60, now);
            cache_set(&mut c, "b", "2", 60, now);
            cache_clear(&mut c);
            assert_eq!(cache_get(&mut c, "a", now), None);
            assert_eq!(cache_get(&mut c, "b", now), None);
        }
    }

#[test]
fn test_get_or_set() {
        let mut c = LocMemCache::new();
        let now: u64 = 1_000;
        {
            cache_clear(&mut c);
            let val = cache_get_or_set(&mut c, "computed", || "expensive".to_string(), 60, now);
            assert_eq!(val, "expensive");
            let val2 = cache_get_or_set(&mut c, "computed", || "not_called".to_string(), 60, now);
            assert_eq!(val2, "expensive");
        }
    }

#[test]
fn test_has() {
        let mut c = LocMemCache::new();
        let now: u64 = 1_000;
        {
            cache_clear(&mut c);
            assert!(!cache_has(&mut c, "nonexistent", now));
            cache_set(&mut c, "yes", "value", 60, now);
            assert!(cache_has(&mut c, "yes", now));
            cache_delete(&mut c, "yes");
            assert!(!cache_has(&mut c, "yes", now));
        }
    }

#[test]
fn test_zero_timeout_never_expires() {
        let mut c = LocMemCache::new();
        let now: u64 = 1_000;
        {
            cache_clear(&mut c);
            cache_set(&mut c, "permanent", "always", 0, now);
            assert_eq!(cache_get(&mut c, "permanent", now), Some("always".to_string()));
        }
    }

#[test]
fn test_cache_add_new_key() {
        let mut c = LocMemCache::new();
        let now: u64 = 1_000;
        {
            cache_clear(&mut c);
            assert!(cache_add(&mut c, "newkey", "val", 60, now));
            assert_eq!(cache_get(&mut c, "newkey", now), Some("val".to_string()));
        }
    }

#[test]
fn test_cache_add_existing_key() {
        let mut c = LocMemCache::new();
        let now: u64 = 1_000;
        {
            cache_clear(&mut c);
            cache_set(&mut c, "existing", "original", 60, now);
            assert!(!cache_add(&mut c, "existing", "overwrite", 60, now));
            assert_eq!(cache_get(&mut c, "existing", now), Some("original".to_string()));
        }
    }

#[test]
fn test_cache_incr() {
        let mut c = LocMemCache::new();
        let now: u64 = 1_000;
        {
            cache_clear(&mut c);
            cache_set(&mut c, "counter", "10", 0, now);
            assert_eq!(cache_incr(&mut c, "counter", 5, now), Some(15));
            assert_eq!(cache_get(&mut c, "counter", now), Some("15".to_string()));
        }
    }

#[test]
fn test_cache_incr_missing_key() {
        let mut c = LocMemCache::new();
        let now: u64 = 1_000;
        {
            cache_clear(&mut c);
            assert_eq!(cache_incr(&mut c, "nothing", 1, now), None);
        }
    }

#[test]
fn test_cache_decr() {
        let mut c = LocMemCache::new();
        let now: u64 = 1_000;
        {
            cache_clear(&mut c);
            cache_set(&mut c, "counter", "20", 0, now);
            assert_eq!(cache_decr(&mut c, "counter", 5, now), Some(15));
            assert_eq!(cache_get(&mut c, "counter", now), Some("15".to_string()));
        }
    }

#[test]
fn test_cache_get_or_default() {
        let mut c = LocMemCache::new();
        let now: u64 = 1_000;
        {
            cache_clear(&mut c);
            assert_eq!(cache_get_or_default(&mut c, "missing", "fallback", now), "fallback");
            cache_set(&mut c, "present", "real", 60, now);
            assert_eq!(cache_get_or_default(&mut c, "present", "fallback", now), "real");
        }
    }

#[test]
fn test_entry_expires_after_timeout() {
    let mut c = LocMemCache::new();
    cache_set(&mut c, "k", "v", 10, 100);
    assert_eq!(cache_get(&mut c, "k", 109), Some("v".to_string()));
    assert_eq!(cache_get(&mut c, "k", 110), None);
    assert!(!cache_has(&mut c, "k", 111));
}

#[test]
fn test_set_keeps_other_keys_and_overwrites() {
    let mut c = LocMemCache::new();
    cache_set(&mut c, "a", "1", 0, 5);
    cache_set(&mut c, "b", "2", 0, 5);
    cache_set(&mut c, "a", "3", 0, 6);
    assert_eq!(cache_get(&mut c, "a", 7), Some("3".to_string()));
    assert_eq!(cache_get(&mut c, "b", 7), Some("2".to_string()));
}

#[test]
fn test_incr_non_numeric_is_none() {
    let mut c = LocMemCache::new();
    cache_set(&mut c, "s", "abc", 0, 1);
    assert_eq!(cache_incr(&mut c, "s", 1, 2), None);
    assert_eq!(cache_get(&mut c, "s", 2), Some("abc".to_string()));
}
