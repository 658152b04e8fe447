use vegh_core::{check_cache_hit, create_empty_cache, FileCacheEntry};

#[test]
fn empty_cache_never_hits() {
    let cache = create_empty_cache();
    assert!(!check_cache_hit(&cache, "x", 10, 20));
    assert_eq!(cache.last_snapshot(), 0);
    assert!(cache.records().is_empty());
}

#[test]
fn scenario_hit_and_miss() {
    let mut cache = create_empty_cache();
    assert!(!check_cache_hit(&cache, "x", 10, 20));
    cache.insert("x".to_string(), FileCacheEntry { size: 10, modified: 20 });
    assert!(check_cache_hit(&cache, "x", 10, 20));
    let mut other = create_empty_cache();
    other.insert("x".to_string(), FileCacheEntry { size: 10, modified: 21 });
    assert!(!check_cache_hit(&other, "x", 10, 20));
}

#[test]
fn either_field_changing_is_a_miss() {
    let mut cache = create_empty_cache();
    cache.insert("src/main.rs".to_string(), FileCacheEntry { size: 100, modified: 5 });
    assert!(check_cache_hit(&cache, "src/main.rs", 100, 5));
    assert!(!check_cache_hit(&cache, "src/main.rs", 101, 5));
    assert!(!check_cache_hit(&cache, "src/main.rs", 100, 6));
    assert!(!check_cache_hit(&cache, "src/main", 100, 5));
    assert!(!check_cache_hit(&cache, "src/main.rs.bak", 100, 5));
}

#[test]
fn later_record_replaces_earlier() {
    let mut cache = create_empty_cache();
    cache.insert("a".to_string(), FileCacheEntry { size: 1, modified: 1 });
    cache.insert("b".to_string(), FileCacheEntry { size: 2, modified: 2 });
    cache.insert("a".to_string(), FileCacheEntry { size: 3, modified: 3 });
    assert!(!check_cache_hit(&cache, "a", 1, 1));
    assert!(check_cache_hit(&cache, "a", 3, 3));
    assert!(check_cache_hit(&cache, "b", 2, 2));
}

#[test]
fn reference_time_is_kept() {
    let mut cache = create_empty_cache();
    cache.set_last_snapshot(1_700_000_000);
    cache.insert("x".to_string(), FileCacheEntry { size: 0, modified: 0 });
    assert_eq!(cache.last_snapshot(), 1_700_000_000);
    assert!(check_cache_hit(&cache, "x", 0, 0));
}

#[test]
fn extreme_values_compare_exactly() {
    let mut cache = create_empty_cache();
    cache.insert(String::new(), FileCacheEntry { size: u64::MAX, modified: u64::MAX });
    assert!(check_cache_hit(&cache, "", u64::MAX, u64::MAX));
    assert!(!check_cache_hit(&cache, "", u64::MAX, u64::MAX - 1));
}
