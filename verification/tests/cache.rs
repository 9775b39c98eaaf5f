use log_capture::cache::evict_surplus;
use log_capture::{BoundedCache, LogEntry, Severity, DEFAULT_CAPACITY};

fn entry(n: usize) -> LogEntry {
    LogEntry::new(
        format!("2024-01-01T00:00:{:02}+00:00", n % 60),
        Severity::Info,
        "app::worker",
        Some(format!("event {}", n)),
    )
}

fn messages(cache: &BoundedCache) -> Vec<String> {
    let mut out = Vec::new();
    for e in cache.entries() {
        out.push(e.message.clone());
    }
    out
}

#[test]
fn new_cache_is_empty() {
    let cache = BoundedCache::new(8);
    assert_eq!(cache.len(), 0);
    assert_eq!(cache.capacity(), 8);
    assert!(cache.entries().is_empty());
}

#[test]
fn default_capacity_is_one_thousand() {
    assert_eq!(DEFAULT_CAPACITY, 1000);
}

#[test]
fn push_below_capacity_keeps_everything_in_order() {
    let mut cache = BoundedCache::new(5);
    for n in 0..3 {
        cache.push(entry(n));
    }
    assert_eq!(cache.len(), 3);
    assert_eq!(messages(&cache), vec!["event 0", "event 1", "event 2"]);
}

#[test]
fn push_at_capacity_evicts_the_oldest() {
    let mut cache = BoundedCache::new(3);
    for n in 0..3 {
        cache.push(entry(n));
    }
    assert_eq!(messages(&cache), vec!["event 0", "event 1", "event 2"]);
    cache.push(entry(3));
    assert_eq!(cache.len(), 3);
    assert_eq!(messages(&cache), vec!["event 1", "event 2", "event 3"]);
}

#[test]
fn overfull_cache_holds_exactly_the_latest() {
    let capacity = 7;
    let mut cache = BoundedCache::new(capacity);
    for n in 0..40 {
        cache.push(entry(n));
        assert!(cache.len() <= capacity);
    }
    assert_eq!(cache.len(), capacity);
    let expected: Vec<String> = (33..40).map(|n| format!("event {}", n)).collect();
    assert_eq!(messages(&cache), expected);
}

#[test]
fn thousand_and_five_events_leave_the_last_thousand() {
    let mut cache = BoundedCache::new(DEFAULT_CAPACITY);
    for n in 0..1005 {
        cache.push(entry(n));
    }
    assert_eq!(cache.len(), 1000);
    assert_eq!(cache.entries()[0].message, "event 5");
    assert_eq!(cache.entries()[999].message, "event 1004");
}

#[test]
fn capacity_one_keeps_only_the_newest() {
    let mut cache = BoundedCache::new(1);
    cache.push(entry(1));
    cache.push(entry(2));
    assert_eq!(messages(&cache), vec!["event 2"]);
}

#[test]
fn capacity_zero_keeps_nothing() {
    let mut cache = BoundedCache::new(0);
    cache.push(entry(1));
    cache.push(entry(2));
    assert_eq!(cache.len(), 0);
    assert_eq!(cache.capacity(), 0);
}

#[test]
fn pushed_record_is_stored_unchanged() {
    let mut cache = BoundedCache::new(2);
    let e = LogEntry::new(
        "2024-05-06T07:08:09+00:00".to_string(),
        Severity::Warn,
        "db::pool",
        Some("slow query".to_string()),
    );
    cache.push(e.clone());
    let held = &cache.entries()[0];
    assert_eq!(held.timestamp, "2024-05-06T07:08:09+00:00");
    assert_eq!(held.level, "WARN");
    assert_eq!(held.target, "db::pool");
    assert_eq!(held.message, "slow query");
    assert_eq!(e.message, "slow query");
}

#[test]
fn interleaved_producers_fill_the_cache_to_its_capacity() {
    for capacity in [10usize, 250, 1000, 4000] {
        let mut cache = BoundedCache::new(capacity);
        for round in 0..100 {
            for producer in 0..10 {
                cache.push(entry(producer * 100 + round));
            }
        }
        assert_eq!(cache.len(), std::cmp::min(1000, capacity));
    }
}

#[test]
fn default_cache_is_empty_with_the_default_capacity() {
    let cache = BoundedCache::default();
    assert_eq!(cache.len(), 0);
    assert_eq!(cache.capacity(), 1000);
}

#[test]
fn evict_surplus_drops_the_oldest_in_one_batch() {
    let mut items = vec![1, 2, 3, 4, 5, 6];
    evict_surplus(&mut items, 6);
    assert_eq!(items, vec![1, 2, 3, 4, 5, 6]);
    evict_surplus(&mut items, 5);
    assert_eq!(items, vec![2, 3, 4, 5, 6]);
    evict_surplus(&mut items, 2);
    assert_eq!(items, vec![5, 6]);
    evict_surplus(&mut items, 9);
    assert_eq!(items, vec![5, 6]);
    evict_surplus(&mut items, 0);
    assert!(items.is_empty());
    evict_surplus(&mut items, 0);
    assert!(items.is_empty());
}
