use log_capture::query::{count_matches, select};
use log_capture::{BoundedCache, LogEntry, LogQuery, Severity, DEFAULT_PAGE_SIZE};

fn entry(n: usize, level: Severity, message: &str) -> LogEntry {
    LogEntry::new(
        format!("2024-01-01T00:{:02}:{:02}+00:00", (n / 60) % 60, n % 60),
        level,
        "app::worker",
        Some(message.to_string()),
    )
}

fn numbered(count: usize) -> BoundedCache {
    let mut cache = BoundedCache::new(1000);
    for n in 0..count {
        let level = if n % 3 == 0 { Severity::Error } else { Severity::Info };
        cache.push(entry(n, level, &format!("event {}", n)));
    }
    cache
}

fn messages(page: &[LogEntry]) -> Vec<String> {
    page.iter().map(|e| e.message.clone()).collect()
}

fn query(
    level: Option<&str>,
    keyword: Option<&str>,
    page: Option<usize>,
    page_size: Option<usize>,
) -> LogQuery {
    LogQuery {
        level: level.map(|s| s.to_string()),
        keyword: keyword.map(|s| s.to_string()),
        page,
        page_size,
    }
}

#[test]
fn default_page_size_is_fifty() {
    assert_eq!(DEFAULT_PAGE_SIZE, 50);
}

#[test]
fn default_query_has_no_filters() {
    let q = LogQuery::default();
    assert!(q.level.is_none());
    assert!(q.keyword.is_none());
    assert!(q.page.is_none());
    assert!(q.page_size.is_none());
}

#[test]
fn no_filters_default_page_returns_most_recent_newest_first() {
    let cache = numbered(120);
    let page = cache.query(&LogQuery::default());
    assert_eq!(page.len(), 50);
    let expected: Vec<String> = (70..120).rev().map(|n| format!("event {}", n)).collect();
    assert_eq!(messages(&page), expected);
}

#[test]
fn no_filters_on_small_cache_returns_everything() {
    let cache = numbered(4);
    let page = cache.query(&LogQuery::default());
    assert_eq!(messages(&page), vec!["event 3", "event 2", "event 1", "event 0"]);
}

#[test]
fn query_on_empty_cache_is_empty() {
    let cache = BoundedCache::new(10);
    assert!(cache.query(&LogQuery::default()).is_empty());
    assert_eq!(cache.count_matches(&LogQuery::default()), 0);
}

#[test]
fn pages_are_counted_from_zero() {
    let cache = numbered(10);
    let first = cache.query(&query(None, None, Some(0), Some(4)));
    let second = cache.query(&query(None, None, Some(1), Some(4)));
    let third = cache.query(&query(None, None, Some(2), Some(4)));
    assert_eq!(messages(&first), vec!["event 9", "event 8", "event 7", "event 6"]);
    assert_eq!(messages(&second), vec!["event 5", "event 4", "event 3", "event 2"]);
    assert_eq!(messages(&third), vec!["event 1", "event 0"]);
}

#[test]
fn page_beyond_the_last_is_empty() {
    let cache = numbered(10);
    assert!(cache.query(&query(None, None, Some(3), Some(4))).is_empty());
    assert!(cache.query(&query(None, None, Some(1), None)).is_empty());
    assert!(cache.query(&query(None, None, Some(1_000_000), Some(4))).is_empty());
}

#[test]
fn page_whose_start_overflows_is_empty() {
    let cache = numbered(10);
    assert!(cache.query(&query(None, None, Some(usize::MAX), Some(2))).is_empty());
    assert!(cache.query(&query(None, None, Some(usize::MAX), Some(usize::MAX))).is_empty());
    assert!(cache.query(&query(None, None, Some(2), Some(usize::MAX))).is_empty());
}

#[test]
fn page_size_zero_is_empty() {
    let cache = numbered(10);
    assert!(cache.query(&query(None, None, None, Some(0))).is_empty());
    assert!(cache.query(&query(None, None, Some(5), Some(0))).is_empty());
}

#[test]
fn huge_page_size_returns_everything_once() {
    let cache = numbered(5);
    let page = cache.query(&query(None, None, Some(0), Some(usize::MAX)));
    assert_eq!(page.len(), 5);
    assert_eq!(page[0].message, "event 4");
    assert_eq!(page[4].message, "event 0");
}

#[test]
fn level_filter_asks_for_the_exact_name() {
    let cache = numbered(10);
    let errors = cache.query(&query(Some("ERROR"), None, None, None));
    assert_eq!(messages(&errors), vec!["event 9", "event 6", "event 3", "event 0"]);
    for e in &errors {
        assert_eq!(e.level, "ERROR");
    }
    assert!(cache.query(&query(Some("error"), None, None, None)).is_empty());
    assert!(cache.query(&query(Some("FATAL"), None, None, None)).is_empty());
    assert!(cache.query(&query(Some(""), None, None, None)).is_empty());
}

#[test]
fn keyword_filter_tells_upper_case_from_lower_case() {
    let mut cache = BoundedCache::new(10);
    cache.push(entry(0, Severity::Error, "Error: disk full"));
    assert!(cache.query(&query(None, Some("error"), None, None)).is_empty());
    let hit = cache.query(&query(None, Some("Error"), None, None));
    assert_eq!(messages(&hit), vec!["Error: disk full"]);
    let hit = cache.query(&query(None, Some("disk full"), None, None));
    assert_eq!(hit.len(), 1);
    assert!(cache.query(&query(None, Some("DISK"), None, None)).is_empty());
}

#[test]
fn keyword_filter_looks_at_the_message_only() {
    let mut cache = BoundedCache::new(10);
    cache.push(entry(0, Severity::Info, "started"));
    assert!(cache.query(&query(None, Some("worker"), None, None)).is_empty());
    assert!(cache.query(&query(None, Some("INFO"), None, None)).is_empty());
    assert!(cache.query(&query(None, Some("2024"), None, None)).is_empty());
}

#[test]
fn keyword_at_every_position_is_found() {
    let mut cache = BoundedCache::new(10);
    cache.push(entry(0, Severity::Info, "abcabd"));
    for keyword in ["a", "abc", "abd", "bd", "d", "cab", "abcabd", ""] {
        assert_eq!(cache.query(&query(None, Some(keyword), None, None)).len(), 1, "{}", keyword);
    }
    for keyword in ["abe", "abcabde", "ba", "dd", "abcabd ", "x"] {
        assert!(cache.query(&query(None, Some(keyword), None, None)).is_empty(), "{}", keyword);
    }
}

#[test]
fn keyword_with_characters_outside_ascii() {
    let mut cache = BoundedCache::new(10);
    cache.push(entry(0, Severity::Info, "磁盘已满 — naïve café"));
    assert_eq!(cache.query(&query(None, Some("已满"), None, None)).len(), 1);
    assert_eq!(cache.query(&query(None, Some("ïve caf"), None, None)).len(), 1);
    assert!(cache.query(&query(None, Some("naive"), None, None)).is_empty());
    assert!(cache.query(&query(None, Some("满已"), None, None)).is_empty());
}

#[test]
fn empty_keyword_matches_every_message() {
    let cache = numbered(6);
    assert_eq!(cache.query(&query(None, Some(""), None, None)).len(), 6);
}

#[test]
fn both_filters_must_pass() {
    let cache = numbered(40);
    let page = cache.query(&query(Some("ERROR"), Some("3"), None, None));
    assert_eq!(
        messages(&page),
        vec!["event 39", "event 36", "event 33", "event 30", "event 3"]
    );
    let second = cache.query(&query(Some("ERROR"), Some("3"), Some(1), Some(2)));
    assert_eq!(messages(&second), vec!["event 33", "event 30"]);
}

#[test]
fn count_is_over_all_pages() {
    let cache = numbered(40);
    assert_eq!(cache.count_matches(&query(Some("ERROR"), None, Some(7), Some(3))), 14);
    assert_eq!(cache.count_matches(&query(None, None, None, None)), 40);
    assert_eq!(cache.count_matches(&query(Some("ERROR"), Some("3"), None, Some(0))), 5);
    assert_eq!(cache.count_matches(&query(Some("DEBUG"), None, None, None)), 0);
}

#[test]
fn query_leaves_the_cache_as_it_is() {
    let cache = numbered(10);
    let _ = cache.query(&query(Some("ERROR"), Some("event"), Some(1), Some(2)));
    assert_eq!(cache.len(), 10);
    assert_eq!(cache.entries()[0].message, "event 0");
    assert_eq!(cache.entries()[9].message, "event 9");
}

#[test]
fn select_works_on_any_snapshot() {
    let snapshot = vec![
        entry(0, Severity::Info, "one"),
        entry(1, Severity::Warn, "two"),
        entry(2, Severity::Info, "three"),
    ];
    let page = select(&snapshot, &query(Some("INFO"), None, None, None));
    assert_eq!(messages(&page), vec!["three", "one"]);
    assert_eq!(count_matches(&snapshot, &query(Some("INFO"), None, None, None)), 2);
    assert!(select(&Vec::new(), &LogQuery::default()).is_empty());
}

#[test]
fn accepts_agrees_with_query() {
    let q = query(Some("WARN"), Some("two"), None, None);
    assert!(q.accepts(&entry(1, Severity::Warn, "twenty-two")));
    assert!(!q.accepts(&entry(1, Severity::Info, "twenty-two")));
    assert!(!q.accepts(&entry(1, Severity::Warn, "twenty")));
    assert!(LogQuery::default().accepts(&entry(1, Severity::Trace, "")));
}
