use job_monitor::backoff::backoff_strategy;
use job_monitor::persist::PersistenceService;
use job_monitor::seen_set::SeenSet;

#[test]
fn backoff_doubles_from_base() {
    assert_eq!(backoff_strategy(0, 500, 10_000), 500);
    assert_eq!(backoff_strategy(1, 500, 10_000), 1_000);
    assert_eq!(backoff_strategy(2, 500, 10_000), 2_000);
    assert_eq!(backoff_strategy(3, 500, 10_000), 4_000);
    assert_eq!(backoff_strategy(4, 500, 10_000), 8_000);
}

#[test]
fn backoff_clamps_to_max() {
    assert_eq!(backoff_strategy(5, 500, 10_000), 10_000);
    assert_eq!(backoff_strategy(6, 500, 10_000), 10_000);
    assert_eq!(backoff_strategy(63, 500, 10_000), 10_000);
}

#[test]
fn backoff_never_wraps_on_huge_attempts() {
    assert_eq!(backoff_strategy(64, 1, 10_000), 10_000);
    assert_eq!(backoff_strategy(u32::MAX, 500, 10_000), 10_000);
    assert_eq!(backoff_strategy(u32::MAX, u64::MAX, u64::MAX), u64::MAX);
}

#[test]
fn backoff_zero_base_stays_zero() {
    assert_eq!(backoff_strategy(0, 0, 10_000), 0);
    assert_eq!(backoff_strategy(100, 0, 10_000), 0);
}

#[test]
fn backoff_monotone_in_attempt() {
    let mut prev = 0u64;
    for attempt in 0..70 {
        let d = backoff_strategy(attempt, 300, 60_000);
        assert!(d >= prev);
        assert!(d <= 60_000);
        prev = d;
    }
}

#[test]
fn insert_if_new_true_exactly_once() {
    let mut seen = SeenSet::new();
    assert!(seen.insert_if_new("J1".to_string()));
    assert!(!seen.insert_if_new("J1".to_string()));
    assert!(!seen.insert_if_new("J1".to_string()));
    assert!(seen.insert_if_new("J2".to_string()));
    assert!(!seen.insert_if_new("J2".to_string()));
    assert_eq!(seen.len(), 2);
}

#[test]
fn contains_tracks_inserts() {
    let mut seen = SeenSet::new();
    assert!(!seen.contains(&"a".to_string()));
    seen.insert_if_new("a".to_string());
    assert!(seen.contains(&"a".to_string()));
    assert!(!seen.contains(&"b".to_string()));
}

#[test]
fn snapshot_is_consistent_copy() {
    let mut seen = SeenSet::new();
    seen.insert_if_new("x".to_string());
    seen.insert_if_new("y".to_string());
    let snap = seen.snapshot();
    seen.insert_if_new("z".to_string());
    assert_eq!(snap.len(), 2);
    assert!(snap.contains(&"x".to_string()));
    assert!(snap.contains(&"y".to_string()));
    assert!(!snap.contains(&"z".to_string()));
    assert_eq!(seen.len(), 3);
}

#[test]
fn save_load_round_trip() {
    let mut seen = SeenSet::new();
    seen.insert_if_new("J1".to_string());
    seen.insert_if_new("J2".to_string());
    seen.insert_if_new("J3".to_string());
    let text = PersistenceService::serialize_seen_jobs(&seen);
    assert_eq!(text, "J1\nJ2\nJ3");
    let loaded = PersistenceService::parse_seen_jobs(&text);
    assert_eq!(loaded.len(), 3);
    assert!(loaded.contains(&"J1".to_string()));
    assert!(loaded.contains(&"J2".to_string()));
    assert!(loaded.contains(&"J3".to_string()));
}

#[test]
fn serialize_empty_set_is_empty_text() {
    let seen = SeenSet::new();
    assert_eq!(PersistenceService::serialize_seen_jobs(&seen), "");
}

#[test]
fn parse_empty_text_yields_empty_set() {
    let seen = PersistenceService::parse_seen_jobs("");
    assert_eq!(seen.len(), 0);
}

#[test]
fn parse_trims_and_drops_empty_lines() {
    let seen = PersistenceService::parse_seen_jobs("  a \n\n\t\nb\r\n   ");
    assert_eq!(seen.len(), 2);
    assert!(seen.contains(&"a".to_string()));
    assert!(seen.contains(&"b".to_string()));
}

#[test]
fn parse_deduplicates_repeated_lines() {
    let seen = PersistenceService::parse_seen_jobs("a\na\na");
    assert_eq!(seen.len(), 1);
    assert!(seen.contains(&"a".to_string()));
}
