use perseval_app::app::runtime_mode::RuntimeMode;
use perseval_app::components::telemetry_gap_summary;
use perseval_app::controllers::{
    BoundedPageCache, RequestGeneration, ScopedRequestTracker, SequenceStatus, SequenceTracker,
};
use perseval_app::keyed::KeySet;

#[test]
fn variants_remain_distinct() {
    assert_ne!(RuntimeMode::Embedded, RuntimeMode::Fixture);
}

#[test]
fn a_configured_trace_file_selects_the_fixture_runtime() {
    assert_eq!(RuntimeMode::detect(true), RuntimeMode::Fixture);
    assert_eq!(RuntimeMode::detect(false), RuntimeMode::Embedded);
}

#[test]
fn summarizes_repeated_gap_identities_without_rendering_payloads() {
    let gaps: Vec<String> = vec![
        "trace:a:call:1:status_unknown".into(),
        "trace:a:call:2:status_unknown".into(),
        "trace:a:call:2:effect_unknown".into(),
    ];
    assert_eq!(
        telemetry_gap_summary(&gaps),
        "3 missing observations · effect unknown, status unknown"
    );
}

#[test]
fn gap_kinds_beyond_the_fourth_are_counted() {
    let gaps: Vec<String> = vec!["a:e".into(), "a:d".into(), "a:c".into(), "a:b".into(), "a".into()];
    assert_eq!(
        telemetry_gap_summary(&gaps),
        "5 missing observations · a, b, c, d + 1 more kinds"
    );
    assert_eq!(
        telemetry_gap_summary(&[]),
        "0 missing observations · unspecified telemetry"
    );
}

#[test]
fn least_recently_used_page_is_evicted() {
    let mut cache = BoundedPageCache::new(2);
    cache.insert(1, "one");
    cache.insert(2, "two");
    assert_eq!(cache.get(&1), Some(&"one"));

    assert_eq!(cache.insert(3, "three"), Some((2, "two")));
    assert!(cache.contains_key(&1));
    assert!(cache.contains_key(&3));
    assert!(!cache.contains_key(&2));
}

#[test]
fn capacity_is_never_unbounded_or_zero() {
    assert_eq!(BoundedPageCache::<u8, u8>::new(0).capacity(), 1);
}

#[test]
fn looking_at_a_page_does_not_refresh_it() {
    let mut cache = BoundedPageCache::new(2);
    cache.insert(1, "one");
    cache.insert(2, "two");
    assert_eq!(cache.peek(&1), Some(&"one"));
    assert_eq!(cache.insert(3, "three"), Some((1, "one")));
    assert_eq!(cache.get(&9), None);
    assert_eq!(cache.insert(3, "drei"), None);
    assert_eq!(cache.peek(&3), Some(&"drei"));
    assert_eq!(cache.len(), 2);
    assert_eq!(cache.values().len(), 2);
    cache.clear();
    assert!(cache.is_empty());
}

#[test]
fn stale_results_cannot_finish_a_newer_request() {
    let mut tracker = ScopedRequestTracker::default();
    let old = tracker.begin("inbox");
    let current = tracker.begin("inbox");

    assert!(!tracker.finish(&"inbox", old));
    assert!(tracker.is_current(&"inbox", current));
    assert!(tracker.finish(&"inbox", current));
}

#[test]
fn requests_of_other_scopes_do_not_interfere() {
    let mut tracker = ScopedRequestTracker::default();
    let inbox = tracker.begin("inbox");
    let runs = tracker.begin("runs");
    assert_eq!((inbox, runs), (RequestGeneration(1), RequestGeneration(2)));
    assert!(tracker.is_current(&"inbox", inbox));
    tracker.cancel(&"inbox");
    assert!(!tracker.is_current(&"inbox", inbox));
    assert!(tracker.is_current(&"runs", runs));
    tracker.clear();
    assert!(!tracker.finish(&"runs", runs));
}

#[test]
fn duplicates_and_gaps_are_explicit() {
    let mut tracker = SequenceTracker::from_snapshot(10);
    assert_eq!(tracker.observe(10), SequenceStatus::Duplicate);
    assert_eq!(tracker.observe(11), SequenceStatus::InOrder);
    assert_eq!(
        tracker.observe(14),
        SequenceStatus::Gap {
            expected: 12,
            received: 14
        }
    );
}

#[test]
fn a_gap_is_reported_once() {
    let mut tracker = SequenceTracker::default();
    assert_eq!(tracker.last_committed(), 0);
    assert_eq!(tracker.observe(5), SequenceStatus::Gap { expected: 1, received: 5 });
    assert_eq!(tracker.observe(6), SequenceStatus::InOrder);
    tracker.resync(2);
    assert_eq!(tracker.last_committed(), 2);
    assert_eq!(tracker.observe(3), SequenceStatus::InOrder);
}

#[test]
fn a_set_holds_each_key_once() {
    let mut set = KeySet::new();
    assert!(set.insert("a".to_string()));
    assert!(!set.insert("a".to_string()));
    assert!(set.insert("b".to_string()));
    assert_eq!(set.len(), 2);
    assert!(set.remove(&"a".to_string()));
    assert!(!set.remove(&"a".to_string()));
    assert_eq!(set.keys(), &vec!["b".to_string()]);
    set.clear();
    assert!(!set.contains(&"b".to_string()));
}
