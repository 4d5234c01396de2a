//! Tests of the temporal state store: versioning, tombstones, point-in-time
//! reads, prefix reads, snapshots, forks and merges — and the subscription
//! filters.

use orpheon::store::{InMemoryStateStore, StateEntry};
use orpheon::subscription::{ChangeType, StateChangeEvent, SubscriptionFilter};
use orpheon::temporal::{QueryTime, StateFork, StateSnapshot};
use orpheon::ids::Id;

#[test]
fn test_set_and_get() {
    let mut store = InMemoryStateStore::new();

    store.set("key1", "{\"value\":42}".to_string()).unwrap();

    let entry = store.get("key1").unwrap();
    assert!(entry.is_some());
    assert_eq!(entry.unwrap().value, "{\"value\":42}");
}

#[test]
fn test_delete() {
    let mut store = InMemoryStateStore::new();

    store.set("key1", "\"value\"".to_string()).unwrap();
    store.delete("key1").unwrap();

    let entry = store.get("key1").unwrap();
    assert!(entry.is_none());
}

#[test]
fn test_versioning() {
    let mut store = InMemoryStateStore::new();

    let e1 = store.set("key1", "\"v1\"".to_string()).unwrap();
    let e2 = store.set("key1", "\"v2\"".to_string()).unwrap();

    assert!(e2.version > e1.version);

    let current = store.get("key1").unwrap().unwrap();
    assert_eq!(current.value, "\"v2\"");
}

#[test]
fn test_time_travel() {
    let mut store = InMemoryStateStore::new();

    let e1 = store.set_at("key1", "\"old\"".to_string(), 1_000).unwrap();
    let old_time = e1.timestamp;

    store.set_at("key1", "\"new\"".to_string(), 1_010).unwrap();

    let old_entry = store.get_at("key1", old_time).unwrap();
    assert!(old_entry.is_some());
    assert_eq!(old_entry.unwrap().value, "\"old\"");
}

#[test]
fn test_fork() {
    let mut store = InMemoryStateStore::new();

    store.set("key1", "\"original\"".to_string()).unwrap();

    let fork_id = store.fork("test_fork").unwrap();

    // Modify main state.
    store.set("key1", "\"modified\"".to_string()).unwrap();

    let current = store.get("key1").unwrap().unwrap();
    assert_eq!(current.value, "\"modified\"");

    // Cleanup.
    store.merge_fork(fork_id).unwrap();
}

#[test]
fn test_temporal_read_scenario() {
    // Two writes at known instants: the point-in-time read sees the first,
    // the current read sees the second.
    let mut store = InMemoryStateStore::new();
    let e1 = store.set_at("k", "\"v1\"".to_string(), 100).unwrap();
    store.set_at("k", "\"v2\"".to_string(), 200).unwrap();

    let at_first = store.get_at("k", e1.timestamp).unwrap().unwrap();
    assert_eq!(at_first.value, "\"v1\"");
    let now = store.get("k").unwrap().unwrap();
    assert_eq!(now.value, "\"v2\"");
}

#[test]
fn test_delete_then_get_keeps_history() {
    let mut store = InMemoryStateStore::new();
    let e = store.set_at("k", "\"x\"".to_string(), 100).unwrap();
    store.delete_at("k", 200).unwrap();

    assert!(store.get("k").unwrap().is_none());
    // The pre-delete entry is still visible at its own timestamp.
    let before = store.get_at("k", e.timestamp).unwrap().unwrap();
    assert_eq!(before.value, "\"x\"");
    // At or after the tombstone, the tombstone hides nothing older than it:
    // the non-tombstone entry at 100 is still the latest live one at 250.
    let later = store.get_at("k", 250).unwrap().unwrap();
    assert_eq!(later.value, "\"x\"");
}

#[test]
fn test_fork_isolation_and_merge() {
    let mut store = InMemoryStateStore::new();
    store.set_at("k", "\"v1\"".to_string(), 10).unwrap();
    let fork_id = store.fork("branch").unwrap();

    // Writes to main after the fork do not appear in the fork.
    store.set_at("k", "\"v2\"".to_string(), 20).unwrap();
    assert_eq!(store.forks.len(), 1);
    let forked = &store.forks[0].1;
    assert_eq!(forked.len(), 1);
    assert_eq!(forked[0].1.len(), 1);
    assert_eq!(forked[0].1[0].value, "\"v1\"");

    // Merging appends only fork entries newer than the main tail: none here.
    store.merge_fork(fork_id).unwrap();
    assert_eq!(store.get("k").unwrap().unwrap().value, "\"v2\"");
    assert!(store.forks.is_empty());
}

#[test]
fn test_merge_unknown_fork_fails() {
    let mut store = InMemoryStateStore::new();
    let r = store.merge_fork(Id { bits: 424242 });
    assert!(r.is_err());
}

#[test]
fn test_get_prefix() {
    let mut store = InMemoryStateStore::new();
    store.set("intent:1", "\"a\"".to_string()).unwrap();
    store.set("intent:2", "\"b\"".to_string()).unwrap();
    store.set("plan:1", "\"c\"".to_string()).unwrap();
    store.delete("intent:2").unwrap();

    let entries = store.get_prefix("intent:").unwrap();
    // intent:2's latest non-tombstone entry is still reported.
    assert_eq!(entries.len(), 2);
    assert_eq!(entries[0].key, "intent:1");
    assert_eq!(entries[1].key, "intent:2");
    assert_eq!(entries[1].value, "\"b\"");
}

#[test]
fn test_store_snapshot() {
    let mut store = InMemoryStateStore::new();
    store.set("a", "\"1\"".to_string()).unwrap();
    store.set("b", "\"2\"".to_string()).unwrap();
    store.delete("b").unwrap();

    let snap = store.snapshot().unwrap();
    assert_eq!(snap.version, 3);
    assert_eq!(snap.len(), 2);
    assert!(!snap.is_empty());
    assert!(snap.get(&"a".to_string()).is_some());
    let keys = snap.keys();
    assert_eq!(keys, vec!["a".to_string(), "b".to_string()]);
}

#[test]
fn test_store_keys() {
    let mut store = InMemoryStateStore::new();
    store.set("x", "\"1\"".to_string()).unwrap();
    store.set("y", "\"2\"".to_string()).unwrap();
    let keys = store.keys().unwrap();
    assert_eq!(keys, vec!["x".to_string(), "y".to_string()]);
    assert_eq!(store.version(), 2);
}

#[test]
fn test_query_time_offset() {
    // One hour in the past, resolved against a fixed instant.
    let query = QueryTime::Offset(-3600);
    let now_ms: i64 = 10_000_000;
    let timestamp = query.resolve_at(now_ms);
    assert_eq!(now_ms - timestamp, 3_600_000);
    assert_eq!(QueryTime::Timestamp(77).resolve_at(now_ms), 77);
    assert_eq!(QueryTime::Version(5).resolve_at(now_ms), now_ms);
}

#[test]
fn test_snapshot() {
    let mut entries = Vec::new();
    entries.push((
        "key1".to_string(),
        StateEntry {
            key: "key1".to_string(),
            value: "\"value1\"".to_string(),
            version: 1,
            timestamp: 1_000,
            deleted: false,
            metadata: Vec::new(),
        },
    ));

    let snapshot = StateSnapshot {
        id: Id { bits: 1 },
        version: 1,
        timestamp: 1_000,
        entries,
    };

    assert_eq!(snapshot.len(), 1);
    assert!(snapshot.get(&"key1".to_string()).is_some());
}

#[test]
fn test_fork_hierarchy() {
    let parent = StateFork::new("main");
    let child = parent.child("feature-branch");

    assert_eq!(child.parent_id, Some(parent.id));
}

fn event_for(key: &str, change_type: ChangeType) -> StateChangeEvent {
    StateChangeEvent {
        key: key.to_string(),
        new_value: None,
        old_value: None,
        change_type,
        timestamp: 0,
    }
}

#[test]
fn test_filter_prefix() {
    let filter = SubscriptionFilter::prefix("intent:");

    let event = event_for("intent:123", ChangeType::Created);
    assert!(filter.matches(&event));

    let non_matching = event_for("plan:456", ChangeType::Created);
    assert!(!filter.matches(&non_matching));
}

#[test]
fn test_filter_keys() {
    let filter = SubscriptionFilter::keys(vec!["key1".to_string(), "key2".to_string()]);

    let event = event_for("key1", ChangeType::Updated);
    assert!(filter.matches(&event));

    let other = event_for("key3", ChangeType::Updated);
    assert!(!filter.matches(&other));
}

#[test]
fn test_filter_change_types() {
    let mut filter = SubscriptionFilter::default();
    filter.change_types = Some(vec![ChangeType::Deleted]);
    assert!(filter.matches(&event_for("k", ChangeType::Deleted)));
    assert!(!filter.matches(&event_for("k", ChangeType::Created)));
    // The empty filter matches everything.
    assert!(SubscriptionFilter::default().matches(&event_for("k", ChangeType::Created)));
}
