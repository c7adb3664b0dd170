use postero::queue::{
    cleanup_expired, fetch_pending, get_stats, is_ready, libraries_with_pending, mark_completed,
    mark_failed, SyncQueueEntry,
};
use postero::types::LibraryType;
use postero::worker::{
    cleanup_due, entry_action, entry_entity, partition_entries, EntryAction, EntryEntity,
    SyncWorkerConfig,
};
use postero::error::Error;

fn entry(id: i64, entity_type: &str, key: &str, priority: i32, created_at: i64) -> SyncQueueEntry {
    SyncQueueEntry {
        id,
        entity_type: entity_type.to_string(),
        entity_key: key.to_string(),
        library_id: 7,
        library_type: LibraryType::Group,
        operation: "update".to_string(),
        priority,
        retry_count: 0,
        max_retries: 5,
        next_retry_at: 0,
        last_error: None,
        created_at,
        processed_at: None,
    }
}

const NOW: i64 = 1_700_000_000;

#[test]
fn readiness_needs_all_three_conditions() {
    let e = entry(1, "item", "K", 0, 10);
    assert!(is_ready(&e, NOW));
    let mut done = e.clone();
    done.processed_at = Some(NOW - 5);
    assert!(!is_ready(&done, NOW));
    let mut spent = e.clone();
    spent.retry_count = 5;
    assert!(!is_ready(&spent, NOW));
    let mut waiting = e.clone();
    waiting.next_retry_at = NOW + 1;
    assert!(!is_ready(&waiting, NOW));
}

#[test]
fn fetch_pending_zero_batch_returns_empty() {
    let entries = vec![entry(1, "item", "K1", 0, 10)];
    assert!(fetch_pending(&entries, NOW, 0).is_empty());
}

#[test]
fn fetch_pending_caps_at_fifty() {
    let entries: Vec<SyncQueueEntry> =
        (0..60).map(|n| entry(n, "item", &format!("K{}", n), 0, n)).collect();
    let leased = fetch_pending(&entries, NOW, 1000);
    assert_eq!(leased.len(), 50);
}

#[test]
fn fetch_pending_orders_by_priority_then_age() {
    let entries = vec![
        entry(1, "item", "old-low", 0, 10),
        entry(2, "item", "young-high", 5, 90),
        entry(3, "item", "old-high", 5, 20),
    ];
    let leased = fetch_pending(&entries, NOW, 50);
    let keys: Vec<&str> = leased.iter().map(|&i| entries[i].entity_key.as_str()).collect();
    assert_eq!(keys, vec!["old-high", "young-high", "old-low"]);
}

#[test]
fn fetch_pending_skips_unready_entries() {
    let mut blocked = entry(1, "item", "blocked", 9, 1);
    blocked.next_retry_at = NOW + 100;
    let entries = vec![blocked, entry(2, "item", "ready", 0, 2)];
    let leased = fetch_pending(&entries, NOW, 50);
    assert_eq!(leased, vec![1]);
}

#[test]
fn mark_failed_backs_off_exponentially() {
    // At retry count k the next try moves out by 2^k minutes.
    let e = entry(1, "item", "K3", 0, 10);
    let failed = mark_failed(e, NOW, "remote answered 500".to_string());
    assert_eq!(failed.retry_count, 1);
    assert_eq!(failed.next_retry_at, NOW + 60);
    assert!(failed.last_error.is_some());

    let mut later = failed;
    later.retry_count = 4;
    let failed_again = mark_failed(later, NOW, "remote answered 500".to_string());
    assert_eq!(failed_again.retry_count, 5);
    assert_eq!(failed_again.next_retry_at, NOW + 16 * 60);
}

#[test]
fn queue_retry_scenario_exhausts_and_library_disappears() {
    // An update for K3 keeps failing with a server error; once the retry
    // count reaches its bound the entry is no longer ready and the
    // library stops appearing among those with pending work.
    let mut e = entry(1, "item", "K3", 0, 10);
    let event_libs = vec![(7i64, LibraryType::Group)];
    for round in 0..5 {
        assert!(is_ready(&e, NOW + 100_000 * round), "round {}", round);
        let libs = libraries_with_pending(&vec![e.clone()], &event_libs, NOW + 100_000 * round);
        assert_eq!(libs, vec![(7, LibraryType::Group)]);
        e = mark_failed(e, NOW, "remote answered 500".to_string());
        e.next_retry_at = 0; // backoff elapsed for the next round
    }
    assert_eq!(e.retry_count, 5);
    assert!(!is_ready(&e, NOW + 1_000_000));
    let libs = libraries_with_pending(&vec![e], &event_libs, NOW + 1_000_000);
    assert!(libs.is_empty());
}

#[test]
fn mark_completed_freezes_the_entry() {
    let e = entry(1, "item", "K", 0, 10);
    let done = mark_completed(e, NOW);
    assert_eq!(done.processed_at, Some(NOW));
    assert_eq!(done.retry_count, 0);
    assert!(!is_ready(&done, NOW + 10));
}

#[test]
fn cleanup_selects_only_entries_past_retention() {
    let mut fresh = entry(1, "item", "A", 0, 10);
    fresh.processed_at = Some(NOW - 86_400); // one day old
    let mut stale = entry(2, "item", "B", 0, 10);
    stale.processed_at = Some(NOW - 10 * 86_400); // ten days old
    let pending = entry(3, "item", "C", 0, 10);
    let entries = vec![fresh, stale, pending];
    let doomed = cleanup_expired(&entries, NOW, 7);
    assert_eq!(doomed, vec![1]);
}

#[test]
fn stats_count_pending_processed_failed() {
    let pending = entry(1, "item", "A", 0, 10);
    let mut processed = entry(2, "item", "B", 0, 10);
    processed.processed_at = Some(NOW);
    let mut failed = entry(3, "item", "C", 0, 10);
    failed.retry_count = 5;
    let stats = get_stats(&vec![pending, processed, failed]);
    assert_eq!(stats.pending, 1);
    assert_eq!(stats.processed, 1);
    assert_eq!(stats.failed, 1);
}

#[test]
fn libraries_with_pending_respects_event_driven_set() {
    let mut other = entry(9, "item", "X", 0, 10);
    other.library_id = 8;
    let entries = vec![entry(1, "item", "K", 0, 10), other];
    let event_libs = vec![(7i64, LibraryType::Group)];
    let libs = libraries_with_pending(&entries, &event_libs, NOW);
    assert_eq!(libs, vec![(7, LibraryType::Group)]);
}

#[test]
fn worker_processes_collections_before_items() {
    let entries = vec![
        entry(1, "item", "I1", 0, 10),
        entry(2, "collection", "C1", 0, 11),
        entry(3, "item", "I2", 0, 12),
        entry(4, "collection", "C2", 0, 13),
    ];
    let (cols, items) = partition_entries(&entries);
    assert_eq!(cols, vec![1, 3]);
    assert_eq!(items, vec![0, 2]);
}

#[test]
fn entry_decoding_and_actions() {
    let i = entry(1, "item", "K", 0, 10);
    assert_eq!(entry_entity(&i).unwrap(), EntryEntity::ItemEntry);
    let c = entry(2, "collection", "K", 0, 10);
    assert_eq!(entry_entity(&c).unwrap(), EntryEntity::CollectionEntry);
    let weird = entry(3, "tagish", "K", 0, 10);
    match entry_entity(&weird) {
        Err(Error::InvalidData(_)) => {}
        other => panic!("expected invalid data, got {:?}", other),
    }
    assert_eq!(entry_action(&i), EntryAction::PushEntity);
    let mut del = entry(4, "item", "K", 0, 10);
    del.operation = "delete".to_string();
    assert_eq!(entry_action(&del), EntryAction::DeleteRemote);
}

#[test]
fn worker_defaults_and_cleanup_cadence() {
    let cfg = SyncWorkerConfig::default();
    assert_eq!(cfg.poll_interval_secs, 5);
    assert_eq!(cfg.batch_size, 50);
    assert_eq!(cfg.max_concurrent_libraries, 4);
    assert_eq!(cfg.cleanup_days, 7);
    assert_eq!(cleanup_due(0), (false, 1));
    assert_eq!(cleanup_due(98), (false, 99));
    assert_eq!(cleanup_due(99), (true, 0));
}
