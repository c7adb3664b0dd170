use postero::collection::{Collection, CollectionData};
use postero::engine::{
    advance_version, apply_collection_tombstone, apply_collection_upload, apply_downloaded_collection,
    apply_downloaded_item, apply_item_delete, apply_item_tombstone, apply_item_upload,
    collections_to_fetch, collections_to_upload, fetch_batch_bounds, items_to_fetch,
    items_to_upload, plan_phases, KeyVersion, PhaseStep, TombstoneAction,
};
use postero::item::{Item, ItemData};
use postero::library::Library;
use postero::protocol::WriteOutcome;
use postero::registry::new_empty_library;
use postero::store::LocalStore;
use postero::types::{LibraryType, SyncDirection, SyncStatus, Tag, TagData};

fn collection(key: &str, version: i64, status: SyncStatus, deleted: bool) -> Collection {
    Collection {
        key: key.to_string(),
        version,
        library_id: 7,
        library_type: LibraryType::Group,
        data: CollectionData {
            key: key.to_string(),
            version,
            name: format!("collection {}", key),
            parent_collection: None,
            relations: None,
        },
        meta: None,
        deleted,
        sync_status: status,
    }
}

fn item(key: &str, version: i64, status: SyncStatus) -> Item {
    Item {
        key: key.to_string(),
        version,
        library_id: 7,
        library_type: LibraryType::Group,
        data: ItemData {
            key: key.to_string(),
            version,
            item_type: "book".to_string(),
            title: Some(format!("title {}", key)),
            creators: None,
            date: None,
            date_added: 0,
            date_modified: 0,
            tags: None,
            collections: None,
            relations: None,
            extra_fields: Vec::new(),
        },
        meta: None,
        trashed: false,
        deleted: false,
        sync_status: status,
        md5: None,
    }
}

fn library(direction: SyncDirection) -> Library {
    let mut lib = new_empty_library(7, LibraryType::Group, true);
    lib.sync_direction = direction;
    lib
}

#[test]
fn empty_library_pulls_everything() {
    // An empty mirror against a remote with 3 collections and 5 items:
    // after the download phases and the commit, the mirror holds 3 and 5
    // rows and both watermarks stand at the remote's version.
    let mut store = LocalStore::new();
    let lmv = 40;
    let remote_cols = vec![
        KeyVersion { key: "C1".to_string(), version: 31 },
        KeyVersion { key: "C2".to_string(), version: 35 },
        KeyVersion { key: "C3".to_string(), version: 36 },
    ];
    let to_fetch = collections_to_fetch(&store, &remote_cols);
    assert_eq!(to_fetch, vec!["C1".to_string(), "C2".to_string(), "C3".to_string()]);
    for kv in &remote_cols {
        apply_downloaded_collection(&mut store, collection(&kv.key, kv.version, SyncStatus::New, false));
    }
    let remote_items: Vec<KeyVersion> = (1..=5)
        .map(|n| KeyVersion { key: format!("I{}", n), version: 35 + n })
        .collect();
    let to_fetch = items_to_fetch(&store, &remote_items);
    assert_eq!(to_fetch.len(), 5);
    for kv in &remote_items {
        apply_downloaded_item(&mut store, item(&kv.key, kv.version, SyncStatus::New));
    }
    assert_eq!(store.collections.len(), 3);
    assert_eq!(store.items.len(), 5);
    for c in &store.collections {
        assert_eq!(c.sync_status, SyncStatus::Synced);
    }
    for i in &store.items {
        assert_eq!(i.sync_status, SyncStatus::Synced);
    }
    let lib = library(SyncDirection::ToLocal);
    let collection_version = advance_version(lib.collection_version, lmv);
    let item_version = advance_version(lib.item_version, lmv);
    let committed = lib.into_committed(collection_version, item_version, 0, 1_700_000_000);
    assert_eq!(committed.collection_version, 40);
    assert_eq!(committed.item_version, 40);
    assert!(committed.is_modified);
    // Every synced row's version lies within its watermark.
    for c in &store.collections {
        assert!(c.version <= committed.collection_version);
    }
    for i in &store.items {
        assert!(i.version <= committed.item_version);
    }
}

#[test]
fn local_conflict_cloud_leads() {
    // Item K1 modified locally at version 10, remote holds 12, policy
    // cloud-to-local: after the download the row carries the remote data,
    // version 12, synced.
    let mut store = LocalStore::new();
    store.upsert_item(item("K1", 10, SyncStatus::Modified));
    let remote = vec![KeyVersion { key: "K1".to_string(), version: 12 }];
    let stale = items_to_fetch(&store, &remote);
    assert_eq!(stale, vec!["K1".to_string()]);
    let mut remote_row = item("K1", 12, SyncStatus::New);
    remote_row.data.title = Some("remote title".to_string());
    apply_downloaded_item(&mut store, remote_row);
    let idx = store.find_item("K1").unwrap();
    assert_eq!(store.items[idx].version, 12);
    assert_eq!(store.items[idx].sync_status, SyncStatus::Synced);
    assert_eq!(store.items[idx].data.title.as_deref(), Some("remote title"));
}

#[test]
fn local_conflict_upload_aborts_on_412() {
    // Item K1 modified locally, policy local-to-cloud: the server answers
    // 412 and the phase aborts; the local row stays untouched.
    let mut store = LocalStore::new();
    store.upsert_item(item("K1", 10, SyncStatus::Modified));
    let candidates = items_to_upload(&store);
    assert_eq!(candidates, vec![0]);
    let (baseline, step) = apply_item_upload(&mut store, 0, &WriteOutcome::Conflict, 10);
    assert_eq!(baseline, 10);
    assert_eq!(step, PhaseStep::AbortConflict);
    assert_eq!(store.items[0].sync_status, SyncStatus::Modified);
    assert_eq!(store.items[0].version, 10);
}

#[test]
fn accepted_upload_marks_synced_and_advances_baseline() {
    let mut store = LocalStore::new();
    store.upsert_collection(collection("C9", 3, SyncStatus::Modified, false));
    let candidates = collections_to_upload(&store);
    assert_eq!(candidates, vec![0]);
    let (baseline, step) =
        apply_collection_upload(&mut store, 0, &WriteOutcome::Accepted { new_version: 21 }, 20);
    assert_eq!(baseline, 21);
    assert_eq!(step, PhaseStep::Continue);
    assert_eq!(store.collections[0].sync_status, SyncStatus::Synced);
    assert_eq!(store.collections[0].version, 21);
}

#[test]
fn accepted_delete_removes_local_row() {
    let mut store = LocalStore::new();
    store.upsert_item(item("D1", 5, SyncStatus::Modified));
    let (baseline, step) =
        apply_item_delete(&mut store, 0, &WriteOutcome::Accepted { new_version: 30 }, 29);
    assert_eq!(baseline, 30);
    assert_eq!(step, PhaseStep::Continue);
    assert!(store.items.is_empty());
}

#[test]
fn upload_candidates_come_in_key_order() {
    let mut store = LocalStore::new();
    store.upsert_collection(collection("B", 1, SyncStatus::Modified, false));
    store.upsert_collection(collection("A", 1, SyncStatus::New, false));
    store.upsert_collection(collection("C", 1, SyncStatus::Synced, false));
    let candidates = collections_to_upload(&store);
    let keys: Vec<&str> =
        candidates.iter().map(|&i| store.collections[i].key.as_str()).collect();
    assert_eq!(keys, vec!["A", "B"]);
}

#[test]
fn tombstone_precedence_over_fresh_download() {
    // K4 was downloaded at version 20 in the item phase; the deletion
    // feed then lists it: the row ends tombstoned at version 20.
    let mut store = LocalStore::new();
    apply_downloaded_item(&mut store, item("K4", 20, SyncStatus::New));
    let action = apply_item_tombstone(&mut store, "K4", 25, true, false);
    assert_eq!(action, TombstoneAction::MarkDeleted);
    let idx = store.find_item("K4").unwrap();
    assert!(store.items[idx].deleted);
    assert_eq!(store.items[idx].version, 20);
}

#[test]
fn tombstone_keeps_unsynced_local_work_when_uploads_lead() {
    // A locally modified row under an upload-capable policy is kept and
    // stamped with the remote version, so a later upload re-creates it.
    let mut store = LocalStore::new();
    store.upsert_item(item("K5", 9, SyncStatus::Modified));
    let action = apply_item_tombstone(&mut store, "K5", 33, true, true);
    assert_eq!(action, TombstoneAction::StampSynced);
    let idx = store.find_item("K5").unwrap();
    assert!(!store.items[idx].deleted);
    assert_eq!(store.items[idx].version, 33);
    assert_eq!(store.items[idx].sync_status, SyncStatus::Synced);
}

#[test]
fn tombstone_ignores_absent_and_already_deleted_rows() {
    let mut store = LocalStore::new();
    assert_eq!(apply_item_tombstone(&mut store, "NOPE", 33, true, false), TombstoneAction::Ignore);
    let mut dead = item("K6", 5, SyncStatus::Synced);
    dead.deleted = true;
    store.upsert_item(dead);
    assert_eq!(apply_item_tombstone(&mut store, "K6", 33, true, false), TombstoneAction::Ignore);
    let mut c = collection("C6", 5, SyncStatus::Synced, true);
    c.deleted = true;
    store.upsert_collection(c);
    assert_eq!(
        apply_collection_tombstone(&mut store, "C6", 33, true, false),
        TombstoneAction::Ignore
    );
}

#[test]
fn clear_before_sync_empties_rows_and_watermarks() {
    let mut store = LocalStore::new();
    store.upsert_collection(collection("C1", 4, SyncStatus::Synced, false));
    store.upsert_item(item("I1", 4, SyncStatus::Synced));
    let mut lib = library(SyncDirection::ToLocal);
    lib.version = 9;
    lib.collection_version = 9;
    lib.item_version = 9;
    lib.tag_version = 9;
    store.clear();
    let cleared = lib.into_cleared();
    assert!(store.collections.is_empty());
    assert!(store.items.is_empty());
    assert!(store.tags.is_empty());
    assert_eq!(cleared.version, 0);
    assert_eq!(cleared.collection_version, 0);
    assert_eq!(cleared.item_version, 0);
    assert_eq!(cleared.tag_version, 0);
}

#[test]
fn repeated_sync_is_quiet() {
    // With every row synced and the remote reporting nothing newer, a
    // second sync plans no upload, fetches nothing, and the commit leaves
    // the watermarks and the modified flag as they were.
    let mut store = LocalStore::new();
    apply_downloaded_collection(&mut store, collection("C1", 31, SyncStatus::New, false));
    apply_downloaded_item(&mut store, item("I1", 36, SyncStatus::New));
    let remote_cols = vec![KeyVersion { key: "C1".to_string(), version: 31 }];
    let remote_items = vec![KeyVersion { key: "I1".to_string(), version: 36 }];
    assert!(collections_to_upload(&store).is_empty());
    assert!(items_to_upload(&store).is_empty());
    assert!(collections_to_fetch(&store, &remote_cols).is_empty());
    assert!(items_to_fetch(&store, &remote_items).is_empty());
    assert!(fetch_batch_bounds(0).is_empty());
    let mut lib = library(SyncDirection::BothLocal);
    lib.collection_version = 40;
    lib.item_version = 40;
    lib.tag_version = 2;
    let committed = lib.clone().into_committed(40, 40, 2, 1_700_000_099);
    assert_eq!(committed.collection_version, 40);
    assert_eq!(committed.item_version, 40);
    assert_eq!(committed.tag_version, 2);
    assert!(!committed.is_modified);
}

#[test]
fn fetch_batches_span_at_most_fifty_keys() {
    assert!(fetch_batch_bounds(0).is_empty());
    assert_eq!(fetch_batch_bounds(50), vec![(0, 50)]);
    assert_eq!(fetch_batch_bounds(120), vec![(0, 50), (50, 100), (100, 120)]);
    for (s, e) in fetch_batch_bounds(1234) {
        assert!(e - s <= 50);
        assert!(s < e);
    }
}

#[test]
fn phase_plan_follows_direction_policy() {
    let p = plan_phases(&library(SyncDirection::Off));
    assert!(!p.collections && !p.upload_items && !p.download_items && !p.tags && !p.deletions);
    let p = plan_phases(&library(SyncDirection::ToCloud));
    assert!(p.collections && p.upload_items && !p.download_items && !p.deletions);
    let p = plan_phases(&library(SyncDirection::ToLocal));
    assert!(p.collections && !p.upload_items && p.download_items && p.deletions);
    assert!(!p.tags); // sync_tags is off on this record
    let mut lib = library(SyncDirection::BothCloud);
    lib.sync_tags = true;
    let p = plan_phases(&lib);
    assert!(p.tags);
}

#[test]
fn tags_phase_upserts_and_tombstones_remove() {
    let mut store = LocalStore::new();
    let tag = Tag { data: TagData { tag: "history".to_string(), tag_type: Some(1) } };
    postero::engine::apply_downloaded_tag(&mut store, tag, 7, LibraryType::Group);
    assert_eq!(store.tags.len(), 1);
    assert_eq!(store.tags[0].tag, "history");
    assert_eq!(store.tags[0].meta.tag_type, 1);
    store.remove_tag("history");
    assert!(store.tags.is_empty());
}

#[test]
fn store_upsert_replaces_by_key_and_keeps_order() {
    let mut store = LocalStore::new();
    store.upsert_collection(collection("M", 1, SyncStatus::New, false));
    store.upsert_collection(collection("A", 1, SyncStatus::New, false));
    store.upsert_collection(collection("Z", 1, SyncStatus::New, false));
    store.upsert_collection(collection("M", 8, SyncStatus::Synced, false));
    assert_eq!(store.collections.len(), 3);
    let keys: Vec<&str> = store.collections.iter().map(|c| c.key.as_str()).collect();
    assert_eq!(keys, vec!["A", "M", "Z"]);
    assert_eq!(store.collection_version("M"), 8);
    assert_eq!(store.collection_version("ABSENT"), 0);
}

#[test]
fn new_item_round_trips_through_upload() {
    // A locally created item uploads, takes the server's version, turns
    // synced, and a later listing at that version asks for no re-fetch.
    let mut store = LocalStore::new();
    store.upsert_item(item("N1", 0, SyncStatus::New));
    let candidates = items_to_upload(&store);
    assert_eq!(candidates, vec![0]);
    let (baseline, step) =
        apply_item_upload(&mut store, 0, &WriteOutcome::Accepted { new_version: 17 }, 16);
    assert_eq!((baseline, step), (17, PhaseStep::Continue));
    assert_eq!(store.items[0].sync_status, SyncStatus::Synced);
    assert_eq!(store.items[0].version, 17);
    let listing = vec![KeyVersion { key: "N1".to_string(), version: 17 }];
    assert!(items_to_fetch(&store, &listing).is_empty());
}
