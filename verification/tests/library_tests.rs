use postero::config::{Config, DatabaseConfig, S3Config};
use postero::error::Error;
use postero::library::{Library, LibraryData};
use postero::numtext::{i64_to_dec, parse_u64_dec, u64_to_dec};
use postero::registry::{
    group_versions_from_pairs, libraries_to_delete, merge_group_metadata, needs_group_refresh,
    new_empty_library, should_clear_before_sync, should_sync_library,
};
use postero::types::{GroupData, LibraryType, SyncDirection, SyncStatus, UserData};

fn group_data(id: i64, version: i64, name: &str) -> GroupData {
    GroupData {
        id,
        version,
        name: Some(name.to_string()),
        description: Some("a shared library".to_string()),
        owner: Some(42),
        group_type: Some("PublicOpen".to_string()),
        library_reading: None,
        library_editing: Some("members".to_string()),
        file_editing: None,
        url: None,
        has_image: None,
        admins: None,
    }
}

fn config(synconly: Option<Vec<i64>>) -> Config {
    Config {
        service: None,
        synconly,
        clear_before_sync: None,
        endpoint: "https://api.example/".to_string(),
        apikey: "SECRET-REDACTED".to_string(),
        logfile: None,
        loglevel: None,
        access_log: None,
        new_group_active: None,
        db: DatabaseConfig {
            server_type: "postgres".to_string(),
            dsn: "postgres://localhost/postero".to_string(),
            conn_max: None,
            schema: "postero".to_string(),
        },
        group_cache_expiration: None,
        gitlab: None,
        s3: S3Config {
            endpoint: "https://s3.example".to_string(),
            access_key_id: "SECRET-REDACTED".to_string(),
            secret_access_key: "SECRET-REDACTED".to_string(),
            use_ssl: true,
        },
    }
}

#[test]
fn group_library_reads_its_metadata() {
    let lib = Library::from_group_data(group_data(7, 12, "History"));
    assert_eq!(lib.id, 7);
    assert_eq!(lib.version, 12);
    assert_eq!(lib.library_type, LibraryType::Group);
    assert_eq!(lib.name(), "History");
    assert_eq!(lib.description().as_deref(), Some("a shared library"));
    assert_eq!(lib.owner(), 42);
    assert_eq!(lib.group_type(), "PublicOpen");
    assert_eq!(lib.library_reading(), "public");
    assert_eq!(lib.library_editing(), "members");
    assert_eq!(lib.file_editing(), "");
    assert_eq!(lib.sync_direction, SyncDirection::ToLocal);
    assert_eq!(lib.item_version, 0);
}

#[test]
fn user_library_reads_its_profile() {
    let lib = Library::from_user_data(UserData {
        id: 9,
        username: "jdoe".to_string(),
        display_name: "J. Doe".to_string(),
    });
    assert_eq!(lib.name(), "J. Doe");
    assert_eq!(lib.description(), None);
    assert_eq!(lib.owner(), 9);
    assert_eq!(lib.group_type(), "user");
    assert_eq!(lib.library_reading(), "private");
    assert_eq!(lib.library_editing(), "owner");
    assert_eq!(lib.file_editing(), "owner");
}

#[test]
fn urls_follow_the_library_scope() {
    let group = Library::from_group_data(group_data(7, 1, "G"));
    assert_eq!(group.build_items_url(), "groups/7/items");
    assert_eq!(group.build_collections_url(), "groups/7/collections");
    assert_eq!(group.build_tags_url(), "groups/7/tags");
    assert_eq!(group.build_deleted_url(), "groups/7/deleted");
    let user = Library::from_user_data(UserData {
        id: 12345,
        username: "u".to_string(),
        display_name: "U".to_string(),
    });
    assert_eq!(user.build_items_url(), "users/12345/items");
}

#[test]
fn direction_policy_gates_both_sides() {
    let mut lib = new_empty_library(1, LibraryType::Group, true);
    for (dir, up, down) in [
        (SyncDirection::Off, false, false),
        (SyncDirection::ToCloud, true, false),
        (SyncDirection::ToLocal, false, true),
        (SyncDirection::BothCloud, true, true),
        (SyncDirection::BothLocal, true, true),
        (SyncDirection::BothManual, true, true),
    ] {
        lib.sync_direction = dir;
        assert_eq!(lib.can_upload(), up);
        assert_eq!(lib.can_download(), down);
    }
}

#[test]
fn commit_notes_watermark_advances() {
    let mut lib = new_empty_library(1, LibraryType::Group, true);
    lib.collection_version = 5;
    lib.item_version = 5;
    lib.tag_version = 5;
    let same = lib.clone().into_committed(5, 5, 5, 100);
    assert!(!same.is_modified);
    assert_eq!(same.modified, Some(100));
    let advanced = lib.into_committed(5, 9, 5, 100);
    assert!(advanced.is_modified);
    assert_eq!(advanced.item_version, 9);
}

#[test]
fn registry_allowlist_and_clear_list() {
    assert!(should_sync_library(&vec![], 7));
    assert!(should_sync_library(&vec![7, 9], 7));
    assert!(!should_sync_library(&vec![9], 7));
    assert!(should_clear_before_sync(&vec![7], 7));
    assert!(!should_clear_before_sync(&vec![], 7));
}

#[test]
fn group_refresh_when_behind_deleted_or_modified() {
    let mut lib = new_empty_library(7, LibraryType::Group, true);
    lib.version = 10;
    assert!(!needs_group_refresh(&lib, 10));
    assert!(needs_group_refresh(&lib, 11));
    lib.deleted = true;
    assert!(needs_group_refresh(&lib, 10));
    lib.deleted = false;
    lib.is_modified = true;
    assert!(needs_group_refresh(&lib, 10));
}

#[test]
fn metadata_refresh_preserves_local_sync_state() {
    let fresh = Library::from_group_data(group_data(7, 20, "Renamed"));
    let mut local = new_empty_library(7, LibraryType::Group, false);
    local.collection_version = 11;
    local.item_version = 12;
    local.tag_version = 13;
    local.sync_direction = SyncDirection::BothCloud;
    local.sync_tags = true;
    let merged = merge_group_metadata(fresh, &local);
    assert_eq!(merged.version, 20);
    assert_eq!(merged.name(), "Renamed");
    assert_eq!(merged.collection_version, 11);
    assert_eq!(merged.item_version, 12);
    assert_eq!(merged.tag_version, 13);
    assert!(!merged.active);
    assert_eq!(merged.sync_direction, SyncDirection::BothCloud);
    assert!(merged.sync_tags);
}

#[test]
fn unknown_libraries_are_deleted_unless_no_known_set() {
    assert_eq!(libraries_to_delete(&vec![1, 2, 3], &vec![2]), vec![1, 3]);
    assert!(libraries_to_delete(&vec![1, 2, 3], &vec![]).is_empty());
}

#[test]
fn group_listing_keys_decode_to_identifiers() {
    let pairs = vec![
        ("77".to_string(), 5i64),
        ("not a number".to_string(), 9),
        ("123456".to_string(), 8),
    ];
    assert_eq!(group_versions_from_pairs(&pairs), vec![(77, 5), (123456, 8)]);
}

#[test]
fn config_accessors_apply_defaults() {
    let c = config(None);
    assert!(c.synconly().is_empty());
    assert!(c.clear_before_sync().is_empty());
    assert!(!c.new_group_active());
    assert_eq!(c.loglevel(), "info");
    let mut c2 = config(Some(vec![5, 6]));
    c2.loglevel = Some("debug".to_string());
    c2.new_group_active = Some(true);
    assert_eq!(c2.synconly(), vec![5, 6]);
    assert!(c2.new_group_active());
    assert_eq!(c2.loglevel(), "debug");
}

#[test]
fn labels_round_trip() {
    assert_eq!(LibraryType::User.label(), "user");
    assert_eq!(LibraryType::from_label("group"), Some(LibraryType::Group));
    assert_eq!(LibraryType::from_label("nonsense"), None);
    assert_eq!(SyncDirection::from_label("bothmanual"), SyncDirection::BothManual);
    assert_eq!(SyncDirection::from_label("junk"), SyncDirection::Off);
    assert_eq!(SyncDirection::BothCloud.label(), "bothcloud");
    assert_eq!(SyncStatus::from_label("incomplete"), SyncStatus::Incomplete);
    assert_eq!(SyncStatus::from_label("anything"), SyncStatus::Synced);
    assert_eq!(SyncStatus::Modified.label(), "modified");
}

#[test]
fn error_predicates() {
    let e = Error::UniqueViolation { constraint: "items_pkey".to_string() };
    assert!(e.is_unique_violation("items_pkey"));
    assert!(!e.is_unique_violation("other"));
    assert!(Error::EmptyResult.is_empty_result());
    assert!(!Error::EmptyResult.is_not_found());
    assert!(Error::NotFound("K".to_string()).is_not_found());
}

#[test]
fn db_error_classification() {
    let e = Error::from_sqlx_error(true, None, None, String::new());
    assert!(e.is_empty_result());
    let e = Error::from_sqlx_error(false, Some("23505"), Some("items_pkey".to_string()), String::new());
    assert!(e.is_unique_violation("items_pkey"));
    let e = Error::from_sqlx_error(false, Some("23505"), None, String::new());
    assert!(e.is_unique_violation("unknown"));
    match Error::from_sqlx_error(false, Some("57014"), None, "cancelled".to_string()) {
        Error::Database(m) => assert_eq!(m, "cancelled"),
        other => panic!("expected a database error, got {:?}", other),
    }
}

#[test]
fn decimal_text_round_trips() {
    assert_eq!(u64_to_dec(0), "0");
    assert_eq!(u64_to_dec(105), "105");
    assert_eq!(i64_to_dec(-42), "-42");
    assert_eq!(i64_to_dec(i64::MIN), "-9223372036854775808");
    assert_eq!(parse_u64_dec("0"), Some(0));
    assert_eq!(parse_u64_dec("18446744073709551615"), Some(u64::MAX));
    assert_eq!(parse_u64_dec("18446744073709551616"), None);
    assert_eq!(parse_u64_dec(""), None);
    assert_eq!(parse_u64_dec("12a"), None);
    assert_eq!(parse_u64_dec("-3"), None);
}

#[test]
fn library_data_enum_carries_both_shapes() {
    let g = Library::from_group_data(group_data(7, 1, "G"));
    match g.data {
        Some(LibraryData::Group(ref gd)) => assert_eq!(gd.id, 7),
        _ => panic!("expected group metadata"),
    }
}
