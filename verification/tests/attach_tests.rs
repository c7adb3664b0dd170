use postero::attach::{
    accept_attachment_blob, attachment_filename, attachment_folder, attachment_path,
    blob_matches_md5, content_md5, is_file_link_mode, plan_attachment_download,
    plan_attachment_upload, split_blob_path, upload_auth_plan, AttachmentPlan,
};
use postero::error::Error;
use postero::item::{ExtraField, Item, ItemData};
use postero::types::{LibraryType, SyncStatus, UploadAuthorization};

fn attachment_item(extras: Vec<(&str, &str)>) -> Item {
    Item {
        key: "K2".to_string(),
        version: 1,
        library_id: 7,
        library_type: LibraryType::Group,
        data: ItemData {
            key: "K2".to_string(),
            version: 1,
            item_type: "attachment".to_string(),
            title: None,
            creators: None,
            date: None,
            date_added: 0,
            date_modified: 0,
            tags: None,
            collections: None,
            relations: None,
            extra_fields: extras
                .into_iter()
                .map(|(n, v)| ExtraField { name: n.to_string(), value: v.to_string() })
                .collect(),
        },
        meta: None,
        trashed: false,
        deleted: false,
        sync_status: SyncStatus::Synced,
        md5: None,
    }
}

#[test]
fn md5_of_known_inputs() {
    // These would fail if the hash wrapper handed its argument back.
    assert_eq!(content_md5(b""), "d41d8cd98f00b204e9800998ecf8427e");
    assert_eq!(content_md5(b"abc"), "900150983cd24fb0d6963f7d28e17f72");
}

#[test]
fn blob_acceptance_follows_the_hash() {
    let good = accept_attachment_blob(b"abc".to_vec(), "900150983cd24fb0d6963f7d28e17f72");
    assert_eq!(good.unwrap(), b"abc".to_vec());
    match accept_attachment_blob(b"abX".to_vec(), "900150983cd24fb0d6963f7d28e17f72") {
        Err(Error::Validation(_)) => {}
        other => panic!("expected a validation error, got {:?}", other),
    }
    assert!(blob_matches_md5(b"abc", "900150983cd24fb0d6963f7d28e17f72"));
    assert!(!blob_matches_md5(b"abc", "d41d8cd98f00b204e9800998ecf8427e"));
}

#[test]
fn attachment_paths_are_canonical() {
    assert_eq!(attachment_folder("K2"), "attachments/K2");
    assert_eq!(attachment_path("K2", "p.pdf"), "attachments/K2/p.pdf");
}

#[test]
fn attachment_integrity_scenario() {
    // The remote's item K2 carries a hash and the filename p.pdf. A clean
    // download lands at the canonical path with that hash; a corrupted
    // body is rejected with a validation error.
    let cloud_md5 = content_md5(b"pdf bytes");
    let item = attachment_item(vec![
        ("linkMode", "imported_file"),
        ("filename", "p.pdf"),
        ("md5", cloud_md5.as_str()),
    ]);
    assert_eq!(attachment_filename(&item), "p.pdf");
    assert_eq!(plan_attachment_download(&item, None), AttachmentPlan::Fetch);
    let blob = accept_attachment_blob(b"pdf bytes".to_vec(), cloud_md5.as_str()).unwrap();
    assert_eq!(attachment_path(&item.key, "p.pdf"), "attachments/K2/p.pdf");
    assert_eq!(content_md5(&blob), cloud_md5);
    match accept_attachment_blob(b"tampered".to_vec(), cloud_md5.as_str()) {
        Err(Error::Validation(_)) => {}
        other => panic!("expected a validation error, got {:?}", other),
    }
}

#[test]
fn download_plan_skips_non_file_attachments() {
    let plain = attachment_item(vec![("linkMode", "linked_url")]);
    assert_eq!(plan_attachment_download(&plain, None), AttachmentPlan::NotFileAttachment);
    let none = attachment_item(vec![]);
    assert_eq!(plan_attachment_download(&none, None), AttachmentPlan::NotFileAttachment);
}

#[test]
fn download_plan_skips_matching_stored_blob() {
    let cloud_md5 = content_md5(b"stored");
    let item = attachment_item(vec![
        ("linkMode", "linked_file"),
        ("filename", "f.bin"),
        ("md5", cloud_md5.as_str()),
    ]);
    let stored = b"stored".to_vec();
    assert_eq!(plan_attachment_download(&item, Some(&stored)), AttachmentPlan::AlreadyPresent);
    let other = b"different".to_vec();
    assert_eq!(plan_attachment_download(&item, Some(&other)), AttachmentPlan::Fetch);
}

#[test]
fn link_modes() {
    assert!(is_file_link_mode("imported_file"));
    assert!(is_file_link_mode("linked_file"));
    assert!(!is_file_link_mode("linked_url"));
}

#[test]
fn blob_paths_split_at_the_last_separator() {
    let (folder, name) = split_blob_path("attachments/K2/p.pdf").unwrap();
    assert_eq!(folder, "attachments/K2");
    assert_eq!(name, "p.pdf");
    match split_blob_path("nofolder") {
        Err(Error::Validation(_)) => {}
        other => panic!("expected a validation error, got {:?}", other),
    }
}

#[test]
fn upload_planning_rejects_non_attachments() {
    let mut book = attachment_item(vec![("filename", "p.pdf")]);
    book.data.item_type = "book".to_string();
    match plan_attachment_upload(&book) {
        Err(Error::Validation(_)) => {}
        other => panic!("expected a validation error, got {:?}", other),
    }
    let attachment = attachment_item(vec![("filename", "p.pdf")]);
    let (folder, name) = plan_attachment_upload(&attachment).unwrap();
    assert_eq!(folder, "attachments/K2");
    assert_eq!(name, "p.pdf");
    let nameless = attachment_item(vec![]);
    let (_, name) = plan_attachment_upload(&nameless).unwrap();
    assert_eq!(name, "unknown");
}

#[test]
fn upload_plans() {
    let exists = UploadAuthorization {
        exists: true,
        upload_url: None,
        upload_key: None,
        params: None,
    };
    assert_eq!(upload_auth_plan(exists).unwrap(), None);
    let upload = UploadAuthorization {
        exists: false,
        upload_url: Some("https://store.example/put".to_string()),
        upload_key: Some("uk".to_string()),
        params: Some(vec![("a".to_string(), "b".to_string())]),
    };
    let (url, key, params) = upload_auth_plan(upload).unwrap().unwrap();
    assert_eq!(url, "https://store.example/put");
    assert_eq!(key, "uk");
    assert_eq!(params.len(), 1);
    let broken = UploadAuthorization {
        exists: false,
        upload_url: Some("https://store.example/put".to_string()),
        upload_key: None,
        params: None,
    };
    match upload_auth_plan(broken) {
        Err(Error::Api { code, .. }) => assert_eq!(code, 500),
        other => panic!("expected an API error, got {:?}", other),
    }
}
