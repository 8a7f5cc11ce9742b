use graphivault::commands::{add_annotation, add_image, add_tag, delete_image, get_vault_info};
use graphivault::database::{
    get_all_images, get_image_annotations, get_image_by_hash, get_image_by_id, get_image_tags, get_vault_meta,
    init_db, insert_image, insert_tag, load_annotation, load_audit_event, load_image, load_tag, log_auth_event,
    purge_image, seed_vault_meta, set_audit_log_writable,
    set_vault_meta, soft_delete_image, VaultStore,
};
use graphivault::records::{AnnotationRecord, AuditEvent, ImageRecord, StoreError, TagRecord};

fn image(hash: &str, created_at: &str) -> ImageRecord {
    ImageRecord {
        id: 0,
        file_hash: hash.to_string(),
        file_name: format!("enc_{}.bin", hash),
        storage_path: format!("encrypted/enc_{}.bin", hash),
        created_at: created_at.to_string(),
        updated_at: created_at.to_string(),
        file_size: 10,
        is_deleted: false,
    }
}

#[test]
fn end_to_end_ingest_tag_delete() {
    let mut store = VaultStore::new();
    let added = add_image(
        &mut store,
        "abc123".to_string(),
        "enc_1.bin".to_string(),
        "encrypted/enc_1.bin".to_string(),
        2048,
    )
    .unwrap();
    assert_eq!(added.value, 1);
    assert_eq!(added.audit_error, None);

    let tag_id = add_tag(&mut store, 1, "vacation".to_string(), None).unwrap();
    assert_eq!(tag_id, 1);
    let tags = get_image_tags(&store, 1);
    assert_eq!(tags.len(), 1);
    assert_eq!(tags[0].tag_name, "vacation");

    let deleted = delete_image(&mut store, 1);
    assert_eq!(deleted.audit_error, None);
    assert!(get_image_by_id(&store, 1).is_none());
    assert!(get_image_by_hash(&store, "abc123").is_none());

    let again = add_image(
        &mut store,
        "abc123".to_string(),
        "enc_2.bin".to_string(),
        "encrypted/enc_2.bin".to_string(),
        2048,
    );
    assert_eq!(again, Err(StoreError::UniqueConstraintViolation));
}

#[test]
fn ingest_stores_fields_and_audits() {
    let mut store = VaultStore::new();
    add_image(&mut store, "h1".to_string(), "n1".to_string(), "p1".to_string(), 2048).unwrap();
    let row = get_image_by_id(&store, 1).unwrap();
    assert_eq!(row.file_hash, "h1");
    assert_eq!(row.file_name, "n1");
    assert_eq!(row.storage_path, "p1");
    assert_eq!(row.file_size, 2048);
    assert!(!row.is_deleted);
    assert_eq!(row.created_at, row.updated_at);
    let events = store.audit_events();
    assert_eq!(events.len(), 1);
    assert_eq!(events[0].event_type, "image_added");
    assert_eq!(events[0].status, "success");
    assert_eq!(events[0].details.as_deref(), Some("Image ID: 1"));
}

#[test]
fn duplicate_hash_is_refused_and_listed_once() {
    let mut store = VaultStore::new();
    assert_eq!(insert_image(&mut store, &image("same", "2024-01-01T00:00:00+00:00")), Ok(1));
    assert_eq!(
        insert_image(&mut store, &image("same", "2024-01-02T00:00:00+00:00")),
        Err(StoreError::UniqueConstraintViolation)
    );
    let listed = get_all_images(&store);
    assert_eq!(listed.iter().filter(|r| r.file_hash == "same").count(), 1);
    assert_eq!(insert_image(&mut store, &image("other", "2024-01-02T00:00:00+00:00")), Ok(2));
}

#[test]
fn soft_delete_hides_but_keeps_row() {
    let mut store = VaultStore::new();
    insert_image(&mut store, &image("h", "2024-01-01T00:00:00+00:00")).unwrap();
    let before = get_image_by_id(&store, 1).unwrap();
    soft_delete_image(&mut store, 1);
    assert!(get_image_by_id(&store, 1).is_none());
    assert!(get_image_by_hash(&store, "h").is_none());
    assert!(get_all_images(&store).is_empty());
    assert_eq!(
        insert_image(&mut store, &image("h", "2024-01-03T00:00:00+00:00")),
        Err(StoreError::UniqueConstraintViolation)
    );
    // The row still exists physically: a tag may still reference it.
    let tag = TagRecord { id: 0, image_id: 1, tag_name: "t".to_string(), tag_type: None, created_at: before.created_at };
    assert_eq!(insert_tag(&mut store, &tag), Ok(1));
}

#[test]
fn soft_delete_of_missing_id_is_not_an_error() {
    let mut store = VaultStore::new();
    insert_image(&mut store, &image("h", "2024-01-01T00:00:00+00:00")).unwrap();
    soft_delete_image(&mut store, 99);
    soft_delete_image(&mut store, 1);
    soft_delete_image(&mut store, 1);
    assert!(get_image_by_id(&store, 1).is_none());
    assert!(get_image_by_id(&store, 99).is_none());
}

#[test]
fn list_active_is_newest_first() {
    let mut store = VaultStore::new();
    insert_image(&mut store, &image("b", "2024-01-02T00:00:00+00:00")).unwrap();
    insert_image(&mut store, &image("a", "2024-01-01T00:00:00+00:00")).unwrap();
    insert_image(&mut store, &image("c", "2024-01-03T00:00:00+00:00")).unwrap();
    let listed = get_all_images(&store);
    let hashes: Vec<&str> = listed.iter().map(|r| r.file_hash.as_str()).collect();
    assert_eq!(hashes, vec!["c", "b", "a"]);
    assert_eq!(listed[0].id, 3);
}

#[test]
fn list_active_equal_times_highest_id_first() {
    let mut store = VaultStore::new();
    insert_image(&mut store, &image("x", "2024-01-01T00:00:00+00:00")).unwrap();
    insert_image(&mut store, &image("y", "2024-01-01T00:00:00+00:00")).unwrap();
    let ids: Vec<i64> = get_all_images(&store).iter().map(|r| r.id).collect();
    assert_eq!(ids, vec![2, 1]);
}

#[test]
fn list_active_empty_store() {
    let store = VaultStore::new();
    assert!(get_all_images(&store).is_empty());
    assert!(get_image_tags(&store, 1).is_empty());
}

#[test]
fn tags_listed_oldest_first() {
    let mut store = VaultStore::new();
    insert_image(&mut store, &image("h", "2024-01-01T00:00:00+00:00")).unwrap();
    insert_image(&mut store, &image("g", "2024-01-01T00:00:00+00:00")).unwrap();
    for (name, at) in [("late", "2024-03-01"), ("early", "2024-01-01"), ("mid", "2024-02-01")] {
        let tag = TagRecord { id: 0, image_id: 1, tag_name: name.to_string(), tag_type: Some("k".to_string()), created_at: at.to_string() };
        insert_tag(&mut store, &tag).unwrap();
    }
    let other = TagRecord { id: 0, image_id: 2, tag_name: "other".to_string(), tag_type: None, created_at: "2024-01-01".to_string() };
    insert_tag(&mut store, &other).unwrap();
    let names: Vec<String> = get_image_tags(&store, 1).into_iter().map(|t| t.tag_name).collect();
    assert_eq!(names, vec!["early", "mid", "late"]);
    assert_eq!(get_image_tags(&store, 2).len(), 1);
}

#[test]
fn duplicate_tag_names_are_allowed() {
    let mut store = VaultStore::new();
    insert_image(&mut store, &image("h", "2024-01-01T00:00:00+00:00")).unwrap();
    assert_eq!(add_tag(&mut store, 1, "x".to_string(), None), Ok(1));
    assert_eq!(add_tag(&mut store, 1, "x".to_string(), None), Ok(2));
    let tags = get_image_tags(&store, 1);
    assert_eq!(tags.len(), 2);
    let mut ids: Vec<i64> = tags.iter().map(|t| t.id).collect();
    ids.sort();
    assert_eq!(ids, vec![1, 2]);
    assert!(tags.iter().all(|t| t.tag_name == "x" && t.image_id == 1));
}

#[test]
fn tag_on_missing_image_is_foreign_key_violation() {
    let mut store = VaultStore::new();
    assert_eq!(add_tag(&mut store, 7, "x".to_string(), None), Err(StoreError::ForeignKeyViolation));
    assert_eq!(add_annotation(&mut store, 7, "note".to_string()), Err(StoreError::ForeignKeyViolation));
}

#[test]
fn annotations_attach_and_list() {
    let mut store = VaultStore::new();
    insert_image(&mut store, &image("h", "2024-01-01T00:00:00+00:00")).unwrap();
    assert_eq!(add_annotation(&mut store, 1, "first".to_string()), Ok(1));
    let notes = get_image_annotations(&store, 1);
    assert_eq!(notes.len(), 1);
    assert_eq!(notes[0].note, "first");
    assert_eq!(notes[0].image_id, 1);
}

#[test]
fn cascade_only_on_removal() {
    let mut store = VaultStore::new();
    insert_image(&mut store, &image("h", "2024-01-01T00:00:00+00:00")).unwrap();
    add_tag(&mut store, 1, "t".to_string(), None).unwrap();
    add_annotation(&mut store, 1, "n".to_string()).unwrap();
    soft_delete_image(&mut store, 1);
    assert_eq!(get_image_tags(&store, 1).len(), 1);
    assert_eq!(get_image_annotations(&store, 1).len(), 1);
    purge_image(&mut store, 1);
    assert!(get_image_tags(&store, 1).is_empty());
    assert!(get_image_annotations(&store, 1).is_empty());
    assert_eq!(add_tag(&mut store, 1, "t".to_string(), None), Err(StoreError::ForeignKeyViolation));
    // The identifier is not reused, and the hash is free again.
    assert_eq!(insert_image(&mut store, &image("h", "2024-01-05T00:00:00+00:00")), Ok(2));
}

#[test]
fn audit_failure_does_not_block_operations() {
    let mut store = VaultStore::new();
    set_audit_log_writable(&mut store, false);
    let added = add_image(&mut store, "h".to_string(), "n".to_string(), "p".to_string(), 1).unwrap();
    assert_eq!(added.value, 1);
    assert_eq!(added.audit_error, Some(StoreError::Unavailable));
    assert!(get_image_by_id(&store, 1).is_some());
    let deleted = delete_image(&mut store, 1);
    assert_eq!(deleted.audit_error, Some(StoreError::Unavailable));
    assert!(get_image_by_id(&store, 1).is_none());
    assert!(store.audit_events().is_empty());
    assert_eq!(log_auth_event(&mut store, "lock", "success", None), Err(StoreError::Unavailable));
}

#[test]
fn audit_log_appends_in_order() {
    let mut store = VaultStore::new();
    log_auth_event(&mut store, "unlock", "failure", Some("bad password")).unwrap();
    log_auth_event(&mut store, "lock", "success", None).unwrap();
    let events = store.audit_events();
    assert_eq!(events.len(), 2);
    assert_eq!(events[0].id, 1);
    assert_eq!(events[0].event_type, "unlock");
    assert_eq!(events[0].status, "failure");
    assert_eq!(events[0].details.as_deref(), Some("bad password"));
    assert_eq!(events[1].id, 2);
    assert_eq!(events[1].details, None);
}

#[test]
fn first_initialize_seeds_three_rows() {
    let mut store = VaultStore::new();
    assert!(init_db(&mut store));
    let rows = store.meta_entries();
    assert_eq!(rows.len(), 3);
    assert_eq!(rows[0].key, "schema_version");
    assert_eq!(rows[0].value, "1");
    assert_eq!(rows[1].key, "vault_id");
    assert_eq!(rows[1].value.len(), 36);
    assert_eq!(rows[2].key, "created_at");
    assert_eq!(rows[2].value, rows[0].last_updated);
    assert!(rows.iter().all(|r| r.last_updated == rows[0].last_updated));

    let vault_id = get_vault_meta(&store, "vault_id");
    let created_at = get_vault_meta(&store, "created_at");
    assert!(!init_db(&mut store));
    assert_eq!(store.meta_entries().len(), 3);
    assert_eq!(get_vault_meta(&store, "vault_id"), vault_id);
    assert_eq!(get_vault_meta(&store, "created_at"), created_at);
}

#[test]
fn seeding_with_given_time_and_id() {
    let mut store = VaultStore::new();
    assert!(seed_vault_meta(&mut store, "2024-05-01T10:00:00+00:00", "id-1"));
    assert!(!seed_vault_meta(&mut store, "2024-06-01T10:00:00+00:00", "id-2"));
    assert_eq!(get_vault_meta(&store, "vault_id").as_deref(), Some("id-1"));
    assert_eq!(get_vault_meta(&store, "created_at").as_deref(), Some("2024-05-01T10:00:00+00:00"));
    assert_eq!(get_vault_meta(&store, "schema_version").as_deref(), Some("1"));
}

#[test]
fn settings_upsert_overwrites() {
    let mut store = VaultStore::new();
    assert_eq!(get_vault_meta(&store, "theme"), None);
    set_vault_meta(&mut store, "theme", "dark");
    set_vault_meta(&mut store, "lang", "en");
    set_vault_meta(&mut store, "theme", "light");
    assert_eq!(get_vault_meta(&store, "theme").as_deref(), Some("light"));
    assert_eq!(get_vault_meta(&store, "lang").as_deref(), Some("en"));
    assert_eq!(store.meta_entries().len(), 2);
}

#[test]
fn vault_info_counts_active_images() {
    let mut store = VaultStore::new();
    seed_vault_meta(&mut store, "2024-05-01T10:00:00+00:00", "vid");
    insert_image(&mut store, &image("a", "2024-01-01T00:00:00+00:00")).unwrap();
    insert_image(&mut store, &image("b", "2024-01-02T00:00:00+00:00")).unwrap();
    soft_delete_image(&mut store, 1);
    let info = get_vault_info(&store);
    assert_eq!(info.vault_id.as_deref(), Some("vid"));
    assert_eq!(info.created_at.as_deref(), Some("2024-05-01T10:00:00+00:00"));
    assert_eq!(info.schema_version.as_deref(), Some("1"));
    assert_eq!(info.total_images, 1);
    assert_eq!(info.status, "active");
}

#[test]
fn loaders_restore_rows_under_their_ids() {
    let mut store = VaultStore::new();
    let mut row = image("h", "2024-01-01T00:00:00+00:00");
    row.id = 5;
    row.is_deleted = true;
    assert_eq!(load_image(&mut store, row.clone()), Ok(()));
    assert_eq!(store.image_rows(), vec![row]);
    assert!(get_image_by_id(&store, 5).is_none());
    let tag = TagRecord { id: 3, image_id: 5, tag_name: "t".to_string(), tag_type: None, created_at: "x".to_string() };
    assert_eq!(load_tag(&mut store, tag), Ok(()));
    let note = AnnotationRecord { id: 9, image_id: 5, note: "n".to_string(), created_at: "x".to_string() };
    assert_eq!(load_annotation(&mut store, note), Ok(()));
    let event = AuditEvent { id: 2, event_type: "lock".to_string(), timestamp: "x".to_string(), status: "success".to_string(), details: None };
    assert_eq!(load_audit_event(&mut store, event), Ok(()));
    // New rows continue after the restored identifiers.
    assert_eq!(insert_image(&mut store, &image("g", "2024-01-02T00:00:00+00:00")), Ok(6));
    assert_eq!(add_tag(&mut store, 6, "u".to_string(), None), Ok(4));
    assert_eq!(add_annotation(&mut store, 6, "m".to_string()), Ok(10));
    log_auth_event(&mut store, "unlock", "success", None).unwrap();
    assert_eq!(store.audit_events()[1].id, 3);
}

#[test]
fn loaders_refuse_bad_rows() {
    let mut store = VaultStore::new();
    let mut row = image("h", "2024-01-01T00:00:00+00:00");
    row.id = 5;
    load_image(&mut store, row.clone()).unwrap();
    let mut again = image("other", "2024-01-01T00:00:00+00:00");
    again.id = 5;
    assert_eq!(load_image(&mut store, again), Err(StoreError::OutOfOrder));
    row.id = 8;
    assert_eq!(load_image(&mut store, row), Err(StoreError::UniqueConstraintViolation));
    let orphan = TagRecord { id: 1, image_id: 77, tag_name: "t".to_string(), tag_type: None, created_at: "x".to_string() };
    assert_eq!(load_tag(&mut store, orphan), Err(StoreError::ForeignKeyViolation));
    let mut big = image("max", "2024-01-01T00:00:00+00:00");
    big.id = i64::MAX;
    assert_eq!(load_image(&mut store, big), Err(StoreError::OutOfOrder));
}

#[test]
fn ids_exhausted_after_largest_id() {
    let mut store = VaultStore::new();
    let mut row = image("h", "2024-01-01T00:00:00+00:00");
    row.id = i64::MAX - 1;
    load_image(&mut store, row).unwrap();
    assert_eq!(insert_image(&mut store, &image("g", "2024-01-01T00:00:00+00:00")), Err(StoreError::IdsExhausted));
    assert!(get_image_by_hash(&store, "g").is_none());
}
