use qr_paste::ids::{id_string, new_id};
use qr_paste::names::{sanitize_base_name, sanitize_file_name};
use qr_paste::server::upload_store::{
    parse_upload_name, AttachError, Delivery, DirEntry, ExpiredAction, FileStatus, Leftover,
    SaveFileError, SendChunkResult, SendTerminalResult, UploadLimitError, UploadStore,
};

const SECOND: i128 = 1_000_000_000;
const NOW: i128 = 1_000_000 * SECOND;

fn store_limit_1() -> UploadStore {
    UploadStore::new(1024 * 1024 * 1024, 10, 1, u64::MAX)
}

fn store_loose() -> UploadStore {
    UploadStore::new(1024 * 1024, 10, 100, u64::MAX)
}

fn begin(
    store: &mut UploadStore,
    pairing_id: u128,
    name: &str,
) -> Result<(u128, [u8; 32], String), SaveFileError> {
    store.begin_upload(pairing_id, name, "text/plain".to_string(), NOW)
}

#[test]
fn quota_lifecycle_begin_upload_occupies_quota() {
    let mut store = store_limit_1();
    let pairing_id = new_id();

    assert!(begin(&mut store, pairing_id, "file.txt").is_ok());

    let result = begin(&mut store, pairing_id, "file2.txt");
    assert!(
        matches!(result, Err(SaveFileError::Limit(UploadLimitError::GlobalFileLimitReached))),
        "second begin_upload should fail with GlobalFileLimitReached, got {result:?}"
    );
}

#[test]
fn quota_lifecycle_rollback_releases_quota() {
    let mut store = store_limit_1();
    let pairing_id = new_id();

    let (file_id, ..) = begin(&mut store, pairing_id, "file.txt").unwrap();

    store.rollback_upload(file_id, pairing_id);

    assert!(
        begin(&mut store, pairing_id, "file2.txt").is_ok(),
        "after rollback quota should be released"
    );
}

#[test]
fn quota_lifecycle_streaming_done_keeps_quota() {
    let mut store = store_limit_1();
    let pairing_id = new_id();

    let (file_id, ..) = begin(&mut store, pairing_id, "file.txt").unwrap();

    store.mark_streaming_done(file_id, "/tmp/fake".to_string(), 1024, [0u8; 32]);

    let result = begin(&mut store, pairing_id, "file2.txt");
    assert!(
        matches!(result, Err(SaveFileError::Limit(UploadLimitError::GlobalFileLimitReached))),
        "after mark_streaming_done quota should still be occupied"
    );
}

#[test]
fn quota_lifecycle_remove_file_releases_quota() {
    let mut store = store_limit_1();
    let pairing_id = new_id();

    let (file_id, ..) = begin(&mut store, pairing_id, "file.txt").unwrap();

    store.remove_file(file_id);

    assert!(
        begin(&mut store, pairing_id, "file2.txt").is_ok(),
        "after remove_file quota should be released"
    );
}

#[test]
fn streaming_state_remove_idempotent() {
    let mut store = store_loose();
    let file_id = new_id();

    store.create_streaming_state(file_id, 1);
    store.remove_streaming_state(file_id);
    store.remove_streaming_state(file_id);

    store.remove_streaming_state(new_id());
    assert_eq!(store.sender(file_id), None);
}

#[test]
fn streaming_state_attach_succeeds_once() {
    let mut store = store_loose();
    let file_id = new_id();

    store.create_streaming_state(file_id, 1);

    assert!(store.attach_stream(file_id).is_ok());
    assert!(matches!(store.attach_stream(file_id), Err(AttachError::AlreadyAttached)));
}

#[test]
fn streaming_state_attach_not_found() {
    let mut store = store_loose();
    assert!(matches!(store.attach_stream(new_id()), Err(AttachError::NotFound)));
}

#[test]
fn streaming_state_cleanup_after_file_received_failure() {
    let mut store = store_loose();
    let file_id = new_id();

    store.create_streaming_state(file_id, 1);
    store.remove_streaming_state(file_id);

    assert!(matches!(store.attach_stream(file_id), Err(AttachError::NotFound)));
}

#[test]
fn streaming_state_cleanup_after_send_abort() {
    let mut store = store_loose();
    let file_id = new_id();

    store.create_streaming_state(file_id, 1);
    let _rx = store.attach_stream(file_id).unwrap();
    store.send_abort(file_id, Delivery::Delivered);

    assert!(matches!(store.attach_stream(file_id), Err(AttachError::AlreadyAttached)));

    store.remove_streaming_state(file_id);
    assert!(matches!(store.attach_stream(file_id), Err(AttachError::NotFound)));
}

#[test]
fn streaming_state_cleanup_after_send_end() {
    let mut store = store_loose();
    let file_id = new_id();

    store.create_streaming_state(file_id, 1);
    store.send_end(file_id, Delivery::Delivered);

    assert!(
        store.attach_stream(file_id).is_ok()
            || matches!(store.attach_stream(file_id), Err(AttachError::AlreadyAttached)),
        "state should still exist after send_end"
    );

    store.remove_streaming_state(file_id);
    assert!(matches!(store.attach_stream(file_id), Err(AttachError::NotFound)));
}

#[test]
fn streaming_concurrent_attach_only_one_succeeds() {
    let mut store = store_loose();
    let file_id = new_id();
    store.create_streaming_state(file_id, 1);

    let results: Vec<_> = (0..10).map(|_| store.attach_stream(file_id)).collect();

    let ok_count = results.iter().filter(|r| r.is_ok()).count();
    let already_attached_count =
        results.iter().filter(|r| matches!(r, Err(AttachError::AlreadyAttached))).count();

    assert_eq!(ok_count, 1, "exactly one attach should succeed");
    assert_eq!(already_attached_count, 9, "remaining 9 should be AlreadyAttached");
}

#[test]
fn begin_upload_generates_unique_tokens() {
    let mut store = store_loose();
    let p = new_id();
    let (_, token1, _) = begin(&mut store, p, "a.txt").unwrap();
    let (_, token2, _) = begin(&mut store, p, "b.txt").unwrap();
    assert_ne!(token1, token2, "tokens must be unique");
}

#[test]
fn quota_global_file_limit_rollback_then_reuse() {
    let mut store = store_limit_1();
    let pairing_id = new_id();

    let (file_id, ..) = begin(&mut store, pairing_id, "file.txt").unwrap();

    assert!(matches!(
        begin(&mut store, pairing_id, "file2.txt"),
        Err(SaveFileError::Limit(UploadLimitError::GlobalFileLimitReached))
    ));

    store.rollback_upload(file_id, pairing_id);
    assert!(
        begin(&mut store, pairing_id, "file3.txt").is_ok(),
        "after rollback quota should be freed for reuse"
    );
}

#[test]
fn quota_byte_limit_enforced() {
    let mut store = UploadStore::new(30, 10, 100, 50);
    let p = new_id();

    assert!(
        begin(&mut store, p, "a.txt").is_ok(),
        "first upload (30 bytes reserved) should fit within 50-byte global limit"
    );

    let result = begin(&mut store, p, "b.txt");
    assert!(
        matches!(result, Err(SaveFileError::Limit(UploadLimitError::GlobalByteLimitReached))),
        "second upload should exceed global byte limit, got {result:?}"
    );
}

#[test]
fn streaming_state_removed_after_send_abort_without_attach() {
    let mut store = store_loose();
    let file_id = new_id();
    store.create_streaming_state(file_id, 1);

    store.send_abort(file_id, Delivery::Delivered);

    store.remove_streaming_state(file_id);
    assert!(
        matches!(store.attach_stream(file_id), Err(AttachError::NotFound)),
        "streaming state should be removed after explicit remove_streaming_state"
    );
}

#[test]
fn send_chunk_disconnected_when_no_receiver() {
    let mut store = store_loose();
    let file_id = new_id();
    store.create_streaming_state(file_id, 1);

    let _rx = store.attach_stream(file_id).unwrap();

    let result = store.send_chunk(file_id, Delivery::Closed);
    assert_eq!(result, SendChunkResult::Disconnected);
    assert_eq!(store.send_chunk(file_id, Delivery::TimedOut), SendChunkResult::Timeout);
    assert_eq!(store.send_chunk(file_id, Delivery::Delivered), SendChunkResult::Sent);
    assert_eq!(store.send_chunk(new_id(), Delivery::Delivered), SendChunkResult::Disconnected);
    assert_eq!(
        store.send_abort(new_id(), Delivery::Delivered),
        SendTerminalResult::Disconnected
    );
    assert_eq!(store.send_abort(file_id, Delivery::TimedOut), SendTerminalResult::Timeout);
}

#[test]
fn mark_streaming_done_sets_status_to_notified() {
    let mut store = store_loose();
    let pairing_id = new_id();
    let (file_id, ..) = begin(&mut store, pairing_id, "f.txt").unwrap();

    store.mark_streaming_done(file_id, "/tmp/x".to_string(), 1024, [0u8; 32]);

    let meta = store.get_file_meta(file_id).unwrap();
    assert_eq!(meta.status, FileStatus::Notified);
}

#[test]
fn every_limit_has_its_error() {
    let mut store = UploadStore::new(10, 1, 100, u64::MAX);
    assert!(begin(&mut store, 1, "a").is_ok());
    assert!(matches!(
        begin(&mut store, 1, "b"),
        Err(SaveFileError::Limit(UploadLimitError::PerPairingFileLimitReached))
    ));
    assert!(begin(&mut store, 2, "c").is_ok());
    store.cleanup_pairing(1);
    assert!(matches!(
        begin(&mut store, 1, "d"),
        Err(SaveFileError::Limit(UploadLimitError::PairingClosed))
    ));
}

#[test]
fn a_file_goes_through_its_statuses() {
    let mut store = store_loose();
    let (id, token, name) = begin(&mut store, 1, "dir/a\"b.txt").unwrap();
    assert_eq!(name, "ab.txt");
    let (saved, left) = store.save_file_from_field(
        id,
        1,
        Ok((3, "d1".to_string())),
        Ok(()),
        "/up/x".to_string(),
    );
    assert!(saved.is_ok());
    assert_eq!(left, Leftover::Nothing);
    let meta = store.get_file_meta(id).unwrap();
    assert_eq!(meta.status, FileStatus::StoredUnnotified);
    assert_eq!(meta.size_bytes, 3);
    assert_eq!(meta.file_access_token, token);
    assert_eq!(meta.sha256, "d1");
    assert_eq!(store.get_file_path(id).as_deref(), Some("/up/x"));
    assert!(store.begin_notifying(id, 1));
    assert_eq!(store.get_file_meta(id).unwrap().status, FileStatus::Notifying);
    store.mark_notified(id);
    assert_eq!(store.get_file_meta(id).unwrap().status, FileStatus::Notified);
    assert_eq!(store.remove_file(id).as_deref(), Some("/up/x"));
    assert_eq!(store.remove_file(id), None);
}

#[test]
fn a_pairing_that_is_gone_gets_no_notice() {
    let mut store = store_loose();
    let (id, ..) = begin(&mut store, 1, "a").unwrap();
    store.save_file_from_field(id, 1, Ok((3, String::new())), Ok(()), "/up/x".to_string());
    assert_eq!(store.cleanup_pairing(1), vec!["/up/x".to_string()]);
    assert!(!store.begin_notifying(id, 1));
    assert!(store.get_file_meta(id).is_none());
}

#[test]
fn a_write_that_fails_gives_the_room_back() {
    let mut store = store_limit_1();
    let (id, ..) = begin(&mut store, 1, "a").unwrap();
    let (saved, left) = store.save_file_from_field(
        id,
        1,
        Err(SaveFileError::TooLarge),
        Ok(()),
        "/up/x".to_string(),
    );
    assert!(matches!(saved, Err(SaveFileError::TooLarge)));
    assert_eq!(left, Leftover::Temporary);
    assert!(begin(&mut store, 1, "b").is_ok());
}

fn entry(name: &str, age: u64, size: u64) -> DirEntry {
    DirEntry {
        name: name.to_string(),
        path: format!("/up/{name}"),
        is_file: true,
        age_secs: Some(age),
        size,
    }
}

#[test]
fn leftovers_are_counted_and_expire() {
    let id = new_id();
    assert_eq!(parse_upload_name(&id_string(id)), Some(id));
    assert_eq!(parse_upload_name(&format!(".{}.tmp", id_string(id))), Some(id));
    assert_eq!(parse_upload_name("notes.txt"), None);
    let mut store = UploadStore::new(10, 10, 2, 1000);
    let stats = store.rebuild_baseline(&vec![entry(&id_string(id), 5, 7)], 60, NOW);
    assert_eq!((stats.scanned, stats.accepted, stats.accepted_bytes), (1, 1, 7));
    assert!(begin(&mut store, 1, "a").is_ok());
    assert!(begin(&mut store, 1, "b").is_err());
    assert_eq!(store.cleanup_expired(&entry(&id_string(id), 5, 7), 60), ExpiredAction::Keep);
    match store.cleanup_expired(&entry(&id_string(id), 61, 7), 60) {
        ExpiredAction::Delete(file) => {
            assert_eq!(file, Some(id));
            store.forget_expired(file);
        }
        other => panic!("{other:?}"),
    }
    assert!(begin(&mut store, 1, "c").is_ok());
    assert_eq!(
        store.cleanup_expired(&entry("notes.txt", 61, 7), 60),
        ExpiredAction::Delete(None)
    );
}

#[test]
fn stored_names_are_safe() {
    let id = 0x550e8400_e29b_41d4_a716_446655440000;
    assert_eq!(sanitize_file_name("/etc/passwd", &id), "passwd");
    assert_eq!(sanitize_base_name(" NUL.txt. ", &id), "_NUL.txt");
    assert_eq!(sanitize_base_name("\u{1}\"", &id), "550e8400-e29b-41d4-a716-446655440000");
    assert_eq!(sanitize_base_name("a .", &id), "a ");
    let ext = sanitize_base_name(&format!("a.{}", "e".repeat(300)), &id);
    assert_eq!(ext, format!(".{}", "e".repeat(254)));
    let long = sanitize_base_name(&format!("{}.png", "你".repeat(100)), &id);
    assert!(long.len() <= 255 && long.ends_with(".png"));
}
