use file_service::cleanup_log::CleanupStatus;
use file_service::cleanup_service::CleanupService;
use file_service::enums::{FileStatus, FileType};
use file_service::file_service::FileService;
use file_service::models::CreateFileRequest;
use file_service::storage::{MemoryStorageBackend, StorageBackend};
use file_service::store::FileStore;
use file_service::usage_service::UsageService;
use file_service::MS_PER_DAY;

const NOW: i64 = 200 * MS_PER_DAY;

fn request(key: &str, size: i64) -> CreateFileRequest {
    CreateFileRequest {
        filename: format!("{}.png", key),
        storage_key: key.to_string(),
        file_type: FileType::Post,
        mime_type: "image/png".to_string(),
        file_size: size,
        uploader_id: 1,
    }
}

/// A store with one uploaded object per file, created at the given age in
/// days before NOW.
fn seed(
    store: &mut FileStore,
    storage: &mut MemoryStorageBackend,
    key: &str,
    size: i64,
    age_days: i64,
) -> u128 {
    let created = NOW - age_days * MS_PER_DAY;
    let f = FileService::create_file(store, request(key, size), created).unwrap();
    storage
        .upload(key, vec![0u8; size as usize], "image/png")
        .unwrap();
    f.id
}

#[test]
fn dry_runs_mutate_nothing() {
    let mut store = FileStore::new();
    let mut storage = MemoryStorageBackend::new("http://files".to_string());
    seed(&mut store, &mut storage, "old/a", 100, 90);
    seed(&mut store, &mut storage, "old/b", 200, 60);
    seed(&mut store, &mut storage, "new/c", 300, 1);

    let r = CleanupService::cleanup_unused_files(&mut store, &mut storage, 30, 10, true, NOW);
    assert_eq!(r.files_deleted, 2);
    assert_eq!(r.space_freed, 300);
    assert_eq!(r.status, CleanupStatus::Success);
    assert!(r.errors.is_empty());

    // nothing moved: no file row, no usage row, no audit row, no object
    assert_eq!(store.cleanup_logs.len(), 0);
    assert_eq!(store.files.len(), 3);
    assert!(store
        .files
        .iter()
        .all(|f| f.status == FileStatus::Unused));
    assert_eq!(storage.objects.len(), 3);
}

#[test]
fn a_clean_run_reclaims_every_eligible_file() {
    let mut store = FileStore::new();
    let mut storage = MemoryStorageBackend::new("http://files".to_string());
    let a = seed(&mut store, &mut storage, "old/a", 100, 90);
    let b = seed(&mut store, &mut storage, "old/b", 200, 60);
    let young = seed(&mut store, &mut storage, "new/c", 300, 1);

    let r = CleanupService::cleanup_unused_files(&mut store, &mut storage, 30, 10, false, NOW);
    assert_eq!(r.files_deleted, 2);
    assert_eq!(r.space_freed, 300);
    assert_eq!(r.status, CleanupStatus::Success);

    assert_eq!(
        FileService::get_file_by_id(&store, a).unwrap().status,
        FileStatus::Deleted
    );
    assert_eq!(
        FileService::get_file_by_id(&store, b).unwrap().status,
        FileStatus::Deleted
    );
    assert_eq!(
        FileService::get_file_by_id(&store, young).unwrap().status,
        FileStatus::Unused
    );
    // payloads of reclaimed files are gone, the young one stays
    assert_eq!(storage.key_exists("old/a").unwrap(), false);
    assert_eq!(storage.key_exists("old/b").unwrap(), false);
    assert_eq!(storage.key_exists("new/c").unwrap(), true);
    // one audit row
    assert_eq!(store.cleanup_logs.len(), 1);
    assert_eq!(store.cleanup_logs[0].files_deleted, 2);
    assert_eq!(store.cleanup_logs[0].space_freed, 300);
    assert_eq!(store.cleanup_logs[0].status, CleanupStatus::Success);
}

#[test]
fn three_files_in_batches_of_two() {
    let mut store = FileStore::new();
    let mut storage = MemoryStorageBackend::new("http://files".to_string());
    seed(&mut store, &mut storage, "old/a", 100, 40);
    seed(&mut store, &mut storage, "old/b", 200, 50);
    seed(&mut store, &mut storage, "old/c", 300, 60);

    let r = CleanupService::cleanup_unused_files(&mut store, &mut storage, 30, 2, false, NOW);
    assert_eq!(r.files_deleted, 3);
    assert_eq!(r.space_freed, 600);
    assert_eq!(r.space_freed_pretty, "600 bytes");
    assert_eq!(r.status, CleanupStatus::Success);
    assert!(r.errors.is_empty());
    assert!(store
        .files
        .iter()
        .all(|f| f.status == FileStatus::Deleted));
}

#[test]
fn one_failing_delete_makes_the_run_partial() {
    let mut store = FileStore::new();
    let mut storage = MemoryStorageBackend::new("http://files".to_string());
    seed(&mut store, &mut storage, "old/a", 100, 90);
    let failing = seed(&mut store, &mut storage, "old/b", 200, 60);
    seed(&mut store, &mut storage, "old/c", 300, 45);
    storage.fail_deletes_of("old/b".to_string());

    let r = CleanupService::cleanup_unused_files(&mut store, &mut storage, 30, 10, false, NOW);
    assert_eq!(r.files_deleted, 2);
    assert_eq!(r.space_freed, 400);
    assert_eq!(r.status, CleanupStatus::Partial);
    assert_eq!(r.errors.len(), 1);
    assert_eq!(r.errors[0].file_id, failing);

    // the failed file stays Unused and eligible for the next run
    assert_eq!(
        FileService::get_file_by_id(&store, failing).unwrap().status,
        FileStatus::Unused
    );
    assert_eq!(store.cleanup_logs.len(), 1);
    assert_eq!(store.cleanup_logs[0].status, CleanupStatus::Partial);
    assert_eq!(store.cleanup_logs[0].errors.len(), 1);
}

#[test]
fn a_run_where_every_delete_fails_reports_failure() {
    let mut store = FileStore::new();
    let mut storage = MemoryStorageBackend::new("http://files".to_string());
    seed(&mut store, &mut storage, "old/a", 100, 90);
    storage.fail_deletes_of("old/a".to_string());

    let r = CleanupService::cleanup_unused_files(&mut store, &mut storage, 30, 10, false, NOW);
    assert_eq!(r.files_deleted, 0);
    assert_eq!(r.space_freed, 0);
    assert_eq!(r.status, CleanupStatus::Failed);
    assert_eq!(r.errors.len(), 1);
}

#[test]
fn deleted_files_are_never_reselected() {
    let mut store = FileStore::new();
    let mut storage = MemoryStorageBackend::new("http://files".to_string());
    let a = seed(&mut store, &mut storage, "old/a", 100, 90);

    let first = CleanupService::cleanup_unused_files(&mut store, &mut storage, 30, 10, false, NOW);
    assert_eq!(first.files_deleted, 1);
    let stamp = FileService::get_file_by_id(&store, a).unwrap().updated_at;

    // the row is ancient by creation time, but Deleted: a second run skips it
    let second =
        CleanupService::cleanup_unused_files(&mut store, &mut storage, 30, 10, false, NOW + 1);
    assert_eq!(second.files_deleted, 0);
    assert_eq!(second.status, CleanupStatus::Success);
    assert_eq!(
        FileService::get_file_by_id(&store, a).unwrap().updated_at,
        stamp
    );
    // the audit trail is append-only: one row per real run
    assert_eq!(store.cleanup_logs.len(), 2);
    assert_eq!(store.cleanup_logs[0].id, 0);
    assert_eq!(store.cleanup_logs[1].id, 1);
    assert_eq!(store.cleanup_logs[1].files_deleted, 0);
}

#[test]
fn used_files_are_not_reclaimed() {
    let mut store = FileStore::new();
    let mut storage = MemoryStorageBackend::new("http://files".to_string());
    let a = seed(&mut store, &mut storage, "old/a", 100, 90);
    UsageService::mark_used(&mut store, a, "post".to_string(), 1, NOW).unwrap();

    let r = CleanupService::cleanup_unused_files(&mut store, &mut storage, 30, 10, false, NOW);
    assert_eq!(r.files_deleted, 0);
    assert_eq!(
        FileService::get_file_by_id(&store, a).unwrap().status,
        FileStatus::Used
    );
}

#[test]
fn age_filter_is_strictly_older_than_the_threshold() {
    let mut store = FileStore::new();
    let mut storage = MemoryStorageBackend::new("http://files".to_string());
    let cutoff = NOW - 30 * MS_PER_DAY;

    let at_cutoff =
        FileService::create_file(&mut store, request("edge/a", 10), cutoff).unwrap();
    let just_older =
        FileService::create_file(&mut store, request("edge/b", 10), cutoff - 1).unwrap();
    storage.upload("edge/a", vec![0u8; 10], "image/png").unwrap();
    storage.upload("edge/b", vec![0u8; 10], "image/png").unwrap();

    let r = CleanupService::cleanup_unused_files(&mut store, &mut storage, 30, 10, false, NOW);
    assert_eq!(r.files_deleted, 1);
    assert_eq!(
        FileService::get_file_by_id(&store, at_cutoff.id).unwrap().status,
        FileStatus::Unused
    );
    assert_eq!(
        FileService::get_file_by_id(&store, just_older.id).unwrap().status,
        FileStatus::Deleted
    );
}

#[test]
fn admin_delete_removes_payload_and_soft_deletes_the_row() {
    let mut store = FileStore::new();
    let mut storage = MemoryStorageBackend::new("http://files".to_string());
    let a = seed(&mut store, &mut storage, "k/a", 100, 1);
    UsageService::mark_used(&mut store, a, "post".to_string(), 1, NOW).unwrap();

    FileService::delete_file(&mut store, &mut storage, a, NOW).unwrap();
    assert_eq!(
        FileService::get_file_by_id(&store, a).unwrap().status,
        FileStatus::Deleted
    );
    assert_eq!(storage.key_exists("k/a").unwrap(), false);
    assert_eq!(UsageService::get_file_usages(&store, a).len(), 0);
}
