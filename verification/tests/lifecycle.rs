use file_service::enums::{FileStatus, FileType};
use file_service::error::FileError;
use file_service::file_service::FileService;
use file_service::models::CreateFileRequest;
use file_service::store::FileStore;
use file_service::usage_service::UsageService;

fn request(name: &str, key: &str, size: i64) -> CreateFileRequest {
    CreateFileRequest {
        filename: name.to_string(),
        storage_key: key.to_string(),
        file_type: FileType::Post,
        mime_type: "image/png".to_string(),
        file_size: size,
        uploader_id: 7,
    }
}

#[test]
fn created_files_start_unused_and_are_retrievable() {
    let mut store = FileStore::new();
    let file = FileService::create_file(&mut store, request("a.png", "k/a.png", 123), 1_000)
        .unwrap();
    assert_eq!(file.status, FileStatus::Unused);
    assert_eq!(file.file_size, 123);
    assert_eq!(file.filename, "a.png");
    assert_eq!(file.created_at, 1_000);
    assert_eq!(file.updated_at, 1_000);

    let looked_up = FileService::get_file_by_id(&store, file.id).unwrap();
    assert_eq!(looked_up.id, file.id);
    assert_eq!(looked_up.status, FileStatus::Unused);
}

#[test]
fn lookup_of_unknown_id_is_not_found() {
    let store = FileStore::new();
    match FileService::get_file_by_id(&store, 42) {
        Err(FileError::FileNotFound(id)) => assert_eq!(id, 42),
        other => panic!("expected FileNotFound, got {:?}", other),
    }
}

#[test]
fn batch_lookup_is_best_effort() {
    let mut store = FileStore::new();
    let a = FileService::create_file(&mut store, request("a.png", "k/a", 1), 10).unwrap();
    let b = FileService::create_file(&mut store, request("b.png", "k/b", 2), 20).unwrap();
    let wanted = vec![a.id, 999_999, b.id];
    let found = FileService::get_files_by_ids(&store, &wanted);
    assert_eq!(found.len(), 2);
    assert_eq!(found[0].id, a.id);
    assert_eq!(found[1].id, b.id);
}

#[test]
fn batch_info_validates_the_id_list() {
    let mut store = FileStore::new();
    let a = FileService::create_file(&mut store, request("a.png", "k/a", 1), 10).unwrap();
    assert!(matches!(
        FileService::batch_info(&store, &Vec::new()),
        Err(FileError::EmptyIdList)
    ));
    let too_many: Vec<u128> = (0..101u128).collect();
    match FileService::batch_info(&store, &too_many) {
        Err(FileError::TooManyIds { count, max }) => {
            assert_eq!(count, 101);
            assert_eq!(max, 100);
        },
        other => panic!("expected TooManyIds, got {:?}", other),
    }
    let ok = FileService::batch_info(&store, &vec![a.id]).unwrap();
    assert_eq!(ok.len(), 1);
}

#[test]
fn mark_used_then_unused_returns_to_unused() {
    let mut store = FileStore::new();
    let file = FileService::create_file(&mut store, request("a.png", "k/a", 1), 10).unwrap();

    let usage =
        UsageService::mark_used(&mut store, file.id, "post".to_string(), 55, 20).unwrap();
    assert_eq!(usage.file_id, file.id);
    assert_eq!(usage.usage_type, "post");
    assert_eq!(usage.usage_id, 55);
    assert_eq!(
        FileService::get_file_by_id(&store, file.id).unwrap().status,
        FileStatus::Used
    );

    let remaining = UsageService::mark_unused(&mut store, file.id, "post", 55, 30).unwrap();
    assert_eq!(remaining, 0);
    assert_eq!(
        FileService::get_file_by_id(&store, file.id).unwrap().status,
        FileStatus::Unused
    );
}

#[test]
fn mark_unused_without_prior_reference_fails() {
    let mut store = FileStore::new();
    let file = FileService::create_file(&mut store, request("a.png", "k/a", 1), 10).unwrap();
    assert!(matches!(
        UsageService::mark_unused(&mut store, file.id, "post", 55, 20),
        Err(FileError::UsageNotFound)
    ));
    // present type but different id is also no match
    UsageService::mark_used(&mut store, file.id, "post".to_string(), 55, 20).unwrap();
    assert!(matches!(
        UsageService::mark_unused(&mut store, file.id, "post", 56, 30),
        Err(FileError::UsageNotFound)
    ));
}

#[test]
fn marking_the_same_triple_twice_conflicts() {
    let mut store = FileStore::new();
    let file = FileService::create_file(&mut store, request("a.png", "k/a", 1), 10).unwrap();
    UsageService::mark_used(&mut store, file.id, "post".to_string(), 55, 20).unwrap();
    assert!(matches!(
        UsageService::mark_used(&mut store, file.id, "post".to_string(), 55, 21),
        Err(FileError::AlreadyMarked)
    ));
    assert_eq!(UsageService::get_file_usages(&store, file.id).len(), 1);
}

#[test]
fn removing_one_of_many_references_keeps_the_file_used() {
    let mut store = FileStore::new();
    let file = FileService::create_file(&mut store, request("a.png", "k/a", 1), 10).unwrap();
    UsageService::mark_used(&mut store, file.id, "post".to_string(), 1, 20).unwrap();
    UsageService::mark_used(&mut store, file.id, "post".to_string(), 2, 21).unwrap();
    UsageService::mark_used(&mut store, file.id, "profile".to_string(), 1, 22).unwrap();

    let remaining = UsageService::mark_unused(&mut store, file.id, "post", 1, 30).unwrap();
    assert_eq!(remaining, 2);
    assert_eq!(
        FileService::get_file_by_id(&store, file.id).unwrap().status,
        FileStatus::Used
    );

    let remaining = UsageService::mark_unused(&mut store, file.id, "post", 2, 31).unwrap();
    assert_eq!(remaining, 1);
    assert_eq!(
        FileService::get_file_by_id(&store, file.id).unwrap().status,
        FileStatus::Used
    );

    let remaining = UsageService::mark_unused(&mut store, file.id, "profile", 1, 32).unwrap();
    assert_eq!(remaining, 0);
    assert_eq!(
        FileService::get_file_by_id(&store, file.id).unwrap().status,
        FileStatus::Unused
    );
}

#[test]
fn a_deleted_file_cannot_be_marked_used() {
    let mut store = FileStore::new();
    let file = FileService::create_file(&mut store, request("a.png", "k/a", 1), 10).unwrap();
    FileService::mark_file_deleted(&mut store, file.id, 20).unwrap();
    assert!(matches!(
        UsageService::mark_used(&mut store, file.id, "post".to_string(), 1, 30),
        Err(FileError::FileNotFound(_))
    ));
}

#[test]
fn mark_file_deleted_cascades_usages_and_is_idempotent() {
    let mut store = FileStore::new();
    let file = FileService::create_file(&mut store, request("a.png", "k/a", 1), 10).unwrap();
    UsageService::mark_used(&mut store, file.id, "post".to_string(), 1, 20).unwrap();
    UsageService::mark_used(&mut store, file.id, "reply".to_string(), 2, 21).unwrap();
    assert_eq!(UsageService::get_file_usages(&store, file.id).len(), 2);

    FileService::mark_file_deleted(&mut store, file.id, 30).unwrap();
    let gone = FileService::get_file_by_id(&store, file.id).unwrap();
    assert_eq!(gone.status, FileStatus::Deleted);
    assert_eq!(gone.updated_at, 30);
    assert_eq!(UsageService::get_file_usages(&store, file.id).len(), 0);

    // deleting again is a no-op, not an error
    FileService::mark_file_deleted(&mut store, file.id, 40).unwrap();
    assert_eq!(
        FileService::get_file_by_id(&store, file.id).unwrap().updated_at,
        30
    );
}

#[test]
fn update_file_status_touches_only_live_rows() {
    let mut store = FileStore::new();
    let file = FileService::create_file(&mut store, request("a.png", "k/a", 1), 10).unwrap();
    FileService::update_file_status(&mut store, file.id, FileStatus::Used, 20).unwrap();
    assert_eq!(
        FileService::get_file_by_id(&store, file.id).unwrap().status,
        FileStatus::Used
    );
    FileService::mark_file_deleted(&mut store, file.id, 30).unwrap();
    assert!(matches!(
        FileService::update_file_status(&mut store, file.id, FileStatus::Unused, 40),
        Err(FileError::FileNotFound(_))
    ));
}

#[test]
fn error_codes_and_status_codes_are_stable() {
    assert_eq!(FileError::AlreadyMarked.error_code(), 70003004);
    assert_eq!(FileError::UsageNotFound.error_code(), 70004002);
    assert_eq!(FileError::FileNotFound(1).error_code(), 70002001);
    assert_eq!(FileError::PathTraversal.error_code(), 70000004);
    assert_eq!(FileError::EmptyIdList.error_code(), 70006001);
    assert_eq!(FileError::AlreadyMarked.status_code(), 409);
    assert_eq!(FileError::FileNotFound(1).status_code(), 404);
    assert_eq!(FileError::Forbidden.status_code(), 403);
    assert_eq!(FileError::FileTooLarge { size: 9, max: 1 }.status_code(), 413);
}
