use file_service::auth::{get_current_user_id, is_admin, require_admin};
use file_service::enums::{FileStatus, FileType};
use file_service::error::FileError;
use file_service::file_service::FileService;
use file_service::ids::{parse_file_id, parse_uuid};
use file_service::models::CreateFileRequest;
use file_service::path_generator::PathGenerator;
use file_service::responses::{FileResponse, MarkUnusedResponse};
use file_service::statistics_service::StatisticsService;
use file_service::storage::{MemoryStorageBackend, StorageBackend};
use file_service::store::FileStore;
use file_service::upload::process_upload;

fn png_bytes() -> Vec<u8> {
    let mut data = vec![0x89u8, 0x50, 0x4E, 0x47, 0x0D, 0x0A, 0x1A, 0x0A];
    data.extend_from_slice(&[0u8; 24]);
    data
}

#[test]
fn a_valid_upload_creates_an_unused_file() {
    let mut store = FileStore::new();
    let mut storage = MemoryStorageBackend::new("http://files".to_string());
    let data = png_bytes();
    let (file, url) = process_upload(
        &mut store,
        &mut storage,
        "Profile Pic.PNG",
        data.clone(),
        "avatar",
        9,
        1_000,
    )
    .unwrap();
    assert_eq!(file.status, FileStatus::Unused);
    assert_eq!(file.file_type, FileType::Avatar);
    assert_eq!(file.mime_type, "image/png");
    assert_eq!(file.file_size, data.len() as i64);
    assert_eq!(file.filename, "Profile Pic.PNG");
    assert!(file.storage_key.ends_with(".png"));
    assert!(PathGenerator::is_safe_path(&file.storage_key));
    assert_eq!(url, format!("http://files/{}", file.storage_key));
    // the payload really is in the object store
    assert_eq!(storage.key_exists(&file.storage_key).unwrap(), true);
    assert_eq!(storage.download(&file.storage_key).unwrap(), data);
}

#[test]
fn svg_uploads_are_detected_through_their_tag() {
    let mut store = FileStore::new();
    let mut storage = MemoryStorageBackend::new("http://files".to_string());
    let data =
        b"<?xml version=\"1.0\"?><svg xmlns=\"http://www.w3.org/2000/svg\"></svg>".to_vec();
    let (file, _) = process_upload(
        &mut store,
        &mut storage,
        "icon.svg",
        data,
        "section_icon",
        1,
        5,
    )
    .unwrap();
    assert_eq!(file.mime_type, "image/svg+xml");
}

#[test]
fn invalid_uploads_are_rejected_without_touching_the_store() {
    let mut store = FileStore::new();
    let mut storage = MemoryStorageBackend::new("http://files".to_string());

    assert!(matches!(
        process_upload(&mut store, &mut storage, "a.png", Vec::new(), "post", 1, 5),
        Err(FileError::EmptyFile)
    ));
    assert!(matches!(
        process_upload(&mut store, &mut storage, "a.png", png_bytes(), "", 1, 5),
        Err(FileError::InvalidFileTypeParam(_))
    ));
    assert!(matches!(
        process_upload(&mut store, &mut storage, "a.png", png_bytes(), "banner", 1, 5),
        Err(FileError::InvalidFileTypeParam(_))
    ));
    assert!(matches!(
        process_upload(
            &mut store,
            &mut storage,
            "a.png",
            b"just some text".to_vec(),
            "post",
            1,
            5
        ),
        Err(FileError::UnsupportedFileType(_))
    ));
    assert!(matches!(
        process_upload(&mut store, &mut storage, "a.exe", png_bytes(), "post", 1, 5),
        Err(FileError::UnsupportedFileType(_))
    ));
    let huge = vec![0u8; 2_097_153];
    assert!(matches!(
        process_upload(&mut store, &mut storage, "a.png", huge, "avatar", 1, 5),
        Err(FileError::FileTooLarge { .. })
    ));
    assert_eq!(store.files.len(), 0);
}

#[test]
fn uuid_parsing_accepts_canonical_text() {
    assert_eq!(
        parse_uuid("550e8400-e29b-41d4-a716-446655440000"),
        Some(0x550e8400_e29b_41d4_a716_446655440000u128)
    );
    assert_eq!(parse_uuid("not-a-uuid"), None);
    assert_eq!(
        parse_file_id("550e8400-e29b-41d4-a716-446655440000").unwrap(),
        0x550e8400_e29b_41d4_a716_446655440000u128
    );
    match parse_file_id("nope") {
        Err(FileError::InvalidUuid(t)) => assert_eq!(t, "nope"),
        other => panic!("expected InvalidUuid, got {:?}", other),
    }
}

#[test]
fn two_created_files_get_distinct_ids() {
    let mut store = FileStore::new();
    let req = |k: &str| CreateFileRequest {
        filename: "x.png".to_string(),
        storage_key: k.to_string(),
        file_type: FileType::Post,
        mime_type: "image/png".to_string(),
        file_size: 1,
        uploader_id: 1,
    };
    let a = FileService::create_file(&mut store, req("a"), 1).unwrap();
    let b = FileService::create_file(&mut store, req("b"), 2).unwrap();
    assert_ne!(a.id, b.id);
}

#[test]
fn authorization_helpers_decide_from_plain_values() {
    assert!(is_admin("admin"));
    assert!(!is_admin("user"));
    assert!(require_admin("admin").is_ok());
    assert!(matches!(require_admin("user"), Err(FileError::Forbidden)));
    assert_eq!(get_current_user_id(Some(12)).unwrap(), 12);
    assert!(matches!(
        get_current_user_id(None),
        Err(FileError::Unauthorized)
    ));
}

#[test]
fn responses_render_labels_and_timestamps() {
    let mut store = FileStore::new();
    let req = CreateFileRequest {
        filename: "x.png".to_string(),
        storage_key: "k/x".to_string(),
        file_type: FileType::Reply,
        mime_type: "image/png".to_string(),
        file_size: 1,
        uploader_id: 1,
    };
    let f = FileService::create_file(&mut store, req, 0).unwrap();
    let rendered = FileResponse::from_file(f, "http://files/k/x".to_string());
    assert_eq!(rendered.file_type, "reply");
    assert_eq!(rendered.status, "unused");
    assert_eq!(rendered.created_at, "1970-01-01T00:00:00Z");

    let unused = MarkUnusedResponse::new(7, 0);
    assert_eq!(unused.status, "unused");
    let used = MarkUnusedResponse::new(7, 3);
    assert_eq!(used.status, "used");
    assert_eq!(used.remaining_usages, 3);
}

#[test]
fn statistics_aggregate_by_status_and_type() {
    let mut store = FileStore::new();
    let req = |k: &str, t: FileType, size: i64| CreateFileRequest {
        filename: "x.png".to_string(),
        storage_key: k.to_string(),
        file_type: t,
        mime_type: "image/png".to_string(),
        file_size: size,
        uploader_id: 1,
    };
    let a = FileService::create_file(&mut store, req("a", FileType::Avatar, 100), 1).unwrap();
    let _b = FileService::create_file(&mut store, req("b", FileType::Post, 200), 2).unwrap();
    let c = FileService::create_file(&mut store, req("c", FileType::Post, 400), 3).unwrap();
    file_service::usage_service::UsageService::mark_used(
        &mut store,
        a.id,
        "post".to_string(),
        1,
        4,
    )
    .unwrap();
    FileService::mark_file_deleted(&mut store, c.id, 5).unwrap();

    let stats = StatisticsService::get_statistics(&store);
    assert_eq!(stats.total_files, 2);
    assert_eq!(stats.total_size, 300);
    assert_eq!(stats.total_size_pretty, "300 bytes");
    assert_eq!(stats.by_status.unused.count, 1);
    assert_eq!(stats.by_status.unused.size, 200);
    assert_eq!(stats.by_status.used.count, 1);
    assert_eq!(stats.by_status.used.size, 100);
    assert_eq!(stats.by_status.deleted.count, 1);
    assert_eq!(stats.by_status.deleted.size, 400);
    assert_eq!(stats.by_type.avatar.count, 1);
    assert_eq!(stats.by_type.avatar.size, 100);
    assert_eq!(stats.by_type.post.count, 1);
    assert_eq!(stats.by_type.post.size, 200);
    assert_eq!(stats.by_type.reply.count, 0);
    assert_eq!(stats.by_type.section_icon.count, 0);
}
