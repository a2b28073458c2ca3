use file_service::enums::{FileStatus, FileType};
use file_service::error::FileError;
use file_service::path_generator::{format_size, PathGenerator};
use file_service::validator::FileValidator;

#[test]
fn test_sanitize_filename() {
    assert_eq!(
        PathGenerator::sanitize_filename("my<script>photo.jpg"),
        "myscriptphoto.jpg"
    );
    assert_eq!(
        PathGenerator::sanitize_filename("test file.png"),
        "test file.png"
    );
}

#[test]
fn test_is_safe_path() {
    assert!(PathGenerator::is_safe_path("2025/10/28/file.jpg"));
    assert!(!PathGenerator::is_safe_path("../../../etc/passwd"));
    assert!(!PathGenerator::is_safe_path("/etc/passwd"));
    assert!(!PathGenerator::is_safe_path("C:\\Windows\\System32"));
}

#[test]
fn test_format_size() {
    assert_eq!(format_size(1024), "1.00 KB");
    assert_eq!(format_size(1_048_576), "1.00 MB");
    assert_eq!(format_size(1_073_741_824), "1.00 GB");
}

#[test]
fn test_get_size_limit() {
    assert_eq!(FileValidator::get_size_limit(FileType::Avatar), 2_097_152);
    assert_eq!(FileValidator::get_size_limit(FileType::Post), 5_242_880);
    assert_eq!(
        FileValidator::get_size_limit(FileType::SectionIcon),
        512_000
    );
}

#[test]
fn test_validate_extension() {
    assert!(FileValidator::validate_extension("test.jpg").is_ok());
    assert!(FileValidator::validate_extension("test.PNG").is_ok());
    assert!(FileValidator::validate_extension("test.pdf").is_err());
}

#[test]
fn format_size_small_values_are_plain_bytes() {
    assert_eq!(format_size(0), "0 bytes");
    assert_eq!(format_size(600), "600 bytes");
    assert_eq!(format_size(1023), "1023 bytes");
}

#[test]
fn format_size_rounds_to_two_decimals() {
    assert_eq!(format_size(1536), "1.50 KB");
    assert_eq!(format_size(2_621_440), "2.50 MB");
    assert_eq!(format_size(1_048_575), "1024.00 KB");
}

#[test]
fn sanitize_keeps_unicode_letters_and_drops_symbols() {
    assert_eq!(PathGenerator::sanitize_filename("rés umé|;&.png"), "rés umé.png");
    assert_eq!(PathGenerator::sanitize_filename("a\u{0}b"), "ab");
}

#[test]
fn sanitize_caps_at_255_characters() {
    let long: String = "x".repeat(400);
    assert_eq!(PathGenerator::sanitize_filename(&long).chars().count(), 255);
}

#[test]
fn validate_extension_lowercases_and_names_errors() {
    assert_eq!(FileValidator::validate_extension("photo.JPeG").unwrap(), "jpeg");
    assert!(matches!(
        FileValidator::validate_extension("noextension"),
        Err(FileError::InvalidFileName(_))
    ));
    assert!(matches!(
        FileValidator::validate_extension(".gitignore"),
        Err(FileError::InvalidFileName(_))
    ));
    assert!(matches!(
        FileValidator::validate_extension("dir.v2/photo"),
        Err(FileError::InvalidFileName(_))
    ));
    assert!(matches!(
        FileValidator::validate_extension("archive.tar.gz"),
        Err(FileError::UnsupportedFileType(_))
    ));
}

#[test]
fn validate_storage_key_rejects_traversal() {
    assert!(PathGenerator::validate_storage_key("2025/10/28/a.jpg").is_ok());
    assert!(matches!(
        PathGenerator::validate_storage_key("a/../b.jpg"),
        Err(FileError::PathTraversal)
    ));
    assert!(matches!(
        PathGenerator::validate_storage_key("/abs.jpg"),
        Err(FileError::PathTraversal)
    ));
    assert!(matches!(
        PathGenerator::validate_storage_key("D:stuff.jpg"),
        Err(FileError::PathTraversal)
    ));
}

#[test]
fn generated_storage_keys_are_safe_and_extension_tagged() {
    let key = PathGenerator::generate_storage_key("Holiday Photo.JPG").unwrap();
    assert!(PathGenerator::is_safe_path(&key));
    assert!(key.ends_with(".jpg"));
    let parts: Vec<&str> = key.split('/').collect();
    assert_eq!(parts.len(), 4);
    assert_eq!(parts[0].len(), 4);
    assert_eq!(parts[1].len(), 2);
    assert_eq!(parts[2].len(), 2);
    // identifier dot extension: 36 + 1 + 3
    assert_eq!(parts[3].len(), 40);
    assert!(matches!(
        PathGenerator::generate_storage_key("malware.exe"),
        Err(FileError::UnsupportedFileType(_))
    ));
    assert!(matches!(
        PathGenerator::generate_storage_key("noext"),
        Err(FileError::InvalidFileName(_))
    ));
}

#[test]
fn two_generated_keys_differ() {
    let a = PathGenerator::generate_storage_key("a.png").unwrap();
    let b = PathGenerator::generate_storage_key("a.png").unwrap();
    assert_ne!(a, b);
}

#[test]
fn validate_file_size_enforces_category_limits() {
    let empty: Vec<u8> = Vec::new();
    assert!(matches!(
        FileValidator::validate_file_size(&empty, FileType::Avatar),
        Err(FileError::EmptyFile)
    ));
    let small = vec![1u8; 100];
    assert!(FileValidator::validate_file_size(&small, FileType::Avatar).is_ok());
    let big = vec![0u8; 512_001];
    match FileValidator::validate_file_size(&big, FileType::SectionIcon) {
        Err(FileError::FileTooLarge { size, max }) => {
            assert_eq!(size, 512_001);
            assert_eq!(max, 512_000);
        },
        other => panic!("expected FileTooLarge, got {:?}", other),
    }
}

#[test]
fn validate_mime_type_accepts_only_images() {
    assert!(FileValidator::validate_mime_type("image/png", FileType::Post).is_ok());
    assert!(FileValidator::validate_mime_type("image/svg+xml", FileType::Avatar).is_ok());
    assert!(matches!(
        FileValidator::validate_mime_type("application/pdf", FileType::Post),
        Err(FileError::UnsupportedFileType(_))
    ));
}

#[test]
fn detects_real_image_types_from_magic_bytes() {
    // PNG signature plus padding
    let mut png = vec![0x89u8, 0x50, 0x4E, 0x47, 0x0D, 0x0A, 0x1A, 0x0A];
    png.extend_from_slice(&[0u8; 16]);
    assert_eq!(FileValidator::validate_file_type(&png).unwrap(), "image/png");

    // JPEG signature
    let jpg = vec![0xFFu8, 0xD8, 0xFF, 0xE0, 0, 0, 0, 0];
    assert_eq!(FileValidator::validate_file_type(&jpg).unwrap(), "image/jpeg");

    // GIF signature
    let gif = b"GIF89a____________".to_vec();
    assert_eq!(FileValidator::validate_file_type(&gif).unwrap(), "image/gif");

    // plain text is refused
    let txt = b"hello world, nothing to see".to_vec();
    assert!(matches!(
        FileValidator::validate_file_type(&txt),
        Err(FileError::UnsupportedFileType(_))
    ));

    // empty payload is refused as empty
    let empty: Vec<u8> = Vec::new();
    assert!(matches!(
        FileValidator::validate_file_type(&empty),
        Err(FileError::EmptyFile)
    ));
}

#[test]
fn is_svg_looks_for_the_tag() {
    assert!(FileValidator::is_svg(b"  <svg xmlns=\"x\"></svg>"));
    assert!(FileValidator::is_svg(b"<?xml version=\"1.0\"?><svg/>"));
    assert!(!FileValidator::is_svg(b"<html></html>"));
}

#[test]
fn file_type_parsing_is_case_insensitive() {
    assert_eq!(FileType::from_str("avatar").unwrap(), FileType::Avatar);
    assert_eq!(FileType::from_str("AVATAR").unwrap(), FileType::Avatar);
    assert_eq!(FileType::from_str("Post").unwrap(), FileType::Post);
    assert_eq!(FileType::from_str("reply").unwrap(), FileType::Reply);
    assert_eq!(FileType::from_str("section_icon").unwrap(), FileType::SectionIcon);
    assert_eq!(FileType::from_str("section-icon").unwrap(), FileType::SectionIcon);
    assert_eq!(
        FileType::from_str("banner").unwrap_err(),
        "Invalid file type: banner"
    );
    assert_eq!(FileType::Avatar.label(), "avatar");
    assert_eq!(FileType::SectionIcon.label(), "section_icon");
}

#[test]
fn file_status_parsing_round_trips() {
    assert_eq!(FileStatus::from_str("unused").unwrap(), FileStatus::Unused);
    assert_eq!(FileStatus::from_str("USED").unwrap(), FileStatus::Used);
    assert_eq!(FileStatus::from_str("Deleted").unwrap(), FileStatus::Deleted);
    assert!(FileStatus::from_str("gone").is_err());
    assert_eq!(FileStatus::Unused.label(), "unused");
    assert_eq!(FileStatus::Deleted.label(), "deleted");
}
