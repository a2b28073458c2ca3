//! The upload pipeline: everything between receiving the raw bytes and
//! answering the caller — parameter checks, content validation, storage
//! key generation, payload upload and metadata creation.

use vstd::prelude::*;

use crate::enums::{spec_parse_file_type, FileStatus, FileType};
use crate::error::FileError;
use crate::file_service::FileService;
use crate::models::{CreateFileRequest, File};
use crate::path_generator::{spec_is_safe_path, spec_sanitize, PathGenerator};
use crate::storage::StorageBackend;
use crate::store::{has_file, FileStore};
use crate::validator::{spec_accepted_mime, FileValidator};

verus! {

/// Accepts one upload: validates the declared category, the payload's
/// size and true content type, builds a fresh date-partitioned storage
/// key, stores the payload, and inserts the metadata row in Unused
/// status. On success the new row and the payload's public URL are
/// returned; every rejection leaves the metadata store untouched.
pub fn process_upload<S: StorageBackend>(
    store: &mut FileStore,
    storage: &mut S,
    filename: &str,
    data: Vec<u8>,
    file_type_str: &str,
    uploader_id: i32,
    now: i64,
) -> (r: Result<(File, String), FileError>)
    requires
        old(store)@.wf(),
    ensures
        final(store)@.wf(),
        old(store)@.consistent() ==> final(store)@.consistent(),
        match r {
            Ok((f, url)) => {
                &&& (spec_parse_file_type(file_type_str@) matches Some(t) && f.file_type == t)
                &&& 0 < data@.len() <= FileValidator::spec_size_limit(f.file_type)
                &&& spec_accepted_mime(data@) == Some(f.mime_type@)
                &&& f.filename@ == spec_sanitize(filename@)
                &&& spec_is_safe_path(f.storage_key@)
                &&& f.file_size == data@.len()
                &&& f.uploader_id == uploader_id
                &&& f.status == FileStatus::Unused
                &&& f.created_at == now
                &&& !has_file(old(store)@.files, f.id)
                &&& final(store)@.files == old(store)@.files.push(f)
                &&& final(store)@.usages == old(store)@.usages
                &&& final(store)@.cleanup_logs == old(store)@.cleanup_logs
            },
            Err(e) => final(store)@ == old(store)@ && (match e {
                FileError::EmptyFile => data@.len() == 0 || (spec_parse_file_type(
                    file_type_str@,
                ) is Some && data@.len() == 0),
                FileError::InvalidFileTypeParam(_) => data@.len() > 0 && (file_type_str@.len() == 0
                    || spec_parse_file_type(file_type_str@) is None),
                FileError::FileTooLarge { size, max } => data@.len() > 0 && (spec_parse_file_type(
                    file_type_str@,
                ) matches Some(t) && size == data@.len() && max
                    == FileValidator::spec_size_limit(t) && data@.len()
                    > FileValidator::spec_size_limit(t)),
                FileError::UnsupportedFileType(_) => data@.len() > 0 && (spec_accepted_mime(
                    data@,
                ) is None || crate::validator::spec_extension_accepted(filename@) is None),
                FileError::InvalidFileName(_) => data@.len() > 0 && FileValidator::spec_extension(
                    filename@,
                ) is None,
                FileError::Storage(_) => data@.len() > 0 && file_type_str@.len() > 0 && (
                spec_parse_file_type(file_type_str@) matches Some(t) && data@.len()
                    <= FileValidator::spec_size_limit(t)) && spec_accepted_mime(data@) is Some
                    && crate::validator::spec_extension_accepted(filename@) is Some,
                FileError::Internal(_) => data@.len() > 0 && file_type_str@.len() > 0 && (
                spec_parse_file_type(file_type_str@) matches Some(t) && data@.len()
                    <= FileValidator::spec_size_limit(t)) && spec_accepted_mime(data@) is Some
                    && crate::validator::spec_extension_accepted(filename@) is Some,
                _ => false,
            }),
        },
{
    if data.len() == 0 {
        return Err(FileError::EmptyFile);
    }
    if file_type_str.is_empty() {
        return Err(
            FileError::InvalidFileTypeParam("file_type is required".to_owned()),
        );
    }
    let file_type = match FileType::from_str(file_type_str) {
        Ok(t) => t,
        Err(msg) => {
            return Err(FileError::InvalidFileTypeParam(msg));
        },
    };
    if let Err(e) = FileValidator::validate_file_size(data.as_slice(), file_type) {
        return Err(e);
    }
    let mime_type = match FileValidator::validate_file_type(data.as_slice()) {
        Ok(m) => m,
        Err(e) => {
            return Err(e);
        },
    };
    if let Err(e) = FileValidator::validate_mime_type(mime_type.as_str(), file_type) {
        return Err(e);
    }
    let storage_key = match PathGenerator::generate_storage_key(filename) {
        Ok(k) => k,
        Err(e) => {
            return Err(e);
        },
    };
    let file_size = data.len() as i64;
    // the store's 64-bit byte total must be able to carry the new row
    let total = store.total_size();
    if total > i64::MAX - file_size {
        return Err(
            FileError::Internal("metadata byte total would overflow".to_owned()),
        );
    }
    let url = match storage.upload(storage_key.as_str(), data, mime_type.as_str()) {
        Ok(u) => u,
        Err(msg) => {
            return Err(FileError::Storage(msg));
        },
    };
    let safe_filename = PathGenerator::sanitize_filename(filename);
    let req = CreateFileRequest {
        filename: safe_filename,
        storage_key,
        file_type,
        mime_type,
        file_size,
        uploader_id,
    };
    match FileService::create_file(store, req, now) {
        Ok(f) => Ok((f, url)),
        Err(e) => Err(e),
    }
}

} // verus!
