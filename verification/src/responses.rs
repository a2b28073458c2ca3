//! The response shapes of the service's API, with the small pieces of
//! logic their construction carries: the status label reported after a
//! ledger change and the rendered file answer.

use vstd::prelude::*;

use crate::clock::{format_timestamp, iso_datetime};
use crate::enums::{spec_file_status_label, spec_file_type_label};
use crate::models::File;

verus! {

/// The uniform envelope every endpoint answers with.
#[derive(Debug)]
pub struct ApiResponse<T> {
    pub code: u32,
    pub message: String,
    pub data: T,
    pub timestamp: String,
}

/// A rendered file record, with its public URL and formatted timestamps.
#[derive(Debug)]
pub struct FileResponse {
    pub file_id: u128,
    pub filename: String,
    pub storage_key: String,
    pub file_type: String,
    pub mime_type: String,
    pub file_size: i64,
    pub url: String,
    pub status: String,
    pub uploader_id: i32,
    pub created_at: String,
    pub updated_at: String,
}

impl FileResponse {
    /// Renders one file record with its URL: labels for the enums,
    /// ISO-formatted creation and update instants.
    pub fn from_file(file: File, url: String) -> (r: FileResponse)
        ensures
            r.file_id == file.id,
            r.filename == file.filename,
            r.storage_key == file.storage_key,
            r.file_type@ == spec_file_type_label(file.file_type),
            r.mime_type == file.mime_type,
            r.file_size == file.file_size,
            r.url == url,
            r.status@ == spec_file_status_label(file.status),
            r.uploader_id == file.uploader_id,
            r.created_at@ == iso_datetime(file.created_at),
            r.updated_at@ == iso_datetime(file.updated_at),
    {
        FileResponse {
            file_id: file.id,
            filename: file.filename,
            storage_key: file.storage_key,
            file_type: file.file_type.label(),
            mime_type: file.mime_type,
            file_size: file.file_size,
            url,
            status: file.status.label(),
            uploader_id: file.uploader_id,
            created_at: format_timestamp(file.created_at),
            updated_at: format_timestamp(file.updated_at),
        }
    }
}

/// The payload of a successful upload answer.
#[derive(Debug)]
pub struct UploadData {
    pub file_id: u128,
    pub filename: String,
    pub storage_key: String,
    pub file_type: String,
    pub mime_type: String,
    pub file_size: i64,
    pub url: String,
    pub status: String,
    pub created_at: String,
}

/// The whole upload answer.
#[derive(Debug)]
pub struct UploadResponse {
    pub code: u32,
    pub message: String,
    pub data: UploadData,
    pub timestamp: String,
}

/// The usage echoed back after a mark-used call.
#[derive(Debug)]
pub struct UsageData {
    pub usage_type: String,
    pub usage_id: i32,
    pub created_at: String,
}

/// Answer of a mark-used call: the file is Used afterwards.
#[derive(Debug)]
pub struct MarkUsedResponse {
    pub file_id: u128,
    pub status: String,
    pub usage: UsageData,
}

/// Answer of a mark-unused call: the resulting status is "unused" exactly
/// when no reference remains.
#[derive(Debug)]
pub struct MarkUnusedResponse {
    pub file_id: u128,
    pub status: String,
    pub remaining_usages: u64,
}

impl MarkUnusedResponse {
    /// Builds the answer; the reported status is "unused" exactly when
    /// the remaining count is zero, else "used".
    pub fn new(file_id: u128, remaining_usages: u64) -> (r: MarkUnusedResponse)
        ensures
            r.file_id == file_id,
            r.remaining_usages == remaining_usages,
            r.status@ == (if remaining_usages == 0 {
                "unused"@
            } else {
                "used"@
            }),
    {
        let status = if remaining_usages == 0 {
            "unused".to_owned()
        } else {
            "used".to_owned()
        };
        MarkUnusedResponse { file_id, status, remaining_usages }
    }
}

/// Answer of an admin delete.
#[derive(Debug)]
pub struct DeleteResponse {
    pub file_id: u128,
    pub deleted_at: String,
}

/// Body of a batch lookup request.
#[derive(Debug)]
pub struct BatchInfoRequest {
    pub file_ids: Vec<u128>,
}

/// Answer of a batch lookup.
#[derive(Debug)]
pub struct BatchInfoResponse {
    pub files: Vec<FileResponse>,
    pub total: usize,
}

/// Body of an on-demand cleanup request.
#[derive(Debug)]
pub struct CleanupRequest {
    pub dry_run: bool,
}

/// Answer of the health endpoint: the per-dependency probe results as
/// (name, verdict) pairs.
#[derive(Debug)]
pub struct HealthResponse {
    pub status: String,
    pub service: String,
    pub version: String,
    pub timestamp: String,
    pub checks: Vec<(String, String)>,
}

} // verus!
