//! Plain data records of the metadata store: file rows, usage-reference
//! rows, cleanup audit rows, and the request/response shapes built from
//! them. Timestamps are milliseconds since the Unix epoch.

use vstd::prelude::*;

use crate::enums::{FileStatus, FileType};

verus! {

/// Metadata record of one uploaded asset.
#[derive(Debug)]
pub struct File {
    pub id: u128,
    pub filename: String,
    pub storage_key: String,
    pub file_type: FileType,
    pub mime_type: String,
    pub file_size: i64,
    pub uploader_id: i32,
    pub status: FileStatus,
    pub created_at: i64,
    pub updated_at: i64,
}

impl Clone for File {
    fn clone(&self) -> (r: Self)
        ensures
            r == *self,
    {
        File {
            id: self.id,
            filename: self.filename.clone(),
            storage_key: self.storage_key.clone(),
            file_type: self.file_type,
            mime_type: self.mime_type.clone(),
            file_size: self.file_size,
            uploader_id: self.uploader_id,
            status: self.status,
            created_at: self.created_at,
            updated_at: self.updated_at,
        }
    }
}

/// What a caller supplies to create a file record.
#[derive(Debug)]
pub struct CreateFileRequest {
    pub filename: String,
    pub storage_key: String,
    pub file_type: FileType,
    pub mime_type: String,
    pub file_size: i64,
    pub uploader_id: i32,
}

/// One usage-reference row: a logical consumer currently depending on a
/// file. The triple (file_id, usage_type, usage_id) is unique.
#[derive(Debug)]
pub struct FileUsage {
    pub id: u64,
    pub file_id: u128,
    pub usage_type: String,
    pub usage_id: i32,
    pub created_at: i64,
}

impl Clone for FileUsage {
    fn clone(&self) -> (r: Self)
        ensures
            r == *self,
    {
        FileUsage {
            id: self.id,
            file_id: self.file_id,
            usage_type: self.usage_type.clone(),
            usage_id: self.usage_id,
            created_at: self.created_at,
        }
    }
}

/// Body of a mark-used call.
#[derive(Debug)]
pub struct MarkUsedRequest {
    pub usage_type: String,
    pub usage_id: i32,
}

/// Body of a mark-unused call.
#[derive(Debug)]
pub struct MarkUnusedRequest {
    pub usage_type: String,
    pub usage_id: i32,
}

} // verus!
