//! The error taxonomy of the service: validation, conflict, not-found and
//! infrastructure failures, each with a stable numeric identifier and an
//! HTTP status class.

use vstd::prelude::*;

verus! {

/// Every failure a core operation can surface.
#[derive(Debug)]
pub enum FileError {
    UnsupportedFileType(String),
    FileTooLarge { size: usize, max: usize },
    EmptyFile,
    InvalidFileName(String),
    InvalidFileTypeParam(String),
    PathTraversal,
    FileNotFound(u128),
    UsageNotFound,
    AlreadyMarked,
    Unauthorized,
    Forbidden,
    TooManyIds { count: usize, max: usize },
    EmptyIdList,
    InvalidUuid(String),
    Storage(String),
    Internal(String),
}

/// The stable error identifier of each failure kind.
pub open spec fn spec_error_code(e: FileError) -> u32 {
    match e {
        FileError::UnsupportedFileType(_) => 70001001,
        FileError::InvalidFileTypeParam(_) => 70001002,
        FileError::FileTooLarge { .. } => 70001003,
        FileError::EmptyFile => 70001004,
        FileError::InvalidFileName(_) => 70001005,
        FileError::Unauthorized => 70001006,
        FileError::Storage(_) => 70001007,
        FileError::FileNotFound(_) => 70002001,
        FileError::InvalidUuid(_) => 70002002,
        FileError::AlreadyMarked => 70003004,
        FileError::UsageNotFound => 70004002,
        FileError::Forbidden => 70005002,
        FileError::EmptyIdList => 70006001,
        FileError::TooManyIds { .. } => 70006002,
        FileError::PathTraversal => 70000004,
        FileError::Internal(_) => 70009999,
    }
}

/// The HTTP status each failure kind maps to.
pub open spec fn spec_status_code(e: FileError) -> u16 {
    match e {
        FileError::UnsupportedFileType(_) => 400,
        FileError::InvalidFileTypeParam(_) => 400,
        FileError::FileTooLarge { .. } => 413,
        FileError::EmptyFile => 400,
        FileError::InvalidFileName(_) => 400,
        FileError::InvalidUuid(_) => 400,
        FileError::PathTraversal => 403,
        FileError::FileNotFound(_) => 404,
        FileError::UsageNotFound => 404,
        FileError::AlreadyMarked => 409,
        FileError::Unauthorized => 401,
        FileError::Forbidden => 403,
        FileError::TooManyIds { .. } => 400,
        FileError::EmptyIdList => 400,
        FileError::Storage(_) => 500,
        FileError::Internal(_) => 500,
    }
}

impl FileError {
    /// The stable numeric identifier reported to clients.
    pub fn error_code(&self) -> (r: u32)
        ensures
            r == spec_error_code(*self),
    {
        match self {
            FileError::UnsupportedFileType(_) => 70001001,
            FileError::InvalidFileTypeParam(_) => 70001002,
            FileError::FileTooLarge { .. } => 70001003,
            FileError::EmptyFile => 70001004,
            FileError::InvalidFileName(_) => 70001005,
            FileError::Unauthorized => 70001006,
            FileError::Storage(_) => 70001007,
            FileError::FileNotFound(_) => 70002001,
            FileError::InvalidUuid(_) => 70002002,
            FileError::AlreadyMarked => 70003004,
            FileError::UsageNotFound => 70004002,
            FileError::Forbidden => 70005002,
            FileError::EmptyIdList => 70006001,
            FileError::TooManyIds { .. } => 70006002,
            FileError::PathTraversal => 70000004,
            FileError::Internal(_) => 70009999,
        }
    }

    /// The HTTP status code of the failure.
    pub fn status_code(&self) -> (r: u16)
        ensures
            r == spec_status_code(*self),
    {
        match self {
            FileError::UnsupportedFileType(_) => 400,
            FileError::InvalidFileTypeParam(_) => 400,
            FileError::FileTooLarge { .. } => 413,
            FileError::EmptyFile => 400,
            FileError::InvalidFileName(_) => 400,
            FileError::InvalidUuid(_) => 400,
            FileError::PathTraversal => 403,
            FileError::FileNotFound(_) => 404,
            FileError::UsageNotFound => 404,
            FileError::AlreadyMarked => 409,
            FileError::Unauthorized => 401,
            FileError::Forbidden => 403,
            FileError::TooManyIds { .. } => 400,
            FileError::EmptyIdList => 400,
            FileError::Storage(_) => 500,
            FileError::Internal(_) => 500,
        }
    }
}

} // verus!
