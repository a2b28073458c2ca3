//! Audit records of the cleanup engine: the outcome taxonomy, the per-file
//! error entries, the append-only log row, and the summary returned to the
//! caller of a run.

use vstd::prelude::*;

verus! {

/// Overall outcome of one cleanup run: every file reclaimed, some, or none.
#[derive(Clone, Copy, Debug, PartialEq, Eq, Structural)]
pub enum CleanupStatus {
    Success,
    Partial,
    Failed,
}

/// The canonical lower-case label of a cleanup outcome.
pub open spec fn spec_cleanup_status_label(s: CleanupStatus) -> Seq<char> {
    match s {
        CleanupStatus::Success => "success"@,
        CleanupStatus::Partial => "partial"@,
        CleanupStatus::Failed => "failed"@,
    }
}

impl CleanupStatus {
    /// The lower-case label, as the wire format spells it.
    pub fn label(&self) -> (r: String)
        ensures
            r@ == spec_cleanup_status_label(*self),
    {
        match self {
            CleanupStatus::Success => "success".to_owned(),
            CleanupStatus::Partial => "partial".to_owned(),
            CleanupStatus::Failed => "failed".to_owned(),
        }
    }
}

/// One per-file failure recorded during a cleanup run. The file named by
/// `file_id` was selected but could not be reclaimed and stays eligible
/// for a later run.
#[derive(Debug)]
pub struct CleanupError {
    pub file_id: u128,
    pub detail: String,
}

impl Clone for CleanupError {
    fn clone(&self) -> (r: Self)
        ensures
            r == *self,
    {
        CleanupError { file_id: self.file_id, detail: self.detail.clone() }
    }
}

/// One append-only audit row, written once per non-dry cleanup run.
#[derive(Debug)]
pub struct CleanupLog {
    pub id: u64,
    pub cleanup_time: i64,
    pub files_deleted: u64,
    pub space_freed: i64,
    pub duration_ms: i64,
    pub status: CleanupStatus,
    pub errors: Vec<CleanupError>,
}

/// Summary of one cleanup run, identical for scheduled and on-demand
/// invocations.
#[derive(Debug)]
pub struct CleanupResult {
    pub files_deleted: u64,
    pub space_freed: i64,
    pub space_freed_pretty: String,
    pub duration_ms: i64,
    pub status: CleanupStatus,
    pub errors: Vec<CleanupError>,
}

} // verus!
