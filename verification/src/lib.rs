//! Lifecycle management for uploaded binary assets: a file registry that
//! owns each asset's metadata row and status, a usage ledger that records
//! which logical consumers currently depend on a file and drives its
//! Used/Unused transitions, and a cleanup engine that reclaims files left
//! Unused beyond an age threshold — in bounded batches, oldest first, with
//! per-file error isolation and an append-only audit trail.
//!
//! A file's status moves only along Unused -> Used -> Unused -> Deleted,
//! and Deleted is terminal. Every operation of the three components is a
//! verified transformation of the in-memory metadata store; payloads live
//! behind the `StorageBackend` trait, of which nothing is assumed beyond
//! what each call returns.

use vstd::prelude::*;

pub mod auth;
pub mod cleanup_log;
pub mod cleanup_service;
pub mod clock;
pub mod config;
pub mod consul;
pub mod file_service;
pub mod ids;
pub mod enums;
pub mod error;
pub mod laws;
pub mod models;
pub mod statistics_service;
pub mod storage;
pub mod path_generator;
pub mod responses;
pub mod store;
pub mod text;
pub mod upload;
pub mod usage_service;
pub mod validator;

verus! {

/// Number of milliseconds in one day, used by the cleanup age threshold.
pub const MS_PER_DAY: i64 = 86_400_000;

} // verus!
