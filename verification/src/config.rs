//! Configuration of the service as plain data. Reading it from the
//! process environment is the embedding program's task; the core only
//! consumes the resulting values.

use vstd::prelude::*;

verus! {

/// Where the HTTP server listens.
#[derive(Debug)]
pub struct ServerConfig {
    pub host: String,
    pub port: u16,
}

/// How to reach the object store.
#[derive(Debug)]
pub struct S3Config {
    pub endpoint: Option<String>,
    pub region: String,
    pub bucket: String,
    pub access_key: String,
    pub secret_key: String,
    pub public_url: String,
    pub path_style: bool,
}

/// Per-category upload limits, in bytes.
#[derive(Debug)]
pub struct FileLimits {
    pub avatar: usize,
    pub post: usize,
    pub reply: usize,
    pub section_icon: usize,
}

/// How the recurring cleanup runs: whether at all, on which schedule,
/// how old a file must be, and how many files one batch may hold.
#[derive(Debug)]
pub struct CleanupConfig {
    pub enabled: bool,
    pub cron_expression: String,
    pub days_threshold: u32,
    pub batch_size: usize,
}

/// Everything the service needs at startup.
#[derive(Debug)]
pub struct Config {
    pub server: ServerConfig,
    pub database_url: String,
    pub s3: S3Config,
    pub kong_gateway_url: String,
    pub file_limits: FileLimits,
    pub cleanup: CleanupConfig,
}

} // verus!
