//! Service-registry records: what the service announces about itself to
//! the registry. Sending them over the wire is the embedding program's
//! task.

use vstd::prelude::*;

verus! {

/// The liveness probe the registry should run against the service.
#[derive(Debug)]
pub struct HealthCheck {
    pub http: String,
    pub interval: String,
    pub timeout: String,
    pub deregister_critical_service_after: String,
}

/// One service announcement.
#[derive(Debug)]
pub struct ServiceRegistration {
    pub id: String,
    pub name: String,
    pub address: String,
    pub port: u16,
    pub tags: Vec<String>,
    pub check: HealthCheck,
}

} // verus!
