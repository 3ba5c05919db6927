//! What the API receives and answers.

use vstd::prelude::*;

verus! {

/// The details of an array.
#[derive(Debug, Clone)]
pub struct ArrayInfo {
    pub name: String,
    pub device: String,
    pub level: String,
    pub state: String,
    pub size: u64,
    pub raid_disks: i32,
    pub total_disks: i32,
    pub active_disks: i32,
    pub working_disks: i32,
    pub failed_disks: i32,
    pub spare_disks: i32,
    pub uuid: String,
    pub chunk_size: i32,
    pub layout: i32,
    pub created: Option<String>,
    pub updated: Option<String>,
}

/// The arrays found, with their number.
#[derive(Debug, Clone)]
pub struct ArrayListResponse {
    pub arrays: Vec<ArraySummary>,
    pub total: usize,
}

/// An array in a list.
#[derive(Debug, Clone)]
pub struct ArraySummary {
    pub name: String,
    pub device: String,
    pub level: String,
    pub state: String,
    /// `healthy`, `degraded`, `failed` or `unknown`.
    pub health: String,
}

/// A request to create an array.
#[derive(Debug, Clone)]
pub struct CreateArrayRequest {
    pub device: String,
    pub level: u8,
    pub raid_devices: u32,
    pub metadata: Option<String>,
    pub components: Vec<String>,
    pub chunk_size: Option<i32>,
}

/// A request to change the members of an array.
#[derive(Debug, Clone)]
pub struct ManageArrayRequest {
    pub add: Option<Vec<String>>,
    pub remove: Option<Vec<String>>,
    pub fail: Option<Vec<String>>,
}

/// The answer to an operation; `details` holds JSON text when there is any.
#[derive(Debug, Clone)]
pub struct OperationResponse {
    pub success: bool,
    pub message: String,
    pub details: Option<String>,
}

/// A request to migrate an array.
#[derive(Debug, Clone)]
pub struct MigrationRequest {
    pub source: String,
    pub target: String,
}

/// A request of a node to join the cluster.
#[derive(Debug, Clone)]
pub struct ClusterJoinRequest {
    pub node_id: String,
    pub address: String,
}

/// A request to judge the health of disks.
#[derive(Debug, Clone)]
pub struct DiskHealthRequest {
    pub devices: Vec<String>,
    pub threshold: u64,
}

/// The read error rate above which a disk is judged failing, unless a request says otherwise.
pub fn default_health_threshold() -> (r: u64)
    ensures
        r == 100,
{
    100
}

/// The health of the service.
#[derive(Debug, Clone)]
pub struct HealthResponse {
    pub status: String,
    pub version: String,
    /// In seconds.
    pub uptime: u64,
    pub arrays_monitored: usize,
}

/// A request to scrub an array.
#[derive(Debug, Clone, Copy)]
pub struct ScrubRequest {
    /// Repair what the scrub finds.
    pub repair: bool,
}

/// The answer to a scrub request.
#[derive(Debug, Clone, Copy)]
pub struct ScrubResponse {
    pub started: bool,
    /// In seconds, when known.
    pub estimated_duration: Option<u64>,
}

/// The OpenAPI document of the service.
#[derive(Debug, Clone, Copy)]
pub struct ApiDoc;

} // verus!
