//! The records the JSON API serves. Field names are camelCase on the wire;
//! the wire form is produced outside the library.
use vstd::prelude::*;

verus! {

/// A device group.
#[derive(Debug)]
pub struct Fleet {
    pub id: String,
    pub name: String,
    pub description: String,
    pub device_count: i64,
    pub created_at: i64,
}

/// A registered device.
#[derive(Debug)]
pub struct Device {
    pub id: String,
    pub name: String,
    pub model: String,
    pub fw_version: String,
    pub fleet_id: Option<String>,
    pub fleet_name: Option<String>,
    pub status: String,
    pub tags: String,
    pub twin_version: i64,
    pub last_seen: i64,
    pub created_at: i64,
    pub updated_at: i64,
}

/// A team member.
#[derive(Debug)]
pub struct Operator {
    pub id: String,
    pub name: String,
    pub email: String,
    pub role: String,
    pub status: String,
    pub created_at: i64,
}

/// A raised alert.
#[derive(Debug)]
pub struct Alert {
    pub id: String,
    pub device_id: Option<String>,
    pub device_name: Option<String>,
    pub severity: String,
    pub title: String,
    pub detail: String,
    pub state: String,
    pub created_at: i64,
}

/// A firmware artifact.
#[derive(Debug)]
pub struct Firmware {
    pub id: String,
    pub model: String,
    pub version: String,
    pub size_kb: i64,
    pub sha256: String,
    pub created_at: i64,
}

/// An OTA rollout campaign.
#[derive(Debug)]
pub struct OtaCampaign {
    pub id: String,
    pub firmware_id: String,
    pub firmware_label: Option<String>,
    pub fleet_id: Option<String>,
    pub fleet_name: Option<String>,
    pub canary_pct: i64,
    pub status: String,
    pub total: i64,
    pub updated: i64,
    pub created_at: i64,
}

/// A remote command and its outcome.
#[derive(Debug)]
pub struct Command {
    pub id: String,
    pub device_id: String,
    pub device_name: Option<String>,
    pub name: String,
    pub args: String,
    pub status: String,
    pub result: String,
    pub created_at: i64,
}

/// A device log line.
#[derive(Debug)]
pub struct LogEntry {
    pub id: String,
    pub device_id: Option<String>,
    pub device_name: Option<String>,
    pub ts: i64,
    pub level: String,
    pub msg: String,
}

/// The columns needed to authenticate an operator.
#[derive(Debug)]
pub struct OperatorAuth {
    pub id: String,
    pub name: String,
    pub role: String,
    pub password_hash: String,
    pub status: String,
}

} // verus!
