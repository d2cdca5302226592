//! The client's view of the JSON API. Every response uses the
//! `{ ok, data } | { ok, error }` envelope; the records mirror the server's.
use crate::text::concat;
use vstd::prelude::*;

verus! {

/// The absent value a missing `data` field reads as.
pub fn none<T>() -> (r: Option<T>)
    ensures
        r is None,
{
    None
}

/// What a response envelope yields: the data of a successful one (`empty
/// response` when it has none), else its error (`request failed` when it
/// names none).
pub fn unwrap_envelope<T>(ok: bool, data: Option<T>, error: Option<String>) -> (r: Result<
    T,
    String,
>)
    ensures
        ok ==> match data {
            Some(d) => r == Ok::<T, String>(d),
            None => r matches Err(e) && e@ == "empty response"@,
        },
        !ok ==> match error {
            Some(e) => r == Err::<T, String>(e),
            None => r matches Err(e) && e@ == "request failed"@,
        },
{
    if ok {
        match data {
            Some(d) => Ok(d),
            None => Err(String::from_str("empty response")),
        }
    } else {
        match error {
            Some(e) => Err(e),
            None => Err(String::from_str("request failed")),
        }
    }
}

/// The signed-in session as the console sees it.
#[derive(Debug)]
pub struct Session {
    pub authenticated: bool,
    pub role: String,
    pub name: String,
}

/// A device as listed.
#[derive(Debug)]
pub struct Device {
    pub id: String,
    pub name: String,
    pub model: String,
    pub fw_version: String,
    pub fleet_id: Option<String>,
    pub fleet_name: Option<String>,
    pub status: String,
    pub tags: String,
    pub twin_version: i64,
    pub last_seen: i64,
}

/// A team member.
#[derive(Debug)]
pub struct Operator {
    pub id: String,
    pub name: String,
    pub email: String,
    pub role: String,
    pub status: String,
    pub created_at: i64,
}

/// A device group.
#[derive(Debug)]
pub struct Fleet {
    pub id: String,
    pub name: String,
    pub description: String,
    pub device_count: i64,
}

/// A raised alert.
#[derive(Debug)]
pub struct Alert {
    pub id: String,
    pub device_id: Option<String>,
    pub device_name: Option<String>,
    pub severity: String,
    pub title: String,
    pub detail: String,
    pub state: String,
    pub created_at: i64,
}

/// A firmware artifact.
#[derive(Debug)]
pub struct Firmware {
    pub id: String,
    pub model: String,
    pub version: String,
    pub size_kb: i64,
    pub sha256: String,
    pub created_at: i64,
}

/// An OTA rollout campaign.
#[derive(Debug)]
pub struct OtaCampaign {
    pub id: String,
    pub firmware_id: String,
    pub firmware_label: Option<String>,
    pub fleet_id: Option<String>,
    pub fleet_name: Option<String>,
    pub canary_pct: i64,
    pub status: String,
    pub total: i64,
    pub updated: i64,
    pub created_at: i64,
}

/// A remote command and its outcome.
#[derive(Debug)]
pub struct Command {
    pub id: String,
    pub device_id: String,
    pub device_name: Option<String>,
    pub name: String,
    pub args: String,
    pub status: String,
    pub result: String,
    pub created_at: i64,
}

/// A device log line.
#[derive(Debug)]
pub struct LogEntry {
    pub id: String,
    pub device_id: Option<String>,
    pub device_name: Option<String>,
    pub ts: i64,
    pub level: String,
    pub msg: String,
}

/// `base`, then `id`, then `suffix`.
pub fn resource_path(base: &str, id: &str, suffix: &str) -> (r: String)
    ensures
        r@ == base@ + id@ + suffix@,
{
    let mut r = concat(base, id);
    r.append(suffix);
    r
}

/// Path of one device.
pub fn device_path(id: &str) -> (r: String)
    ensures
        r@ == "/api/devices/"@ + id@,
{
    concat("/api/devices/", id)
}

/// Path that acts on an alert (`ack` or `resolve`).
pub fn alert_action_path(id: &str, action: &str) -> (r: String)
    ensures
        r@ == "/api/alerts/"@ + id@ + "/"@ + action@,
{
    let mut r = resource_path("/api/alerts/", id, "/");
    r.append(action);
    r
}

/// Path of one rule.
pub fn rule_path(id: &str) -> (r: String)
    ensures
        r@ == "/api/rules/"@ + id@,
{
    concat("/api/rules/", id)
}

/// Path that rolls a campaign back.
pub fn rollback_path(id: &str) -> (r: String)
    ensures
        r@ == "/api/ota/"@ + id@ + "/rollback"@,
{
    resource_path("/api/ota/", id, "/rollback")
}

/// Path that sends a command to a device.
pub fn command_path(device: &str) -> (r: String)
    ensures
        r@ == "/api/devices/"@ + device@ + "/command"@,
{
    resource_path("/api/devices/", device, "/command")
}

/// Path that applies a config profile.
pub fn apply_profile_path(id: &str) -> (r: String)
    ensures
        r@ == "/api/config-profiles/"@ + id@ + "/apply"@,
{
    resource_path("/api/config-profiles/", id, "/apply")
}

/// Path of one fleet.
pub fn fleet_path(id: &str) -> (r: String)
    ensures
        r@ == "/api/fleets/"@ + id@,
{
    concat("/api/fleets/", id)
}

/// Path of one operator.
pub fn operator_path(id: &str) -> (r: String)
    ensures
        r@ == "/api/operators/"@ + id@,
{
    concat("/api/operators/", id)
}

} // verus!
