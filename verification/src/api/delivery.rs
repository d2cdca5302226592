//! Delivery checks: config profiles, the firmware registry (with each
//! artifact's SHA-256) and OTA rollout campaigns with a canary percentage.
use super::{api_error, fails_with, non_empty, required, ApiError, BAD_REQUEST};
use crate::api::devices::fleet_of;
use crate::crypto::{sha256, sha256_digest};
use crate::ids::{id_of, new_id, ulid_text};
use crate::ingest::text_of;
use crate::models::Device;
use crate::text::{
    blank, concat, hex_lower, hex_string, is_blank, str_equal, trim,
    trimmed,
};
use vstd::prelude::*;
use vstd::utf8::encode_utf8;

verus! {

/// A config profile ready to be stored (its values travel as JSON beside it).
#[derive(Debug)]
pub struct NewProfile {
    pub id: String,
    pub name: String,
}

/// A request to push a profile to a device.
#[derive(Debug)]
pub struct ApplyBody {
    pub device_id: String,
}

/// A firmware registration.
#[derive(Debug)]
pub struct FirmwareBody {
    pub model: String,
    pub version: String,
    pub size_kb: i64,
}

/// A firmware artifact ready to be stored.
#[derive(Debug)]
pub struct NewFirmware {
    pub id: String,
    pub model: String,
    pub version: String,
    pub size_kb: i64,
    pub sha256: String,
}

/// A rollout request.
#[derive(Debug)]
pub struct CampaignBody {
    pub firmware_id: String,
    pub fleet_id: Option<String>,
    pub canary_pct: i64,
}

/// A rollout ready to be stored.
#[derive(Debug)]
pub struct CampaignPlan {
    pub id: String,
    pub firmware_id: String,
    pub fleet_id: Option<String>,
    pub canary_pct: i64,
    pub total: i64,
}

/// The canary percentage a rollout has when it names none.
pub fn hundred() -> (r: i64)
    ensures
        r == 100,
{
    100
}

/// Checks a new config profile: the name is required; the profile gets a
/// fresh `cfg_` id and the trimmed name.
pub fn plan_profile(name: &str) -> (r: Result<NewProfile, ApiError>)
    ensures
        blank(name@) ==> fails_with(r, BAD_REQUEST, "name is required"@),
        !blank(name@) ==> (r matches Ok(p) && p.name@ == trimmed(name@) && exists|u: Seq<char>|
            ulid_text(u) && p.id@ == id_of("cfg"@, u)),
{
    let name = match required(name, "name is required") {
        Ok(n) => n,
        Err(e) => return Err(e),
    };
    Ok(NewProfile { id: new_id("cfg"), name })
}

/// The SHA-256 the registry keeps for a firmware: the digest of
/// `model:version`, in lowercase hex.
pub open spec fn fingerprint(model: Seq<char>, version: Seq<char>) -> Seq<char> {
    hex_lower(sha256(encode_utf8(model + ":"@ + version)))
}

proof fn lemma_hex_lower_len(bytes: Seq<u8>)
    ensures
        hex_lower(bytes).len() == 2 * bytes.len(),
    decreases bytes.len(),
{
    if bytes.len() > 0 {
        lemma_hex_lower_len(bytes.drop_first());
    }
}

/// The SHA-256 of a firmware `model` and `version`: 64 lowercase hex digits.
pub fn firmware_fingerprint(model: &str, version: &str) -> (r: String)
    ensures
        r@ == fingerprint(model@, version@),
        r@.len() == 64,
{
    let mut label = concat(model, ":");
    label.append(version);
    let digest = sha256_digest(label.as_str().as_bytes());
    let hex = hex_string(digest.as_slice());
    proof {
        lemma_hex_lower_len(digest@);
    }
    hex
}

/// Checks a firmware registration: model and version are required; the
/// artifact gets a fresh `fw_` id, the trimmed model and version, the full
/// SHA-256 of `model:version` (64 lowercase hex digits), and a size of
/// 1024 KB unless a positive one is given.
pub fn plan_firmware(body: FirmwareBody) -> (r: Result<NewFirmware, ApiError>)
    ensures
        (blank(body.model@) || blank(body.version@)) ==> fails_with(
            r,
            BAD_REQUEST,
            "model and version are required"@,
        ),
        !(blank(body.model@) || blank(body.version@)) ==> (r matches Ok(f) && {
            &&& f.model@ == trimmed(body.model@)
            &&& f.version@ == trimmed(body.version@)
            &&& f.sha256@ == fingerprint(trimmed(body.model@), trimmed(body.version@))
            &&& f.sha256@.len() == 64
            &&& f.size_kb == if body.size_kb > 0 {
                body.size_kb
            } else {
                1024
            }
            &&& exists|u: Seq<char>| ulid_text(u) && f.id@ == id_of("fw"@, u)
        }),
{
    if is_blank(body.model.as_str()) || is_blank(body.version.as_str()) {
        return Err(api_error(BAD_REQUEST, "model and version are required"));
    }
    let model = trim(body.model.as_str());
    let version = trim(body.version.as_str());
    let sha = firmware_fingerprint(model.as_str(), version.as_str());
    let size = if body.size_kb > 0 {
        body.size_kb
    } else {
        1024
    };
    Ok(NewFirmware { id: new_id("fw"), model, version, size_kb: size, sha256: sha })
}

/// A device is in a rollout's scope when the rollout names no fleet or the
/// device is in the named one.
pub open spec fn in_scope(d: Device, fleet: Option<String>) -> bool {
    match fleet {
        None => true,
        Some(f) => d.fleet_id matches Some(g) && g@ == f@,
    }
}

/// How many of `devices` are in scope.
pub open spec fn scope_count(devices: Seq<Device>, fleet: Option<String>) -> nat
    decreases devices.len(),
{
    if devices.len() == 0 {
        0
    } else {
        scope_count(devices.drop_last(), fleet) + if in_scope(devices.last(), fleet) {
            1nat
        } else {
            0nat
        }
    }
}

/// `x` held within `lo..=hi`.
pub open spec fn clamp(x: int, lo: int, hi: int) -> int {
    if x < lo {
        lo
    } else if x > hi {
        hi
    } else {
        x
    }
}

proof fn lemma_scope_count_bound(devices: Seq<Device>, fleet: Option<String>)
    ensures
        scope_count(devices, fleet) <= devices.len(),
    decreases devices.len(),
{
    if devices.len() > 0 {
        lemma_scope_count_bound(devices.drop_last(), fleet);
    }
}

/// How many of `devices` are in the scope of `fleet`.
pub fn count_in_scope(devices: &[Device], fleet: &Option<String>) -> (r: usize)
    ensures
        r == scope_count(devices@, *fleet),
{
    let n = devices.len();
    let mut count: usize = 0;
    let mut i: usize = 0;
    while i < n
        invariant
            n == devices@.len(),
            i <= n,
            count == scope_count(devices@.take(i as int), *fleet),
            count <= i,
        decreases n - i,
    {
        let d = &devices[i];
        let hit = match fleet {
            None => true,
            Some(f) => match &d.fleet_id {
                Some(g) => str_equal(g.as_str(), f.as_str()),
                None => false,
            },
        };
        assert(devices@.take(i + 1).drop_last() == devices@.take(i as int));
        assert(devices@.take(i + 1).last() == devices@[i as int]);
        if hit {
            count = count + 1;
        }
        i = i + 1;
    }
    assert(devices@.take(n as int) == devices@);
    count
}

/// Checks a rollout request: the firmware is required; the fleet is dropped
/// when empty; the canary percentage is held within 1..=100; the campaign
/// targets that share of the in-scope devices, and at least one.
pub fn plan_campaign(body: CampaignBody, devices: &[Device]) -> (r: Result<CampaignPlan, ApiError>)
    requires
        devices@.len() <= i64::MAX / 100,
    ensures
        blank(body.firmware_id@) ==> fails_with(r, BAD_REQUEST, "firmware is required"@),
        !blank(body.firmware_id@) ==> (r matches Ok(c) && {
            let scope = scope_count(devices@, fleet_of(body.fleet_id));
            let canary = clamp(body.canary_pct as int, 1, 100);
            &&& c.firmware_id@ == trimmed(body.firmware_id@)
            &&& c.fleet_id == fleet_of(body.fleet_id)
            &&& c.canary_pct == canary
            &&& c.total == if scope * canary / 100 > 1 {
                scope * canary / 100
            } else {
                1
            }
            &&& 1 <= c.canary_pct <= 100
            &&& 1 <= c.total <= if scope > 1 {
                scope as int
            } else {
                1
            }
            &&& exists|u: Seq<char>| ulid_text(u) && c.id@ == id_of("ota"@, u)
        }),
{
    let firmware = match required(body.firmware_id.as_str(), "firmware is required") {
        Ok(f) => f,
        Err(e) => return Err(e),
    };
    let fleet = non_empty(body.fleet_id);
    let count = count_in_scope(devices, &fleet);
    proof {
        lemma_scope_count_bound(devices@, fleet);
    }
    let in_scope = count as i64;
    let canary = if body.canary_pct < 1 {
        1
    } else if body.canary_pct > 100 {
        100
    } else {
        body.canary_pct
    };
    assert(in_scope * canary <= in_scope * 100) by (nonlinear_arith)
        requires
            0 <= in_scope,
            canary <= 100,
    ;
    let share = in_scope * canary / 100;
    assert(share <= in_scope) by (nonlinear_arith)
        requires
            share == in_scope * canary / 100,
            0 <= in_scope,
            1 <= canary <= 100,
    ;
    let total = if share > 1 {
        share
    } else {
        1
    };
    Ok(CampaignPlan { id: new_id("ota"), firmware_id: firmware, fleet_id: fleet, canary_pct: canary, total })
}

/// A rollout's scope is decided by the fleet alone. With no fleet every
/// device is in scope; naming fleet `f`, a device is in scope exactly when
/// its fleet is `f`, whatever its status, name, model or tags.
pub proof fn scope_is_by_fleet(d: Device, fleet: Option<String>)
    ensures
        fleet is None ==> in_scope(d, fleet),
        fleet matches Some(f) ==> (in_scope(d, fleet) <==> text_of(d.fleet_id) == Some(f@)),
{
}

/// Counting the scope looks at the devices' fleets only: two registries whose
/// devices have the same fleets, one by one, put the same number of devices in
/// any rollout's scope; with no fleet named, that number is all of them.
pub proof fn scope_counts_fleets_only(a: Seq<Device>, b: Seq<Device>, fleet: Option<String>)
    requires
        a.len() == b.len(),
        forall|i: int| 0 <= i < a.len() ==> text_of(#[trigger] a[i].fleet_id) == text_of(
            b[i].fleet_id,
        ),
    ensures
        scope_count(a, fleet) == scope_count(b, fleet),
        scope_count(a, None) == a.len(),
    decreases a.len(),
{
    if a.len() > 0 {
        let (a0, b0) = (a.drop_last(), b.drop_last());
        assert forall|i: int| 0 <= i < a0.len() implies text_of(#[trigger] a0[i].fleet_id)
            == text_of(b0[i].fleet_id) by {
            assert(a0[i] == a[i] && b0[i] == b[i]);
        }
        scope_counts_fleets_only(a0, b0, fleet);
        assert(text_of(a.last().fleet_id) == text_of(b.last().fleet_id));
        scope_is_by_fleet(a.last(), fleet);
        scope_is_by_fleet(b.last(), fleet);
    }
}

} // verus!
