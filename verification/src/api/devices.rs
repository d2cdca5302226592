//! Device registry checks: provisioning (with an enrollment claim code),
//! updates, and the claim codes themselves.
use super::{fails_with, non_empty, required, ApiError, BAD_REQUEST};
use crate::crypto::random_below;
use crate::ids::{id_of, new_id, ulid_text};
use crate::text::{blank, chars_of, owned, push_char, trim, trimmed};
use vstd::prelude::*;

verus! {

/// A provisioning request.
#[derive(Debug)]
pub struct CreateBody {
    pub name: String,
    pub model: String,
    pub fw_version: String,
    pub fleet_id: Option<String>,
    pub tags: String,
}

/// A device ready to be stored.
#[derive(Debug)]
pub struct NewDevice {
    pub id: String,
    pub name: String,
    pub model: String,
    pub fw_version: String,
    pub fleet_id: Option<String>,
    pub claim_code: String,
    pub tags: String,
}

/// An edit of a device.
#[derive(Debug)]
pub struct UpdateBody {
    pub name: String,
    pub model: String,
    pub fleet_id: Option<String>,
    pub status: String,
    pub tags: String,
}

/// The stored form of an edit.
#[derive(Debug)]
pub struct DeviceUpdate {
    pub name: String,
    pub model: String,
    pub fleet_id: Option<String>,
    pub status: String,
    pub tags: String,
}

/// `fleet` with the empty id read as no fleet.
pub open spec fn fleet_of(fleet: Option<String>) -> Option<String> {
    match fleet {
        Some(f) => if f@.len() == 0 {
            None
        } else {
            Some(f)
        },
        None => None,
    }
}

/// The status an edit has when it names none.
pub fn default_status() -> (r: String)
    ensures
        r@ == "active"@,
{
    String::from_str("active")
}

/// Checks a provisioning request: the name is required; the device gets a
/// fresh `dev_` id and claim code, the trimmed name, and the fleet unless it
/// is empty.
pub fn plan_create(body: CreateBody) -> (r: Result<NewDevice, ApiError>)
    ensures
        blank(body.name@) ==> fails_with(r, BAD_REQUEST, "name is required"@),
        !blank(body.name@) ==> (r matches Ok(d) && {
            &&& d.name@ == trimmed(body.name@)
            &&& d.model == body.model
            &&& d.fw_version == body.fw_version
            &&& d.fleet_id == fleet_of(body.fleet_id)
            &&& d.tags == body.tags
            &&& exists|u: Seq<char>| ulid_text(u) && d.id@ == id_of("dev"@, u)
            &&& is_claim_code(d.claim_code@)
        }),
{
    let name = match required(body.name.as_str(), "name is required") {
        Ok(n) => n,
        Err(e) => return Err(e),
    };
    let id = new_id("dev");
    let claim = claim_code();
    Ok(
        NewDevice {
            id,
            name,
            model: body.model,
            fw_version: body.fw_version,
            fleet_id: non_empty(body.fleet_id),
            claim_code: claim,
            tags: body.tags,
        },
    )
}

/// The stored form of an edit: trimmed name, fleet unless empty, the rest as
/// given.
pub fn plan_update(body: UpdateBody) -> (r: DeviceUpdate)
    ensures
        r.name@ == trimmed(body.name@),
        r.model == body.model,
        r.fleet_id == fleet_of(body.fleet_id),
        r.status == body.status,
        r.tags == body.tags,
{
    DeviceUpdate {
        name: trim(body.name.as_str()),
        model: body.model,
        fleet_id: non_empty(body.fleet_id),
        status: body.status,
        tags: body.tags,
    }
}

/// The symbols a claim code is drawn from (no `I`, `O`, `0` or `1`).
pub const CLAIM_ALPHABET: &'static str = "ABCDEFGHJKLMNPQRSTUVWXYZ23456789";

/// The claim code made of the alphabet symbols at positions `picks`:
/// `SW-` followed by one symbol per pick.
pub open spec fn claim_code_of(picks: Seq<usize>) -> Seq<char> {
    "SW-"@ + picks.map_values(|i: usize| CLAIM_ALPHABET@[i as int])
}

/// The claim code for the given positions in `CLAIM_ALPHABET`.
pub fn claim_code_from(picks: &[usize]) -> (r: String)
    requires
        forall|k: int| 0 <= k < picks@.len() ==> #[trigger] picks@[k] < 32,
    ensures
        r@ == claim_code_of(picks@),
{
    proof {
        reveal_strlit("ABCDEFGHJKLMNPQRSTUVWXYZ23456789");
    }
    let alphabet = chars_of(CLAIM_ALPHABET);
    assert(alphabet@.len() == 32);
    let mut r = String::from_str("SW-");
    let n = picks.len();
    let mut k: usize = 0;
    while k < n
        invariant
            n == picks@.len(),
            k <= n,
            alphabet@ == CLAIM_ALPHABET@,
            alphabet@.len() == 32,
            forall|j: int| 0 <= j < picks@.len() ==> #[trigger] picks@[j] < 32,
            r@ == "SW-"@ + picks@.take(k as int).map_values(|i: usize| CLAIM_ALPHABET@[i as int]),
        decreases n - k,
    {
        let c = alphabet[picks[k]];
        push_char(&mut r, c);
        assert(picks@.take(k + 1).map_values(|i: usize| CLAIM_ALPHABET@[i as int])
            == picks@.take(k as int).map_values(|i: usize| CLAIM_ALPHABET@[i as int]).push(c));
        k = k + 1;
    }
    assert(picks@.take(n as int) == picks@);
    r
}

/// A short human-typeable enrollment claim code: `SW-` and six random symbols.
pub fn claim_code() -> (r: String)
    ensures
        is_claim_code(r@),
{
    let mut picks: Vec<usize> = Vec::new();
    let mut k: usize = 0;
    while k < 6
        invariant
            k <= 6,
            picks@.len() == k,
            forall|j: int| 0 <= j < k ==> #[trigger] picks@[j] < 32,
        decreases 6 - k,
    {
        picks.push(random_below(32));
        k = k + 1;
    }
    claim_code_from(picks.as_slice())
}

/// A well-formed claim code: `SW-` and six alphabet symbols.
pub open spec fn is_claim_code(c: Seq<char>) -> bool {
    exists|picks: Seq<usize>|
        picks.len() == 6 && (forall|k: int| 0 <= k < 6 ==> #[trigger] picks[k] < 32) && c
            == claim_code_of(picks)
}

/// A claim code is nine characters: `SW-` and six symbols of the alphabet.
pub proof fn claim_code_shape(picks: Seq<usize>)
    requires
        picks.len() == 6,
        forall|k: int| 0 <= k < 6 ==> #[trigger] picks[k] < 32,
    ensures
        claim_code_of(picks).len() == 9,
        claim_code_of(picks).take(3) == "SW-"@,
        forall|k: int|
            3 <= k < 9 ==> CLAIM_ALPHABET@.contains(#[trigger] claim_code_of(picks)[k]),
{
    reveal_strlit("SW-");
    reveal_strlit("ABCDEFGHJKLMNPQRSTUVWXYZ23456789");
    let c = claim_code_of(picks);
    assert(c.take(3) =~= "SW-"@);
    assert forall|k: int| 3 <= k < 9 implies CLAIM_ALPHABET@.contains(#[trigger] c[k]) by {
        assert(c[k] == CLAIM_ALPHABET@[picks[k - 3] as int]);
    }
}

} // verus!
