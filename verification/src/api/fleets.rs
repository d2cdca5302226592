//! Fleet (device group) checks.
use super::{fails_with, required, ApiError, BAD_REQUEST};
use crate::ids::{id_of, new_id, ulid_text};
use crate::text::{blank, trimmed};
use vstd::prelude::*;

verus! {

/// A new-fleet request.
#[derive(Debug)]
pub struct CreateBody {
    pub name: String,
    pub description: String,
}

/// A fleet ready to be stored.
#[derive(Debug)]
pub struct NewFleet {
    pub id: String,
    pub name: String,
    pub description: String,
}

/// Checks a new fleet: the name is required; the fleet gets a fresh `flt_` id
/// and the trimmed name.
pub fn plan_create(body: CreateBody) -> (r: Result<NewFleet, ApiError>)
    ensures
        blank(body.name@) ==> fails_with(r, BAD_REQUEST, "name is required"@),
        !blank(body.name@) ==> (r matches Ok(f) && {
            &&& f.name@ == trimmed(body.name@)
            &&& f.description == body.description
            &&& exists|u: Seq<char>| ulid_text(u) && f.id@ == id_of("flt"@, u)
        }),
{
    let name = match required(body.name.as_str(), "name is required") {
        Ok(n) => n,
        Err(e) => return Err(e),
    };
    Ok(NewFleet { id: new_id("flt"), name, description: body.description })
}

} // verus!
