//! Remote command checks: a command goes to an existing device and has a name.
use super::{api_error, fails_with, required, ApiError, BAD_REQUEST, NOT_FOUND};
use crate::ids::{id_of, new_id, ulid_text};
use crate::text::{blank, owned, trimmed};
use vstd::prelude::*;

verus! {

/// A command request.
#[derive(Debug)]
pub struct SendBody {
    pub name: String,
    pub args: String,
}

/// A command ready to be queued (as `pending`).
#[derive(Debug)]
pub struct NewCommand {
    pub id: String,
    pub device_id: String,
    pub name: String,
    pub args: String,
}

/// Checks a command for `device_id`: the device must exist and the command
/// needs a name; it gets a fresh `cmd_` id and the trimmed name.
pub fn plan_send(device_exists: bool, device_id: &str, body: SendBody) -> (r: Result<
    NewCommand,
    ApiError,
>)
    ensures
        !device_exists ==> fails_with(r, NOT_FOUND, "device not found"@),
        device_exists && blank(body.name@) ==> fails_with(
            r,
            BAD_REQUEST,
            "command name is required"@,
        ),
        device_exists && !blank(body.name@) ==> (r matches Ok(c) && {
            &&& c.device_id@ == device_id@
            &&& c.name@ == trimmed(body.name@)
            &&& c.args == body.args
            &&& exists|u: Seq<char>| ulid_text(u) && c.id@ == id_of("cmd"@, u)
        }),
{
    if !device_exists {
        return Err(api_error(NOT_FOUND, "device not found"));
    }
    let name = match required(body.name.as_str(), "command name is required") {
        Ok(n) => n,
        Err(e) => return Err(e),
    };
    Ok(NewCommand { id: new_id("cmd"), device_id: owned(device_id), name, args: body.args })
}

} // verus!
