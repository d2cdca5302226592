//! Team (operator) checks. Only owners and admins may manage the team; an
//! owner cannot be removed.
use super::{api_error, fails_with, ApiError, BAD_REQUEST, FORBIDDEN, INTERNAL_SERVER_ERROR};
use crate::ids::{id_of, new_id, ulid_text};
use crate::session::{hash_passcode, passcode_matches, Claims};
use crate::text::{blank, is_blank, lowercase, str_equal, to_lowercase, trim, trimmed};
use vstd::prelude::*;
use vstd::utf8::encode_utf8;

verus! {

/// An invitation.
#[derive(Debug)]
pub struct CreateBody {
    pub name: String,
    pub email: String,
    pub role: String,
    pub password: String,
}

/// An operator ready to be stored (as `active`).
#[derive(Debug)]
pub struct NewOperator {
    pub id: String,
    pub name: String,
    pub email: String,
    pub role: String,
    pub password_hash: String,
}

/// An edit of an operator.
#[derive(Debug)]
pub struct UpdateBody {
    pub name: String,
    pub email: String,
    pub role: String,
    pub status: String,
    pub password: String,
}

/// The stored form of an edit; a new password hash when one is set.
#[derive(Debug)]
pub struct OperatorUpdate {
    pub name: String,
    pub email: String,
    pub role: String,
    pub status: String,
    pub password_hash: Option<String>,
}

/// The roles there are.
pub open spec fn is_role(r: Seq<char>) -> bool {
    r == "owner"@ || r == "admin"@ || r == "operator"@ || r == "viewer"@
}

/// A role as given when it is one, else `operator`.
pub open spec fn role_of(r: Seq<char>) -> Seq<char> {
    if is_role(r) {
        r
    } else {
        "operator"@
    }
}

/// Owners and admins manage the team.
pub open spec fn manages(claims: Claims) -> bool {
    claims.role@ == "owner"@ || claims.role@ == "admin"@
}

/// The length in bytes of a text, as `str::len` counts it.
pub open spec fn byte_len(s: Seq<char>) -> nat {
    encode_utf8(s).len()
}

/// How an email is stored: trimmed and lowercased.
pub open spec fn stored_email(email: Seq<char>) -> Seq<char> {
    lowercase(trimmed(email))
}

/// Whether the session may manage the team.
pub fn can_manage(claims: &Claims) -> (r: bool)
    ensures
        r == manages(*claims),
{
    str_equal(claims.role.as_str(), "owner") || str_equal(claims.role.as_str(), "admin")
}

/// The role to store: one of owner, admin, operator, viewer, else operator.
pub fn role_or_default(r: &str) -> (out: &str)
    ensures
        out@ == role_of(r@),
{
    if str_equal(r, "owner") || str_equal(r, "admin") || str_equal(r, "operator") || str_equal(
        r,
        "viewer",
    ) {
        r
    } else {
        "operator"
    }
}

/// The status an edit has when it names none.
pub fn active() -> (r: String)
    ensures
        r@ == "active"@,
{
    String::from_str("active")
}

/// Checks an invitation: only managers invite; name and email are required
/// and the password needs at least six bytes; the operator gets a fresh `op_`
/// id, trimmed name, stored email, known role, and the password's bcrypt hash.
pub fn plan_create(claims: &Claims, body: CreateBody) -> (r: Result<NewOperator, ApiError>)
    ensures
        !manages(*claims) ==> fails_with(
            r,
            FORBIDDEN,
            "only owners and admins can manage the team"@,
        ),
        manages(*claims) && (blank(body.name@) || blank(body.email@) || byte_len(body.password@)
            < 6) ==> fails_with(
            r,
            BAD_REQUEST,
            "name, email, and a 6+ character password are required"@,
        ),
        r matches Ok(o) ==> {
            &&& manages(*claims)
            &&& o.name@ == trimmed(body.name@)
            &&& o.email@ == stored_email(body.email@)
            &&& o.role@ == role_of(body.role@)
            &&& passcode_matches(o.password_hash@, body.password@)
            &&& exists|u: Seq<char>| ulid_text(u) && o.id@ == id_of("op"@, u)
        },
        manages(*claims) && !(blank(body.name@) || blank(body.email@) || byte_len(body.password@)
            < 6) && r is Err ==> fails_with(r, INTERNAL_SERVER_ERROR, "could not hash password"@),
        manages(*claims) && !(blank(body.name@) || blank(body.email@) || byte_len(body.password@)
            < 6) ==> r is Ok,
{
    if !can_manage(claims) {
        return Err(api_error(FORBIDDEN, "only owners and admins can manage the team"));
    }
    if is_blank(body.name.as_str()) || is_blank(body.email.as_str()) || body.password.as_str().as_bytes().len()
        < 6 {
        return Err(api_error(BAD_REQUEST, "name, email, and a 6+ character password are required"));
    }
    let hash = match hash_passcode(body.password.as_str()) {
        Ok(h) => h,
        Err(_) => return Err(api_error(INTERNAL_SERVER_ERROR, "could not hash password")),
    };
    let email = trim(body.email.as_str());
    let role = String::from_str(role_or_default(body.role.as_str()));
    Ok(
        NewOperator {
            id: new_id("op"),
            name: trim(body.name.as_str()),
            email: to_lowercase(email.as_str()),
            role,
            password_hash: hash,
        },
    )
}

/// Checks an edit: only managers edit. A password of six bytes or more is
/// re-hashed (if hashing fails the password is left as it was); name and
/// email are stored trimmed, the email lowercased, the role known.
pub fn plan_update(claims: &Claims, body: UpdateBody) -> (r: Result<OperatorUpdate, ApiError>)
    ensures
        !manages(*claims) ==> fails_with(
            r,
            FORBIDDEN,
            "only owners and admins can manage the team"@,
        ),
        manages(*claims) ==> (r matches Ok(u) && {
            &&& u.name@ == trimmed(body.name@)
            &&& u.email@ == stored_email(body.email@)
            &&& u.role@ == role_of(body.role@)
            &&& u.status == body.status
            &&& byte_len(body.password@) < 6 ==> u.password_hash is None
            &&& byte_len(body.password@) >= 6 ==> (u.password_hash matches Some(h)
                && passcode_matches(h@, body.password@))
            &&& u.password_hash matches Some(h) ==> passcode_matches(h@, body.password@)
        }),
{
    if !can_manage(claims) {
        return Err(api_error(FORBIDDEN, "only owners and admins can manage the team"));
    }
    let password_hash = if body.password.as_str().as_bytes().len() >= 6 {
        match hash_passcode(body.password.as_str()) {
            Ok(h) => Some(h),
            Err(_) => None,
        }
    } else {
        None
    };
    let email = trim(body.email.as_str());
    let role = String::from_str(role_or_default(body.role.as_str()));
    Ok(
        OperatorUpdate {
            name: trim(body.name.as_str()),
            email: to_lowercase(email.as_str()),
            role,
            status: body.status,
            password_hash,
        },
    )
}

/// Checks a removal, given the role of the operator to remove (if found):
/// only managers remove, and never an owner.
pub fn check_delete(claims: &Claims, target_role: Option<String>) -> (r: Result<(), ApiError>)
    ensures
        !manages(*claims) ==> fails_with(
            r,
            FORBIDDEN,
            "only owners and admins can manage the team"@,
        ),
        manages(*claims) ==> match target_role {
            Some(t) => if t@ == "owner"@ {
                fails_with(r, BAD_REQUEST, "cannot remove an owner"@)
            } else {
                r is Ok
            },
            None => r is Ok,
        },
{
    if !can_manage(claims) {
        return Err(api_error(FORBIDDEN, "only owners and admins can manage the team"));
    }
    match target_role {
        Some(t) => if str_equal(t.as_str(), "owner") {
            Err(api_error(BAD_REQUEST, "cannot remove an owner"))
        } else {
            Ok(())
        },
        None => Ok(()),
    }
}

/// Every role stored is a known one, and a known role is kept as it is.
pub proof fn stored_roles_are_known(r: Seq<char>)
    ensures
        is_role(role_of(r)),
        is_role(r) ==> role_of(r) == r,
{
}

} // verus!
