//! Sign-in decisions: dual-mode sign-in (operator email and password, or the
//! owner's console passcode) and the identity a session is issued for.
use super::{api_error, fails_with, ApiError, FORBIDDEN, UNAUTHORIZED};
use crate::models::OperatorAuth;
use crate::session::{passcode_matches, verify_passcode};
use crate::text::{blank, is_blank, owned, str_equal, trim, trimmed};
use vstd::prelude::*;

verus! {

/// The sign-in request. Every field defaults to empty.
#[derive(Debug)]
pub struct LoginBody {
    pub passcode: String,
    pub email: String,
    pub password: String,
}

/// Who a session is issued for.
#[derive(Debug)]
pub struct Identity {
    pub oid: String,
    pub role: String,
    pub name: String,
}

/// Which sign-in a request asks for.
#[derive(Debug)]
pub enum SignIn {
    /// Operator sign-in with the trimmed email and the password as given.
    Operator { email: String, password: String },
    /// Owner sign-in with the trimmed console passcode.
    Owner { passcode: String },
}

/// A request with a non-blank email is an operator sign-in; any other is the
/// owner's.
pub fn sign_in_kind(body: &LoginBody) -> (r: SignIn)
    ensures
        !blank(body.email@) ==> (r matches SignIn::Operator { email, password } && email@
            == trimmed(body.email@) && password@ == body.password@),
        blank(body.email@) ==> (r matches SignIn::Owner { passcode } && passcode@ == trimmed(
            body.passcode@,
        )),
{
    if !is_blank(body.email.as_str()) {
        SignIn::Operator { email: trim(body.email.as_str()), password: owned(body.password.as_str()) }
    } else {
        SignIn::Owner { passcode: trim(body.passcode.as_str()) }
    }
}

/// Operator sign-in, given the operator found by email (if any): the password
/// must match and the operator must be active.
pub fn operator_sign_in(op: Option<OperatorAuth>, password: &str) -> (r: Result<Identity, ApiError>)
    ensures
        match op {
            None => fails_with(r, UNAUTHORIZED, "invalid email or password"@),
            Some(o) => if !passcode_matches(o.password_hash@, password@) {
                fails_with(r, UNAUTHORIZED, "invalid email or password"@)
            } else if o.status@ != "active"@ {
                fails_with(r, FORBIDDEN, "this operator is suspended"@)
            } else {
                r matches Ok(id) && id.oid == o.id && id.role == o.role && id.name == o.name
            },
        },
{
    let o = match op {
        Some(o) => o,
        None => return Err(api_error(UNAUTHORIZED, "invalid email or password")),
    };
    if !verify_passcode(o.password_hash.as_str(), password) {
        return Err(api_error(UNAUTHORIZED, "invalid email or password"));
    }
    if !str_equal(o.status.as_str(), "active") {
        return Err(api_error(FORBIDDEN, "this operator is suspended"));
    }
    Ok(Identity { oid: o.id, role: o.role, name: o.name })
}

/// Owner sign-in against the stored passcode hash (none stored matches
/// nothing).
pub fn owner_sign_in(stored_hash: Option<String>, passcode: &str) -> (r: Result<Identity, ApiError>)
    ensures
        ({
            let hash = match stored_hash {
                Some(h) => h@,
                None => Seq::<char>::empty(),
            };
            if passcode_matches(hash, passcode@) {
                r matches Ok(id) && id.oid@ == "owner"@ && id.role@ == "owner"@ && id.name@
                    == "Owner"@
            } else {
                fails_with(r, UNAUTHORIZED, "invalid passcode"@)
            }
        }),
{
    let hash = match stored_hash {
        Some(h) => h,
        None => String::new(),
    };
    if !verify_passcode(hash.as_str(), passcode) {
        return Err(api_error(UNAUTHORIZED, "invalid passcode"));
    }
    Ok(
        Identity {
            oid: String::from_str("owner"),
            role: String::from_str("owner"),
            name: String::from_str("Owner"),
        },
    )
}

} // verus!
