//! Settings checks: rotating the owner passcode and the alert webhook URL.
use super::{api_error, fails_with, ApiError, BAD_REQUEST, INTERNAL_SERVER_ERROR, UNAUTHORIZED};
use crate::session::{hash_passcode, passcode_matches, verify_passcode};
use crate::text::{trim, trimmed};
use vstd::prelude::*;
use vstd::utf8::encode_utf8;

verus! {

/// A passcode rotation.
#[derive(Debug)]
pub struct PasscodeBody {
    pub current: String,
    pub next: String,
}

/// A webhook change.
#[derive(Debug)]
pub struct WebhookBody {
    pub url: String,
}

/// Checks a passcode rotation against the stored hash (none stored matches
/// nothing): the trimmed current passcode must match, the trimmed new one
/// needs at least six bytes; what comes back is the new passcode's hash.
pub fn plan_passcode_change(stored_hash: Option<String>, body: &PasscodeBody) -> (r: Result<
    String,
    ApiError,
>)
    ensures
        ({
            let hash = match stored_hash {
                Some(h) => h@,
                None => Seq::<char>::empty(),
            };
            let next = trimmed(body.next@);
            if !passcode_matches(hash, trimmed(body.current@)) {
                fails_with(r, UNAUTHORIZED, "current passcode is incorrect"@)
            } else if encode_utf8(next).len() < 6 {
                fails_with(r, BAD_REQUEST, "the new passcode must be at least 6 characters"@)
            } else {
                r matches Ok(h) && passcode_matches(h@, next)
            }
        }),
{
    let hash = match stored_hash {
        Some(h) => h,
        None => String::new(),
    };
    let current = trim(body.current.as_str());
    if !verify_passcode(hash.as_str(), current.as_str()) {
        return Err(api_error(UNAUTHORIZED, "current passcode is incorrect"));
    }
    let next = trim(body.next.as_str());
    if next.as_str().as_bytes().len() < 6 {
        return Err(api_error(BAD_REQUEST, "the new passcode must be at least 6 characters"));
    }
    match hash_passcode(next.as_str()) {
        Ok(h) => Ok(h),
        Err(_) => Err(api_error(INTERNAL_SERVER_ERROR, "could not hash passcode")),
    }
}

/// The webhook URL to store: the given one, trimmed.
pub fn webhook_url(body: &WebhookBody) -> (r: String)
    ensures
        r@ == trimmed(body.url@),
{
    trim(body.url.as_str())
}

} // verus!
