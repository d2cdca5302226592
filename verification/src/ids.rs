//! Identifiers: ULID-based record ids with a kind prefix (`dev_…`, `log_…`).
use crate::text::{ascii_lower, ascii_lowercase, concat};
use vstd::prelude::*;

verus! {

/// The symbols of Crockford's base32 as ULIDs are written: `0`-`9` and the
/// uppercase letters except `I`, `L`, `O` and `U`.
pub open spec fn crockford_symbol(c: char) -> bool {
    let u = c as u32;
    (48 <= u <= 57 || 65 <= u <= 90) && u != 73 && u != 76 && u != 79 && u != 85
}

/// A ULID's text: 26 Crockford symbols.
pub open spec fn ulid_text(u: Seq<char>) -> bool {
    u.len() == 26 && forall|i: int| 0 <= i < u.len() ==> crockford_symbol(#[trigger] u[i])
}

/// The id of kind `prefix` made from the ULID text `ulid`.
pub open spec fn id_of(prefix: Seq<char>, ulid: Seq<char>) -> Seq<char> {
    prefix + seq!['_'] + ascii_lower(ulid)
}

/// Calls `ulid::Ulid::new().to_string()`, which reads the clock and draws
/// random bits. Trusted: the text is 26 Crockford base32 symbols (the crate's
/// encoder writes `ULID_LEN` symbols of that alphabet).
#[verifier::external_body]
fn new_ulid() -> (r: String)
    ensures
        ulid_text(r@),
{
    ulid::Ulid::new().to_string()
}

/// The id of kind `prefix` for the ULID text `ulid`: `prefix_` followed by the
/// ULID in lowercase.
pub fn id_from(prefix: &str, ulid: &str) -> (r: String)
    ensures
        r@ == id_of(prefix@, ulid@),
{
    let mut r = concat(prefix, "_");
    let lower = ascii_lowercase(ulid);
    r.append(lower.as_str());
    proof {
        reveal_strlit("_");
    }
    r
}

/// A fresh id of kind `prefix`, such as `dev_01j…`.
pub fn new_id(prefix: &str) -> (r: String)
    ensures
        exists|u: Seq<char>| ulid_text(u) && r@ == id_of(prefix@, u),
{
    let u = new_ulid();
    id_from(prefix, u.as_str())
}

} // verus!
