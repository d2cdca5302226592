//! Operator auth primitives: bcrypt passcodes and an HMAC-signed session token
//! carrying role claims. Roles: owner, admin, operator, viewer; `viewer` is
//! read-only.
//!
//! A token is `B64U(claims) "." B64U(HMAC-SHA-256(secret, B64U(claims)))`,
//! where `B64U` is unpadded URL-safe base64 and the claims are JSON. This
//! module frames, signs and checks tokens over the claims' bytes; turning the
//! claims into JSON and back is left to the caller.
use crate::crypto::{bcrypt_check, bcrypt_hash, bcrypt_verify, hmac_sha256, hmac_sha256_tag, os_random_bytes};
use crate::encoding::{b64url_decode, b64url_encode, decode_url_safe, encode_url_safe, url_safe_symbol};
use crate::text::{chars_of, find_char, first_index, is_space, lemma_first_index_at, str_equal, string_of_range};
use vstd::prelude::*;
use vstd::utf8::encode_utf8;

verus! {

/// Name of the session cookie.
pub const SESSION_COOKIE: &'static str = "sb_session";

/// Lifetime of a session, in seconds (twelve hours).
pub const SESSION_TTL_SECS: i64 = 12 * 3600;

/// The claims a session token carries.
#[derive(Clone, Debug)]
pub struct Claims {
    /// Expiry, in seconds since the Unix epoch.
    pub exp: i64,
    /// Operator id (`owner` for the console owner).
    pub oid: String,
    /// Role: owner, admin, operator or viewer.
    pub role: String,
    /// Display name.
    pub name: String,
}

/// Why a passcode could not be hashed.
#[derive(Debug)]
pub enum AuthError {
    /// bcrypt refused to hash (it does not at the default cost).
    Hash,
}

/// The signature part of a token for `payload` under `secret`.
pub open spec fn signature(secret: Seq<char>, payload: Seq<char>) -> Seq<char> {
    b64url_encode(hmac_sha256(encode_utf8(secret), encode_utf8(payload)))
}

/// The token that frames the claims' bytes `claims` under `secret`.
pub open spec fn sealed_token(secret: Seq<char>, claims: Seq<u8>) -> Seq<char> {
    let payload = b64url_encode(claims);
    payload + seq!['.'] + signature(secret, payload)
}

/// The claims' bytes that `token` carries under `secret`: the text before the
/// first `.` is the payload, the rest must be its signature, and the payload
/// must decode.
pub open spec fn opened_token(secret: Seq<char>, token: Seq<char>) -> Option<Seq<u8>> {
    match first_index(token, '.') {
        Some(i) => {
            let payload = token.take(i);
            if signature(secret, payload) == token.skip(i + 1) {
                b64url_decode(payload)
            } else {
                None
            }
        },
        None => None,
    }
}

/// A passcode matches a stored hash when the hash is not empty and bcrypt
/// accepts the passcode against it.
pub open spec fn passcode_matches(hash: Seq<char>, pass: Seq<char>) -> bool {
    hash.len() > 0 && bcrypt_verify(pass, hash) == Some(true)
}

/// The timestamp for a reading of the clock: whole seconds since the epoch as
/// `i64` (wrapping as `as` does), or 0 when the clock is before the epoch.
pub open spec fn timestamp_of(elapsed: Option<u64>) -> i64 {
    match elapsed {
        Some(s) => s as i64,
        None => 0,
    }
}

/// Reads the system clock: `SystemTime::now().duration_since(UNIX_EPOCH)` in
/// whole seconds, `None` when the clock is before the epoch. Trusted for
/// nothing: the reading depends on the time.
#[verifier::external_body]
fn seconds_since_epoch() -> (r: Option<u64>) {
    std::time::SystemTime::now().duration_since(std::time::UNIX_EPOCH).ok().map(|d| d.as_secs())
}

/// Converts a clock reading into a timestamp.
pub fn timestamp(elapsed: Option<u64>) -> (r: i64)
    ensures
        r == timestamp_of(elapsed),
{
    match elapsed {
        Some(s) => s as i64,
        None => 0,
    }
}

/// Seconds since the Unix epoch, or 0 if the clock is before it.
pub fn now() -> (r: i64) {
    timestamp(seconds_since_epoch())
}

/// Read-only roles cannot perform mutating requests.
pub fn is_read_only(role: &str) -> (r: bool)
    ensures
        r == (role@ == "viewer"@),
{
    str_equal(role, "viewer")
}

/// The text of a session secret made of `bytes`.
pub fn secret_from_bytes(bytes: &[u8]) -> (r: String)
    requires
        bytes@.len() <= usize::MAX / 2,
    ensures
        r@ == b64url_encode(bytes@),
{
    encode_url_safe(bytes)
}

/// A fresh session secret: 32 random bytes, URL-safe base64.
pub fn new_secret() -> (r: String)
    ensures
        exists|b: Seq<u8>| b.len() == 32 && r@ == b64url_encode(b),
{
    let bytes = os_random_bytes(32);
    secret_from_bytes(bytes.as_slice())
}

/// The signature of `payload` under `secret`.
pub fn sign(secret: &str, payload: &str) -> (r: String)
    ensures
        r@ == signature(secret@, payload@),
        forall|i: int| 0 <= i < r@.len() ==> url_safe_symbol(#[trigger] r@[i]),
{
    let tag = hmac_sha256_tag(secret.as_bytes(), payload.as_bytes());
    encode_url_safe(tag.as_slice())
}

/// When a session issued at `issued` expires.
pub open spec fn expiry_for(issued: int) -> int {
    issued + SESSION_TTL_SECS
}

/// Claims are still valid at `now` up to and including their expiry second.
pub open spec fn unexpired(claims: Claims, now: int) -> bool {
    now <= claims.exp
}

/// The expiry of a session issued at `now`.
pub fn token_expiry(now: i64) -> (r: i64)
    requires
        now <= i64::MAX - SESSION_TTL_SECS,
    ensures
        r == expiry_for(now as int),
{
    now + SESSION_TTL_SECS
}

/// Frames the claims' bytes into a signed token. The token opens again under
/// the same secret to the same bytes, and holds neither `;` nor whitespace, so
/// that it can travel in a cookie.
pub fn seal_token(secret: &str, claims: &[u8]) -> (r: String)
    requires
        claims@.len() <= usize::MAX / 2,
    ensures
        r@ == sealed_token(secret@, claims@),
        opened_token(secret@, r@) == Some(claims@),
        forall|i: int| 0 <= i < r@.len() ==> r@[i] != ';' && !is_space(#[trigger] r@[i]),
{
    let payload = encode_url_safe(claims);
    let sig = sign(secret, payload.as_str());
    let mut token = payload.clone();
    token.append(".");
    token.append(sig.as_str());
    proof {
        let p = payload@;
        let t = token@;
        reveal_strlit(".");
        assert(t == p + seq!['.'] + sig@);
        assert forall|j: int| 0 <= j < p.len() implies t[j] != '.' by {
            assert(t[j] == p[j]);
            assert(url_safe_symbol(p[j]));
        }
        assert(t[p.len() as int] == '.');
        lemma_first_index_at(t, '.', p.len() as int);
        assert(t.take(p.len() as int) == p);
        assert(t.skip(p.len() as int + 1) == sig@);
        assert forall|i: int| 0 <= i < t.len() implies t[i] != ';' && !is_space(#[trigger] t[i]) by {
            if i < p.len() {
                assert(t[i] == p[i]);
                assert(url_safe_symbol(p[i]));
            } else if i > p.len() {
                assert(t[i] == sig@[i - p.len() - 1]);
                assert(url_safe_symbol(sig@[i - p.len() - 1]));
            }
        }
    }
    token
}

/// The claims' bytes that `token` carries, if it is signed under `secret` and
/// its payload decodes.
pub fn open_token(secret: &str, token: &str) -> (r: Option<Vec<u8>>)
    ensures
        match r {
            Some(v) => opened_token(secret@, token@) == Some(v@),
            None => opened_token(secret@, token@) is None,
        },
{
    let cs = chars_of(token);
    let dot = match find_char(cs.as_slice(), 0, '.') {
        Some(k) => k,
        None => {
            assert(cs@.skip(0) == cs@);
            return None;
        },
    };
    assert(cs@.skip(0) == cs@);
    let n = cs.len();
    let payload = string_of_range(cs.as_slice(), 0, dot);
    let sig = string_of_range(cs.as_slice(), dot + 1, n);
    assert(cs@.subrange(0, dot as int) == token@.take(dot as int));
    assert(cs@.subrange(dot + 1, cs@.len() as int) == token@.skip(dot + 1));
    let expected = sign(secret, payload.as_str());
    if !str_equal(expected.as_str(), sig.as_str()) {
        return None;
    }
    match decode_url_safe(payload.as_str()) {
        Ok(bytes) => Some(bytes),
        Err(_) => None,
    }
}

/// The claims if they have not expired at `now`.
pub fn check_expiry(claims: Claims, now: i64) -> (r: Option<Claims>)
    ensures
        r == (if unexpired(claims, now as int) {
            Some(claims)
        } else {
            None
        }),
{
    if claims.exp < now {
        None
    } else {
        Some(claims)
    }
}

/// Hashes a passcode with bcrypt at its default cost, under a random salt
/// drawn from the system. The hash always comes back, and it matches the
/// passcode (see `verify_passcode`).
pub fn hash_passcode(pass: &str) -> (r: Result<String, AuthError>)
    ensures
        r matches Ok(h) && passcode_matches(h@, pass@),
{
    let bytes = os_random_bytes(16);
    let mut salt = [0u8; 16];
    let mut i: usize = 0;
    while i < 16
        invariant
            bytes@.len() == 16,
            i <= 16,
            salt@.take(i as int) == bytes@.take(i as int),
        decreases 16 - i,
    {
        salt[i] = bytes[i];
        assert(salt@.take(i + 1) == bytes@.take(i + 1));
        i = i + 1;
    }
    match bcrypt_hash(pass, salt) {
        Ok(h) => Ok(h),
        Err(_) => Err(AuthError::Hash),
    }
}

/// Whether `pass` matches the stored bcrypt `hash`; an empty hash matches
/// nothing.
pub fn verify_passcode(hash: &str, pass: &str) -> (r: bool)
    ensures
        r == passcode_matches(hash@, pass@),
{
    if hash.is_empty() {
        return false;
    }
    match bcrypt_check(pass, hash) {
        Ok(b) => b,
        Err(_) => false,
    }
}

/// A token is accepted only when the text after its first `.` is the
/// signature, under the secret, of the text before it, and what it carries is
/// that text decoded.
pub proof fn accepted_tokens_are_signed(secret: Seq<char>, token: Seq<char>, claims: Seq<u8>)
    requires
        opened_token(secret, token) == Some(claims),
    ensures
        exists|i: int|
            0 <= i < token.len() && token == token.take(i) + seq!['.'] + signature(
                secret,
                token.take(i),
            ) && b64url_decode(token.take(i)) == Some(claims),
{
    crate::text::lemma_first_index(token, '.');
    let i = first_index(token, '.')->0;
    assert(token == token.take(i) + seq!['.'] + token.skip(i + 1));
}

/// An empty stored hash matches no passcode.
pub proof fn empty_hash_matches_nothing(pass: Seq<char>)
    ensures
        !passcode_matches(Seq::<char>::empty(), pass),
{
}

/// A session lasts its lifetime: claims carrying the expiry of a session
/// issued at `issued` pass the expiry check at every time from then up to
/// `SESSION_TTL_SECS` later, and fail at every time after that.
pub proof fn sessions_last_their_lifetime(claims: Claims, issued: int, t: int)
    requires
        claims.exp == expiry_for(issued),
    ensures
        issued <= t <= issued + SESSION_TTL_SECS ==> unexpired(claims, t),
        t > issued + SESSION_TTL_SECS ==> !unexpired(claims, t),
{
}

/// A passcode matches a stored hash on bcrypt's verdict alone: exactly when
/// the hash is not empty and bcrypt accepts that very passcode against it.
/// Whatever bcrypt does not accept, the empty passcode included, is refused.
pub proof fn matches_are_bcrypt_verdicts(hash: Seq<char>, pass: Seq<char>)
    ensures
        passcode_matches(hash, pass) <==> (hash.len() > 0 && bcrypt_verify(pass, hash) == Some(
            true,
        )),
        bcrypt_verify(pass, hash) != Some(true) ==> !passcode_matches(hash, pass),
{
}

} // verus!
