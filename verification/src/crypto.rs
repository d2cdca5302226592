//! The cryptographic primitives the library relies on, each behind one
//! trusted item: HMAC-SHA-256, SHA-256, bcrypt, AES-256-GCM, and the system's
//! randomness.
use aes_gcm::aead::{Aead, KeyInit};
use hmac::Mac;
use rand::Rng;
use rand::RngCore;
use sha2::Digest;
use vstd::prelude::*;

verus! {

/// The HMAC-SHA-256 tag of `message` under `key`.
pub uninterp spec fn hmac_sha256(key: Seq<u8>, message: Seq<u8>) -> Seq<u8>;

/// The SHA-256 digest of `bytes`.
pub uninterp spec fn sha256(bytes: Seq<u8>) -> Seq<u8>;

/// What `bcrypt::verify(password, hash)` returns: `Some(matches)`, or `None`
/// when `hash` is not a well-formed bcrypt hash.
pub uninterp spec fn bcrypt_verify(password: Seq<char>, hash: Seq<char>) -> Option<bool>;

/// What `Aes256Gcm::encrypt` returns for a key, a 12-byte nonce and a
/// plaintext: ciphertext followed by the 16-byte tag, or `None` on error.
pub uninterp spec fn aes256gcm_encrypt(key: Seq<u8>, nonce: Seq<u8>, plaintext: Seq<u8>) -> Option<
    Seq<u8>,
>;

/// What `Aes256Gcm::decrypt` returns for a key, a 12-byte nonce and a
/// ciphertext with its tag: the plaintext, or `None` when it does not open.
pub uninterp spec fn aes256gcm_decrypt(key: Seq<u8>, nonce: Seq<u8>, ciphertext: Seq<u8>) -> Option<
    Seq<u8>,
>;

/// The largest plaintext, in bytes, that AES-GCM encrypts (`aes_gcm::P_MAX`).
pub open spec fn aes_gcm_max_plaintext() -> int {
    0x10_0000_0000
}

/// `bcrypt::BcryptError`.
#[verifier::external_type_specification]
#[verifier::external_body]
pub struct ExBcryptError(bcrypt::BcryptError);

/// `aes_gcm::Error`.
#[verifier::external_type_specification]
#[verifier::external_body]
pub struct ExAeadError(aes_gcm::Error);

/// Computes HMAC-SHA-256 with `hmac::Hmac<sha2::Sha256>` (new_from_slice,
/// update, finalize). Trusted: the tag is the named one and is 32 bytes long;
/// HMAC takes keys of any length, so the key is never refused.
#[verifier::external_body]
pub(crate) fn hmac_sha256_tag(key: &[u8], message: &[u8]) -> (r: Vec<u8>)
    ensures
        r@ == hmac_sha256(key@, message@),
        r@.len() == 32,
{
    let mut mac = <hmac::Hmac<sha2::Sha256> as Mac>::new_from_slice(key).expect(
        "hmac accepts any key length",
    );
    mac.update(message);
    mac.finalize().into_bytes().to_vec()
}

/// Calls `sha2::Sha256::digest`. Trusted: the digest is the named one and is
/// 32 bytes long.
#[verifier::external_body]
pub(crate) fn sha256_digest(bytes: &[u8]) -> (r: Vec<u8>)
    ensures
        r@ == sha256(bytes@),
        r@.len() == 32,
{
    sha2::Sha256::digest(bytes).to_vec()
}

/// Calls `bcrypt::verify(password, hash)`. Trusted: the outcome is the named one.
#[verifier::external_body]
pub(crate) fn bcrypt_check(password: &str, hash: &str) -> (r: Result<bool, bcrypt::BcryptError>)
    ensures
        match r {
            Ok(b) => bcrypt_verify(password@, hash@) == Some(b),
            Err(_) => bcrypt_verify(password@, hash@) is None,
        },
{
    bcrypt::verify(password, hash)
}

/// Calls `bcrypt::hash_with_salt(password, DEFAULT_COST, salt)` and writes
/// the parts in the `$2b$` form (`format_for_version(Version::TwoB)`, as
/// `bcrypt::hash` does). Trusted: at the default cost the call does not fail
/// (its only check is the cost's range); the hash is the 60-character
/// `$2b$12$...` form, and `bcrypt::verify` accepts the same password against
/// it (it re-hashes the password with the salt and cost read back from the
/// hash).
#[verifier::external_body]
pub(crate) fn bcrypt_hash(password: &str, salt: [u8; 16]) -> (r: Result<String, bcrypt::BcryptError>)
    ensures
        r is Ok,
        r->Ok_0@.len() == 60,
        bcrypt_verify(password@, r->Ok_0@) == Some(true),
{
    bcrypt::hash_with_salt(password, bcrypt::DEFAULT_COST, salt).map(
        |p| p.format_for_version(bcrypt::Version::TwoB),
    )
}

/// Calls `Aes256Gcm::new(key).encrypt(nonce, plaintext)`. Trusted: the
/// outcome is the named one; it fails exactly when the plaintext is longer than
/// `P_MAX`; the ciphertext is 16 bytes (the tag) longer than the plaintext; and
/// decrypting it with the same key and nonce gives the plaintext back.
#[verifier::external_body]
pub(crate) fn aes_encrypt(key: &[u8; 32], nonce: &[u8; 12], plaintext: &[u8]) -> (r: Result<
    Vec<u8>,
    aes_gcm::Error,
>)
    ensures
        match r {
            Ok(c) => {
                &&& aes256gcm_encrypt(key@, nonce@, plaintext@) == Some(c@)
                &&& c@.len() == plaintext@.len() + 16
                &&& aes256gcm_decrypt(key@, nonce@, c@) == Some(plaintext@)
            },
            Err(_) => aes256gcm_encrypt(key@, nonce@, plaintext@) is None,
        },
        r is Ok <==> plaintext@.len() <= aes_gcm_max_plaintext(),
{
    let cipher = aes_gcm::Aes256Gcm::new(aes_gcm::Key::<aes_gcm::Aes256Gcm>::from_slice(key));
    cipher.encrypt(aes_gcm::Nonce::from_slice(nonce), plaintext)
}

/// Calls `Aes256Gcm::new(key).decrypt(nonce, ciphertext)`. Trusted: the
/// outcome is the named one.
#[verifier::external_body]
pub(crate) fn aes_decrypt(key: &[u8; 32], nonce: &[u8], ciphertext: &[u8]) -> (r: Result<
    Vec<u8>,
    aes_gcm::Error,
>)
    requires
        nonce@.len() == 12,
    ensures
        match r {
            Ok(p) => aes256gcm_decrypt(key@, nonce@, ciphertext@) == Some(p@),
            Err(_) => aes256gcm_decrypt(key@, nonce@, ciphertext@) is None,
        },
{
    let cipher = aes_gcm::Aes256Gcm::new(aes_gcm::Key::<aes_gcm::Aes256Gcm>::from_slice(key));
    cipher.decrypt(aes_gcm::Nonce::from_slice(nonce), ciphertext)
}

/// Fills `len` bytes from the operating system's generator (`OsRng`).
/// Trusted: exactly `len` bytes come back; nothing is said of their values.
#[verifier::external_body]
pub(crate) fn os_random_bytes(len: usize) -> (r: Vec<u8>)
    ensures
        r@.len() == len,
{
    let mut bytes = vec![0u8; len];
    rand::rngs::OsRng.fill_bytes(&mut bytes);
    bytes
}

/// Draws a uniform index below `bound` from `rand::thread_rng()` with
/// `gen_range(0..bound)`. Trusted: the index is below `bound`.
#[verifier::external_body]
pub(crate) fn random_below(bound: usize) -> (r: usize)
    requires
        bound > 0,
    ensures
        r < bound,
{
    rand::thread_rng().gen_range(0..bound)
}

} // verus!
