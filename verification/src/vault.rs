//! AES-256-GCM secret vault. A 32-byte key seals provider secrets (device
//! credentials, API keys) at rest. Sealed form is base64(nonce ‖ ciphertext+tag)
//! with a fresh 12-byte nonce per seal.
use crate::crypto::{aes256gcm_decrypt, aes256gcm_encrypt, aes_decrypt, aes_encrypt, aes_gcm_max_plaintext, os_random_bytes};
use crate::encoding::{b64std_decode, b64std_encode, decode_standard, encode_standard};
use vstd::prelude::*;
use vstd::utf8::{decode_utf8, encode_utf8, valid_utf8};

verus! {

broadcast use vstd::utf8::group_utf8_lib;

/// Why sealing or opening failed.
#[derive(Debug, Clone, PartialEq, Eq)]
pub enum VaultError {
    /// The cipher refused the plaintext (longer than AES-GCM allows).
    SealFailed,
    /// The sealed text is not valid base64; the decoder's report.
    NotBase64(String),
    /// The sealed bytes are shorter than a nonce.
    TooShort,
    /// The ciphertext does not open under this key.
    OpenFailed,
    /// The opened bytes are not UTF-8 text; the decoder's report.
    NotText(String),
}

/// A vault error as contracts speak of it: the same cases, with the
/// reports as text.
pub enum VaultFault {
    SealFailed,
    NotBase64(Seq<char>),
    TooShort,
    OpenFailed,
    NotText(Seq<char>),
}

/// The case and report of `e`.
pub open spec fn fault_of(e: VaultError) -> VaultFault {
    match e {
        VaultError::SealFailed => VaultFault::SealFailed,
        VaultError::NotBase64(m) => VaultFault::NotBase64(m@),
        VaultError::TooShort => VaultFault::TooShort,
        VaultError::OpenFailed => VaultFault::OpenFailed,
        VaultError::NotText(m) => VaultFault::NotText(m@),
    }
}

/// The message reported for each vault error: a fixed text, or the
/// decoder's own report.
pub open spec fn error_message(e: VaultError) -> Seq<char> {
    match e {
        VaultError::SealFailed => "seal failed"@,
        VaultError::NotBase64(m) => m@,
        VaultError::TooShort => "ciphertext too short"@,
        VaultError::OpenFailed => "open failed"@,
        VaultError::NotText(m) => m@,
    }
}

impl VaultError {
    /// The message reported for this error.
    pub fn message(&self) -> (r: String)
        ensures
            r@ == error_message(*self),
    {
        match self {
            VaultError::SealFailed => String::from_str("seal failed"),
            VaultError::NotBase64(m) => m.clone(),
            VaultError::TooShort => String::from_str("ciphertext too short"),
            VaultError::OpenFailed => String::from_str("open failed"),
            VaultError::NotText(m) => m.clone(),
        }
    }
}

/// A vault keyed by 32 bytes.
#[derive(Clone)]
pub struct Vault {
    key: [u8; 32],
}

/// The sealed form of `plaintext` under `key` with `nonce`.
pub open spec fn sealed_with(key: Seq<u8>, nonce: Seq<u8>, plaintext: Seq<char>) -> Result<
    Seq<char>,
    VaultFault,
> {
    match aes256gcm_encrypt(key, nonce, encode_utf8(plaintext)) {
        Some(c) => Ok(b64std_encode(nonce + c)),
        None => Err(VaultFault::SealFailed),
    }
}

/// The layout of a sealed secret: its base64 decodes to the 12-byte nonce,
/// then the ciphertext with its 16-byte tag (as long as the plaintext's UTF-8
/// bytes plus 16), which is AES-256-GCM's encryption of the plaintext.
pub open spec fn sealed_layout(key: Seq<u8>, sealed: Seq<char>, nonce: Seq<u8>, plaintext: Seq<char>) -> bool {
    b64std_decode(sealed) matches Ok(raw) && {
        &&& raw.len() == 12 + encode_utf8(plaintext).len() + 16
        &&& raw.take(12) == nonce
        &&& aes256gcm_encrypt(key, nonce, encode_utf8(plaintext)) == Some(raw.skip(12))
    }
}

/// What `sealed` opens to under `key`.
pub open spec fn opened_with(key: Seq<u8>, sealed: Seq<char>) -> Result<Seq<char>, VaultFault> {
    match b64std_decode(sealed) {
        Err(report) => Err(VaultFault::NotBase64(report)),
        Ok(raw) => if raw.len() < 12 {
            Err(VaultFault::TooShort)
        } else {
            match aes256gcm_decrypt(key, raw.take(12), raw.skip(12)) {
                None => Err(VaultFault::OpenFailed),
                Some(p) => if valid_utf8(p) {
                    Ok(decode_utf8(p))
                } else {
                    Err(VaultFault::NotText(utf8_error_text(p)))
                },
            }
        },
    }
}

/// The text of the `FromUtf8Error` that `String::from_utf8` reports for
/// `bytes`.
pub uninterp spec fn utf8_error_text(bytes: Seq<u8>) -> Seq<char>;

/// Calls `String::from_utf8`, and on error turns the error into its text.
/// Trusted: text comes back exactly when the bytes are valid UTF-8, and it is
/// their decoding; otherwise the report is the named one.
#[verifier::external_body]
fn utf8_text(bytes: Vec<u8>) -> (r: Result<String, String>)
    ensures
        r is Ok <==> valid_utf8(bytes@),
        r matches Ok(s) ==> s@ == decode_utf8(bytes@),
        r matches Err(e) ==> e@ == utf8_error_text(bytes@),
{
    String::from_utf8(bytes).map_err(|e| e.to_string())
}

impl Vault {
    /// The key's bytes.
    pub closed spec fn key(&self) -> Seq<u8> {
        self.key@
    }

    /// A vault with the given key.
    pub fn from_key(key: [u8; 32]) -> (r: Vault)
        ensures
            r.key() == key@,
    {
        Vault { key }
    }

    /// The key kept in a key file's contents: exactly 32 bytes, else none.
    pub fn key_from_file(contents: &[u8]) -> (r: Option<[u8; 32]>)
        ensures
            r is Some <==> contents@.len() == 32,
            r matches Some(k) ==> k@ == contents@,
    {
        if contents.len() != 32 {
            return None;
        }
        let mut k = [0u8; 32];
        let mut i: usize = 0;
        while i < 32
            invariant
                contents@.len() == 32,
                i <= 32,
                forall|j: int| 0 <= j < i ==> k@[j] == contents@[j],
            decreases 32 - i,
        {
            k[i] = contents[i];
            i = i + 1;
        }
        assert(k@ =~= contents@);
        Some(k)
    }

    /// A fresh random key.
    pub fn new_key() -> (r: [u8; 32]) {
        let bytes = os_random_bytes(32);
        match Vault::key_from_file(bytes.as_slice()) {
            Some(k) => k,
            None => [0u8; 32],
        }
    }

    /// Seals `plaintext` with the given nonce. What comes back opens to
    /// `plaintext` again under the same key.
    pub fn seal_with_nonce(&self, nonce: [u8; 12], plaintext: &str) -> (r: Result<
        String,
        VaultError,
    >)
        requires
            encode_utf8(plaintext@).len() + 28 <= usize::MAX / 2,
        ensures
            match r {
                Ok(s) => sealed_with(self.key(), nonce@, plaintext@) == Ok::<_, VaultFault>(s@),
                Err(e) => sealed_with(self.key(), nonce@, plaintext@) == Err::<Seq<char>, _>(fault_of(e)),
            },
            r is Err <==> encode_utf8(plaintext@).len() > aes_gcm_max_plaintext(),
            r matches Ok(s) ==> opened_with(self.key(), s@) == Ok::<_, VaultFault>(plaintext@),
            r matches Ok(s) ==> sealed_layout(self.key(), s@, nonce@, plaintext@),
    {
        let pt = plaintext.as_bytes();
        let ct = match aes_encrypt(&self.key, &nonce, pt) {
            Ok(c) => c,
            Err(_) => return Err(VaultError::SealFailed),
        };
        let mut out: Vec<u8> = Vec::new();
        let mut i: usize = 0;
        while i < 12
            invariant
                i <= 12,
                out@ == nonce@.take(i as int),
            decreases 12 - i,
        {
            out.push(nonce[i]);
            assert(nonce@.take(i + 1) == nonce@.take(i as int).push(nonce@[i as int]));
            i = i + 1;
        }
        assert(nonce@.take(12) == nonce@);
        let m = ct.len();
        let mut j: usize = 0;
        while j < m
            invariant
                m == ct@.len(),
                j <= m,
                out@ == nonce@ + ct@.take(j as int),
            decreases m - j,
        {
            out.push(ct[j]);
            assert(ct@.take(j + 1) == ct@.take(j as int).push(ct@[j as int]));
            j = j + 1;
        }
        assert(ct@.take(m as int) == ct@);
        proof {
            assert(ct@.len() == pt@.len() + 16);
            assert(pt@.len() <= aes_gcm_max_plaintext());
            assert((nonce@ + ct@).take(12) == nonce@);
            assert((nonce@ + ct@).skip(12) == ct@);
        }
        let sealed = encode_standard(out.as_slice());
        Ok(sealed)
    }

    /// Seals `plaintext` under a fresh random nonce. What comes back opens to
    /// `plaintext` again under the same key.
    pub fn seal(&self, plaintext: &str) -> (r: Result<String, VaultError>)
        requires
            encode_utf8(plaintext@).len() + 28 <= usize::MAX / 2,
        ensures
            r is Err <==> encode_utf8(plaintext@).len() > aes_gcm_max_plaintext(),
            r matches Ok(s) ==> exists|n: Seq<u8>|
                n.len() == 12 && sealed_with(self.key(), n, plaintext@) == Ok::<_, VaultFault>(
                    s@,
                ) && sealed_layout(self.key(), s@, n, plaintext@),
            r matches Ok(s) ==> opened_with(self.key(), s@) == Ok::<_, VaultFault>(plaintext@),
    {
        let bytes = os_random_bytes(12);
        let mut nonce = [0u8; 12];
        let mut i: usize = 0;
        while i < 12
            invariant
                bytes@.len() == 12,
                i <= 12,
                nonce@.take(i as int) == bytes@.take(i as int),
            decreases 12 - i,
        {
            nonce[i] = bytes[i];
            assert(nonce@.take(i + 1) == bytes@.take(i + 1));
            i = i + 1;
        }
        assert(nonce@.take(12) == nonce@ && bytes@.take(12) == bytes@);
        assert(nonce@ == bytes@);
        self.seal_with_nonce(nonce, plaintext)
    }

    /// Opens a sealed secret.
    pub fn open(&self, sealed: &str) -> (r: Result<String, VaultError>)
        ensures
            match r {
                Ok(s) => opened_with(self.key(), sealed@) == Ok::<_, VaultFault>(s@),
                Err(e) => opened_with(self.key(), sealed@) == Err::<Seq<char>, _>(fault_of(e)),
            },
    {
        let raw = match decode_standard(sealed) {
            Ok(v) => v,
            Err(report) => return Err(VaultError::NotBase64(report)),
        };
        if raw.len() < 12 {
            return Err(VaultError::TooShort);
        }
        let mut nonce: Vec<u8> = Vec::new();
        let mut ct: Vec<u8> = Vec::new();
        let n = raw.len();
        let mut i: usize = 0;
        while i < n
            invariant
                n == raw@.len(),
                12 <= n,
                i <= n,
                nonce@ == raw@.take(if i < 12 { i as int } else { 12 }),
                ct@ == (if i < 12 { Seq::<u8>::empty() } else { raw@.subrange(12, i as int) }),
            decreases n - i,
        {
            if i < 12 {
                nonce.push(raw[i]);
                assert(raw@.take(i + 1) == raw@.take(i as int).push(raw@[i as int]));
            } else {
                ct.push(raw[i]);
                assert(raw@.subrange(12, i + 1) == raw@.subrange(12, i as int).push(
                    raw@[i as int],
                ));
            }
            i = i + 1;
        }
        assert(raw@.subrange(12, n as int) == raw@.skip(12));
        let pt = match aes_decrypt(&self.key, nonce.as_slice(), ct.as_slice()) {
            Ok(p) => p,
            Err(_) => return Err(VaultError::OpenFailed),
        };
        match utf8_text(pt) {
            Ok(s) => Ok(s),
            Err(report) => Err(VaultError::NotText(report)),
        }
    }
}

} // verus!
