//! Base64 through the `base64` crate: the URL-safe unpadded engine that
//! session tokens and secrets use, and the standard padded engine of the vault.
use base64::Engine;
use vstd::prelude::*;

verus! {

/// The base64 symbol for the six-bit value `v`: `A`-`Z`, `a`-`z`, `0`-`9`,
/// then `-` and `_` in the URL-safe alphabet or `+` and `/` in the standard.
pub open spec fn b64_symbol(v: int, url_safe: bool) -> char {
    if v < 26 {
        (65 + v) as char
    } else if v < 52 {
        (97 + v - 26) as char
    } else if v < 62 {
        (48 + v - 52) as char
    } else if v == 62 {
        if url_safe {
            '-'
        } else {
            '+'
        }
    } else if url_safe {
        '_'
    } else {
        '/'
    }
}

/// Base64 of `bytes` (RFC 4648): each three bytes become four symbols of six
/// bits each, high bits first; a final one or two bytes become two or three
/// symbols, followed by `=` padding to four when `pad` is set.
pub open spec fn b64_encode(bytes: Seq<u8>, url_safe: bool, pad: bool) -> Seq<char>
    decreases bytes.len(),
{
    if bytes.len() >= 3 {
        let (a, b, c) = (bytes[0] as int, bytes[1] as int, bytes[2] as int);
        seq![
            b64_symbol(a / 4, url_safe),
            b64_symbol((a % 4) * 16 + b / 16, url_safe),
            b64_symbol((b % 16) * 4 + c / 64, url_safe),
            b64_symbol(c % 64, url_safe),
        ] + b64_encode(bytes.skip(3), url_safe, pad)
    } else if bytes.len() == 2 {
        let (a, b) = (bytes[0] as int, bytes[1] as int);
        seq![
            b64_symbol(a / 4, url_safe),
            b64_symbol((a % 4) * 16 + b / 16, url_safe),
            b64_symbol((b % 16) * 4, url_safe),
        ] + if pad {
            seq!['=']
        } else {
            Seq::empty()
        }
    } else if bytes.len() == 1 {
        let a = bytes[0] as int;
        seq![b64_symbol(a / 4, url_safe), b64_symbol((a % 4) * 16, url_safe)] + if pad {
            seq!['=', '=']
        } else {
            Seq::empty()
        }
    } else {
        Seq::empty()
    }
}

/// What `URL_SAFE_NO_PAD.encode` returns for `bytes`: URL-safe base64
/// without padding.
pub open spec fn b64url_encode(bytes: Seq<u8>) -> Seq<char> {
    b64_encode(bytes, true, false)
}

/// What `URL_SAFE_NO_PAD.decode` returns for `text`: the bytes, or `None` on error.
pub uninterp spec fn b64url_decode(text: Seq<char>) -> Option<Seq<u8>>;

/// What `STANDARD.encode` returns for `bytes`: standard base64 with `=`
/// padding.
pub open spec fn b64std_encode(bytes: Seq<u8>) -> Seq<char> {
    b64_encode(bytes, false, true)
}

/// What `STANDARD.decode` returns for `text`: the bytes, or on error the
/// text of the `DecodeError` it reports.
pub uninterp spec fn b64std_decode(text: Seq<char>) -> Result<Seq<u8>, Seq<char>>;

/// The symbols of the URL-safe alphabet: `A`-`Z`, `a`-`z`, `0`-`9`, `-`, `_`.
pub open spec fn url_safe_symbol(c: char) -> bool {
    let u = c as u32;
    ||| 65 <= u <= 90
    ||| 97 <= u <= 122
    ||| 48 <= u <= 57
    ||| u == 45
    ||| u == 95
}

/// `base64::DecodeError`.
#[verifier::external_type_specification]
#[verifier::external_body]
pub struct ExDecodeError(base64::DecodeError);

/// Calls `URL_SAFE_NO_PAD.encode`. Trusted: the result is the encoding above;
/// it is made of URL-safe symbols only (the engine's alphabet, no padding);
/// and decoding it with the same engine gives the bytes back.
#[verifier::external_body]
pub(crate) fn encode_url_safe(bytes: &[u8]) -> (r: String)
    requires
        bytes@.len() <= usize::MAX / 2,
    ensures
        r@ == b64url_encode(bytes@),
        forall|i: int| 0 <= i < r@.len() ==> url_safe_symbol(#[trigger] r@[i]),
        b64url_decode(r@) == Some(bytes@),
{
    base64::engine::general_purpose::URL_SAFE_NO_PAD.encode(bytes)
}

/// Calls `URL_SAFE_NO_PAD.decode` on the UTF-8 bytes of `text`. Trusted: the
/// outcome is the named decoding.
#[verifier::external_body]
pub(crate) fn decode_url_safe(text: &str) -> (r: Result<Vec<u8>, base64::DecodeError>)
    ensures
        match r {
            Ok(v) => b64url_decode(text@) == Some(v@),
            Err(_) => b64url_decode(text@) is None,
        },
{
    base64::engine::general_purpose::URL_SAFE_NO_PAD.decode(text)
}

/// Calls `STANDARD.encode`. Trusted: the result is the encoding above, and
/// decoding it with the same engine gives the bytes back.
#[verifier::external_body]
pub(crate) fn encode_standard(bytes: &[u8]) -> (r: String)
    requires
        bytes@.len() <= usize::MAX / 2,
    ensures
        r@ == b64std_encode(bytes@),
        b64std_decode(r@) is Ok,
        b64std_decode(r@)->Ok_0 == bytes@,
{
    base64::engine::general_purpose::STANDARD.encode(bytes)
}

/// Calls `STANDARD.decode` on the UTF-8 bytes of `text`, and on error turns
/// the `DecodeError` into its text. Trusted: the outcome is the named
/// decoding.
#[verifier::external_body]
pub(crate) fn decode_standard(text: &str) -> (r: Result<Vec<u8>, String>)
    ensures
        match r {
            Ok(v) => b64std_decode(text@) matches Ok(d) && d == v@,
            Err(e) => b64std_decode(text@) matches Err(m) && m == e@,
        },
{
    base64::engine::general_purpose::STANDARD.decode(text).map_err(|e| e.to_string())
}

} // verus!
