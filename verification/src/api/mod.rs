//! The decisions of the HTTP API: error replies, the session cookie, the
//! write-guard that keeps read-only roles from mutating, and the checks each
//! handler makes on its request before it touches the store.
use crate::session::{Claims, SESSION_COOKIE, SESSION_TTL_SECS};
use crate::text::{
    blank, chars_of, concat, decimal, decimal_string, has_prefix, has_prefix_at, is_blank, is_space,
    first_index, split_chars, split_on, str_equal, string_of_range, trim, trim_bounds, trim_start,
    trimmed, views,
};
use vstd::prelude::*;

pub mod auth;
pub mod commands;
pub mod delivery;
pub mod devices;
pub mod fleets;
pub mod operators;
pub mod rules;
pub mod settings;

verus! {

/// 400 Bad Request.
pub const BAD_REQUEST: u16 = 400;

/// 401 Unauthorized.
pub const UNAUTHORIZED: u16 = 401;

/// 403 Forbidden.
pub const FORBIDDEN: u16 = 403;

/// 404 Not Found.
pub const NOT_FOUND: u16 = 404;

/// 500 Internal Server Error.
pub const INTERNAL_SERVER_ERROR: u16 = 500;

/// An error reply: `{ "ok": false, "error": message }` with an HTTP status.
#[derive(Debug)]
pub struct ApiError {
    pub status: u16,
    pub message: String,
}

/// `r` is the error reply with this status and message.
pub open spec fn fails_with<T>(r: Result<T, ApiError>, status: u16, message: Seq<char>) -> bool {
    r matches Err(e) && e.status == status && e.message@ == message
}

/// The error reply with this status and message.
pub fn api_error(status: u16, message: &str) -> (r: ApiError)
    ensures
        r.status == status,
        r.message@ == message@,
{
    ApiError { status, message: String::from_str(message) }
}

/// The outcome of a store update that touches the rows of one record: none
/// touched is a 404 with `missing`, a store failure a 500 with its text.
pub fn affected(rows: Result<usize, String>, missing: &str) -> (r: Result<usize, ApiError>)
    ensures
        match rows {
            Ok(n) => if n == 0 {
                fails_with(r, NOT_FOUND, missing@)
            } else {
                r == Ok::<usize, ApiError>(n)
            },
            Err(e) => fails_with(r, INTERNAL_SERVER_ERROR, e@),
        },
{
    match rows {
        Ok(0) => Err(api_error(NOT_FOUND, missing)),
        Ok(n) => Ok(n),
        Err(e) => Err(ApiError { status: INTERNAL_SERVER_ERROR, message: e }),
    }
}

/// A required text field: its trimmed value, or a 400 with `message` when it
/// is blank.
pub fn required(value: &str, message: &str) -> (r: Result<String, ApiError>)
    ensures
        blank(value@) ==> fails_with(r, BAD_REQUEST, message@),
        !blank(value@) ==> (r matches Ok(v) && v@ == trimmed(value@)),
{
    if is_blank(value) {
        Err(api_error(BAD_REQUEST, message))
    } else {
        Ok(trim(value))
    }
}

/// An optional id with the empty value read as absent
/// (`as_deref().filter(|s| !s.is_empty())`).
pub fn non_empty(value: Option<String>) -> (r: Option<String>)
    ensures
        match value {
            Some(v) => if v@.len() == 0 {
                r is None
            } else {
                r == Some(v)
            },
            None => r is None,
        },
{
    match value {
        Some(v) => if v.as_str().is_empty() {
            None
        } else {
            Some(v)
        },
        None => None,
    }
}

/// The `Set-Cookie` value that starts a session carrying `token`.
pub open spec fn session_cookie(token: Seq<char>) -> Seq<char> {
    SESSION_COOKIE@ + "="@ + token + "; HttpOnly; Path=/; SameSite=Lax; Max-Age="@ + decimal(
        SESSION_TTL_SECS as nat,
    )
}

/// The `Set-Cookie` value that ends the session.
pub open spec fn cleared_cookie() -> Seq<char> {
    SESSION_COOKIE@ + "=; HttpOnly; Path=/; SameSite=Lax; Max-Age=0"@
}

/// The value of the first `;`-separated piece of a `Cookie` header that,
/// trimmed, begins with `name=`.
pub open spec fn cookie_value(header: Seq<char>, name: Seq<char>) -> Option<Seq<char>> {
    first_with_prefix(split_on(header, ';'), name + "="@)
}

/// The rest of the first trimmed piece that begins with `prefix`.
pub open spec fn first_with_prefix(pieces: Seq<Seq<char>>, prefix: Seq<char>) -> Option<Seq<char>>
    decreases pieces.len(),
{
    if pieces.len() == 0 {
        None
    } else if has_prefix(trimmed(pieces[0]), prefix) {
        Some(trimmed(pieces[0]).skip(prefix.len() as int))
    } else {
        first_with_prefix(pieces.drop_first(), prefix)
    }
}

/// The session cookie to set after sign-in.
pub fn set_session_cookie(token: &str) -> (r: String)
    ensures
        r@ == session_cookie(token@),
{
    let mut r = concat(SESSION_COOKIE, "=");
    r.append(token);
    r.append("; HttpOnly; Path=/; SameSite=Lax; Max-Age=");
    let ttl = decimal_string(SESSION_TTL_SECS as u64);
    r.append(ttl.as_str());
    r
}

/// The cookie that clears the session on sign-out.
pub fn clear_session_cookie() -> (r: String)
    ensures
        r@ == cleared_cookie(),
{
    concat(SESSION_COOKIE, "=; HttpOnly; Path=/; SameSite=Lax; Max-Age=0")
}

/// The session token in a `Cookie` header, if one is there.
pub fn session_token(header: &str) -> (r: Option<String>)
    ensures
        match r {
            Some(t) => cookie_value(header@, SESSION_COOKIE@) == Some(t@),
            None => cookie_value(header@, SESSION_COOKIE@) is None,
        },
{
    let prefix = concat(SESSION_COOKIE, "=");
    let pc = chars_of(prefix.as_str());
    let pieces = split_chars(header, ';');
    let n = pieces.len();
    let mut i: usize = 0;
    assert(views(pieces@).skip(0) == views(pieces@));
    while i < n
        invariant
            n == pieces@.len(),
            i <= n,
            pc@ == SESSION_COOKIE@ + "="@,
            views(pieces@) == split_on(header@, ';'),
            cookie_value(header@, SESSION_COOKIE@) == first_with_prefix(
                views(pieces@).skip(i as int),
                pc@,
            ),
        decreases n - i,
    {
        let cs = chars_of(pieces[i].as_str());
        let (a, b) = trim_bounds(cs.as_slice());
        let t = string_of_range(cs.as_slice(), a, b);
        let tc = chars_of(t.as_str());
        let ghost rest = views(pieces@).skip(i as int);
        assert(rest[0] == pieces@[i as int]@);
        assert(rest.drop_first() == views(pieces@).skip(i + 1));
        if has_prefix_at(tc.as_slice(), 0, pc.as_slice()) {
            assert(tc@.skip(0) == tc@);
            let v = string_of_range(tc.as_slice(), pc.len(), tc.len());
            assert(tc@.subrange(pc@.len() as int, tc@.len() as int) == tc@.skip(pc@.len() as int));
            return Some(v);
        }
        assert(tc@.skip(0) == tc@);
        i = i + 1;
    }
    None
}

/// The request methods that do not change anything.
pub open spec fn is_safe_method(method: Seq<char>) -> bool {
    method == "GET"@ || method == "HEAD"@ || method == "OPTIONS"@
}

/// Whether a request method may change state (anything but GET, HEAD and
/// OPTIONS).
pub fn is_write_method(method: &str) -> (r: bool)
    ensures
        r == !is_safe_method(method@),
{
    !(str_equal(method, "GET") || str_equal(method, "HEAD") || str_equal(method, "OPTIONS"))
}

/// The write-guard: a request needs a valid session, and read-only roles may
/// only make safe requests.
pub fn check_access(claims: Option<&Claims>, method: &str) -> (r: Result<(), ApiError>)
    ensures
        match claims {
            None => fails_with(r, UNAUTHORIZED, "authentication required"@),
            Some(c) => if !is_safe_method(method@) && c.role@ == "viewer"@ {
                fails_with(r, FORBIDDEN, "viewers have read-only access"@)
            } else {
                r is Ok
            },
        },
{
    match claims {
        None => Err(api_error(UNAUTHORIZED, "authentication required")),
        Some(c) => {
            if is_write_method(method) && crate::session::is_read_only(c.role.as_str()) {
                Err(api_error(FORBIDDEN, "viewers have read-only access"))
            } else {
                Ok(())
            }
        },
    }
}

/// A session cookie for a token with no `;` and no trailing whitespace reads
/// back to that token: a browser that sends back what sign-in set is
/// recognised.
pub proof fn session_cookie_roundtrip(token: Seq<char>)
    requires
        forall|i: int| 0 <= i < token.len() ==> #[trigger] token[i] != ';',
        token.len() == 0 || !is_space(token.last()),
    ensures
        cookie_value(session_cookie(token), SESSION_COOKIE@) == Some(token),
{
    reveal_strlit("sb_session");
    reveal_strlit("=");
    reveal_strlit("; HttpOnly; Path=/; SameSite=Lax; Max-Age=");
    let prefix = SESSION_COOKIE@ + "="@;
    let head = prefix + token;
    let tail = "; HttpOnly; Path=/; SameSite=Lax; Max-Age="@ + decimal(SESSION_TTL_SECS as nat);
    let whole = session_cookie(token);
    assert(whole == head + tail);
    assert(prefix.len() == 11);
    assert forall|j: int| 0 <= j < head.len() implies whole[j] != ';' by {
        assert(whole[j] == head[j]);
        if j >= 11 {
            assert(head[j] == token[j - 11]);
        }
    }
    assert(whole[head.len() as int] == ';');
    crate::text::lemma_first_index_at(whole, ';', head.len() as int);
    assert(whole.take(head.len() as int) == head);
    let pieces = split_on(whole, ';');
    assert(pieces[0] == head);
    assert(!is_space(head[0]));
    assert(!is_space(head.last()));
    crate::text::lemma_trimmed_fixed(head);
    assert(head.take(11) == prefix);
    assert(head.skip(11) == token);
}

proof fn lemma_split_on_join(a: Seq<char>, b: Seq<char>)
    ensures
        split_on(a + seq![';'] + b, ';') == split_on(a, ';') + split_on(b, ';'),
    decreases a.len(),
{
    let whole = a + seq![';'] + b;
    crate::text::lemma_first_index(a, ';');
    match first_index(a, ';') {
        Some(i) => {
            assert forall|j: int| 0 <= j < i implies whole[j] != ';' by {
                assert(whole[j] == a[j]);
            }
            assert(whole[i] == a[i]);
            crate::text::lemma_first_index_at(whole, ';', i);
            assert(whole.take(i) == a.take(i));
            assert(whole.skip(i + 1) == a.skip(i + 1) + seq![';'] + b);
            lemma_split_on_join(a.skip(i + 1), b);
        },
        None => {
            assert forall|j: int| 0 <= j < a.len() implies whole[j] != ';' by {
                assert(whole[j] == a[j]);
            }
            assert(whole[a.len() as int] == ';');
            crate::text::lemma_first_index_at(whole, ';', a.len() as int);
            assert(whole.take(a.len() as int) == a);
            assert(whole.skip(a.len() as int + 1) == b);
        },
    }
}

proof fn lemma_first_with_prefix_join(p1: Seq<Seq<char>>, p2: Seq<Seq<char>>, prefix: Seq<char>)
    requires
        first_with_prefix(p1, prefix) is None,
    ensures
        first_with_prefix(p1 + p2, prefix) == first_with_prefix(p2, prefix),
    decreases p1.len(),
{
    if p1.len() == 0 {
        assert(p1 + p2 == p2);
    } else {
        assert((p1 + p2)[0] == p1[0]);
        assert((p1 + p2).drop_first() == p1.drop_first() + p2);
        lemma_first_with_prefix_join(p1.drop_first(), p2, prefix);
    }
}

/// A session token sent after other cookies is still found, as long as none
/// of the cookies before it is a session cookie: `a=1; sb_session=<token>`
/// reads back to the token just as the cookie set at sign-in does.
pub proof fn session_token_after_other_cookies(others: Seq<char>, token: Seq<char>)
    requires
        forall|i: int| 0 <= i < token.len() ==> #[trigger] token[i] != ';',
        token.len() == 0 || !is_space(token.last()),
        cookie_value(others, SESSION_COOKIE@) is None,
    ensures
        cookie_value(others + "; "@ + SESSION_COOKIE@ + "="@ + token, SESSION_COOKIE@) == Some(
            token,
        ),
{
    reveal_strlit("sb_session");
    reveal_strlit("=");
    reveal_strlit("; ");
    let prefix = SESSION_COOKIE@ + "="@;
    let piece = prefix + token;
    let b = seq![' '] + piece;
    assert(others + "; "@ + SESSION_COOKIE@ + "="@ + token == others + seq![';'] + b);
    lemma_split_on_join(others, b);
    assert(prefix.len() == 11);
    assert forall|j: int| 0 <= j < b.len() implies b[j] != ';' by {
        if j >= 12 {
            assert(b[j] == token[j - 12]);
        } else {
            assert(b[j] == (seq![' '] + prefix)[j]);
        }
    }
    crate::text::lemma_first_index_none(b, ';');
    assert(split_on(b, ';') == seq![b]);
    assert(is_space(b[0]));
    assert(b.drop_first() == piece);
    assert(!is_space(piece[0]));
    assert(trim_start(piece) == piece);
    assert(trim_start(b) == trim_start(b.drop_first()));
    assert(trim_start(b) == piece);
    if token.len() > 0 {
        assert(piece.last() == token.last());
    } else {
        assert(piece.last() == '=');
    }
    crate::text::lemma_trimmed_fixed(piece);
    assert(trimmed(b) == piece);
    assert(piece.take(11) == prefix);
    assert(piece.skip(11) == token);
    let rest = seq![b];
    lemma_first_with_prefix_join(split_on(others, ';'), rest, prefix);
}

/// Only GET, HEAD and OPTIONS are safe. Every other method, PUT, PATCH,
/// POST and DELETE among them, is a write, so the write-guard refuses it to a
/// viewer.
pub proof fn only_reads_are_safe(method: Seq<char>)
    ensures
        is_safe_method(method) <==> (method == "GET"@ || method == "HEAD"@ || method
            == "OPTIONS"@),
        !is_safe_method("PUT"@),
        !is_safe_method("PATCH"@),
        !is_safe_method("POST"@),
        !is_safe_method("DELETE"@),
{
    reveal_strlit("GET");
    reveal_strlit("HEAD");
    reveal_strlit("OPTIONS");
    reveal_strlit("PUT");
    reveal_strlit("PATCH");
    reveal_strlit("POST");
    reveal_strlit("DELETE");
    assert("PUT"@[0] != "GET"@[0] && "PUT"@.len() != "HEAD"@.len() && "PUT"@.len()
        != "OPTIONS"@.len());
    assert("PATCH"@.len() != "GET"@.len() && "PATCH"@[0] != "HEAD"@[0] && "PATCH"@.len()
        != "OPTIONS"@.len());
    assert("POST"@.len() != "GET"@.len() && "POST"@[0] != "HEAD"@[0] && "POST"@.len()
        != "OPTIONS"@.len());
    assert("DELETE"@.len() != "GET"@.len() && "DELETE"@.len() != "HEAD"@.len() && "DELETE"@.len()
        != "OPTIONS"@.len());
}

} // verus!
