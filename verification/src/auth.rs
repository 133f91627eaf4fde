//! Authentication: API keys, signed session cookies, and per-IP login rate limiting.
use vstd::prelude::*;
use vstd::utf8::encode_utf8;
use crate::digest::{
    hex_encode, hex_lower, hmac_sha256, hmac_sha256_spec, utf8_lossy, utf8_lossy_spec,
};
use crate::text::{
    chars_of, copy_range, decimal, find_first, first_pos, lemma_decimal, lemma_first_pos,
    lemma_parse_u64_decimal, parse_u64, parse_u64_spec, push_decimal, starts_with, string_of,
    trim, trim_chars, push_str, is_digit, lemma_first_pos_bounds, str_eq,
};

use crate::config::{opt_view, AppConfig};
use crate::digest::{bcrypt_verify, bcrypt_verify_spec};
use crate::json::{as_str, get, get_opt, json_of, lemma_json_of_object, members, or_else, str_at, Json, JsonValue};
use crate::ratelimit::{attempt_outcome, LoginRateLimiter};
use crate::routes::music::{urlencode, urlencode_bytes};
use crate::routes::account::{is_api_token, mint_api_token};
use crate::digest::is_lower_hex_char;

verus! {

broadcast use vstd::string::group_string_axioms;

/// Name of the session cookie.
pub open spec fn session_cookie_name() -> Seq<char> {
    "hookbot_session"@
}

/// How long a session token stays valid: seven days.
pub const SESSION_MAX_AGE_SECS: u64 = 604800;

/// The authenticated user's ID: `Some` in multi-tenant mode, `None` in single-user mode.
pub struct UserId(pub Option<String>);

/// The request headers that authentication reads, as raw bytes
/// (the first value of each header, when present).
pub struct RequestHeaders {
    pub authorization: Option<Vec<u8>>,
    pub x_api_key: Option<Vec<u8>>,
    pub cookie: Option<Vec<u8>>,
    pub x_forwarded_for: Option<Vec<u8>>,
    pub cf_connecting_ip: Option<Vec<u8>>,
}

// ---------------------------------------------------------------------------
// Bytes

/// `u8::is_ascii_whitespace`.
pub open spec fn is_ascii_ws(b: u8) -> bool {
    b == 32 || b == 9 || b == 10 || b == 12 || b == 13
}

pub open spec fn trim_start_ws(s: Seq<u8>) -> Seq<u8>
    decreases s.len(),
{
    if s.len() > 0 && is_ascii_ws(s[0]) {
        trim_start_ws(s.drop_first())
    } else {
        s
    }
}

pub open spec fn trim_end_ws(s: Seq<u8>) -> Seq<u8>
    decreases s.len(),
{
    if s.len() > 0 && is_ascii_ws(s.last()) {
        trim_end_ws(s.drop_last())
    } else {
        s
    }
}

/// `s` without its leading and trailing ASCII whitespace.
pub open spec fn trim_ws(s: Seq<u8>) -> Seq<u8> {
    trim_end_ws(trim_start_ws(s))
}

proof fn lemma_trim_start_ws(s: Seq<u8>, i: int)
    requires
        0 <= i <= s.len(),
        forall|j: int| 0 <= j < i ==> is_ascii_ws(s[j]),
    ensures
        trim_start_ws(s) == trim_start_ws(s.skip(i)),
    decreases i,
{
    if i > 0 {
        lemma_trim_start_ws(s.drop_first(), i - 1);
        assert(s.drop_first().skip(i - 1) =~= s.skip(i));
    } else {
        assert(s.skip(0) =~= s);
    }
}

proof fn lemma_trim_end_ws(s: Seq<u8>, i: int)
    requires
        0 <= i <= s.len(),
        forall|j: int| i <= j < s.len() ==> is_ascii_ws(s[j]),
    ensures
        trim_end_ws(s) == trim_end_ws(s.take(i)),
    decreases s.len() - i,
{
    if i < s.len() {
        lemma_trim_end_ws(s.drop_last(), i);
        assert(s.drop_last().take(i) =~= s.take(i));
    } else {
        assert(s.take(i) =~= s);
    }
}

fn is_ascii_ws_byte(b: u8) -> (r: bool)
    ensures
        r == is_ascii_ws(b),
{
    b == 32 || b == 9 || b == 10 || b == 12 || b == 13
}

/// Strips leading and trailing ASCII whitespace.
pub fn trim_ascii_ws(b: &[u8]) -> (t: &[u8])
    ensures
        t@ == trim_ws(b@),
{
    let mut i: usize = 0;
    while i < b.len() && is_ascii_ws_byte(b[i])
        invariant
            i <= b@.len(),
            forall|j: int| 0 <= j < i ==> is_ascii_ws(b@[j]),
        decreases b@.len() - i,
    {
        i = i + 1;
    }
    proof {
        lemma_trim_start_ws(b@, i as int);
    }
    if i == b.len() {
        let e = &b[i..i];
        assert(e@ =~= Seq::<u8>::empty());
        assert(b@.skip(i as int) =~= Seq::<u8>::empty());
        return e;
    }
    let mut j: usize = b.len();
    while j > i + 1 && is_ascii_ws_byte(b[j - 1])
        invariant
            i < j <= b@.len(),
            forall|k: int| j <= k < b@.len() ==> is_ascii_ws(b@[k]),
        decreases j,
    {
        j = j - 1;
    }
    let t = &b[i..j];
    proof {
        let s = b@.skip(i as int);
        lemma_trim_end_ws(s, j - i);
        assert(s.take(j - i) =~= t@);
        assert(!is_ascii_ws(t@.last()));
    }
    t
}

/// Byte-wise comparison whose running time depends only on the lengths.
pub fn constant_time_eq_bytes(a: &[u8], b: &[u8]) -> (eq: bool)
    ensures
        eq == (a@ == b@),
{
    if a.len() != b.len() {
        return false;
    }
    let mut acc: u8 = 0;
    let mut i: usize = 0;
    while i < a.len()
        invariant
            a@.len() == b@.len(),
            i <= a@.len(),
            (acc == 0) == (forall|j: int| 0 <= j < i ==> a@[j] == b@[j]),
        decreases a@.len() - i,
    {
        let x = a[i];
        let y = b[i];
        let next = acc | (x ^ y);
        assert((acc | (x ^ y)) == 0u8 <==> (acc == 0u8 && x == y)) by (bit_vector);
        proof {
            if next == 0 {
                assert forall|j: int| 0 <= j < i + 1 implies a@[j] == b@[j] by {}
            }
        }
        acc = next;
        i = i + 1;
    }
    if acc == 0 {
        assert(a@ =~= b@);
        true
    } else {
        false
    }
}

/// Equal strings encode to equal bytes, and only equal strings do.
proof fn lemma_bytes_eq_iff(a: Seq<char>, b: Seq<char>)
    ensures
        (encode_utf8(a) == encode_utf8(b)) == (a == b),
{
    vstd::utf8::encode_utf8_decode_utf8(a);
    vstd::utf8::encode_utf8_decode_utf8(b);
}

/// String comparison whose running time depends only on the lengths.
pub fn constant_time_eq(a: &str, b: &str) -> (eq: bool)
    ensures
        eq == (a@ == b@),
{
    proof {
        lemma_bytes_eq_iff(a@, b@);
    }
    constant_time_eq_bytes(a.as_bytes(), b.as_bytes())
}

// ---------------------------------------------------------------------------
// API keys

pub open spec fn bearer_prefix() -> Seq<u8> {
    seq![66u8, 101u8, 97u8, 114u8, 101u8, 114u8, 32u8]
}

/// The key a request presents: the trimmed token of an `Authorization: Bearer`
/// header, else the trimmed `X-API-Key` header.
pub open spec fn presented_key(authorization: Option<Seq<u8>>, x_api_key: Option<Seq<u8>>) -> Option<
    Seq<u8>,
> {
    let bearer = match authorization {
        Some(a) => {
            let t = trim_ws(a);
            if t.len() >= 7 && t.take(7) == bearer_prefix() {
                Some(trim_ws(t.skip(7)))
            } else {
                None
            }
        },
        None => None,
    };
    match bearer {
        Some(k) => Some(k),
        None => match x_api_key {
            Some(k) => Some(trim_ws(k)),
            None => None,
        },
    }
}

pub open spec fn opt_bytes(v: Option<Vec<u8>>) -> Option<Seq<u8>> {
    match v {
        Some(b) => Some(b@),
        None => None,
    }
}

pub open spec fn headers_key(h: RequestHeaders) -> Option<Seq<u8>> {
    presented_key(opt_bytes(h.authorization), opt_bytes(h.x_api_key))
}

fn bytes_start_with(s: &[u8], prefix: &[u8]) -> (r: bool)
    ensures
        r == (prefix@.len() <= s@.len() && s@.take(prefix@.len() as int) == prefix@),
{
    if prefix.len() > s.len() {
        return false;
    }
    let head = &s[0..prefix.len()];
    assert(head@ =~= s@.take(prefix@.len() as int));
    constant_time_eq_bytes(head, prefix)
}

/// The presented key bytes, if any (borrowed from the headers).
fn presented_key_bytes(h: &RequestHeaders) -> (k: Option<&[u8]>)
    ensures
        match k {
            Some(b) => headers_key(*h) == Some(b@),
            None => headers_key(*h) is None,
        },
{
    let bearer: [u8; 7] = [66u8, 101u8, 97u8, 114u8, 101u8, 114u8, 32u8];
    assert(bearer@ =~= bearer_prefix());
    if let Some(auth) = &h.authorization {
        let bytes = trim_ascii_ws(auth.as_slice());
        if bytes_start_with(bytes, bearer.as_slice()) {
            let token = &bytes[7..bytes.len()];
            assert(token@ =~= bytes@.skip(7));
            return Some(trim_ascii_ws(token));
        }
    }
    if let Some(key) = &h.x_api_key {
        return Some(trim_ascii_ws(key.as_slice()));
    }
    None
}

/// The presented API key as text, for looking it up (invalid UTF-8 is replaced, not rejected).
pub fn extract_api_key_from_headers(h: &RequestHeaders) -> (key: Option<String>)
    ensures
        match key {
            Some(s) => exists|b: Seq<u8>| headers_key(*h) == Some(b) && s@ == utf8_lossy_spec(b),
            None => headers_key(*h) is None,
        },
        match headers_key(*h) {
            Some(b) => vstd::utf8::valid_utf8(b) ==> (key matches Some(s) && s@
                == vstd::utf8::decode_utf8(b)),
            None => true,
        },
{
    match presented_key_bytes(h) {
        Some(b) => Some(utf8_lossy(b)),
        None => None,
    }
}

/// Whether the presented key equals `expected_key`, compared byte for byte.
pub fn check_api_key(h: &RequestHeaders, expected_key: &str) -> (ok: bool)
    ensures
        ok == (headers_key(*h) == Some(encode_utf8(expected_key@))),
{
    match presented_key_bytes(h) {
        Some(b) => constant_time_eq_bytes(b, expected_key.as_bytes()),
        None => false,
    }
}


// ---------------------------------------------------------------------------
// Personal API tokens

/// A row of the personal API token table.
pub struct ApiTokenRow {
    pub id: String,
    pub user_id: String,
    pub token: String,
    pub name: String,
    pub revoked: bool,
}

/// The presented API key as text, as it is looked up (valid UTF-8 decodes as itself).
pub open spec fn presented_text(h: RequestHeaders) -> Option<Seq<char>> {
    match headers_key(h) {
        Some(b) => Some(
            if vstd::utf8::valid_utf8(b) {
                vstd::utf8::decode_utf8(b)
            } else {
                utf8_lossy_spec(b)
            },
        ),
        None => None,
    }
}

/// Row `i` holds the key `k` and is not revoked.
pub open spec fn live_token_at(rows: Seq<ApiTokenRow>, k: Seq<char>, i: int) -> bool {
    0 <= i < rows.len() && rows[i].token@ == k && !rows[i].revoked
}

/// Row `i` is the first live row holding `k`.
pub open spec fn first_live_token(rows: Seq<ApiTokenRow>, k: Seq<char>, i: int) -> bool {
    live_token_at(rows, k, i) && forall|j: int| 0 <= j < i ==> !live_token_at(rows, k, j)
}

/// User `i` (id, default key) has the default key `k`.
pub open spec fn user_key_at(users: Seq<(String, String)>, k: Seq<char>, i: int) -> bool {
    0 <= i < users.len() && users[i].1@ == k
}

/// User `i` is the first whose default key is `k`.
pub open spec fn first_user_key(users: Seq<(String, String)>, k: Seq<char>, i: int) -> bool {
    user_key_at(users, k, i) && forall|j: int| 0 <= j < i ==> !user_key_at(users, k, j)
}

/// The first live token row holding `key`.
pub fn find_live_token(rows: &[ApiTokenRow], key: &str) -> (r: Option<usize>)
    ensures
        match r {
            Some(i) => first_live_token(rows@, key@, i as int),
            None => forall|j: int| !live_token_at(rows@, key@, j),
        },
{
    let mut i: usize = 0;
    while i < rows.len()
        invariant
            i <= rows@.len(),
            forall|j: int| 0 <= j < i ==> !live_token_at(rows@, key@, j),
        decreases rows@.len() - i,
    {
        if !rows[i].revoked && str_eq(rows[i].token.as_str(), key) {
            return Some(i);
        }
        i = i + 1;
    }
    None
}

/// The first user whose default key is `key`.
fn find_user_key(users: &[(String, String)], key: &str) -> (r: Option<usize>)
    ensures
        match r {
            Some(i) => first_user_key(users@, key@, i as int),
            None => forall|j: int| !user_key_at(users@, key@, j),
        },
{
    let mut i: usize = 0;
    while i < users.len()
        invariant
            i <= users@.len(),
            forall|j: int| 0 <= j < i ==> !user_key_at(users@, key@, j),
        decreases users@.len() - i,
    {
        if str_eq(users[i].1.as_str(), key) {
            return Some(i);
        }
        i = i + 1;
    }
    None
}

/// Single-user mode: whether the presented key is a personal token that was not revoked.
pub fn check_local_api_token(h: &RequestHeaders, tokens: &[ApiTokenRow]) -> (ok: bool)
    ensures
        ok == match presented_text(*h) {
            Some(k) => exists|i: int| live_token_at(tokens@, k, i),
            None => false,
        },
{
    let key = match extract_api_key_from_headers(h) {
        None => return false,
        Some(k) => k,
    };
    let found = find_live_token(tokens, key.as_str());
    proof {
        if let Some(i) = found {
            assert(live_token_at(tokens@, key@, i as int));
            assert(presented_text(*h) == Some(key@));
            let k = presented_text(*h).unwrap();
            assert(k == key@);
            assert(live_token_at(tokens@, k, i as int));
        }
    }
    found.is_some()
}

/// Issues a personal token to `owner` under the row id `id` and the name `name` (`CLI login`
/// for a terminal sign-in, `Paired phone` for a pairing): a fresh `hb_` token, stored live.
pub fn issue_api_token(tokens: &mut Vec<ApiTokenRow>, id: String, owner: String, name: String) -> (t: String)
    ensures
        is_api_token(t@),
        final(tokens)@.len() == old(tokens)@.len() + 1,
        forall|i: int| 0 <= i < old(tokens)@.len() ==> #[trigger] final(tokens)@[i] == old(tokens)@[i],
        final(tokens)@.last().id@ == id@,
        final(tokens)@.last().user_id@ == owner@,
        final(tokens)@.last().token@ == t@,
        final(tokens)@.last().name@ == name@,
        !final(tokens)@.last().revoked,
{
    let (token, _preview) = mint_api_token();
    let t = token.clone();
    tokens.push(ApiTokenRow { id, user_id: owner, token, name, revoked: false });
    t
}

proof fn lemma_ascii_encode(s: Seq<char>)
    requires
        forall|i: int| 0 <= i < s.len() ==> (#[trigger] s[i]) as u32 <= 0x7f,
    ensures
        encode_utf8(s) =~= Seq::new(s.len(), |i: int| s[i] as u32 as u8),
    decreases s.len(),
{
    if s.len() > 0 {
        let c = s[0] as u32;
        assert(c <= 0x7f);
        assert(vstd::utf8::has_width_1_encoding(c));
        assert(vstd::utf8::leading_byte_width_1(c) == c as u8) by (bit_vector)
            requires
                c <= 0x7f,
        ;
        assert forall|i: int| 0 <= i < s.drop_first().len() implies (#[trigger] s.drop_first()[i]) as u32 <= 0x7f by {
            assert(s.drop_first()[i] == s[i + 1]);
        }
        lemma_ascii_encode(s.drop_first());
    }
}

/// A personal token minted by `issue_api_token` and presented in the `X-API-Key` header (its
/// UTF-8 bytes, with no `Authorization` header) is accepted by the token check for as long as
/// its row stays unrevoked.
pub proof fn lemma_issued_token_accepted(tokens: Seq<ApiTokenRow>, i: int, t: Seq<char>, h: RequestHeaders)
    requires
        is_api_token(t),
        0 <= i < tokens.len(),
        tokens[i].token@ == t,
        !tokens[i].revoked,
        h.authorization is None,
        h.x_api_key matches Some(b) && b@ == encode_utf8(t),
    ensures
        presented_text(h) == Some(t),
        match presented_text(h) {
            Some(k) => exists|j: int| live_token_at(tokens, k, j),
            None => false,
        },
{
    reveal_strlit("hb_");
    assert forall|j: int| 0 <= j < t.len() implies (#[trigger] t[j]) as u32 <= 0x7f by {
        if j < 3 {
            assert(t.take(3)[j] == t[j]);
        } else {
            assert(is_lower_hex_char(t[j]));
        }
    }
    lemma_ascii_encode(t);
    let b = encode_utf8(t);
    assert(t.take(3)[0] == t[0]);
    assert(b[0] == 104u8);
    assert(!is_ascii_ws(b[0]));
    assert(is_lower_hex_char(t[34]));
    assert(!is_ascii_ws(b.last()));
    assert(trim_start_ws(b) == b);
    assert(trim_end_ws(b) == b);
    vstd::utf8::encode_utf8_valid_utf8(t);
    vstd::utf8::encode_utf8_decode_utf8(t);
    assert(headers_key(h) == Some(b));
    assert(presented_text(h) == Some(t));
    let k = presented_text(h).unwrap();
    assert(k == t);
    assert(live_token_at(tokens, k, i));
}

/// Multi-user mode: the user a presented key belongs to, the owner of a default key (id,
/// key) first, then the owner of a personal token that was not revoked.
pub fn check_user_api_key(h: &RequestHeaders, users: &[(String, String)], tokens: &[ApiTokenRow]) -> (owner: Option<String>)
    ensures
        match (presented_text(*h), owner) {
            (None, r) => r is None,
            (Some(k), Some(u)) => (exists|i: int| first_user_key(users@, k, i) && u@ == users@[i].0@) || (
            (forall|i: int| !user_key_at(users@, k, i)) && exists|j: int|
                first_live_token(tokens@, k, j) && u@ == tokens@[j].user_id@),
            (Some(k), None) => (forall|i: int| !user_key_at(users@, k, i)) && (forall|j: int|
                !live_token_at(tokens@, k, j)),
        },
{
    let key = match extract_api_key_from_headers(h) {
        None => return None,
        Some(k) => k,
    };
    proof {
        assert(presented_text(*h) == Some(key@));
        let k = presented_text(*h).unwrap();
        assert(k == key@);
    }
    match find_user_key(users, key.as_str()) {
        Some(i) => {
            let u = users[i].0.clone();
            assert(first_user_key(users@, key@, i as int) && u@ == users@[i as int].0@);
            Some(u)
        },
        None => match find_live_token(tokens, key.as_str()) {
            Some(j) => {
                let u = tokens[j].user_id.clone();
                assert(first_live_token(tokens@, key@, j as int) && u@ == tokens@[j as int].user_id@);
                Some(u)
            },
            None => None,
        },
    }
}

// ---------------------------------------------------------------------------
// Header text

/// `HeaderValue::to_str`: the text of a header made only of visible ASCII and tabs.
pub open spec fn header_text(b: Seq<u8>) -> Option<Seq<char>> {
    if forall|i: int| 0 <= i < b.len() ==> (32 <= #[trigger] b[i] < 127 || b[i] == 9) {
        Some(Seq::new(b.len(), |i: int| b[i] as char))
    } else {
        None
    }
}

/// The text of a header value, when it is visible ASCII.
pub fn header_to_text(b: &[u8]) -> (t: Option<Vec<char>>)
    ensures
        match t {
            Some(v) => header_text(b@) == Some(v@),
            None => header_text(b@) is None,
        },
{
    let mut v: Vec<char> = Vec::new();
    let mut i: usize = 0;
    while i < b.len()
        invariant
            i <= b@.len(),
            v@.len() == i,
            forall|j: int| 0 <= j < i ==> (32 <= #[trigger] b@[j] < 127 || b@[j] == 9),
            forall|j: int| 0 <= j < i ==> #[trigger] v@[j] == b@[j] as char,
        decreases b@.len() - i,
    {
        let c = b[i];
        if !((32 <= c && c < 127) || c == 9) {
            return None;
        }
        v.push(c as char);
        i = i + 1;
    }
    assert(v@ =~= Seq::new(b@.len(), |i: int| b@[i] as char));
    Some(v)
}

// ---------------------------------------------------------------------------
// Cookies

/// The value of the first `name=value` pair in a `Cookie` header, each pair trimmed.
pub open spec fn cookie_value(s: Seq<char>, name: Seq<char>) -> Option<Seq<char>>
    decreases s.len(),
{
    let p = first_pos(s, ';');
    let seg = if p < 0 {
        s
    } else {
        s.take(p)
    };
    let t = trim(seg);
    let pre = name.push('=');
    if pre.len() <= t.len() && t.take(pre.len() as int) == pre {
        Some(t.skip(pre.len() as int))
    } else if p < 0 {
        None
    } else {
        proof {
            crate::text::lemma_first_pos_bounds(s, ';');
        }
        cookie_value(s.skip(p + 1), name)
    }
}

/// Finds the value of cookie `name` in the text of a `Cookie` header.
pub fn find_cookie(s: &[char], name: &[char]) -> (v: Option<Vec<char>>)
    ensures
        match v {
            Some(x) => cookie_value(s@, name@) == Some(x@),
            None => cookie_value(s@, name@) is None,
        },
{
    let mut pre: Vec<char> = copy_range(name, 0, name.len());
    pre.push('=');
    assert(pre@ =~= name@.push('='));
    let mut pos: usize = 0;
    assert(s@.skip(0) =~= s@);
    loop
        invariant
            pos <= s@.len(),
            pre@ == name@.push('='),
            cookie_value(s@, name@) == cookie_value(s@.skip(pos as int), name@),
        decreases s@.len() + 1 - pos,
    {
        let rest = &s[pos..s.len()];
        assert(rest@ =~= s@.skip(pos as int));
        let p = find_first(rest, ';');
        proof {
            crate::text::lemma_first_pos_bounds(rest@, ';');
        }
        let end = match p {
            Some(k) => k,
            None => rest.len(),
        };
        let seg = &rest[0..end];
        let t = trim_chars(seg);
        proof {
            if p is None {
                assert(seg@ =~= rest@);
            } else {
                assert(seg@ =~= rest@.take(end as int));
            }
        }
        if starts_with(t.as_slice(), pre.as_slice()) {
            let value = copy_range(t.as_slice(), pre.len(), t.len());
            assert(value@ =~= t@.skip(pre@.len() as int));
            return Some(value);
        }
        match p {
            None => {
                return None;
            },
            Some(k) => {
                assert(rest@.skip(k + 1) =~= s@.skip(pos + k + 1));
                pos = pos + k + 1;
            },
        }
    }
}

// ---------------------------------------------------------------------------
// Session tokens

/// `u64::to_be_bytes`.
pub open spec fn be_bytes(t: u64) -> Seq<u8> {
    seq![
        (t >> 56u64) as u8,
        (t >> 48u64) as u8,
        (t >> 40u64) as u8,
        (t >> 32u64) as u8,
        (t >> 24u64) as u8,
        (t >> 16u64) as u8,
        (t >> 8u64) as u8,
        t as u8,
    ]
}

/// The MAC of a single-user session token issued at `t`.
pub open spec fn session_mac(secret: Seq<u8>, t: u64) -> Seq<char> {
    hex_lower(hmac_sha256_spec(secret, be_bytes(t)))
}

/// The MAC of a multi-tenant session token for `user` issued at `t`.
pub open spec fn workos_mac(secret: Seq<u8>, user: Seq<char>, t: u64) -> Seq<char> {
    hex_lower(hmac_sha256_spec(secret, encode_utf8(user) + seq![58u8] + be_bytes(t)))
}

/// Whether `token` is `timestamp:mac` with a correct MAC and not older than seven days at `now`.
pub open spec fn session_token_valid(token: Seq<char>, secret: Seq<u8>, now: u64) -> bool {
    let p = first_pos(token, ':');
    p >= 0 && match parse_u64_spec(token.take(p)) {
        Some(t) => now <= t + SESSION_MAX_AGE_SECS && token.skip(p + 1) == session_mac(secret, t),
        None => false,
    }
}

/// The user of a valid `user_id:timestamp:mac` token, if it is one.
pub open spec fn workos_token_user(token: Seq<char>, secret: Seq<u8>, now: u64) -> Option<Seq<char>> {
    let p = first_pos(token, ':');
    if p < 0 {
        None
    } else {
        let rest = token.skip(p + 1);
        let q = first_pos(rest, ':');
        if q < 0 {
            None
        } else {
            let user = token.take(p);
            match parse_u64_spec(rest.take(q)) {
                Some(t) => if now <= t + SESSION_MAX_AGE_SECS && rest.skip(q + 1) == workos_mac(
                    secret,
                    user,
                    t,
                ) {
                    Some(user)
                } else {
                    None
                },
                None => None,
            }
        }
    }
}

fn be_bytes_of(t: u64) -> (b: [u8; 8])
    ensures
        b@ == be_bytes(t),
{
    let b: [u8; 8] = [
        (t >> 56u64) as u8,
        (t >> 48u64) as u8,
        (t >> 40u64) as u8,
        (t >> 32u64) as u8,
        (t >> 24u64) as u8,
        (t >> 16u64) as u8,
        (t >> 8u64) as u8,
        t as u8,
    ];
    assert(b@ =~= be_bytes(t));
    b
}

/// Hex HMAC of the big-endian timestamp.
pub fn compute_session_hmac(timestamp: u64, secret: &[u8; 32]) -> (mac: String)
    ensures
        mac@ == session_mac(secret@, timestamp),
{
    let b = be_bytes_of(timestamp);
    let tag = hmac_sha256(secret.as_slice(), b.as_slice());
    hex_encode(tag.as_slice())
}

/// Hex HMAC of `user_id`, `:` and the big-endian timestamp.
pub fn compute_workos_session_hmac(user_id: &str, timestamp: u64, secret: &[u8; 32]) -> (mac: String)
    ensures
        mac@ == workos_mac(secret@, user_id@, timestamp),
{
    let mut msg: Vec<u8> = Vec::new();
    crate::crypto::append_bytes(&mut msg, user_id.as_bytes());
    msg.push(58u8);
    let b = be_bytes_of(timestamp);
    crate::crypto::append_bytes(&mut msg, b.as_slice());
    assert(msg@ =~= encode_utf8(user_id@) + seq![58u8] + be_bytes(timestamp));
    let tag = hmac_sha256(secret.as_slice(), msg.as_slice());
    hex_encode(tag.as_slice())
}

/// A single-user session token issued at `now`: `now:mac`.
pub fn create_session_token(secret: &[u8; 32], now: u64) -> (token: String)
    ensures
        token@ == decimal(now as nat) + seq![':'] + session_mac(secret@, now),
{
    let mac = compute_session_hmac(now, secret);
    let mut v: Vec<char> = Vec::new();
    push_decimal(&mut v, now);
    v.push(':');
    let m = chars_of(mac.as_str());
    let mut i: usize = 0;
    while i < m.len()
        invariant
            i <= m@.len(),
            v@ == decimal(now as nat) + seq![':'] + m@.take(i as int),
        decreases m@.len() - i,
    {
        v.push(m[i]);
        assert(m@.take(i + 1) =~= m@.take(i as int).push(m@[i as int]));
        i = i + 1;
    }
    assert(m@.take(m@.len() as int) =~= m@);
    string_of(v.as_slice())
}

/// A multi-tenant session token for `user_id` issued at `now`: `user_id:now:mac`.
pub fn create_workos_session_token(user_id: &str, secret: &[u8; 32], now: u64) -> (token: String)
    ensures
        token@ == user_id@ + seq![':'] + decimal(now as nat) + seq![':'] + workos_mac(
            secret@,
            user_id@,
            now,
        ),
{
    let mac = compute_workos_session_hmac(user_id, now, secret);
    let mut v: Vec<char> = chars_of(user_id);
    v.push(':');
    push_decimal(&mut v, now);
    v.push(':');
    let m = chars_of(mac.as_str());
    let ghost head = v@;
    let mut i: usize = 0;
    while i < m.len()
        invariant
            i <= m@.len(),
            v@ == head + m@.take(i as int),
        decreases m@.len() - i,
    {
        v.push(m[i]);
        assert(m@.take(i + 1) =~= m@.take(i as int).push(m@[i as int]));
        i = i + 1;
    }
    assert(m@.take(m@.len() as int) =~= m@);
    string_of(v.as_slice())
}

fn token_valid_chars(token: &[char], secret: &[u8; 32], now: u64) -> (ok: bool)
    ensures
        ok == session_token_valid(token@, secret@, now),
{
    let p = match find_first(token, ':') {
        Some(p) => p,
        None => return false,
    };
    proof {
        crate::text::lemma_first_pos_bounds(token@, ':');
    }
    let head = &token[0..p];
    assert(head@ =~= token@.take(p as int));
    let timestamp = match parse_u64(head) {
        Some(t) => t,
        None => return false,
    };
    if now as u128 > timestamp as u128 + SESSION_MAX_AGE_SECS as u128 {
        return false;
    }
    proof {
        crate::text::lemma_first_pos_bounds(token@, ':');
    }
    let n = token.len();
    assert(p < n);
    let mac_given = copy_range(token, p + 1, n);
    assert(mac_given@ =~= token@.skip(p + 1));
    let expected = compute_session_hmac(timestamp, secret);
    constant_time_eq(string_of(mac_given.as_slice()).as_str(), expected.as_str())
}

/// Validates a single-user session token `timestamp:mac` at time `now`.
pub fn validate_session_token(token: &str, secret: &[u8; 32], now: u64) -> (ok: bool)
    ensures
        ok == session_token_valid(token@, secret@, now),
{
    let t = chars_of(token);
    token_valid_chars(t.as_slice(), secret, now)
}

fn workos_user_chars(token: &[char], secret: &[u8; 32], now: u64) -> (user: Option<String>)
    ensures
        match user {
            Some(u) => workos_token_user(token@, secret@, now) == Some(u@),
            None => workos_token_user(token@, secret@, now) is None,
        },
{
    let p = match find_first(token, ':') {
        Some(p) => p,
        None => return None,
    };
    proof {
        crate::text::lemma_first_pos_bounds(token@, ':');
    }
    let n = token.len();
    assert(p < n);
    let rest = &token[p + 1..n];
    assert(rest@ =~= token@.skip(p + 1));
    let q = match find_first(rest, ':') {
        Some(q) => q,
        None => return None,
    };
    proof {
        crate::text::lemma_first_pos_bounds(rest@, ':');
    }
    let ts = &rest[0..q];
    assert(ts@ =~= rest@.take(q as int));
    let timestamp = match parse_u64(ts) {
        Some(t) => t,
        None => return None,
    };
    if now as u128 > timestamp as u128 + SESSION_MAX_AGE_SECS as u128 {
        return None;
    }
    let user_chars = &token[0..p];
    assert(user_chars@ =~= token@.take(p as int));
    let user_id = string_of(user_chars);
    let mac_given = copy_range(rest, q + 1, rest.len());
    assert(mac_given@ =~= rest@.skip(q + 1));
    let expected = compute_workos_session_hmac(user_id.as_str(), timestamp, secret);
    if constant_time_eq(string_of(mac_given.as_slice()).as_str(), expected.as_str()) {
        Some(user_id)
    } else {
        None
    }
}

/// Validates a multi-tenant session token `user_id:timestamp:mac` at time `now`,
/// returning the user it was issued to.
pub fn validate_workos_session_token(token: &str, secret: &[u8; 32], now: u64) -> (user: Option<String>)
    ensures
        match user {
            Some(u) => workos_token_user(token@, secret@, now) == Some(u@),
            None => workos_token_user(token@, secret@, now) is None,
        },
{
    let t = chars_of(token);
    workos_user_chars(t.as_slice(), secret, now)
}

/// Whether the request carries a valid single-user session cookie at `now`.
pub open spec fn session_cookie_ok(cookie: Option<Seq<u8>>, secret: Seq<u8>, now: u64) -> bool {
    match cookie {
        Some(b) => match header_text(b) {
            Some(t) => match cookie_value(t, session_cookie_name()) {
                Some(v) => session_token_valid(v, secret, now),
                None => false,
            },
            None => false,
        },
        None => false,
    }
}

/// The user of a valid multi-tenant session cookie at `now`.
pub open spec fn workos_cookie_user(cookie: Option<Seq<u8>>, secret: Seq<u8>, now: u64) -> Option<
    Seq<char>,
> {
    match cookie {
        Some(b) => match header_text(b) {
            Some(t) => match cookie_value(t, session_cookie_name()) {
                Some(v) => workos_token_user(v, secret, now),
                None => None,
            },
            None => None,
        },
        None => None,
    }
}

fn session_cookie_text(h: &RequestHeaders) -> (v: Option<Vec<char>>)
    ensures
        match v {
            Some(x) => exists|b: Seq<u8>, t: Seq<char>|
                opt_bytes(h.cookie) == Some(b) && header_text(b) == Some(t) && cookie_value(
                    t,
                    session_cookie_name(),
                ) == Some(x@),
            None => match opt_bytes(h.cookie) {
                Some(b) => match header_text(b) {
                    Some(t) => cookie_value(t, session_cookie_name()) is None,
                    None => true,
                },
                None => true,
            },
        },
{
    match &h.cookie {
        None => None,
        Some(c) => match header_to_text(c.as_slice()) {
            None => None,
            Some(t) => {
                let name = chars_of("hookbot_session");
                find_cookie(t.as_slice(), name.as_slice())
            },
        },
    }
}

/// Whether the request carries a valid single-user session cookie.
pub fn check_session_cookie(h: &RequestHeaders, secret: &[u8; 32], now: u64) -> (ok: bool)
    ensures
        ok == session_cookie_ok(opt_bytes(h.cookie), secret@, now),
{
    match session_cookie_text(h) {
        Some(v) => token_valid_chars(v.as_slice(), secret, now),
        None => false,
    }
}

/// The user of a valid multi-tenant session cookie.
pub fn check_workos_session_cookie(h: &RequestHeaders, secret: &[u8; 32], now: u64) -> (user: Option<
    String,
>)
    ensures
        match user {
            Some(u) => workos_cookie_user(opt_bytes(h.cookie), secret@, now) == Some(u@),
            None => workos_cookie_user(opt_bytes(h.cookie), secret@, now) is None,
        },
{
    match session_cookie_text(h) {
        Some(v) => workos_user_chars(v.as_slice(), secret, now),
        None => None,
    }
}


/// A freshly issued single-user token validates for seven days.
pub proof fn lemma_session_token_round_trip(secret: Seq<u8>, t: u64, now: u64)
    requires
        now <= t + SESSION_MAX_AGE_SECS,
    ensures
        session_token_valid(decimal(t as nat) + seq![':'] + session_mac(secret, t), secret, now),
{
    let d = decimal(t as nat);
    let token = d + seq![':'] + session_mac(secret, t);
    lemma_decimal(t as nat);
    assert forall|j: int| 0 <= j < d.len() implies token[j] != ':' by {
        assert(token[j] == d[j]);
        assert(is_digit(d[j]));
    }
    lemma_first_pos(token, ':', d.len() as int);
    assert(token.take(d.len() as int) =~= d);
    assert(token.skip(d.len() as int + 1) =~= session_mac(secret, t));
    lemma_parse_u64_decimal(t);
}

/// A freshly issued multi-tenant token names its user for seven days,
/// provided the user id holds no `:` (the token's separator).
pub proof fn lemma_workos_token_round_trip(secret: Seq<u8>, user: Seq<char>, t: u64, now: u64)
    requires
        now <= t + SESSION_MAX_AGE_SECS,
        !user.contains(':'),
    ensures
        workos_token_user(
            user + seq![':'] + decimal(t as nat) + seq![':'] + workos_mac(secret, user, t),
            secret,
            now,
        ) == Some(user),
{
    let d = decimal(t as nat);
    let mac = workos_mac(secret, user, t);
    let token = user + seq![':'] + d + seq![':'] + mac;
    lemma_decimal(t as nat);
    assert forall|j: int| 0 <= j < user.len() implies token[j] != ':' by {
        assert(token[j] == user[j]);
    }
    lemma_first_pos(token, ':', user.len() as int);
    let rest = token.skip(user.len() as int + 1);
    assert(rest =~= d + seq![':'] + mac);
    assert forall|j: int| 0 <= j < d.len() implies rest[j] != ':' by {
        assert(rest[j] == d[j]);
        assert(is_digit(d[j]));
    }
    lemma_first_pos(rest, ':', d.len() as int);
    assert(token.take(user.len() as int) =~= user);
    assert(rest.take(d.len() as int) =~= d);
    assert(rest.skip(d.len() as int + 1) =~= mac);
    lemma_parse_u64_decimal(t);
}

// ---------------------------------------------------------------------------
// Cookie header, client address, URL encoding

/// The `Set-Cookie` value for a session token.
pub open spec fn session_cookie_spec(token: Seq<char>, max_age: u64, tls_enabled: bool, cookie_domain: Option<Seq<char>>) -> Seq<char> {
    let secure = if cookie_domain is Some || tls_enabled {
        "; Secure"@
    } else {
        ""@
    };
    let same_site = if cookie_domain is Some {
        "None"@
    } else {
        "Lax"@
    };
    let domain = match cookie_domain {
        Some(d) => "; Domain="@ + d,
        None => ""@,
    };
    "hookbot_session="@ + token + "; HttpOnly; SameSite="@ + same_site + "; Path=/; Max-Age="@
        + decimal(max_age as nat) + secure + domain
}

/// Builds the session cookie, marking it `Secure` under TLS and, for a cookie
/// shared across subdomains, `SameSite=None; Secure` with its `Domain`.
pub fn build_session_cookie(token: &str, max_age: u64, tls_enabled: bool, cookie_domain: Option<&str>) -> (cookie: String)
    ensures
        cookie@ == session_cookie_spec(
            token@,
            max_age,
            tls_enabled,
            match cookie_domain {
                Some(d) => Some(d@),
                None => None,
            },
        ),
{
    let mut v: Vec<char> = Vec::new();
    push_str(&mut v, "hookbot_session=");
    push_str(&mut v, token);
    push_str(&mut v, "; HttpOnly; SameSite=");
    if cookie_domain.is_some() {
        push_str(&mut v, "None");
    } else {
        push_str(&mut v, "Lax");
    }
    push_str(&mut v, "; Path=/; Max-Age=");
    push_decimal(&mut v, max_age);
    if cookie_domain.is_some() || tls_enabled {
        push_str(&mut v, "; Secure");
    } else {
        push_str(&mut v, "");
    }
    match cookie_domain {
        Some(d) => {
            push_str(&mut v, "; Domain=");
            push_str(&mut v, d);
        },
        None => {
            push_str(&mut v, "");
        },
    }
    let ghost spec_domain = match cookie_domain {
        Some(d) => Some(d@),
        None => None,
    };
    assert(v@ =~= session_cookie_spec(token@, max_age, tls_enabled, spec_domain));
    string_of(v.as_slice())
}

/// The first comma-separated entry of a header's text, trimmed.
pub open spec fn first_list_entry(t: Seq<char>) -> Seq<char> {
    let p = first_pos(t, ',');
    trim(
        if p < 0 {
            t
        } else {
            t.take(p)
        },
    )
}

/// The client address a proxy reports: the first `X-Forwarded-For` entry, else
/// `CF-Connecting-IP`; a header that is not visible ASCII is skipped.
pub open spec fn proxy_client_ip(x_forwarded_for: Option<Seq<u8>>, cf_connecting_ip: Option<Seq<u8>>) -> Option<Seq<char>> {
    let forwarded = match x_forwarded_for {
        Some(b) => match header_text(b) {
            Some(t) => Some(first_list_entry(t)),
            None => None,
        },
        None => None,
    };
    match forwarded {
        Some(ip) => Some(ip),
        None => match cf_connecting_ip {
            Some(b) => match header_text(b) {
                Some(t) => Some(trim(t)),
                None => None,
            },
            None => None,
        },
    }
}

/// Client address from the proxy headers, if any are present.
pub fn client_ip_from_headers(h: &RequestHeaders) -> (ip: Option<String>)
    ensures
        match ip {
            Some(s) => proxy_client_ip(opt_bytes(h.x_forwarded_for), opt_bytes(h.cf_connecting_ip))
                == Some(s@),
            None => proxy_client_ip(opt_bytes(h.x_forwarded_for), opt_bytes(h.cf_connecting_ip)) is None,
        },
{
    if let Some(f) = &h.x_forwarded_for {
        if let Some(t) = header_to_text(f.as_slice()) {
            let p = find_first(t.as_slice(), ',');
            proof {
                lemma_first_pos_bounds(t@, ',');
            }
            let end = match p {
                Some(k) => k,
                None => t.len(),
            };
            let seg = &t.as_slice()[0..end];
            proof {
                if p is None {
                    assert(seg@ =~= t@);
                } else {
                    assert(seg@ =~= t@.take(end as int));
                }
            }
            let ip = trim_chars(seg);
            return Some(string_of(ip.as_slice()));
        }
    }
    if let Some(c) = &h.cf_connecting_ip {
        if let Some(t) = header_to_text(c.as_slice()) {
            let ip = trim_chars(t.as_slice());
            return Some(string_of(ip.as_slice()));
        }
    }
    None
}

/// The client address: the proxy's report, else the peer address, else `unknown`.
pub fn extract_client_ip(h: &RequestHeaders, peer: Option<String>) -> (ip: String)
    ensures
        ip@ == match proxy_client_ip(opt_bytes(h.x_forwarded_for), opt_bytes(h.cf_connecting_ip)) {
            Some(s) => s,
            None => match peer {
                Some(p) => p@,
                None => "unknown"@,
            },
        },
{
    if let Some(ip) = client_ip_from_headers(h) {
        return ip;
    }
    match peer {
        Some(p) => p,
        None => "unknown".to_string(),
    }
}

/// URL encoding for query parameters: each UTF-8 byte that is unreserved stays, any other
/// becomes `%XY`.
pub open spec fn urlencoding_spec(s: Seq<char>) -> Seq<char> {
    urlencode_bytes(encode_utf8(s))
}

/// Simple URL encoding for query parameters.
pub fn urlencoding(s: &str) -> (out: String)
    ensures
        out@ == urlencoding_spec(s@),
{
    urlencode(s)
}

pub struct LoginRequest {
    pub password: String,
}

pub struct LoginResponse {
    pub ok: bool,
}

pub struct AuthStatusResponse {
    pub authenticated: bool,
    pub workos_enabled: Option<bool>,
}

pub struct CallbackQuery {
    pub code: String,
    pub state: Option<String>,
}

pub struct LoginQuery {
    pub mobile_redirect: Option<String>,
}


// ---------------------------------------------------------------------------
// What the handlers decide

/// A single-user session token issued at `now`.
pub open spec fn session_token_spec(secret: Seq<u8>, now: u64) -> Seq<char> {
    decimal(now as nat) + seq![':'] + session_mac(secret, now)
}

/// The attempts recorded for `ip`, if any.
pub open spec fn recorded_attempts(l: LoginRateLimiter, ip: Seq<char>) -> Option<(u32, u64)> {
    if l.attempts().contains_key(ip) {
        Some(l.attempts()[ip])
    } else {
        None
    }
}

/// What the login handler could read from the request body.
pub enum LoginBody {
    /// The body could not be read.
    Unreadable,
    /// The body is not a JSON login request.
    NotJson,
    Parsed(LoginRequest),
}

/// The login handler's answer.
pub enum LoginOutcome {
    /// 429, with the seconds until the window resets.
    RateLimited { retry_after_secs: u64 },
    /// 400 "Invalid request body".
    InvalidBody,
    /// 400 "Invalid JSON".
    InvalidJson,
    /// 401 "Invalid password".
    InvalidPassword,
    /// 200, with the session cookie to set.
    LoggedIn { set_cookie: String },
}

/// The session cookie a login at `now` sets.
pub open spec fn login_cookie_spec(config: AppConfig, now: u64) -> Seq<char> {
    session_cookie_spec(
        session_token_spec(config.session_secret@, now),
        SESSION_MAX_AGE_SECS,
        config.tls_cert_path is Some,
        opt_view(config.cookie_domain),
    )
}

fn cookie_domain_of(config: &AppConfig) -> (d: Option<&str>)
    ensures
        match d {
            Some(x) => opt_view(config.cookie_domain) == Some(x@),
            None => opt_view(config.cookie_domain) is None,
        },
{
    match &config.cookie_domain {
        Some(d) => Some(d.as_str()),
        None => None,
    }
}

/// A password login from `client_ip` at `now`: the attempt is counted first; a
/// request over the limit is refused before its body is read; a correct password
/// clears the address's count and yields a session cookie.
pub fn login(config: &AppConfig, limiter: &mut LoginRateLimiter, client_ip: &str, body: LoginBody, now: u64) -> (out: LoginOutcome)
    requires
        old(limiter).wf(),
        now + old(limiter).window_secs_spec() <= u64::MAX,
    ensures
        final(limiter).wf(),
        final(limiter).max_attempts_spec() == old(limiter).max_attempts_spec(),
        final(limiter).window_secs_spec() == old(limiter).window_secs_spec(),
        ({
            let step = attempt_outcome(
                recorded_attempts(*old(limiter), client_ip@),
                now,
                old(limiter).max_attempts_spec(),
                old(limiter).window_secs_spec(),
            );
            let counted = old(limiter).attempts().insert(client_ip@, step.1);
            match step.0 {
                Err(wait) => out == (LoginOutcome::RateLimited { retry_after_secs: wait })
                    && final(limiter).attempts() == counted,
                Ok(_) => match body {
                    LoginBody::Unreadable => out is InvalidBody && final(limiter).attempts() == counted,
                    LoginBody::NotJson => out is InvalidJson && final(limiter).attempts() == counted,
                    LoginBody::Parsed(req) => if bcrypt_verify_spec(req.password@, config.admin_password_hash@) {
                        &&& out matches LoginOutcome::LoggedIn { set_cookie } && set_cookie@ == login_cookie_spec(*config, now)
                        &&& final(limiter).attempts() == counted.remove(client_ip@)
                    } else {
                        out is InvalidPassword && final(limiter).attempts() == counted
                    },
                },
            }
        }),
{
    let allowed = limiter.check_and_increment(client_ip, now);
    match allowed {
        Err(wait) => LoginOutcome::RateLimited { retry_after_secs: wait },
        Ok(()) => match body {
            LoginBody::Unreadable => LoginOutcome::InvalidBody,
            LoginBody::NotJson => LoginOutcome::InvalidJson,
            LoginBody::Parsed(req) => {
                if bcrypt_verify(req.password.as_str(), config.admin_password_hash.as_str()) {
                    limiter.clear(client_ip);
                    let token = create_session_token(&config.session_secret, now);
                    let cookie = build_session_cookie(
                        token.as_str(),
                        SESSION_MAX_AGE_SECS,
                        config.tls_cert_path.is_some(),
                        cookie_domain_of(config),
                    );
                    LoginOutcome::LoggedIn { set_cookie: cookie }
                } else {
                    LoginOutcome::InvalidPassword
                }
            },
        },
    }
}

/// The cookie that logging out sets: an empty session that expires at once.
pub fn logout(config: &AppConfig) -> (set_cookie: String)
    ensures
        set_cookie@ == session_cookie_spec(
            ""@,
            0,
            config.tls_cert_path is Some,
            opt_view(config.cookie_domain),
        ),
{
    build_session_cookie("", 0, config.tls_cert_path.is_some(), cookie_domain_of(config))
}

/// Who a request is authenticated as: `None` when it is not, `Some(None)` for the single
/// user, `Some(Some(id))` for a multi-tenant user. `user_key_owner` is the user whose
/// stored API key or personal token the request presents; `local_token_found` says whether
/// it presents an unrevoked personal token in single-user mode.
pub open spec fn auth_user_spec(
    config: AppConfig,
    h: RequestHeaders,
    now: u64,
    user_key_owner: Option<Seq<char>>,
    local_token_found: bool,
) -> Option<Option<Seq<char>>> {
    if config.workos_client_id is Some {
        match user_key_owner {
            Some(u) => Some(Some(u)),
            None => match workos_cookie_user(opt_bytes(h.cookie), config.session_secret@, now) {
                Some(u) => Some(Some(u)),
                None => None,
            },
        }
    } else if headers_key(h) == Some(encode_utf8(config.api_key@)) || local_token_found
        || session_cookie_ok(opt_bytes(h.cookie), config.session_secret@, now) {
        Some(None)
    } else {
        None
    }
}

/// What the authentication middleware does with a request.
pub enum AuthDecision {
    /// A CORS preflight, let through as it is.
    Preflight,
    /// Authenticated: the request goes on carrying the user.
    Pass(UserId),
    /// 401 "Authentication required".
    Reject,
}

/// The authentication middleware: preflight requests pass; in multi-tenant mode a user's API key
/// or session cookie authenticates; in single-user mode the server's API key, a personal
/// token or the session cookie does.
pub fn require_auth(
    config: &AppConfig,
    h: &RequestHeaders,
    is_preflight: bool,
    now: u64,
    user_key_owner: Option<String>,
    local_token_found: bool,
) -> (d: AuthDecision)
    ensures
        match d {
            AuthDecision::Preflight => is_preflight,
            AuthDecision::Pass(UserId(u)) => !is_preflight && auth_user_spec(
                *config,
                *h,
                now,
                opt_view(user_key_owner),
                local_token_found,
            ) == Some(opt_view(u)),
            AuthDecision::Reject => !is_preflight && auth_user_spec(
                *config,
                *h,
                now,
                opt_view(user_key_owner),
                local_token_found,
            ) is None,
        },
{
    if is_preflight {
        return AuthDecision::Preflight;
    }
    if config.workos_client_id.is_some() {
        if let Some(u) = user_key_owner {
            return AuthDecision::Pass(UserId(Some(u)));
        }
        match check_workos_session_cookie(h, &config.session_secret, now) {
            Some(u) => AuthDecision::Pass(UserId(Some(u))),
            None => AuthDecision::Reject,
        }
    } else {
        if check_api_key(h, config.api_key.as_str()) || local_token_found || check_session_cookie(
            h,
            &config.session_secret,
            now,
        ) {
            AuthDecision::Pass(UserId(None))
        } else {
            AuthDecision::Reject
        }
    }
}

/// Whether a request counts as signed in, as the status endpoint reports it.
pub open spec fn authenticated_spec(
    config: AppConfig,
    h: RequestHeaders,
    now: u64,
    user_key_found: bool,
    local_token_found: bool,
) -> bool {
    if config.workos_client_id is Some {
        user_key_found || workos_cookie_user(opt_bytes(h.cookie), config.session_secret@, now) is Some
    } else {
        headers_key(h) == Some(encode_utf8(config.api_key@)) || local_token_found
            || session_cookie_ok(opt_bytes(h.cookie), config.session_secret@, now)
    }
}

/// The status endpoint: whether the request is signed in, and whether the server runs
/// in multi-tenant (WorkOS) mode.
pub fn auth_status(
    config: &AppConfig,
    h: &RequestHeaders,
    now: u64,
    user_key_owner: Option<String>,
    local_token_found: bool,
) -> (r: AuthStatusResponse)
    ensures
        r.workos_enabled == Some(config.workos_client_id is Some),
        r.authenticated == authenticated_spec(*config, *h, now, user_key_owner is Some, local_token_found),
{
    let workos_enabled = config.workos_client_id.is_some();
    let authenticated = if workos_enabled {
        user_key_owner.is_some() || check_workos_session_cookie(h, &config.session_secret, now).is_some()
    } else {
        check_api_key(h, config.api_key.as_str()) || local_token_found || check_session_cookie(
            h,
            &config.session_secret,
            now,
        )
    };
    AuthStatusResponse { authenticated, workos_enabled: Some(workos_enabled) }
}

/// The status endpoint accepts exactly the credentials the middleware accepts.
pub proof fn lemma_status_agrees_with_middleware(
    config: AppConfig,
    h: RequestHeaders,
    now: u64,
    user_key_owner: Option<Seq<char>>,
    local_token_found: bool,
)
    ensures
        authenticated_spec(config, h, now, user_key_owner is Some, local_token_found)
            <==> auth_user_spec(config, h, now, user_key_owner, local_token_found) is Some,
{
}

// ---------------------------------------------------------------------------
// WorkOS sign-in

/// The AuthKit address a browser is sent to, carrying `mobile:<target>` as state for a
/// mobile sign-in.
pub open spec fn workos_authorize_url_spec(
    client_id: Seq<char>,
    redirect_uri: Option<Seq<char>>,
    mobile_redirect: Option<Seq<char>>,
) -> Seq<char> {
    let redirect = or_else(redirect_uri, "http://localhost:3000/auth/callback"@);
    let base = "https://api.workos.com/user_management/authorize?client_id="@ + urlencoding_spec(
        client_id,
    ) + "&redirect_uri="@ + urlencoding_spec(redirect) + "&response_type=code&provider=authkit"@;
    match mobile_redirect {
        Some(m) => base + "&state="@ + urlencoding_spec("mobile:"@ + m),
        None => base,
    }
}

/// Where the WorkOS login sends the browser; `None` (404) when WorkOS is not configured.
pub fn workos_login(config: &AppConfig, params: &LoginQuery) -> (url: Option<String>)
    ensures
        match config.workos_client_id {
            None => url is None,
            Some(id) => url matches Some(u) && u@ == workos_authorize_url_spec(
                id@,
                opt_view(config.workos_redirect_uri),
                opt_view(params.mobile_redirect),
            ),
        },
{
    let client_id = match &config.workos_client_id {
        Some(id) => id,
        None => return None,
    };
    let redirect_uri: &str = match &config.workos_redirect_uri {
        Some(r) => r.as_str(),
        None => "http://localhost:3000/auth/callback",
    };
    let mut v: Vec<char> = Vec::new();
    push_str(&mut v, "https://api.workos.com/user_management/authorize?client_id=");
    push_str(&mut v, urlencoding(client_id.as_str()).as_str());
    push_str(&mut v, "&redirect_uri=");
    push_str(&mut v, urlencoding(redirect_uri).as_str());
    push_str(&mut v, "&response_type=code&provider=authkit");
    if let Some(m) = &params.mobile_redirect {
        let mut st: Vec<char> = Vec::new();
        push_str(&mut st, "mobile:");
        push_str(&mut st, m.as_str());
        let state = string_of(st.as_slice());
        push_str(&mut v, "&state=");
        push_str(&mut v, urlencoding(state.as_str()).as_str());
    }
    Some(string_of(v.as_slice()))
}

/// Why a WorkOS callback fails before or after talking to WorkOS.
pub enum CallbackError {
    /// 404 "WorkOS not configured".
    NotConfigured,
    /// 500 "WorkOS API key not configured".
    MissingApiKey,
    /// 500 "WorkOS returned incomplete user data".
    IncompleteUser,
}

/// The status and error text a failed WorkOS callback answers with.
pub fn callback_error_response(e: &CallbackError) -> (r: (u16, &'static str))
    ensures
        match *e {
            CallbackError::NotConfigured => r.0 == 404 && r.1@ == "WorkOS not configured"@,
            CallbackError::MissingApiKey => r.0 == 500 && r.1@ == "WorkOS API key not configured"@,
            CallbackError::IncompleteUser => r.0 == 500 && r.1@ == "WorkOS returned incomplete user data"@,
        },
{
    match e {
        CallbackError::NotConfigured => (404, "WorkOS not configured"),
        CallbackError::MissingApiKey => (500, "WorkOS API key not configured"),
        CallbackError::IncompleteUser => (500, "WorkOS returned incomplete user data"),
    }
}

/// The body of the code exchange with WorkOS, for the configured client.
pub fn workos_exchange_body(config: &AppConfig, code: &str) -> (r: Result<JsonValue, CallbackError>)
    ensures
        match config.workos_client_id {
            None => r matches Err(CallbackError::NotConfigured),
            Some(id) => match config.workos_api_key {
                None => r matches Err(CallbackError::MissingApiKey),
                Some(k) => r matches Ok(b) && json_of(b) == Json::Object(
                    seq![
                        ("client_id"@, Json::Str(id@)),
                        ("client_secret"@, Json::Str(k@)),
                        ("code"@, Json::Str(code@)),
                        ("grant_type"@, Json::Str("authorization_code"@)),
                    ],
                ),
            },
        },
{
    let client_id = match &config.workos_client_id {
        Some(id) => id.clone(),
        None => return Err(CallbackError::NotConfigured),
    };
    let api_key = match &config.workos_api_key {
        Some(k) => k.clone(),
        None => return Err(CallbackError::MissingApiKey),
    };
    let fields = vec![
        ("client_id".to_string(), JsonValue::Str(client_id)),
        ("client_secret".to_string(), JsonValue::Str(api_key)),
        ("code".to_string(), JsonValue::Str(code.to_string())),
        ("grant_type".to_string(), JsonValue::Str("authorization_code".to_string())),
    ];
    let body = JsonValue::Object(fields);
    proof {
        lemma_json_of_object(fields);
        assert(members(fields@) =~= seq![
            ("client_id"@, Json::Str(config.workos_client_id->0@)),
            ("client_secret"@, Json::Str(config.workos_api_key->0@)),
            ("code"@, Json::Str(code@)),
            ("grant_type"@, Json::Str("authorization_code"@)),
        ]);
    }
    Ok(body)
}

/// The WorkOS user of a successful code exchange.
pub struct WorkosUser {
    pub workos_id: String,
    pub email: String,
    pub name: String,
}

/// `body.user.<k>` as text, or empty.
pub open spec fn user_field(b: Json, k: Seq<char>) -> Seq<char> {
    or_else(str_at(b, "user"@, k), ""@)
}

/// The user a code-exchange response names: id, email, and the trimmed
/// `first last` name; `None` when the id or the email is missing or empty.
pub open spec fn workos_user_spec(b: Json) -> Option<(Seq<char>, Seq<char>, Seq<char>)> {
    let id = user_field(b, "id"@);
    let email = user_field(b, "email"@);
    let name = trim(user_field(b, "first_name"@) + seq![' '] + user_field(b, "last_name"@));
    if id.len() == 0 || email.len() == 0 {
        None
    } else {
        Some((id, email, name))
    }
}

fn user_text<'a>(body: &'a JsonValue, key: &str) -> (t: &'a str)
    ensures
        t@ == user_field(json_of(*body), key@),
{
    match as_str(get_opt(get(body, "user"), key)) {
        Some(s) => s,
        None => "",
    }
}

/// Reads the user out of WorkOS's answer to the code exchange.
pub fn workos_user_from_response(body: &JsonValue) -> (r: Result<WorkosUser, CallbackError>)
    ensures
        match workos_user_spec(json_of(*body)) {
            Some((id, email, name)) => r matches Ok(u) && u.workos_id@ == id && u.email@ == email
                && u.name@ == name,
            None => r matches Err(CallbackError::IncompleteUser),
        },
{
    let id = user_text(body, "id");
    let email = user_text(body, "email");
    let first = user_text(body, "first_name");
    let last = user_text(body, "last_name");
    let mut full: Vec<char> = Vec::new();
    push_str(&mut full, first);
    full.push(' ');
    push_str(&mut full, last);
    assert(full@ =~= first@ + seq![' '] + last@);
    let name = trim_chars(full.as_slice());
    let id_chars = chars_of(id);
    let email_chars = chars_of(email);
    if id_chars.len() == 0 || email_chars.len() == 0 {
        return Err(CallbackError::IncompleteUser);
    }
    let u = WorkosUser { workos_id: id.to_string(), email: email.to_string(), name: string_of(name.as_slice()) };
    assert(u.workos_id@ == id@);
    assert(u.name@ == trim(first@ + seq![' '] + last@));
    Ok(u)
}

/// What the callback does with WorkOS's answer to the code exchange. Only `SignIn` goes on
/// to the user upsert, the session cookie or the redirect; every other outcome answers with
/// an error and changes nothing.
pub enum WorkosReply {
    /// The request did not reach WorkOS: 503 "Failed to contact WorkOS".
    Unreachable,
    /// WorkOS answered with a status outside 2xx: 401, carrying that status.
    Rejected(u16),
    /// A 2xx answer whose body is not JSON: 500 "Invalid WorkOS response".
    InvalidResponse,
    /// A 2xx answer without a user id or email: 500 "WorkOS returned incomplete user data".
    IncompleteUser,
    /// The user to upsert and sign in.
    SignIn(WorkosUser),
}

/// The outcome of the code exchange, from WorkOS's reply: `None` when the request failed,
/// else its status and its body (`None` when the body is not JSON).
pub fn workos_reply(reply: Option<(u16, Option<JsonValue>)>) -> (r: WorkosReply)
    ensures
        match reply {
            None => r is Unreachable,
            Some((status, body)) => if !(200 <= status <= 299) {
                r == WorkosReply::Rejected(status)
            } else {
                match body {
                    None => r is InvalidResponse,
                    Some(b) => match workos_user_spec(json_of(b)) {
                        Some((id, email, name)) => r matches WorkosReply::SignIn(u) && u.workos_id@ == id
                            && u.email@ == email && u.name@ == name,
                        None => r is IncompleteUser,
                    },
                }
            },
        },
{
    match reply {
        None => WorkosReply::Unreachable,
        Some((status, body)) => {
            if !(200 <= status && status <= 299) {
                return WorkosReply::Rejected(status);
            }
            match body {
                None => WorkosReply::InvalidResponse,
                Some(b) => match workos_user_from_response(&b) {
                    Ok(u) => WorkosReply::SignIn(u),
                    Err(_) => WorkosReply::IncompleteUser,
                },
            }
        },
    }
}

/// The HTTP status a callback answers with for an exchange outcome; `None` for a sign-in,
/// which goes on to the upsert and the redirect.
pub fn workos_reply_status(r: &WorkosReply) -> (status: Option<u16>)
    ensures
        status == match *r {
            WorkosReply::Unreachable => Some(503u16),
            WorkosReply::Rejected(_) => Some(401u16),
            WorkosReply::InvalidResponse => Some(500u16),
            WorkosReply::IncompleteUser => Some(500u16),
            WorkosReply::SignIn(_) => None::<u16>,
        },
{
    match r {
        WorkosReply::Unreachable => Some(503),
        WorkosReply::Rejected(_) => Some(401),
        WorkosReply::InvalidResponse => Some(500),
        WorkosReply::IncompleteUser => Some(500),
        WorkosReply::SignIn(_) => None,
    }
}

/// What `GET /api/auth/me` does.
pub enum MeAnswer {
    /// Multi-user mode without a signed-in user: 401 "Not authenticated".
    NotAuthenticated,
    /// Multi-user mode: the signed-in user's record is looked up (404 when it is gone).
    LookUpUser(String),
    /// Single-user mode: a personal `hb_` token named `CLI login` is issued to the local
    /// admin in place of the server's own key.
    IssueLocalToken,
}

/// Decides `GET /api/auth/me` from the mode and the user the middleware found.
pub fn me_answer(config: &AppConfig, user: &UserId) -> (a: MeAnswer)
    ensures
        config.workos_client_id is None ==> a is IssueLocalToken,
        config.workos_client_id is Some ==> match user.0 {
            Some(u) => a matches MeAnswer::LookUpUser(x) && x@ == u@,
            None => a is NotAuthenticated,
        },
{
    if config.workos_client_id.is_none() {
        return MeAnswer::IssueLocalToken;
    }
    match &user.0 {
        Some(u) => MeAnswer::LookUpUser(u.clone()),
        None => MeAnswer::NotAuthenticated,
    }
}

/// The mobile app's address carried in the OAuth state (`mobile:<address>`), if any.
pub open spec fn mobile_target_spec(state: Option<Seq<char>>) -> Option<Seq<char>> {
    match state {
        Some(s) => if s.len() >= 7 && s.take(7) == "mobile:"@ {
            Some(s.skip(7))
        } else {
            None
        },
        None => None,
    }
}

/// The mobile app's address from the callback's state parameter.
pub fn mobile_redirect_target(state: Option<&str>) -> (t: Option<String>)
    ensures
        match t {
            Some(x) => mobile_target_spec(match state {
                Some(s) => Some(s@),
                None => None,
            }) == Some(x@),
            None => mobile_target_spec(match state {
                Some(s) => Some(s@),
                None => None,
            }) is None,
        },
{
    let s = match state {
        Some(s) => s,
        None => return None,
    };
    let cs = chars_of(s);
    let prefix = chars_of("mobile:");
    proof {
        reveal_strlit("mobile:");
    }
    if starts_with(cs.as_slice(), prefix.as_slice()) {
        let rest = copy_range(cs.as_slice(), 7, cs.len());
        assert(rest@ =~= s@.skip(7));
        Some(string_of(rest.as_slice()))
    } else {
        None
    }
}

/// Where a mobile sign-in ends: the app's address with the user's API key and email.
pub open spec fn mobile_redirect_spec(target: Seq<char>, api_key: Seq<char>, email: Seq<char>) -> Seq<char> {
    target + "?api_key="@ + urlencoding_spec(api_key) + "&email="@ + urlencoding_spec(email)
}

/// The redirect that hands a mobile app the user's API key.
pub fn mobile_redirect_url(target: &str, api_key: &str, email: &str) -> (url: String)
    ensures
        url@ == mobile_redirect_spec(target@, api_key@, email@),
{
    let mut v: Vec<char> = Vec::new();
    push_str(&mut v, target);
    push_str(&mut v, "?api_key=");
    push_str(&mut v, urlencoding(api_key).as_str());
    push_str(&mut v, "&email=");
    push_str(&mut v, urlencoding(email).as_str());
    string_of(v.as_slice())
}

/// A browser sign-in's end: the session cookie for `user_id` at `now`, and the frontend
/// address (`/` when none is configured).
pub fn web_login_redirect(config: &AppConfig, user_id: &str, now: u64) -> (r: (String, String))
    ensures
        r.0@ == session_cookie_spec(
            user_id@ + seq![':'] + decimal(now as nat) + seq![':'] + workos_mac(
                config.session_secret@,
                user_id@,
                now,
            ),
            SESSION_MAX_AGE_SECS,
            config.tls_cert_path is Some,
            opt_view(config.cookie_domain),
        ),
        r.1@ == or_else(opt_view(config.frontend_url), "/"@),
{
    let token = create_workos_session_token(user_id, &config.session_secret, now);
    let cookie = build_session_cookie(
        token.as_str(),
        SESSION_MAX_AGE_SECS,
        config.tls_cert_path.is_some(),
        cookie_domain_of(config),
    );
    let location = match &config.frontend_url {
        Some(u) => u.clone(),
        None => "/".to_string(),
    };
    (cookie, location)
}

} // verus!
