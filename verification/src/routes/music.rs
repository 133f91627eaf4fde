//! Spotify: the signed OAuth `state`, PKCE values, query encoding, and playback.
use vstd::prelude::*;
use vstd::utf8::encode_utf8;
use crate::digest::{
    base64url_nopad_encode, base64url_nopad_spec, hex_encode, hex_lower, hmac_sha256,
    hmac_sha256_spec, is_base64url_char, sha256, sha256_spec,
};
use crate::config::opt_view;
use crate::json::{
    as_bool, as_i64, as_str, first_item, get_opt, json_of, lemma_json_of_object, members, opt_bool, opt_first,
    opt_get, opt_i64, opt_str, Json, JsonValue,
};
use crate::models::{MusicConfig, NowPlaying};
use crate::text::{concat_all, concat_parts, rfc3339_nanos, rfc3339_nanos_spec, str_eq,
    chars_of, copy_range, find_first, find_last, first_pos, last_pos, lemma_decimal,
    lemma_first_pos, lemma_first_pos_bounds, lemma_last_pos, lemma_parse_i64_decimal,
    parse_i64, parse_i64_spec, percent_byte, push_all, push_percent, push_signed_decimal,
    push_str, signed_decimal, string_of, is_digit, decimal,
};

verus! {

broadcast use vstd::string::group_string_axioms;

/// How long a signed state stays acceptable, in seconds.
pub const STATE_MAX_AGE_SECS: i64 = 600;

/// The Spotify scopes the integration asks for.
pub open spec fn spotify_scopes() -> Seq<char> {
    "user-read-playback-state user-modify-playback-state user-read-currently-playing"@
}

/// The report for a device on which nothing plays.
pub fn nothing_playing() -> (np: NowPlaying)
    ensures
        !np.is_playing,
        np.track_name is None,
        np.artist_name is None,
        np.album_name is None,
        np.album_art_url is None,
        np.progress_ms is None,
        np.duration_ms is None,
{
    NowPlaying {
        is_playing: false,
        track_name: None,
        artist_name: None,
        album_name: None,
        album_art_url: None,
        progress_ms: None,
        duration_ms: None,
    }
}

pub open spec fn is_unreserved_byte(b: u8) -> bool {
    (65 <= b <= 90) || (97 <= b <= 122) || (48 <= b <= 57) || b == 45 || b == 95 || b == 46 || b
        == 126
}

/// Percent-encoding of UTF-8 bytes: unreserved bytes stay, others become `%XY`.
pub open spec fn urlencode_bytes(b: Seq<u8>) -> Seq<char>
    decreases b.len(),
{
    if b.len() == 0 {
        Seq::empty()
    } else {
        urlencode_bytes(b.drop_last()) + if is_unreserved_byte(b.last()) {
            seq![b.last() as char]
        } else {
            percent_byte(b.last())
        }
    }
}

/// Percent-encodes `s` for a query string.
pub fn urlencode(s: &str) -> (out: String)
    ensures
        out@ == urlencode_bytes(encode_utf8(s@)),
{
    let b = s.as_bytes();
    let mut v: Vec<char> = Vec::new();
    let mut i: usize = 0;
    while i < b.len()
        invariant
            i <= b@.len(),
            b@ == encode_utf8(s@),
            v@ == urlencode_bytes(b@.take(i as int)),
        decreases b@.len() - i,
    {
        let c = b[i];
        assert(b@.take(i + 1).drop_last() =~= b@.take(i as int));
        if (65 <= c && c <= 90) || (97 <= c && c <= 122) || (48 <= c && c <= 57) || c == 45 || c
            == 95 || c == 46 || c == 126 {
            v.push(c as char);
        } else {
            push_percent(&mut v, c);
        }
        i = i + 1;
    }
    assert(b@.take(b@.len() as int) =~= b@);
    string_of(v.as_slice())
}

/// `device_id:issued_at:nonce`, the part of the state that is signed.
pub open spec fn state_payload(device_id: Seq<char>, issued_at: i64, nonce: Seq<char>) -> Seq<char> {
    device_id + seq![':'] + signed_decimal(issued_at as int) + seq![':'] + nonce
}

/// The hex signature of a payload.
pub open spec fn state_sig(secret: Seq<u8>, payload: Seq<char>) -> Seq<char> {
    hex_lower(hmac_sha256_spec(secret, encode_utf8(payload)))
}

/// What `verify_state` accepts at time `now`: the device id and the payload.
pub open spec fn verify_state_spec(secret: Seq<u8>, state: Seq<char>, now: i64) -> Option<(Seq<char>, Seq<char>)> {
    let q = last_pos(state, ':');
    if q < 0 {
        None
    } else {
        let payload = state.take(q);
        let sig = state.skip(q + 1);
        let p1 = first_pos(payload, ':');
        if p1 < 0 {
            None
        } else {
            let device = payload.take(p1);
            let rest = payload.skip(p1 + 1);
            let p2 = first_pos(rest, ':');
            if p2 < 0 {
                None
            } else {
                match parse_i64_spec(rest.take(p2)) {
                    None => None,
                    Some(t) => if now - t > STATE_MAX_AGE_SECS || t - now > STATE_MAX_AGE_SECS {
                        None
                    } else if sig == state_sig(secret, state_payload(device, t, rest.skip(p2 + 1))) {
                        Some((device, payload))
                    } else {
                        None
                    },
                }
            }
        }
    }
}

fn payload_chars(device_id: &[char], issued_at: i64, nonce: &[char]) -> (v: Vec<char>)
    ensures
        v@ == state_payload(device_id@, issued_at, nonce@),
{
    let mut v: Vec<char> = Vec::new();
    push_all(&mut v, device_id);
    v.push(':');
    push_signed_decimal(&mut v, issued_at);
    v.push(':');
    push_all(&mut v, nonce);
    v
}

fn sig_of(secret: &[u8; 32], payload: &[char]) -> (sig: String)
    ensures
        sig@ == state_sig(secret@, payload@),
{
    let p = string_of(payload);
    let tag = hmac_sha256(secret.as_slice(), p.as_str().as_bytes());
    hex_encode(tag.as_slice())
}

/// Signs `device_id:issued_at:nonce`; the state is the payload, `:`, and its hex HMAC.
pub fn sign_state(secret: &[u8; 32], device_id: &str, issued_at: i64, nonce: &str) -> (state: String)
    ensures
        state@ == state_payload(device_id@, issued_at, nonce@) + seq![':'] + state_sig(
            secret@,
            state_payload(device_id@, issued_at, nonce@),
        ),
{
    let d = chars_of(device_id);
    let n = chars_of(nonce);
    let mut v = payload_chars(d.as_slice(), issued_at, n.as_slice());
    let sig = sig_of(secret, v.as_slice());
    v.push(':');
    push_str(&mut v, sig.as_str());
    string_of(v.as_slice())
}

/// The device id and payload of a state we signed, if it is at most ten minutes
/// from `now` either way.
pub fn verify_state(secret: &[u8; 32], state: &str, now: i64) -> (r: Option<(String, String)>)
    ensures
        match r {
            Some((d, p)) => verify_state_spec(secret@, state@, now) == Some((d@, p@)),
            None => verify_state_spec(secret@, state@, now) is None,
        },
{
    let s = chars_of(state);
    let q = match find_last(s.as_slice(), ':') {
        Some(q) => q,
        None => return None,
    };
    proof {
        lemma_last_pos_bounds(s@, ':');
    }
    let n = s.len();
    assert(q < n);
    let payload = copy_range(s.as_slice(), 0, q);
    let sig = copy_range(s.as_slice(), q + 1, n);
    assert(payload@ =~= s@.take(q as int));
    assert(sig@ =~= s@.skip(q + 1));
    let p1 = match find_first(payload.as_slice(), ':') {
        Some(p) => p,
        None => return None,
    };
    proof {
        lemma_first_pos_bounds(payload@, ':');
    }
    let device = copy_range(payload.as_slice(), 0, p1);
    let rest = copy_range(payload.as_slice(), p1 + 1, payload.len());
    assert(device@ =~= payload@.take(p1 as int));
    assert(rest@ =~= payload@.skip(p1 + 1));
    let p2 = match find_first(rest.as_slice(), ':') {
        Some(p) => p,
        None => return None,
    };
    proof {
        lemma_first_pos_bounds(rest@, ':');
    }
    let ts = copy_range(rest.as_slice(), 0, p2);
    let nonce = copy_range(rest.as_slice(), p2 + 1, rest.len());
    assert(ts@ =~= rest@.take(p2 as int));
    assert(nonce@ =~= rest@.skip(p2 + 1));
    let issued_at = match parse_i64(ts.as_slice()) {
        Some(t) => t,
        None => return None,
    };
    let diff: i128 = now as i128 - issued_at as i128;
    if diff > STATE_MAX_AGE_SECS as i128 || -diff > STATE_MAX_AGE_SECS as i128 {
        return None;
    }
    let canonical = payload_chars(device.as_slice(), issued_at, nonce.as_slice());
    let expected = sig_of(secret, canonical.as_slice());
    let given = string_of(sig.as_slice());
    if crate::auth::constant_time_eq(given.as_str(), expected.as_str()) {
        Some((string_of(device.as_slice()), string_of(payload.as_slice())))
    } else {
        None
    }
}

proof fn lemma_last_pos_bounds(s: Seq<char>, c: char)
    ensures
        -1 <= last_pos(s, c) < s.len(),
    decreases s.len(),
{
    if s.len() > 0 && s.last() != c {
        lemma_last_pos_bounds(s.drop_last(), c);
    }
}

/// A state we signed is read back to its device id, issue time and payload; it is accepted
/// exactly within ten minutes of its issue time.
proof fn lemma_signed_state(secret: Seq<u8>, device_id: Seq<char>, issued_at: i64, nonce: Seq<char>, now: i64)
    requires
        !device_id.contains(':'),
    ensures
        verify_state_spec(
            secret,
            state_payload(device_id, issued_at, nonce) + seq![':'] + state_sig(
                secret,
                state_payload(device_id, issued_at, nonce),
            ),
            now,
        ) == if now - issued_at > STATE_MAX_AGE_SECS || issued_at - now > STATE_MAX_AGE_SECS {
            None
        } else {
            Some((device_id, state_payload(device_id, issued_at, nonce)))
        },
{
    let payload = state_payload(device_id, issued_at, nonce);
    let sig = state_sig(secret, payload);
    let state = payload + seq![':'] + sig;
    let h = hmac_sha256_spec(secret, encode_utf8(payload));
    assert forall|j: int| payload.len() < j < state.len() implies state[j] != ':' by {
        let k = j - payload.len() - 1;
        assert(state[j] == sig[k]);
        let n = if k % 2 == 0 {
            h[k / 2] as int / 16
        } else {
            h[k / 2] as int % 16
        };
        assert(0 <= n < 16);
    }
    lemma_last_pos(state, ':', payload.len() as int);
    assert(state.take(payload.len() as int) =~= payload);
    assert(state.skip(payload.len() as int + 1) =~= sig);
    assert forall|j: int| 0 <= j < device_id.len() implies payload[j] != ':' by {
        assert(payload[j] == device_id[j]);
    }
    lemma_first_pos(payload, ':', device_id.len() as int);
    let sd = signed_decimal(issued_at as int);
    let rest = payload.skip(device_id.len() as int + 1);
    assert(rest =~= sd + seq![':'] + nonce);
    lemma_decimal(if issued_at < 0 { (-issued_at) as nat } else { issued_at as nat });
    assert forall|j: int| 0 <= j < sd.len() implies rest[j] != ':' by {
        assert(rest[j] == sd[j]);
        if issued_at < 0 {
            if j > 0 {
                assert(is_digit(decimal((-issued_at) as nat)[j - 1]));
            }
        } else {
            assert(is_digit(decimal(issued_at as nat)[j]));
        }
    }
    lemma_first_pos(rest, ':', sd.len() as int);
    assert(payload.take(device_id.len() as int) =~= device_id);
    assert(rest.take(sd.len() as int) =~= sd);
    assert(rest.skip(sd.len() as int + 1) =~= nonce);
    lemma_parse_i64_decimal(issued_at);
}

/// A state we signed verifies, within ten minutes of its issue time, to its device id
/// and payload, provided the device id holds no `:`.
pub proof fn lemma_state_round_trip(secret: Seq<u8>, device_id: Seq<char>, issued_at: i64, nonce: Seq<char>, now: i64)
    requires
        !device_id.contains(':'),
        -STATE_MAX_AGE_SECS <= now - issued_at <= STATE_MAX_AGE_SECS,
    ensures
        verify_state_spec(
            secret,
            state_payload(device_id, issued_at, nonce) + seq![':'] + state_sig(
                secret,
                state_payload(device_id, issued_at, nonce),
            ),
            now,
        ) == Some((device_id, state_payload(device_id, issued_at, nonce))),
{
    lemma_signed_state(secret, device_id, issued_at, nonce, now);
}

/// A state we signed is refused once more than ten minutes separate its issue time from
/// now, in either direction.
pub proof fn lemma_stale_state_rejected(secret: Seq<u8>, device_id: Seq<char>, issued_at: i64, nonce: Seq<char>, now: i64)
    requires
        !device_id.contains(':'),
        now - issued_at > STATE_MAX_AGE_SECS || issued_at - now > STATE_MAX_AGE_SECS,
    ensures
        verify_state_spec(
            secret,
            state_payload(device_id, issued_at, nonce) + seq![':'] + state_sig(
                secret,
                state_payload(device_id, issued_at, nonce),
            ),
            now,
        ) is None,
{
    lemma_signed_state(secret, device_id, issued_at, nonce, now);
}

/// The PKCE verifier for an authorization attempt.
pub open spec fn pkce_verifier_spec(secret: Seq<u8>, state_payload: Seq<char>) -> Seq<char> {
    base64url_nopad_spec(hmac_sha256_spec(secret, encode_utf8("spotify-pkce:"@ + state_payload)))
}

/// The PKCE verifier: URL-safe base64 of the HMAC of `spotify-pkce:` and the state payload.
pub fn pkce_verifier(secret: &[u8; 32], state_payload: &str) -> (v: String)
    ensures
        v@ == pkce_verifier_spec(secret@, state_payload@),
        v@.len() == 43,
        forall|i: int| 0 <= i < v@.len() ==> is_base64url_char(#[trigger] v@[i]),
{
    let mut m: Vec<char> = Vec::new();
    push_str(&mut m, "spotify-pkce:");
    push_str(&mut m, state_payload);
    let msg = string_of(m.as_slice());
    let tag = hmac_sha256(secret.as_slice(), msg.as_str().as_bytes());
    base64url_nopad_encode(tag.as_slice())
}

/// The S256 PKCE challenge: URL-safe base64 of the SHA-256 of the verifier.
pub fn pkce_challenge(verifier: &str) -> (c: String)
    ensures
        c@ == base64url_nopad_spec(sha256_spec(encode_utf8(verifier@))),
{
    let d = sha256(verifier.as_bytes());
    base64url_nopad_encode(d.as_slice())
}

pub open spec fn is_error_code_char(c: char) -> bool {
    ('A' <= c <= 'Z') || ('a' <= c <= 'z') || ('0' <= c <= '9') || c == '_' || c == '-'
}

/// The characters of `s` that may appear in an error code, in order.
pub open spec fn error_code_chars(s: Seq<char>) -> Seq<char>
    decreases s.len(),
{
    if s.len() == 0 {
        Seq::empty()
    } else {
        error_code_chars(s.drop_last()) + if is_error_code_char(s.last()) {
            seq![s.last()]
        } else {
            Seq::empty()
        }
    }
}

/// The error reported back to the dashboard for a provider's `error` parameter:
/// its first 64 ASCII letters, digits, `_` and `-`, or `denied` when none remain.
pub fn callback_error_reason(err: &str) -> (reason: String)
    ensures
        reason@ == if error_code_chars(err@).len() == 0 {
            "denied"@
        } else if error_code_chars(err@).len() <= 64 {
            error_code_chars(err@)
        } else {
            error_code_chars(err@).take(64)
        },
{
    let cs = chars_of(err);
    let mut v: Vec<char> = Vec::new();
    let mut i: usize = 0;
    while i < cs.len()
        invariant
            i <= cs@.len(),
            cs@ == err@,
            v@ == error_code_chars(cs@.take(i as int)),
        decreases cs@.len() - i,
    {
        let c = cs[i];
        assert(cs@.take(i + 1).drop_last() =~= cs@.take(i as int));
        if ('A' <= c && c <= 'Z') || ('a' <= c && c <= 'z') || ('0' <= c && c <= '9') || c == '_'
            || c == '-' {
            v.push(c);
        }
        i = i + 1;
    }
    assert(cs@.take(cs@.len() as int) =~= cs@);
    if v.len() == 0 {
        "denied".to_string()
    } else if v.len() <= 64 {
        string_of(v.as_slice())
    } else {
        let w = copy_range(v.as_slice(), 0, 64);
        assert(w@ =~= v@.take(64));
        string_of(w.as_slice())
    }
}

/// The Spotify consent URL for a signed state and its PKCE challenge.
pub fn spotify_authorize_url(client_id: &str, redirect_uri: &str, state: &str, challenge: &str) -> (url: String)
    ensures
        url@ == "https://accounts.spotify.com/authorize?client_id="@ + urlencode_bytes(
            encode_utf8(client_id@),
        ) + "&response_type=code&redirect_uri="@ + urlencode_bytes(encode_utf8(redirect_uri@))
            + "&scope="@ + urlencode_bytes(encode_utf8(spotify_scopes())) + "&state="@
            + urlencode_bytes(encode_utf8(state@))
            + "&code_challenge_method=S256&code_challenge="@ + urlencode_bytes(
            encode_utf8(challenge@),
        ),
{
    let mut v: Vec<char> = Vec::new();
    push_str(&mut v, "https://accounts.spotify.com/authorize?client_id=");
    push_str(&mut v, urlencode(client_id).as_str());
    push_str(&mut v, "&response_type=code&redirect_uri=");
    push_str(&mut v, urlencode(redirect_uri).as_str());
    push_str(&mut v, "&scope=");
    push_str(
        &mut v,
        urlencode("user-read-playback-state user-modify-playback-state user-read-currently-playing").as_str(),
    );
    push_str(&mut v, "&state=");
    push_str(&mut v, urlencode(state).as_str());
    push_str(&mut v, "&code_challenge_method=S256&code_challenge=");
    push_str(&mut v, urlencode(challenge).as_str());
    string_of(v.as_slice())
}

pub struct CallbackQuery {
    pub code: Option<String>,
    pub state: Option<String>,
    pub error: Option<String>,
}

pub struct DeviceQuery {
    pub device_id: Option<String>,
}


/// `body[a][k]` as text.
pub open spec fn text_at(b: Option<Json>, a: Seq<char>, k: Seq<char>) -> Option<Seq<char>> {
    opt_str(opt_get(opt_get(b, a), k))
}

/// What the player reports from Spotify's currently-playing answer: whether it plays, the
/// track, its first artist, its album and the album's first image, the position and length.
pub open spec fn now_playing_spec(body: Json) -> (bool, Option<Seq<char>>, Option<Seq<char>>, Option<Seq<char>>, Option<Seq<char>>, Option<i64>, Option<i64>) {
    let b = Some(body);
    let item = opt_get(b, "item"@);
    (
        opt_bool(opt_get(b, "is_playing"@)) == Some(true),
        opt_str(opt_get(item, "name"@)),
        opt_str(opt_get(opt_first(opt_get(item, "artists"@)), "name"@)),
        opt_str(opt_get(opt_get(item, "album"@), "name"@)),
        opt_str(opt_get(opt_first(opt_get(opt_get(item, "album"@), "images"@)), "url"@)),
        opt_i64(opt_get(b, "progress_ms"@)),
        opt_i64(opt_get(item, "duration_ms"@)),
    )
}

fn owned(s: Option<&str>) -> (r: Option<String>)
    ensures
        opt_view(r) == match s {
            Some(x) => Some(x@),
            None => None,
        },
{
    match s {
        Some(x) => Some(x.to_string()),
        None => None,
    }
}

/// Reads the playing track out of Spotify's answer.
pub fn now_playing_from(body: &JsonValue) -> (np: NowPlaying)
    ensures
        now_playing_spec(json_of(*body)) == (
            np.is_playing,
            opt_view(np.track_name),
            opt_view(np.artist_name),
            opt_view(np.album_name),
            opt_view(np.album_art_url),
            np.progress_ms,
            np.duration_ms,
        ),
{
    let b = Some(body);
    let item = get_opt(b, "item");
    let album = get_opt(item, "album");
    NowPlaying {
        is_playing: match as_bool(get_opt(b, "is_playing")) {
            Some(true) => true,
            _ => false,
        },
        track_name: owned(as_str(get_opt(item, "name"))),
        artist_name: owned(as_str(get_opt(first_item(get_opt(item, "artists")), "name"))),
        album_name: owned(as_str(get_opt(album, "name"))),
        album_art_url: owned(as_str(get_opt(first_item(get_opt(album, "images")), "url"))),
        progress_ms: as_i64(get_opt(b, "progress_ms")),
        duration_ms: as_i64(get_opt(item, "duration_ms")),
    }
}

/// How Spotify's answer to the currently-playing request is read: 204 means nothing plays,
/// another failure is an error naming the status, success has a body to read.
pub enum PlaybackAnswer {
    NothingPlaying,
    Failed(String),
    ReadBody,
}

/// Classifies Spotify's status for the currently-playing request (`shown` is its display text).
pub fn playback_answer(status: u16, shown: &str) -> (r: PlaybackAnswer)
    ensures
        status == 204 ==> r is NothingPlaying,
        status != 204 && !(200 <= status <= 299) ==> (r matches PlaybackAnswer::Failed(m) && m@ == "Spotify returned "@ + shown@),
        status != 204 && 200 <= status <= 299 ==> r is ReadBody,
{
    if status == 204 {
        PlaybackAnswer::NothingPlaying
    } else if !(200 <= status && status <= 299) {
        proof {
            reveal_with_fuel(concat_all, 3);
        }
        PlaybackAnswer::Failed(string_of(concat_parts(&["Spotify returned ", shown]).as_slice()))
    } else {
        PlaybackAnswer::ReadBody
    }
}

/// Whether a stored access token needs refreshing at `now_nanos`: it expires within a minute.
/// A missing or unreadable expiry counts as still valid.
pub open spec fn token_expired_spec(expires_at: Option<Seq<char>>, now_nanos: int) -> bool {
    match expires_at {
        Some(t) => match rfc3339_nanos_spec(t) {
            Some(e) => now_nanos + 60_000_000_000 >= e,
            None => false,
        },
        None => false,
    }
}

/// Whether the token must be refreshed before use.
pub fn token_expired(expires_at: Option<&str>, now_nanos: i128) -> (r: bool)
    requires
        now_nanos < i128::MAX - 60_000_000_000,
    ensures
        r == token_expired_spec(
            match expires_at {
                Some(t) => Some(t@),
                None => None,
            },
            now_nanos as int,
        ),
{
    match expires_at {
        Some(t) => match rfc3339_nanos(t) {
            Some(e) => now_nanos + 60_000_000_000 >= e,
            None => false,
        },
        None => false,
    }
}

/// The HTTP method of a playback command.
#[derive(Debug, PartialEq, Eq, Structural, Clone, Copy)]
pub enum Verb {
    Put,
    Post,
}

/// The Spotify request for a playback action: play and pause are `PUT`s (`true`), next and
/// previous `POST`s; `None` for any other action.
pub open spec fn playback_spec(action: Seq<char>) -> Option<(bool, Seq<char>)> {
    if action == "play"@ {
        Some((true, "https://api.spotify.com/v1/me/player/play"@))
    } else if action == "pause"@ {
        Some((true, "https://api.spotify.com/v1/me/player/pause"@))
    } else if action == "next"@ {
        Some((false, "https://api.spotify.com/v1/me/player/next"@))
    } else if action == "previous"@ {
        Some((false, "https://api.spotify.com/v1/me/player/previous"@))
    } else {
        None
    }
}

/// The request for a playback action, or the error naming the supported actions.
pub fn playback_request(action: &str) -> (r: Result<(Verb, &'static str), String>)
    ensures
        match playback_spec(action@) {
            Some((put, url)) => r matches Ok((v, u)) && (v is Put) == put && u@ == url,
            None => r matches Err(m) && m@ == "Unsupported action '"@ + action@ + "'. Use play, pause, next or previous."@,
        },
{
    if str_eq(action, "play") {
        Ok((Verb::Put, "https://api.spotify.com/v1/me/player/play"))
    } else if str_eq(action, "pause") {
        Ok((Verb::Put, "https://api.spotify.com/v1/me/player/pause"))
    } else if str_eq(action, "next") {
        Ok((Verb::Post, "https://api.spotify.com/v1/me/player/next"))
    } else if str_eq(action, "previous") {
        Ok((Verb::Post, "https://api.spotify.com/v1/me/player/previous"))
    } else {
        proof {
            reveal_with_fuel(concat_all, 4);
        }
        Err(string_of(concat_parts(&["Unsupported action '", action, "'. Use play, pause, next or previous."]).as_slice()))
    }
}

/// Why a playback command failed, from Spotify's status.
pub enum ActionFailure {
    /// 400 "No active Spotify player. Start playback on a device first."
    NoPlayer,
    /// 500 "Spotify returned <status>".
    Failed(String),
}

/// Reads Spotify's answer to a playback command: success, no active player (404), or failure.
pub fn playback_result(status: u16, shown: &str) -> (r: Result<(), ActionFailure>)
    ensures
        status == 404 ==> r matches Err(ActionFailure::NoPlayer),
        status != 404 && !(200 <= status <= 299) ==> (r matches Err(ActionFailure::Failed(m)) && m@ == "Spotify returned "@ + shown@),
        status != 404 && 200 <= status <= 299 ==> r is Ok,
{
    if status == 404 {
        Err(ActionFailure::NoPlayer)
    } else if !(200 <= status && status <= 299) {
        proof {
            reveal_with_fuel(concat_all, 3);
        }
        Err(ActionFailure::Failed(string_of(concat_parts(&["Spotify returned ", shown]).as_slice())))
    } else {
        Ok(())
    }
}


/// The Spotify app's client id and redirect address, when both are configured; else the
/// error 400 "Spotify is not configured. Set SPOTIFY_CLIENT_ID and SPOTIFY_REDIRECT_URI."
pub fn spotify_credentials<'a>(client_id: Option<&'a str>, redirect_uri: Option<&'a str>) -> (r: Result<(&'a str, &'a str), String>)
    ensures
        match (client_id, redirect_uri) {
            (Some(id), Some(uri)) => r matches Ok((a, b)) && a@ == id@ && b@ == uri@,
            _ => r matches Err(m) && m@ == "Spotify is not configured. Set SPOTIFY_CLIENT_ID and SPOTIFY_REDIRECT_URI."@,
        },
{
    match (client_id, redirect_uri) {
        (Some(id), Some(uri)) => Ok((id, uri)),
        _ => Err("Spotify is not configured. Set SPOTIFY_CLIENT_ID and SPOTIFY_REDIRECT_URI.".to_string()),
    }
}

/// What the callback answers the browser.
pub enum CallbackReply {
    /// 400 with `{"error": reason}` (no frontend is configured).
    Error(String),
    /// 200 `{"ok": true, "provider": "spotify"}`.
    Connected,
    /// A redirect to the frontend.
    Redirect(String),
}

/// The answer to a failed callback: the reason as JSON, or a redirect that shows it on the
/// frontend's music page.
pub fn callback_failure(frontend: &str, reason: &str) -> (r: CallbackReply)
    ensures
        frontend@.len() == 0 ==> (r matches CallbackReply::Error(m) && m@ == reason@),
        frontend@.len() != 0 ==> (r matches CallbackReply::Redirect(u) && u@ == frontend@ + "/music?spotify_error="@
            + urlencode_bytes(encode_utf8(reason@))),
{
    if chars_of(frontend).len() == 0 {
        CallbackReply::Error(reason.to_string())
    } else {
        proof {
            reveal_with_fuel(concat_all, 4);
        }
        let e = urlencode(reason);
        CallbackReply::Redirect(string_of(concat_parts(&[frontend, "/music?spotify_error=", e.as_str()]).as_slice()))
    }
}

/// The answer to a successful connection.
pub fn callback_success(frontend: &str) -> (r: CallbackReply)
    ensures
        frontend@.len() == 0 ==> r is Connected,
        frontend@.len() != 0 ==> (r matches CallbackReply::Redirect(u) && u@ == frontend@ + "/music?spotify=connected"@),
{
    if chars_of(frontend).len() == 0 {
        CallbackReply::Connected
    } else {
        proof {
            reveal_with_fuel(concat_all, 3);
        }
        CallbackReply::Redirect(string_of(concat_parts(&[frontend, "/music?spotify=connected"]).as_slice()))
    }
}

/// What the first part of the callback decides: the reason it fails for, or the code with
/// the device and payload of its verified state.
pub open spec fn callback_start_spec(secret: Seq<u8>, q: CallbackQuery, now: i64) -> Result<(Seq<char>, Seq<char>, Seq<char>), Seq<char>> {
    match q.error {
        Some(e) => {
            let r = error_code_chars(e@);
            Err(if r.len() == 0 {
                "denied"@
            } else if r.len() <= 64 {
                r
            } else {
                r.take(64)
            })
        },
        None => match (q.code, q.state) {
            (Some(code), Some(state)) => match verify_state_spec(secret, state@, now) {
                Some((device, payload)) => Ok((code@, device, payload)),
                None => Err("invalid_state"@),
            },
            _ => Err("missing_code"@),
        },
    }
}

/// Checks the callback's query: the provider's error, a missing code or state, or a state
/// that we did not sign (or that expired) ends it.
pub fn callback_start(secret: &[u8; 32], q: &CallbackQuery, now: i64) -> (r: Result<(String, String, String), String>)
    ensures
        match r {
            Ok((c, d, p)) => callback_start_spec(secret@, *q, now) == Ok::<(Seq<char>, Seq<char>, Seq<char>), Seq<char>>((c@, d@, p@)),
            Err(m) => callback_start_spec(secret@, *q, now) == Err::<(Seq<char>, Seq<char>, Seq<char>), Seq<char>>(m@),
        },
{
    if let Some(e) = &q.error {
        return Err(callback_error_reason(e.as_str()));
    }
    match (&q.code, &q.state) {
        (Some(code), Some(state)) => match verify_state(secret, state.as_str(), now) {
            Some((d, p)) => Ok((code.clone(), d, p)),
            None => Err("invalid_state".to_string()),
        },
        _ => Err("missing_code".to_string()),
    }
}

/// Whether an access token connects an account: present and not empty.
pub open spec fn connected_spec(access_token: Option<Seq<char>>) -> bool {
    access_token matches Some(t) && t.len() > 0
}

/// A music configuration as stored, with `connected` set from its access token.
pub fn music_config(
    id: String,
    device_id: String,
    provider: String,
    access_token: Option<String>,
    refresh_token: Option<String>,
    auto_pause_meetings: bool,
    focus_playlist_id: Option<String>,
    enabled: bool,
    created_at: String,
) -> (c: MusicConfig)
    ensures
        c.id@ == id@,
        c.device_id@ == device_id@,
        c.provider@ == provider@,
        c.connected == connected_spec(opt_view(access_token)),
        opt_view(c.access_token) == opt_view(access_token),
        opt_view(c.refresh_token) == opt_view(refresh_token),
        c.auto_pause_meetings == auto_pause_meetings,
        opt_view(c.focus_playlist_id) == opt_view(focus_playlist_id),
        c.enabled == enabled,
        c.created_at@ == created_at@,
{
    let connected = match &access_token {
        Some(t) => chars_of(t.as_str()).len() > 0,
        None => false,
    };
    MusicConfig {
        id,
        device_id,
        provider,
        connected,
        access_token,
        refresh_token,
        auto_pause_meetings,
        focus_playlist_id,
        enabled,
        created_at,
    }
}

fn opt_text_json(v: &Option<String>) -> (j: JsonValue)
    ensures
        json_of(j) == match v {
            Some(s) => Json::Str(s@),
            None => Json::Null,
        },
{
    match v {
        Some(s) => JsonValue::Str(s.clone()),
        None => JsonValue::Null,
    }
}

/// What is shown of a music configuration: every field but the two OAuth tokens.
pub open spec fn music_config_shown(c: MusicConfig) -> Json {
    Json::Object(
        seq![
            ("id"@, Json::Str(c.id@)),
            ("device_id"@, Json::Str(c.device_id@)),
            ("provider"@, Json::Str(c.provider@)),
            ("connected"@, Json::Bool(c.connected)),
            ("auto_pause_meetings"@, Json::Bool(c.auto_pause_meetings)),
            ("focus_playlist_id"@, match c.focus_playlist_id {
                Some(s) => Json::Str(s@),
                None => Json::Null,
            }),
            ("enabled"@, Json::Bool(c.enabled)),
            ("created_at"@, Json::Str(c.created_at@)),
        ],
    )
}

/// The configuration as it is sent to clients, without the OAuth tokens.
pub fn music_config_json(c: &MusicConfig) -> (j: JsonValue)
    ensures
        json_of(j) == music_config_shown(*c),
{
    let fields: Vec<(String, JsonValue)> = vec![
        ("id".to_string(), JsonValue::Str(c.id.clone())),
        ("device_id".to_string(), JsonValue::Str(c.device_id.clone())),
        ("provider".to_string(), JsonValue::Str(c.provider.clone())),
        ("connected".to_string(), JsonValue::Bool(c.connected)),
        ("auto_pause_meetings".to_string(), JsonValue::Bool(c.auto_pause_meetings)),
        ("focus_playlist_id".to_string(), opt_text_json(&c.focus_playlist_id)),
        ("enabled".to_string(), JsonValue::Bool(c.enabled)),
        ("created_at".to_string(), JsonValue::Str(c.created_at.clone())),
    ];
    proof {
        lemma_json_of_object(fields);
        assert(members(fields@) =~= match music_config_shown(*c) {
            Json::Object(f) => f,
            _ => Seq::empty(),
        });
    }
    JsonValue::Object(fields)
}

} // verus!
