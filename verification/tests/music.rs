use base64::engine::general_purpose::URL_SAFE_NO_PAD;
use base64::Engine;
use hookbot::json::JsonValue;
use hookbot::routes::music::{
    callback_error_reason, callback_failure, music_config, music_config_json, callback_start, callback_success, now_playing_from,
    pkce_challenge, pkce_verifier, playback_answer, playback_request, playback_result, sign_state,
    spotify_authorize_url, token_expired, urlencode, verify_state, CallbackQuery, CallbackReply,
    PlaybackAnswer, Verb,
};
use sha2::{Digest, Sha256};

const SECRET: [u8; 32] = [7u8; 32];
const NOW: i64 = 1_750_000_000;

#[test]
fn round_trips_a_valid_state() {
    let state = sign_state(&SECRET, "dev-1", NOW, "nonce-a");
    let (device_id, _) = verify_state(&SECRET, &state, NOW).expect("valid state accepted");
    assert_eq!(device_id, "dev-1");
}

#[test]
fn rejects_a_tampered_device_id() {
    let state = sign_state(&SECRET, "dev-1", NOW, "nonce-a");
    let forged = state.replace("dev-1", "dev-2");
    assert!(verify_state(&SECRET, &forged, NOW).is_none());
}

#[test]
fn rejects_a_forged_signature() {
    let payload = format!("dev-1:{}:nonce-a", NOW);
    let forged = format!("{}:{}", payload, "0".repeat(64));
    assert!(verify_state(&SECRET, &forged, NOW).is_none());
}

#[test]
fn rejects_a_state_signed_with_another_key() {
    let state = sign_state(&[9u8; 32], "dev-1", NOW, "nonce-a");
    assert!(verify_state(&SECRET, &state, NOW).is_none());
}

#[test]
fn rejects_an_expired_state() {
    let state = sign_state(&SECRET, "dev-1", NOW - 601, "nonce-a");
    assert!(verify_state(&SECRET, &state, NOW).is_none());
}

#[test]
fn accepts_a_state_at_the_edge_of_its_window() {
    let state = sign_state(&SECRET, "dev-1", NOW - 600, "nonce-a");
    let (d, p) = verify_state(&SECRET, &state, NOW).unwrap();
    assert_eq!(d, "dev-1");
    assert_eq!(p, format!("dev-1:{}:nonce-a", NOW - 600));
}

#[test]
fn verifier_is_unique_per_nonce_and_never_guessable_without_the_key() {
    let p1 = format!("dev-1:{}:nonce-a", NOW);
    let p2 = format!("dev-1:{}:nonce-b", NOW);
    let v1 = pkce_verifier(&SECRET, &p1);
    let v2 = pkce_verifier(&SECRET, &p2);
    assert_ne!(v1, v2, "a fresh nonce must yield a fresh verifier");
    assert_ne!(v1, pkce_verifier(&[9u8; 32], &p1), "another key must not reproduce the verifier");
    assert_eq!(v1, pkce_verifier(&SECRET, &p1), "same input is stable");
}

#[test]
fn verifier_meets_rfc7636_length_and_charset() {
    let v = pkce_verifier(&SECRET, "dev-1:123:nonce");
    assert!((43..=128).contains(&v.len()), "len was {}", v.len());
    assert!(v.chars().all(|c| c.is_ascii_alphanumeric() || matches!(c, '-' | '.' | '_' | '~')));
}

#[test]
fn challenge_is_s256_of_the_verifier() {
    let v = pkce_verifier(&SECRET, "dev-1:123:nonce");
    let expected = URL_SAFE_NO_PAD.encode(Sha256::digest(v.as_bytes()));
    assert_eq!(pkce_challenge(&v), expected);
    assert_ne!(pkce_challenge(&v), v, "the verifier must not be sent as-is");
}

#[test]
fn urlencode_escapes_bytes() {
    assert_eq!(urlencode("a b&c=d"), "a%20b%26c%3Dd");
    assert_eq!(urlencode("é"), "%C3%A9");
}

#[test]
fn authorize_url_carries_every_parameter() {
    let url = spotify_authorize_url("cid", "https://h/cb", "st", "ch");
    assert!(url.starts_with("https://accounts.spotify.com/authorize?client_id=cid&response_type=code&redirect_uri=https%3A%2F%2Fh%2Fcb&scope="));
    assert!(url.ends_with("&state=st&code_challenge_method=S256&code_challenge=ch"));
}

#[test]
fn error_reasons_are_sanitized() {
    assert_eq!(callback_error_reason("access_denied"), "access_denied");
    assert_eq!(callback_error_reason("<script>"), "script");
    assert_eq!(callback_error_reason("!!!"), "denied");
    assert_eq!(callback_error_reason(&"a".repeat(100)).len(), 64);
}

#[test]
fn callback_checks_its_query_in_order() {
    let q = |code: Option<&str>, state: Option<String>, error: Option<&str>| CallbackQuery {
        code: code.map(str::to_string),
        state,
        error: error.map(str::to_string),
    };
    assert_eq!(callback_start(&SECRET, &q(Some("c"), None, Some("access_denied")), NOW).unwrap_err(), "access_denied");
    assert_eq!(callback_start(&SECRET, &q(Some("c"), None, None), NOW).unwrap_err(), "missing_code");
    assert_eq!(callback_start(&SECRET, &q(Some("c"), Some("bad".to_string()), None), NOW).unwrap_err(), "invalid_state");
    let state = sign_state(&SECRET, "dev-3", NOW, "n");
    let (code, device, payload) = callback_start(&SECRET, &q(Some("c"), Some(state), None), NOW).unwrap();
    assert_eq!((code.as_str(), device.as_str()), ("c", "dev-3"));
    assert_eq!(payload, format!("dev-3:{}:n", NOW));

    assert!(matches!(callback_failure("", "denied"), CallbackReply::Error(m) if m == "denied"));
    assert!(matches!(callback_failure("https://f", "a b"), CallbackReply::Redirect(u) if u == "https://f/music?spotify_error=a%20b"));
    assert!(matches!(callback_success(""), CallbackReply::Connected));
    assert!(matches!(callback_success("https://f"), CallbackReply::Redirect(u) if u == "https://f/music?spotify=connected"));
}

fn s(t: &str) -> JsonValue {
    JsonValue::Str(t.to_string())
}

fn obj(fields: Vec<(&str, JsonValue)>) -> JsonValue {
    JsonValue::Object(fields.into_iter().map(|(k, v)| (k.to_string(), v)).collect())
}

#[test]
fn now_playing_reads_spotifys_answer() {
    let body = obj(vec![
        ("is_playing", JsonValue::Bool(true)),
        ("progress_ms", JsonValue::Number("1200".to_string())),
        (
            "item",
            obj(vec![
                ("name", s("Song")),
                ("duration_ms", JsonValue::Number("-5".to_string())),
                ("artists", JsonValue::Array(vec![obj(vec![("name", s("Band"))])])),
                ("album", obj(vec![("name", s("LP")), ("images", JsonValue::Array(vec![obj(vec![("url", s("https://img"))])]))])),
            ]),
        ),
    ]);
    let np = now_playing_from(&body);
    assert!(np.is_playing);
    assert_eq!(np.track_name.as_deref(), Some("Song"));
    assert_eq!(np.artist_name.as_deref(), Some("Band"));
    assert_eq!(np.album_name.as_deref(), Some("LP"));
    assert_eq!(np.album_art_url.as_deref(), Some("https://img"));
    assert_eq!(np.progress_ms, Some(1200));
    assert_eq!(np.duration_ms, Some(-5));
    let empty = now_playing_from(&JsonValue::Null);
    assert!(!empty.is_playing && empty.track_name.is_none() && empty.progress_ms.is_none());
}

#[test]
fn playback_statuses_are_classified() {
    assert!(matches!(playback_answer(204, "204 No Content"), PlaybackAnswer::NothingPlaying));
    assert!(matches!(playback_answer(200, "200 OK"), PlaybackAnswer::ReadBody));
    assert!(matches!(playback_answer(401, "401 Unauthorized"), PlaybackAnswer::Failed(m) if m == "Spotify returned 401 Unauthorized"));
    assert!(matches!(playback_request("pause"), Ok((Verb::Put, u)) if u == "https://api.spotify.com/v1/me/player/pause"));
    assert!(matches!(playback_request("next"), Ok((Verb::Post, _))));
    assert_eq!(playback_request("shuffle").unwrap_err(), "Unsupported action 'shuffle'. Use play, pause, next or previous.");
    assert!(playback_result(204, "204 No Content").is_ok());
    assert!(playback_result(404, "404 Not Found").is_err());
}

#[test]
fn tokens_refresh_a_minute_early() {
    let at = "2026-01-01T00:01:00Z";
    let expiry_ns: i128 = 1_767_225_660 * 1_000_000_000;
    assert!(!token_expired(Some(at), expiry_ns - 61_000_000_000));
    assert!(token_expired(Some(at), expiry_ns - 60_000_000_000));
    assert!(!token_expired(Some("not a date"), 0));
    assert!(!token_expired(None, 0));
}

fn contains_text(v: &JsonValue, needle: &str) -> bool {
    match v {
        JsonValue::Str(s) | JsonValue::Number(s) => s.contains(needle),
        JsonValue::Array(a) => a.iter().any(|x| contains_text(x, needle)),
        JsonValue::Object(f) => f.iter().any(|(k, x)| k.contains(needle) || contains_text(x, needle)),
        _ => false,
    }
}

#[test]
fn serialized_config_never_carries_oauth_tokens() {
    let cfg = music_config(
        "cfg-1".into(),
        "dev-1".into(),
        "spotify".into(),
        Some("BQAsecret-access".into()),
        Some("AQAsecret-refresh".into()),
        true,
        None,
        true,
        "2026-01-01".into(),
    );
    assert!(cfg.connected);
    let json = music_config_json(&cfg);
    assert!(!contains_text(&json, "secret-access"));
    assert!(!contains_text(&json, "secret-refresh"));
    assert!(!contains_text(&json, "access_token"));
    assert!(!contains_text(&json, "refresh_token"));
    assert_eq!(hookbot::json::get(&json, "connected"), Some(&JsonValue::Bool(true)));
    let empty = music_config("c".into(), "d".into(), "spotify".into(), Some(String::new()), None, false, None, true, "t".into());
    assert!(!empty.connected);
}
