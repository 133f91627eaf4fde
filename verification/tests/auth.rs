use hookbot::auth::{
    auth_status, build_session_cookie, callback_error_response, issue_api_token, check_api_key, check_local_api_token, check_user_api_key, find_live_token,
    ApiTokenRow, check_session_cookie, create_session_token,
    create_workos_session_token, extract_api_key_from_headers, extract_client_ip, login, logout,
    mobile_redirect_target, mobile_redirect_url, require_auth, urlencoding, validate_session_token,
    validate_workos_session_token, web_login_redirect, workos_exchange_body, workos_login,
    me_answer, workos_reply, workos_reply_status, MeAnswer, workos_user_from_response, AuthDecision, WorkosReply, CallbackError, LoginBody, LoginOutcome, LoginQuery,
    LoginRequest, RequestHeaders, UserId, SESSION_MAX_AGE_SECS,
};
use hookbot::config::{AppConfig, EnvVars};
use hookbot::json::{get, JsonValue};
use hookbot::ratelimit::LoginRateLimiter;

fn headers() -> RequestHeaders {
    RequestHeaders { authorization: None, x_api_key: None, cookie: None, x_forwarded_for: None, cf_connecting_ip: None }
}

fn with_header(name: &str, value: &[u8]) -> RequestHeaders {
    let mut h = headers();
    match name {
        "authorization" => h.authorization = Some(value.to_vec()),
        "x-api-key" => h.x_api_key = Some(value.to_vec()),
        "cookie" => h.cookie = Some(value.to_vec()),
        "x-forwarded-for" => h.x_forwarded_for = Some(value.to_vec()),
        "cf-connecting-ip" => h.cf_connecting_ip = Some(value.to_vec()),
        _ => panic!("unknown header {name}"),
    }
    h
}

fn env() -> EnvVars {
    EnvVars {
        database_url: None,
        firmware_dir: None,
        bind_addr: None,
        poll_interval: None,
        log_retention_hours: None,
        mdns_prefix: None,
        tls_cert_path: None,
        tls_key_path: None,
        anthropic_api_key: None,
        openai_api_key: None,
        calendar_url: None,
        allowed_origins: None,
        login_rate_limit_max: None,
        login_rate_limit_window_secs: None,
        workos_client_id: None,
        workos_api_key: None,
        workos_redirect_uri: None,
        cookie_domain: None,
        frontend_url: None,
        cloudflared_path: None,
        tunnel_auto_restart: None,
    }
}

fn config(hash: &str) -> AppConfig {
    AppConfig::from_vars(env(), "server-api-key-0123456789".to_string(), hash.to_string())
}

fn workos_config() -> AppConfig {
    let mut e = env();
    e.workos_client_id = Some("client_123".to_string());
    e.workos_api_key = Some("sk_test".to_string());
    e.frontend_url = Some("https://app.example".to_string());
    AppConfig::from_vars(e, "server-api-key-0123456789".to_string(), String::new())
}

#[test]
fn matches_a_non_ascii_key_byte_for_byte() {
    let key = "correct-horseø-battery-staple";
    let req = with_header("x-api-key", key.as_bytes());
    assert!(check_api_key(&req, key));
}

#[test]
fn rejects_a_wrong_key_of_the_same_shape() {
    let req = with_header("x-api-key", "correct-horseø-battery-staple".as_bytes());
    assert!(!check_api_key(&req, "correct-horseø-battery-staaple"));
}

#[test]
fn trims_surrounding_whitespace_on_bearer_and_header_forms() {
    let key = "plain-ascii-key";
    let bearer = with_header("authorization", format!("Bearer  {key}  ").as_bytes());
    assert!(check_api_key(&bearer, key));

    let header = with_header("x-api-key", format!("  {key}\t").as_bytes());
    assert!(check_api_key(&header, key));
}

#[test]
fn extract_recovers_a_non_ascii_key_for_lookup() {
    let key = "tökén-with-accénts";
    let req = with_header("x-api-key", key.as_bytes());
    assert_eq!(extract_api_key_from_headers(&req).as_deref(), Some(key));
}

#[test]
fn extract_replaces_invalid_utf8_instead_of_rejecting() {
    let req = with_header("x-api-key", &[b'k', 0xff, b'y']);
    assert_eq!(extract_api_key_from_headers(&req).as_deref(), Some("k\u{fffd}y"));
    assert_eq!(extract_api_key_from_headers(&headers()), None);
}

#[test]
fn session_token_validates_for_seven_days_only() {
    let secret = [5u8; 32];
    let now = 1_700_000_000u64;
    let token = create_session_token(&secret, now);
    assert!(token.starts_with("1700000000:"));
    assert_eq!(token.len(), "1700000000:".len() + 64);
    assert!(validate_session_token(&token, &secret, now));
    assert!(validate_session_token(&token, &secret, now + SESSION_MAX_AGE_SECS));
    assert!(!validate_session_token(&token, &secret, now + SESSION_MAX_AGE_SECS + 1));
    assert!(!validate_session_token(&token, &[6u8; 32], now));
    let forged = token.replacen("1700000000", "1700000001", 1);
    assert!(!validate_session_token(&forged, &secret, now));
}

#[test]
fn workos_token_names_its_user() {
    let secret = [5u8; 32];
    let token = create_workos_session_token("user_42", &secret, 1_000);
    assert_eq!(validate_workos_session_token(&token, &secret, 2_000).as_deref(), Some("user_42"));
    assert_eq!(validate_workos_session_token(&token, &[1u8; 32], 2_000), None);
    let other = token.replacen("user_42", "user_43", 1);
    assert_eq!(validate_workos_session_token(&other, &secret, 2_000), None);
}

#[test]
fn session_cookie_is_read_from_the_cookie_header() {
    let secret = [5u8; 32];
    let token = create_session_token(&secret, 100);
    let h = with_header("cookie", format!("theme=dark; hookbot_session={token}; other=1").as_bytes());
    assert!(check_session_cookie(&h, &secret, 200));
    assert!(!check_session_cookie(&headers(), &secret, 200));
}

#[test]
fn cookie_attributes_follow_tls_and_domain() {
    assert_eq!(
        build_session_cookie("tok", 604800, false, None),
        "hookbot_session=tok; HttpOnly; SameSite=Lax; Path=/; Max-Age=604800"
    );
    assert_eq!(
        build_session_cookie("tok", 10, true, None),
        "hookbot_session=tok; HttpOnly; SameSite=Lax; Path=/; Max-Age=10; Secure"
    );
    assert_eq!(
        build_session_cookie("tok", 10, false, Some("example.com")),
        "hookbot_session=tok; HttpOnly; SameSite=None; Path=/; Max-Age=10; Secure; Domain=example.com"
    );
}

#[test]
fn client_ip_prefers_proxy_headers() {
    let h = with_header("x-forwarded-for", b" 1.2.3.4 , 5.6.7.8");
    assert_eq!(extract_client_ip(&h, Some("9.9.9.9".to_string())), "1.2.3.4");
    let h = with_header("cf-connecting-ip", b" 8.8.8.8 ");
    assert_eq!(extract_client_ip(&h, None), "8.8.8.8");
    assert_eq!(extract_client_ip(&headers(), Some("9.9.9.9".to_string())), "9.9.9.9");
    assert_eq!(extract_client_ip(&headers(), None), "unknown");
}

#[test]
fn urlencoding_keeps_unreserved_characters() {
    assert_eq!(urlencoding("a-b_c.d~e"), "a-b_c.d~e");
    assert_eq!(urlencoding("a b/c?"), "a%20b%2Fc%3F");
    assert_eq!(urlencoding("ü"), "%C3%BC");
    assert_eq!(urlencoding("é"), "%C3%A9");
}

#[test]
fn login_counts_attempts_and_clears_on_success() {
    let hash = bcrypt::hash("right-password", 4).unwrap();
    let cfg = config(&hash);
    let mut limiter = LoginRateLimiter::new(2, 300);
    let wrong = || LoginBody::Parsed(LoginRequest { password: "wrong".to_string() });

    assert!(matches!(login(&cfg, &mut limiter, "1.1.1.1", wrong(), 1000), LoginOutcome::InvalidPassword));
    let ok = login(&cfg, &mut limiter, "1.1.1.1", LoginBody::Parsed(LoginRequest { password: "right-password".to_string() }), 1001);
    match ok {
        LoginOutcome::LoggedIn { set_cookie } => {
            assert!(set_cookie.starts_with("hookbot_session=1001:"));
            assert!(set_cookie.ends_with("; HttpOnly; SameSite=Lax; Path=/; Max-Age=604800"));
        }
        _ => panic!("expected a session"),
    }
    // The success cleared the count: two more attempts are allowed, the third is refused.
    assert!(matches!(login(&cfg, &mut limiter, "1.1.1.1", wrong(), 1002), LoginOutcome::InvalidPassword));
    assert!(matches!(login(&cfg, &mut limiter, "1.1.1.1", LoginBody::NotJson, 1003), LoginOutcome::InvalidJson));
    match login(&cfg, &mut limiter, "1.1.1.1", LoginBody::Unreadable, 1010) {
        LoginOutcome::RateLimited { retry_after_secs } => assert_eq!(retry_after_secs, 292),
        _ => panic!("expected the limit"),
    }
    // Another address is counted on its own.
    assert!(matches!(login(&cfg, &mut limiter, "2.2.2.2", LoginBody::Unreadable, 1010), LoginOutcome::InvalidBody));
}

#[test]
fn logout_expires_the_cookie() {
    let cfg = config("");
    assert_eq!(logout(&cfg), "hookbot_session=; HttpOnly; SameSite=Lax; Path=/; Max-Age=0");
}

#[test]
fn single_user_middleware_accepts_key_token_or_cookie() {
    let cfg = config("");
    let key = with_header("x-api-key", b"server-api-key-0123456789");
    assert!(matches!(require_auth(&cfg, &key, false, 0, None, false), AuthDecision::Pass(UserId(None))));
    assert!(matches!(require_auth(&cfg, &headers(), false, 0, None, true), AuthDecision::Pass(UserId(None))));
    assert!(matches!(require_auth(&cfg, &headers(), false, 0, None, false), AuthDecision::Reject));
    assert!(matches!(require_auth(&cfg, &headers(), true, 0, None, false), AuthDecision::Preflight));
    let token = create_session_token(&cfg.session_secret, 50);
    let cookie = with_header("cookie", format!("hookbot_session={token}").as_bytes());
    assert!(matches!(require_auth(&cfg, &cookie, false, 60, None, false), AuthDecision::Pass(UserId(None))));
    let status = auth_status(&cfg, &cookie, 60, None, false);
    assert!(status.authenticated);
    assert_eq!(status.workos_enabled, Some(false));
}

#[test]
fn multi_tenant_middleware_names_the_user() {
    let cfg = workos_config();
    match require_auth(&cfg, &headers(), false, 0, Some("user-7".to_string()), false) {
        AuthDecision::Pass(UserId(Some(u))) => assert_eq!(u, "user-7"),
        _ => panic!("expected the key's owner"),
    }
    // The server's own key does not authenticate in multi-tenant mode.
    let key = with_header("x-api-key", b"server-api-key-0123456789");
    assert!(matches!(require_auth(&cfg, &key, false, 0, None, false), AuthDecision::Reject));
    let token = create_workos_session_token("user-8", &cfg.session_secret, 10);
    let cookie = with_header("cookie", format!("hookbot_session={token}").as_bytes());
    match require_auth(&cfg, &cookie, false, 20, None, false) {
        AuthDecision::Pass(UserId(Some(u))) => assert_eq!(u, "user-8"),
        _ => panic!("expected the cookie's user"),
    }
    assert!(!auth_status(&cfg, &key, 20, None, true).authenticated);
}

#[test]
fn workos_login_builds_the_authkit_address() {
    assert_eq!(workos_login(&config(""), &LoginQuery { mobile_redirect: None }), None);
    let cfg = workos_config();
    assert_eq!(
        workos_login(&cfg, &LoginQuery { mobile_redirect: None }).unwrap(),
        "https://api.workos.com/user_management/authorize?client_id=client_123&redirect_uri=http%3A%2F%2Flocalhost%3A3000%2Fauth%2Fcallback&response_type=code&provider=authkit"
    );
    let url = workos_login(&cfg, &LoginQuery { mobile_redirect: Some("hookbot://cb".to_string()) }).unwrap();
    assert!(url.ends_with("&state=mobile%3Ahookbot%3A%2F%2Fcb"));
}

#[test]
fn workos_callback_reads_the_user_and_the_mobile_target() {
    let cfg = workos_config();
    let body = workos_exchange_body(&cfg, "code-1").ok().unwrap();
    assert_eq!(get(&body, "grant_type"), Some(&JsonValue::Str("authorization_code".to_string())));
    assert!(matches!(workos_exchange_body(&config(""), "c"), Err(CallbackError::NotConfigured)));

    let user = JsonValue::Object(vec![(
        "user".to_string(),
        JsonValue::Object(vec![
            ("id".to_string(), JsonValue::Str("wos_1".to_string())),
            ("email".to_string(), JsonValue::Str("a@b.c".to_string())),
            ("first_name".to_string(), JsonValue::Str("Ada".to_string())),
            ("last_name".to_string(), JsonValue::Str("".to_string())),
        ]),
    )]);
    let u = workos_user_from_response(&user).ok().unwrap();
    assert_eq!((u.workos_id.as_str(), u.email.as_str(), u.name.as_str()), ("wos_1", "a@b.c", "Ada"));
    assert!(matches!(workos_user_from_response(&JsonValue::Null), Err(CallbackError::IncompleteUser)));

    assert_eq!(mobile_redirect_target(Some("mobile:hookbot://done")).as_deref(), Some("hookbot://done"));
    assert_eq!(mobile_redirect_target(Some("web")), None);
    assert_eq!(mobile_redirect_target(None), None);
    assert_eq!(mobile_redirect_url("hookbot://done", "hb_1", "a@b.c"), "hookbot://done?api_key=hb_1&email=a%40b.c");

    let (cookie, location) = web_login_redirect(&cfg, "user-1", 77);
    assert!(cookie.starts_with("hookbot_session=user-1:77:"));
    assert_eq!(location, "https://app.example");
}

fn token_row(id: &str, user: &str, token: &str, revoked: bool) -> ApiTokenRow {
    ApiTokenRow { id: id.to_string(), user_id: user.to_string(), token: token.to_string(), name: "Paired phone".to_string(), revoked }
}

#[test]
fn check_local_api_token_accepts_a_dashboard_minted_token_and_rejects_a_revoked_one() {
    let tokens = vec![token_row("t1", "u1", "hb_live", false), token_row("t2", "u1", "hb_dead", true)];

    let live = with_header("x-api-key", b"hb_live");
    assert!(check_local_api_token(&live, &tokens));

    let dead = with_header("x-api-key", b"hb_dead");
    assert!(!check_local_api_token(&dead, &tokens));

    let unknown = with_header("x-api-key", b"hb_never_issued");
    assert!(!check_local_api_token(&unknown, &tokens));
}

#[test]
fn local_token_needs_a_presented_key_and_skips_revoked_duplicates() {
    let tokens = vec![token_row("t1", "u1", "hb_x", true), token_row("t2", "u2", "hb_x", false)];
    assert!(!check_local_api_token(&headers(), &tokens));
    assert_eq!(find_live_token(&tokens, "hb_x"), Some(1));
    let bearer = with_header("authorization", b"Bearer hb_x");
    assert!(check_local_api_token(&bearer, &tokens));
}

#[test]
fn user_api_key_prefers_the_default_key_then_live_tokens() {
    let users = vec![("u1".to_string(), "k1".to_string()), ("u2".to_string(), "k2".to_string())];
    let tokens = vec![token_row("t1", "u2", "hb_live", false), token_row("t2", "u1", "hb_dead", true)];
    assert_eq!(check_user_api_key(&with_header("x-api-key", b"k2"), &users, &tokens), Some("u2".to_string()));
    assert_eq!(check_user_api_key(&with_header("x-api-key", b"hb_live"), &users, &tokens), Some("u2".to_string()));
    assert_eq!(check_user_api_key(&with_header("x-api-key", b"hb_dead"), &users, &tokens), None);
    assert_eq!(check_user_api_key(&headers(), &users, &tokens), None);
}

#[test]
fn workos_reply_decides_between_failure_and_sign_in() {
    let user = || JsonValue::Object(vec![(
        "user".to_string(),
        JsonValue::Object(vec![
            ("id".to_string(), JsonValue::Str("user_01".to_string())),
            ("email".to_string(), JsonValue::Str("a@b.c".to_string())),
            ("first_name".to_string(), JsonValue::Str("Ada".to_string())),
            ("last_name".to_string(), JsonValue::Str("Lovelace".to_string())),
        ]),
    )]);
    let r = workos_reply(None);
    assert!(matches!(r, WorkosReply::Unreachable));
    assert_eq!(workos_reply_status(&r), Some(503));
    let r = workos_reply(Some((400, None)));
    assert!(matches!(r, WorkosReply::Rejected(400)));
    assert_eq!(workos_reply_status(&r), Some(401));
    let r = workos_reply(Some((401, Some(user()))));
    assert!(matches!(r, WorkosReply::Rejected(401)));
    let r = workos_reply(Some((200, None)));
    assert!(matches!(r, WorkosReply::InvalidResponse));
    assert_eq!(workos_reply_status(&r), Some(500));
    let r = workos_reply(Some((200, Some(JsonValue::Object(vec![])))));
    assert!(matches!(r, WorkosReply::IncompleteUser));
    assert_eq!(workos_reply_status(&r), Some(500));
    match workos_reply(Some((200, Some(user())))) {
        WorkosReply::SignIn(u) => {
            assert_eq!(u.workos_id, "user_01");
            assert_eq!(u.email, "a@b.c");
            assert_eq!(u.name, "Ada Lovelace");
            assert_eq!(workos_reply_status(&WorkosReply::SignIn(u)), None);
        }
        _ => panic!("expected a sign-in"),
    }
}

#[test]
fn me_answer_depends_on_the_mode_and_the_user() {
    assert!(matches!(me_answer(&config(""), &UserId(None)), MeAnswer::IssueLocalToken));
    assert!(matches!(me_answer(&config(""), &UserId(Some("u1".to_string()))), MeAnswer::IssueLocalToken));
    assert!(matches!(me_answer(&workos_config(), &UserId(None)), MeAnswer::NotAuthenticated));
    match me_answer(&workos_config(), &UserId(Some("u1".to_string()))) {
        MeAnswer::LookUpUser(u) => assert_eq!(u, "u1"),
        _ => panic!("expected a lookup"),
    }
}

#[test]
fn an_issued_token_is_accepted_until_revoked() {
    let mut tokens = vec![token_row("t0", "u0", "hb_other", false)];
    let t = issue_api_token(&mut tokens, "t1".to_string(), "local-admin".to_string(), "CLI login".to_string());
    assert!(t.starts_with("hb_"));
    assert_eq!(t.len(), 35);
    assert_eq!(tokens.len(), 2);
    assert_eq!(tokens[1].name, "CLI login");
    assert_eq!(tokens[1].user_id, "local-admin");
    let req = with_header("x-api-key", t.as_bytes());
    assert!(check_local_api_token(&req, &tokens));
    tokens[1].revoked = true;
    assert!(!check_local_api_token(&req, &tokens));
}

#[test]
fn callback_errors_answer_with_their_status() {
    assert_eq!(callback_error_response(&CallbackError::NotConfigured), (404, "WorkOS not configured"));
    assert_eq!(callback_error_response(&CallbackError::MissingApiKey), (500, "WorkOS API key not configured"));
    assert_eq!(callback_error_response(&CallbackError::IncompleteUser), (500, "WorkOS returned incomplete user data"));
}

#[test]
fn rate_limiter_over_a_run_of_calls() {
    let mut l = LoginRateLimiter::new(3, 60);
    assert_eq!(l.check_and_increment("1.2.3.4", 1000), Ok(()));
    assert_eq!(l.check_and_increment("1.2.3.4", 1010), Ok(()));
    assert_eq!(l.check_and_increment("1.2.3.4", 1020), Ok(()));
    assert_eq!(l.check_and_increment("1.2.3.4", 1030), Err(30));
    assert_eq!(l.check_and_increment("1.2.3.4", 1059), Err(1));
    assert_eq!(l.check_and_increment("5.6.7.8", 1059), Ok(()));
    assert_eq!(l.check_and_increment("1.2.3.4", 1060), Ok(()));
}
