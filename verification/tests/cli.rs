use hookbot::cli::config::{audit_counts, audit_env, can_mask, env_get, ignores_env, mask_secret, parse_env, summary, AuditStatus};
use hookbot::cli::devices::{device_status_error, hookbot_lines, list_status_error, short_name};
use hookbot::cli::login::{
    check_health, check_key_status, check_login, credentials_text, issued_api_key, logs_url, normalize_url,
    parse_credentials, ping_target,
};
use hookbot::cli::ota::format_bytes;
use hookbot::cli::security::{
    compute_score, cookie_findings, cors_findings, count_severity, exposed_path_finding, https_redirect_finding,
    is_down, leak_finding, method_finding, open_redirect_finding, plain_http_finding, preflight_findings,
    rate_limit_finding, security_header_findings, should_run, sort_by_severity, traversal_finding, Finding,
    HeaderField, Severity,
};
use hookbot::cli::tunnels::format_duration;
use hookbot::json::JsonValue;

fn finding(severity: Severity, title: &str) -> Finding {
    Finding {
        severity,
        category: "cat".to_string(),
        title: title.to_string(),
        detail: String::new(),
        remediation: String::new(),
    }
}

fn header(name: &str, value: &str) -> HeaderField {
    HeaderField { name: name.to_string(), value: Some(value.to_string()) }
}

fn obj(fields: Vec<(&str, JsonValue)>) -> JsonValue {
    JsonValue::Object(fields.into_iter().map(|(k, v)| (k.to_string(), v)).collect())
}

fn s(t: &str) -> JsonValue {
    JsonValue::Str(t.to_string())
}

#[test]
fn only_and_skip_lists_pick_checks() {
    assert!(should_run("headers", None, None));
    assert!(should_run("cors", Some("headers, CORS"), None));
    assert!(!should_run("tls", Some("headers,cors"), None));
    assert!(!should_run("paths", None, Some("injection,paths")));
    assert!(should_run("tls", None, Some("injection,paths")));
    // --only wins over --skip
    assert!(should_run("paths", Some("paths"), Some("paths")));
}

#[test]
fn score_takes_penalties_and_floors_at_zero() {
    assert_eq!(compute_score(&[]), 100);
    let f = vec![finding(Severity::Critical, "a"), finding(Severity::High, "b"), finding(Severity::Medium, "c"), finding(Severity::Low, "d"), finding(Severity::Info, "e")];
    assert_eq!(compute_score(&f), 100 - 25 - 15 - 8 - 3);
    let many: Vec<Finding> = (0..5).map(|i| finding(Severity::Critical, &i.to_string())).collect();
    assert_eq!(compute_score(&many), 0);
    assert_eq!(count_severity(&f, Severity::Medium), 1);
}

#[test]
fn findings_sort_most_severe_first_keeping_order() {
    let f = vec![
        finding(Severity::Low, "l1"),
        finding(Severity::Critical, "c1"),
        finding(Severity::Low, "l2"),
        finding(Severity::High, "h1"),
        finding(Severity::Critical, "c2"),
    ];
    let sorted = sort_by_severity(&f);
    let titles: Vec<&str> = sorted.iter().map(|x| x.title.as_str()).collect();
    assert_eq!(titles, vec!["c1", "c2", "h1", "l1", "l2"]);
}

#[test]
fn missing_security_headers_are_reported() {
    let hs = vec![
        header("strict-transport-security", "max-age=31536000"),
        header("content-security-policy", "default-src 'self'; script-src 'unsafe-inline'"),
        header("server", "nginx/1.25"),
        header("x-powered-by", "Express"),
    ];
    let f = security_header_findings("API", "https://h.example", 200, &hs);
    let titles: Vec<&str> = f.iter().map(|x| x.title.as_str()).collect();
    assert_eq!(
        titles,
        vec![
            "API: Missing x-frame-options",
            "API: Missing x-content-type-options",
            "API: Missing referrer-policy",
            "API: Missing permissions-policy",
            "API: Weak CSP policy",
            "API: Server version disclosed",
            "API: Technology stack disclosed",
        ]
    );
    assert_eq!(f[0].detail, "The x-frame-options header is not set on https://h.example");
    assert_eq!(f[0].severity, Severity::Medium);
    assert_eq!(f[6].detail, "X-Powered-By: Express");
    // a Cloudflare-fronted origin that is down reports nothing
    assert!(security_header_findings("API", "https://h.example", 522, &[]).is_empty());
    assert!(is_down(520) && is_down(523) && !is_down(500));
}

#[test]
fn cors_probe_findings() {
    let open = vec![header("access-control-allow-origin", "*")];
    let f = cors_findings(200, &open);
    assert_eq!(f.len(), 1);
    assert_eq!(f[0].severity, Severity::High);
    assert_eq!(f[0].detail, "CORS allows origin '*' \u{2014} cross-origin requests possible.");
    let creds = vec![
        header("access-control-allow-origin", "https://evil-attacker.com"),
        header("access-control-allow-credentials", "true"),
    ];
    let f = cors_findings(200, &creds);
    assert_eq!(f[0].severity, Severity::Critical);
    assert!(cors_findings(200, &[header("access-control-allow-origin", "https://app.example")]).is_empty());
    let pre = vec![header("access-control-allow-methods", "*"), header("access-control-allow-headers", "*")];
    let f = preflight_findings(204, &pre);
    assert_eq!(f.len(), 2);
    assert_eq!(f[0].detail, "Access-Control-Allow-Methods: *");
}

#[test]
fn cookie_flags_are_checked() {
    let f = cookie_findings("https://h.example", "session=abc; path=/");
    let titles: Vec<&str> = f.iter().map(|x| x.title.as_str()).collect();
    assert_eq!(
        titles,
        vec![
            "Cookie 'session' missing HttpOnly flag",
            "Cookie 'session' missing Secure flag",
            "Cookie 'session' missing SameSite attribute",
        ]
    );
    let f = cookie_findings("http://h.example", "session=abc; httponly; samesite=lax");
    assert!(f.is_empty());
}

#[test]
fn probes_of_methods_rates_and_tls() {
    assert_eq!(method_finding("TRACE", 200)[0].detail, "TRACE /api/health => HTTP 200");
    assert!(method_finding("TRACE", 405).is_empty());
    assert!(method_finding("TRACK", 501).is_empty());
    assert_eq!(rate_limit_finding(&[Some(401); 8]).len(), 1);
    assert!(rate_limit_finding(&[Some(401), Some(429), None]).is_empty());
    assert_eq!(plain_http_finding("http://h.example")[0].detail, "http://h.example uses plain HTTP.");
    assert!(plain_http_finding("https://h.example").is_empty());
    let f = https_redirect_finding("https://h.example", 200, None);
    assert_eq!(f[0].title, "No HTTP->HTTPS redirect for h.example");
    assert_eq!(f[0].detail, "HTTP returns 200 instead of 301/308 redirect.");
    assert!(https_redirect_finding("https://h.example", 301, Some("https://h.example/")).is_empty());
    let f = https_redirect_finding("https://h.example", 308, Some("http://other"));
    assert_eq!(f[0].detail, "Redirects to http://other (not HTTPS).");
}

#[test]
fn exposed_paths_and_leaks() {
    let f = exposed_path_finding("/.env", "Environment file", Severity::Critical, 200, Some(120));
    assert_eq!(f.len(), 1);
    assert!(exposed_path_finding("/.env", "Environment file", Severity::Critical, 404, None).is_empty());
    let f = leak_finding("/api/x", "thread 'main' panicked at src/main.rs");
    assert_eq!(f[0].detail, "/api/x response contains: panic, thread ', src/main.rs");
    assert!(leak_finding("/api/x", "not found").is_empty());
    assert!(traversal_finding("/api/../../etc/passwd", 200, "root:x:0:0:root").len() == 1);
    assert!(traversal_finding("/api/../../etc/passwd", 200, "nothing here").is_empty());
    assert!(open_redirect_finding("/login?next=https://evil.com", 302, Some("https://evil.com")).len() == 1);
    assert!(open_redirect_finding("/login?next=https://evil.com", 302, Some("/dashboard")).is_empty());
}

#[test]
fn env_files_parse_and_mask() {
    let e = parse_env("# comment\nAPI_KEY = \"abcdefghijklmnopq\"\n\nADMIN_PASSWORD='short'\nnoequals\nAPI_KEY=second\n");
    assert_eq!(env_get(&e, "API_KEY").as_deref(), Some("second"));
    assert_eq!(env_get(&e, "ADMIN_PASSWORD").as_deref(), Some("short"));
    assert_eq!(env_get(&e, "noequals"), None);
    assert_eq!(mask_secret("abcdefgh"), "abcd****");
    assert_eq!(mask_secret("abc"), "****");
    assert!(can_mask("abcdefgh"));
    assert!(can_mask("ab\u{e9}\u{e9}"));
    assert!(!can_mask("abc\u{e9}x"));
}

#[test]
fn env_audit_rows_and_counts() {
    let e = parse_env("API_KEY=short\nALLOWED_ORIGINS=*\nHOOKBOT_SERVER_URL=https://h.example\nLOGIN_RATE_LIMIT_MAX=50\nOPENAI_API_KEY=sk-1234567\n");
    let rows = audit_env(&e, false, false);
    assert_eq!(rows.len(), 15);
    assert_eq!(rows[0].key, "API_KEY");
    assert_eq!(rows[0].status, AuditStatus::Warn);
    assert_eq!(rows[0].note, "Too short (min 16 chars recommended)");
    assert_eq!(rows[1].status, AuditStatus::Unset);
    assert_eq!(rows[1].note, "Admin login password");
    assert_eq!(rows[3].note, "Wildcard CORS is insecure for production");
    assert_eq!(rows[4].status, AuditStatus::Passed);
    assert_eq!(rows[4].note, "https://h.example");
    assert_eq!(rows[9].status, AuditStatus::Present);
    assert_eq!(rows[9].note, "sk-1****");
    assert_eq!(rows[13].note, "Rate limit too lenient (50). Recommend <= 5.");
    assert_eq!(audit_counts(&rows), (0, 3));
    let missing = audit_env(&parse_env(""), false, false);
    assert_eq!(missing[0].status, AuditStatus::Missing);
    assert_eq!(missing[0].note, "API authentication key (required)");
    assert_eq!(audit_counts(&missing), (2, 0));
    assert!(ignores_env("target\n  .env \n"));
    assert!(!ignores_env(".env.local\n"));
    assert_eq!(summary(1, 0), "FAIL");
    assert_eq!(summary(0, 2), "WARN");
    assert_eq!(summary(0, 0), "PASS");
}

#[test]
fn urls_are_normalized() {
    assert_eq!(normalize_url("  hookbot.example.com/ "), "https://hookbot.example.com");
    assert_eq!(normalize_url("http://localhost:3000//"), "http://localhost:3000");
    assert_eq!(normalize_url("https://h.example"), "https://h.example");
}

#[test]
fn login_steps_report_each_failure() {
    let ok = obj(vec![("status", s("ok"))]);
    assert!(check_health("https://h", &Ok((200, "200 OK".to_string(), Some(ok)))).is_ok());
    assert_eq!(
        check_health("https://h", &Err("refused".to_string())).unwrap_err(),
        "Cannot reach https://h/api/health: refused"
    );
    assert_eq!(
        check_health("https://h", &Ok((404, "404 Not Found".to_string(), None))).unwrap_err(),
        "https://h/api/health returned HTTP 404 Not Found \u{2014} is this a Hookbot server?"
    );
    assert_eq!(
        check_health("https://h", &Ok((200, "200 OK".to_string(), None))).unwrap_err(),
        "https://h/api/health did not return JSON \u{2014} is this a Hookbot server?"
    );
    assert_eq!(
        check_health("https://h", &Ok((200, "200 OK".to_string(), Some(obj(vec![]))))).unwrap_err(),
        "https://h/api/health returned an unexpected payload \u{2014} is this a Hookbot server?"
    );
    assert!(check_key_status(&obj(vec![("authenticated", JsonValue::Bool(true))])).is_ok());
    assert_eq!(check_key_status(&obj(vec![])).unwrap_err(), "API key rejected by the server.");
    assert!(check_login(200, "200 OK", &obj(vec![])).is_ok());
    assert_eq!(check_login(401, "401 Unauthorized", &obj(vec![])).unwrap_err(), "Login failed (HTTP 401 Unauthorized)");
    let limited = obj(vec![("error", s("Too many attempts.")), ("retry_after_secs", JsonValue::Number("42".to_string()))]);
    assert_eq!(
        check_login(429, "429 Too Many Requests", &limited).unwrap_err(),
        "Too many attempts. Wait 42s and retry \u{2014} the limit is per client IP, and a wrong password counts. Use --password to avoid burning attempts on typos."
    );
    assert_eq!(issued_api_key(&obj(vec![("api_key", s("hb_1"))])).as_deref(), Some("hb_1"));
    assert_eq!(issued_api_key(&obj(vec![])), None);
}

#[test]
fn saved_credentials_read_back() {
    let t = credentials_text("https://h.example", Some("hb_key"));
    assert_eq!(t, "url=\"https://h.example\"\napi_key=\"hb_key\"\n");
    assert_eq!(parse_credentials(&t), (Some("https://h.example".to_string()), Some("hb_key".to_string())));
    let t = credentials_text("https://h.example", None);
    assert_eq!(parse_credentials(&t), (Some("https://h.example".to_string()), None));
}

#[test]
fn log_and_ping_addresses() {
    assert_eq!(logs_url("https://h", 20, None, None), "https://h/api/logs?limit=20");
    assert_eq!(
        logs_url("https://h", 5, Some("dev1"), Some("2026-01-01 10:00:00")),
        "https://h/api/logs?limit=5&device_id=dev1&after=2026-01-01 10:00:00"
    );
    assert_eq!(ping_target("https://h", None), ("server https://h".to_string(), "https://h/api/health".to_string()));
    assert_eq!(ping_target("https://h", Some("d1")), ("device d1".to_string(), "https://h/api/devices/d1".to_string()));
}

#[test]
fn sizes_print_like_the_float_formatting() {
    assert_eq!(format_bytes(512), "512 B");
    assert_eq!(format_bytes(1024), "1.0 KB");
    assert_eq!(format_bytes(1536), "1.5 KB");
    assert_eq!(format_bytes(3 * 1024 * 1024), "3.0 MB");
    for b in [1023i64, 1024, 1075, 1126, 1280, 1331, 5000, 1048575, 1048576, 1153434, 1310720, 987654321] {
        let expected = if b < 1024 {
            format!("{b} B")
        } else if b < 1024 * 1024 {
            format!("{:.1} KB", b as f64 / 1024.0)
        } else {
            format!("{:.1} MB", b as f64 / (1024.0 * 1024.0))
        };
        assert_eq!(format_bytes(b), expected, "size {b}");
    }
}

#[test]
fn durations_use_the_largest_units() {
    assert_eq!(format_duration(42), "42s");
    assert_eq!(format_duration(61), "1m 1s");
    assert_eq!(format_duration(3720), "1h 2m");
    assert_eq!(format_duration(90000), "1d 1h");
}

#[test]
fn device_table_names_and_errors() {
    assert_eq!(short_name("desk bot"), "desk bot");
    assert_eq!(short_name("a very long device name here"), "a very long dev...");
    assert_eq!(list_status_error(401).as_deref(), Some("Authentication required. Pass --key <API_KEY> or set HOOKBOT_API_KEY."));
    assert_eq!(list_status_error(500), None);
    assert_eq!(device_status_error(404, "d1").as_deref(), Some("Device 'd1' not found."));
    assert_eq!(device_status_error(401, "d1").as_deref(), Some("Authentication required."));
    assert_eq!(device_status_error(200, "d1"), None);
}

#[test]
fn discovery_keeps_hookbot_lines() {
    let out = "Browsing for _http._tcp\r\nAdd 3 en0 local. _http._tcp. HookBot-A1B2\r\nAdd 3 en0 local. _http._tcp. printer\nAdd 3 en0 local. _http._tcp. hookbot-c3d4\r";
    assert_eq!(
        hookbot_lines(out),
        vec!["Add 3 en0 local. _http._tcp. HookBot-A1B2".to_string(), "Add 3 en0 local. _http._tcp. hookbot-c3d4\r".to_string()]
    );
    let expected: Vec<String> = out.lines().filter(|l| l.to_lowercase().contains("hookbot")).map(|l| l.to_string()).collect();
    assert_eq!(hookbot_lines(out), expected);
    assert!(hookbot_lines("").is_empty());
}
