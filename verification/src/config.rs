//! Server configuration.
use vstd::prelude::*;
use vstd::utf8::encode_utf8;
use crate::digest::{bcrypt_hash, bcrypt_verify_spec, hmac_sha256, hmac_sha256_spec, is_lower_hex_char, uuid_simple};
use crate::text::{
    chars_of, comma_list, copy_range, parse_u32, parse_u32_spec, parse_u64, parse_u64_spec, split_comma_list, str_eq,
    string_of, trim, trim_chars,
};

verus! {

broadcast use vstd::string::group_string_axioms;

pub struct AppConfig {
    pub database_url: String,
    pub firmware_dir: String,
    pub bind_addr: String,
    pub poll_interval_secs: u64,
    pub log_retention_hours: u64,
    pub mdns_prefix: String,
    pub tls_cert_path: Option<String>,
    pub tls_key_path: Option<String>,
    pub anthropic_api_key: Option<String>,
    pub openai_api_key: Option<String>,
    pub calendar_url: Option<String>,
    pub api_key: String,
    pub admin_password_hash: String,
    pub session_secret: [u8; 32],
    pub allowed_origins: Vec<String>,
    pub login_rate_limit_max: u32,
    pub login_rate_limit_window_secs: u64,
    pub workos_client_id: Option<String>,
    pub workos_api_key: Option<String>,
    pub workos_redirect_uri: Option<String>,
    pub cookie_domain: Option<String>,
    pub frontend_url: Option<String>,
    pub cloudflared_path: String,
    pub tunnel_auto_restart: bool,
}

/// The environment the server is configured from: each variable's value, or `None`
/// when it is unset or not valid Unicode.
pub struct EnvVars {
    pub database_url: Option<String>,
    pub firmware_dir: Option<String>,
    pub bind_addr: Option<String>,
    pub poll_interval: Option<String>,
    pub log_retention_hours: Option<String>,
    pub mdns_prefix: Option<String>,
    pub tls_cert_path: Option<String>,
    pub tls_key_path: Option<String>,
    pub anthropic_api_key: Option<String>,
    pub openai_api_key: Option<String>,
    pub calendar_url: Option<String>,
    pub allowed_origins: Option<String>,
    pub login_rate_limit_max: Option<String>,
    pub login_rate_limit_window_secs: Option<String>,
    pub workos_client_id: Option<String>,
    pub workos_api_key: Option<String>,
    pub workos_redirect_uri: Option<String>,
    pub cookie_domain: Option<String>,
    pub frontend_url: Option<String>,
    pub cloudflared_path: Option<String>,
    pub tunnel_auto_restart: Option<String>,
}

pub open spec fn or_default(v: Option<String>, d: Seq<char>) -> Seq<char> {
    match v {
        Some(s) => s@,
        None => d,
    }
}

pub open spec fn u64_or(v: Option<String>, d: u64) -> u64 {
    match v {
        Some(s) => match parse_u64_spec(s@) {
            Some(n) => n,
            None => d,
        },
        None => d,
    }
}

pub open spec fn u32_or(v: Option<String>, d: u32) -> u32 {
    match v {
        Some(s) => match parse_u32_spec(s@) {
            Some(n) => n,
            None => d,
        },
        None => d,
    }
}

pub open spec fn opt_view(v: Option<String>) -> Option<Seq<char>> {
    match v {
        Some(s) => Some(s@),
        None => None,
    }
}

/// A set value, with the empty string counting as unset.
pub open spec fn non_empty(v: Option<String>) -> Option<Seq<char>> {
    match v {
        Some(s) => if s@.len() > 0 {
            Some(s@)
        } else {
            None
        },
        None => None,
    }
}

/// The session signing secret: HMAC-SHA-256 of `hookbot-session` under the API key.
pub open spec fn session_secret_spec(api_key: Seq<char>) -> Seq<u8> {
    hmac_sha256_spec(encode_utf8(api_key), encode_utf8("hookbot-session"@))
}

fn or_default_string(v: Option<String>, d: &str) -> (s: String)
    ensures
        s@ == or_default(v, d@),
{
    match v {
        Some(s) => s,
        None => d.to_string(),
    }
}

fn u64_or_default(v: &Option<String>, d: u64) -> (n: u64)
    ensures
        n == u64_or(*v, d),
{
    match v {
        Some(s) => {
            let cs = chars_of(s.as_str());
            match parse_u64(cs.as_slice()) {
                Some(n) => n,
                None => d,
            }
        },
        None => d,
    }
}

fn u32_or_default(v: &Option<String>, d: u32) -> (n: u32)
    ensures
        n == u32_or(*v, d),
{
    match v {
        Some(s) => {
            let cs = chars_of(s.as_str());
            match parse_u32(cs.as_slice()) {
                Some(n) => n,
                None => d,
            }
        },
        None => d,
    }
}

fn keep_non_empty(v: Option<String>) -> (r: Option<String>)
    ensures
        opt_view(r) == non_empty(v),
{
    match v {
        Some(s) => if s.as_str().is_empty() {
            None
        } else {
            Some(s)
        },
        None => None,
    }
}

/// Derives the session signing secret from the API key.
pub fn session_secret_for(api_key: &str) -> (secret: [u8; 32])
    ensures
        secret@ == session_secret_spec(api_key@),
{
    let t = hmac_sha256(api_key.as_bytes(), "hookbot-session".as_bytes());
    let secret: [u8; 32] = [
        t[0], t[1], t[2], t[3], t[4], t[5], t[6], t[7], t[8], t[9], t[10], t[11], t[12], t[13],
        t[14], t[15], t[16], t[17], t[18], t[19], t[20], t[21], t[22], t[23], t[24], t[25], t[26],
        t[27], t[28], t[29], t[30], t[31],
    ];
    assert(secret@ =~= t@);
    secret
}

impl AppConfig {
    /// The configuration for the given environment, API key and admin password hash:
    /// defaults fill unset variables, numbers that do not parse fall back to their
    /// defaults, and empty WorkOS and cookie settings count as unset.
    pub fn from_vars(env: EnvVars, api_key: String, admin_password_hash: String) -> (c: AppConfig)
        ensures
            c.database_url@ == or_default(env.database_url, "data/deskbot.db"@),
            c.firmware_dir@ == or_default(env.firmware_dir, "data/firmware"@),
            c.bind_addr@ == or_default(env.bind_addr, "0.0.0.0:3000"@),
            c.poll_interval_secs == u64_or(env.poll_interval, 10),
            c.log_retention_hours == u64_or(env.log_retention_hours, 24),
            c.mdns_prefix@ == or_default(env.mdns_prefix, "hookbot"@),
            opt_view(c.tls_cert_path) == opt_view(env.tls_cert_path),
            opt_view(c.tls_key_path) == opt_view(env.tls_key_path),
            opt_view(c.anthropic_api_key) == opt_view(env.anthropic_api_key),
            opt_view(c.openai_api_key) == opt_view(env.openai_api_key),
            opt_view(c.calendar_url) == opt_view(env.calendar_url),
            c.api_key@ == api_key@,
            c.admin_password_hash@ == admin_password_hash@,
            c.session_secret@ == session_secret_spec(api_key@),
            c.allowed_origins@.len() == comma_list(or_default(env.allowed_origins, ""@)).len(),
            forall|i: int|
                0 <= i < c.allowed_origins@.len() ==> #[trigger] c.allowed_origins@[i]@ == comma_list(
                    or_default(env.allowed_origins, ""@),
                )[i],
            c.login_rate_limit_max == u32_or(env.login_rate_limit_max, 5),
            c.login_rate_limit_window_secs == u64_or(env.login_rate_limit_window_secs, 300),
            opt_view(c.workos_client_id) == non_empty(env.workos_client_id),
            opt_view(c.workos_api_key) == non_empty(env.workos_api_key),
            opt_view(c.workos_redirect_uri) == non_empty(env.workos_redirect_uri),
            opt_view(c.cookie_domain) == non_empty(env.cookie_domain),
            opt_view(c.frontend_url) == non_empty(env.frontend_url),
            c.cloudflared_path@ == or_default(env.cloudflared_path, "cloudflared"@),
            c.tunnel_auto_restart == match env.tunnel_auto_restart {
                Some(v) => v@ != "false"@ && v@ != "0"@,
                None => true,
            },
    {
        let poll_interval_secs = u64_or_default(&env.poll_interval, 10);
        let log_retention_hours = u64_or_default(&env.log_retention_hours, 24);
        let login_rate_limit_max = u32_or_default(&env.login_rate_limit_max, 5);
        let login_rate_limit_window_secs = u64_or_default(&env.login_rate_limit_window_secs, 300);
        let tunnel_auto_restart = match &env.tunnel_auto_restart {
            Some(v) => !str_eq(v.as_str(), "false") && !str_eq(v.as_str(), "0"),
            None => true,
        };
        let session_secret = session_secret_for(api_key.as_str());
        let origins_text = or_default_string(env.allowed_origins, "");
        let allowed_origins = split_comma_list(origins_text.as_str());
        AppConfig {
            database_url: or_default_string(env.database_url, "data/deskbot.db"),
            firmware_dir: or_default_string(env.firmware_dir, "data/firmware"),
            bind_addr: or_default_string(env.bind_addr, "0.0.0.0:3000"),
            poll_interval_secs,
            log_retention_hours,
            mdns_prefix: or_default_string(env.mdns_prefix, "hookbot"),
            tls_cert_path: env.tls_cert_path,
            tls_key_path: env.tls_key_path,
            anthropic_api_key: env.anthropic_api_key,
            openai_api_key: env.openai_api_key,
            calendar_url: env.calendar_url,
            api_key,
            admin_password_hash,
            session_secret,
            allowed_origins,
            login_rate_limit_max,
            login_rate_limit_window_secs,
            workos_client_id: keep_non_empty(env.workos_client_id),
            workos_api_key: keep_non_empty(env.workos_api_key),
            workos_redirect_uri: keep_non_empty(env.workos_redirect_uri),
            cookie_domain: keep_non_empty(env.cookie_domain),
            frontend_url: keep_non_empty(env.frontend_url),
            cloudflared_path: or_default_string(env.cloudflared_path, "cloudflared"),
            tunnel_auto_restart,
        }
    }
}


/// Where the server's API key comes from: the `API_KEY` variable when it is set and not
/// empty, else the key file's text, trimmed, when that is not empty; `None` when a fresh
/// key has to be made.
pub open spec fn api_key_choice(env_key: Option<Seq<char>>, file_text: Option<Seq<char>>) -> Option<Seq<char>> {
    if env_key is Some && env_key->0.len() > 0 {
        env_key
    } else if file_text is Some && trim(file_text->0).len() > 0 {
        Some(trim(file_text->0))
    } else {
        None
    }
}

/// The admin password's hash: the `ADMIN_PASSWORD_HASH` variable when it is set and not
/// empty; else the hash of the `ADMIN_PASSWORD` variable when that is set and not empty;
/// else the hash of a fresh password of eight lowercase hexadecimal digits, which is handed
/// back beside its hash so that it can be shown once.
pub enum AdminPassword {
    Configured(String),
    Hashed(String),
    Generated { hash: String, password: String },
}

impl AppConfig {
    /// The API key from the environment or the key file, as `api_key_choice` says.
    pub fn resolve_api_key(env_key: Option<String>, file_text: Option<String>) -> (key: Option<String>)
        ensures
            opt_view(key) == api_key_choice(opt_view(env_key), opt_view(file_text)),
    {
        if let Some(k) = &env_key {
            if chars_of(k.as_str()).len() > 0 {
                return env_key;
            }
        }
        match file_text {
            Some(t) => {
                let trimmed = trim_chars(chars_of(t.as_str()).as_slice());
                if trimmed.len() > 0 {
                    Some(string_of(trimmed.as_slice()))
                } else {
                    None
                }
            },
            None => None,
        }
    }

    /// The admin password's hash, as `AdminPassword` describes; `None` when hashing fails.
    pub fn resolve_admin_password(hash_env: Option<String>, plain_env: Option<String>) -> (r: Option<AdminPassword>)
        ensures
            (hash_env is Some && hash_env->0@.len() > 0) ==> r == Some(AdminPassword::Configured(hash_env->0)),
            !(hash_env is Some && hash_env->0@.len() > 0) && (plain_env is Some && plain_env->0@.len() > 0)
                ==> match r {
                Some(AdminPassword::Hashed(h)) => bcrypt_verify_spec(plain_env->0@, h@),
                Some(_) => false,
                None => true,
            },
            !(hash_env is Some && hash_env->0@.len() > 0) && !(plain_env is Some && plain_env->0@.len() > 0)
                ==> match r {
                Some(AdminPassword::Generated { hash, password }) => {
                    &&& password@.len() == 8
                    &&& forall|i: int| 0 <= i < 8 ==> is_lower_hex_char(#[trigger] password@[i])
                    &&& bcrypt_verify_spec(password@, hash@)
                },
                Some(_) => false,
                None => true,
            },
    {
        if let Some(h) = &hash_env {
            if chars_of(h.as_str()).len() > 0 {
                return Some(AdminPassword::Configured(hash_env.unwrap()));
            }
        }
        if let Some(p) = &plain_env {
            if chars_of(p.as_str()).len() > 0 {
                return match bcrypt_hash(p.as_str()) {
                    Some(h) => Some(AdminPassword::Hashed(h)),
                    None => None,
                };
            }
        }
        let hex = uuid_simple();
        let head = copy_range(chars_of(hex.as_str()).as_slice(), 0, 8);
        let password = string_of(head.as_slice());
        match bcrypt_hash(password.as_str()) {
            Some(hash) => Some(AdminPassword::Generated { hash, password }),
            None => None,
        }
    }
}

} // verus!
