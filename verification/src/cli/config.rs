//! Auditing the server's environment file.
use vstd::prelude::*;
use vstd::utf8::encode_utf8;
use crate::text::{
    chars_of, concat_all, concat_parts, decimal, first_pos, lemma_encode_utf8_take,
    lemma_first_pos_bounds, lines_of, parse_u32, parse_u32_spec, push_decimal,
    push_str, split_lines, starts_with, str_eq, string_of, strip_char, trim, trim_char,
    trim_chars, find_first, copy_range, utf8_width,
};

verus! {

broadcast use vstd::string::group_string_axioms;

/// The `KEY=value` setting of one env-file line: blank lines and `#` comments set nothing,
/// nor does a line without `=`; the key is trimmed, the value trimmed and stripped of
/// surrounding double quotes, then of surrounding single quotes.
pub open spec fn env_line(line: Seq<char>) -> Option<(Seq<char>, Seq<char>)> {
    let t = trim(line);
    if t.len() == 0 || t[0] == '#' {
        None
    } else {
        let p = first_pos(t, '=');
        if p < 0 {
            None
        } else {
            Some((trim(t.take(p)), trim_char(trim_char(trim(t.skip(p + 1)), '"'), '\'')))
        }
    }
}

/// The settings of a list of lines, in order.
pub open spec fn env_entries_of(lines: Seq<Seq<char>>) -> Seq<(Seq<char>, Seq<char>)>
    decreases lines.len(),
{
    if lines.len() == 0 {
        Seq::empty()
    } else {
        env_entries_of(lines.drop_last()) + match env_line(lines.last()) {
            Some(e) => seq![e],
            None => Seq::empty(),
        }
    }
}

/// The settings of an env file, in order.
pub open spec fn env_entries(content: Seq<char>) -> Seq<(Seq<char>, Seq<char>)> {
    env_entries_of(split_lines(content))
}

/// The value of `key`: its last setting wins.
pub open spec fn env_lookup(entries: Seq<(Seq<char>, Seq<char>)>, key: Seq<char>) -> Option<Seq<char>>
    decreases entries.len(),
{
    if entries.len() == 0 {
        None
    } else if entries.last().0 == key {
        Some(entries.last().1)
    } else {
        env_lookup(entries.drop_last(), key)
    }
}

pub open spec fn pairs_view(v: Seq<(String, String)>) -> Seq<(Seq<char>, Seq<char>)> {
    Seq::new(v.len(), |i: int| (v[i].0@, v[i].1@))
}

/// The settings of an env file's text, in order.
pub fn parse_env(content: &str) -> (entries: Vec<(String, String)>)
    ensures
        pairs_view(entries@) == env_entries(content@),
{
    let lines = lines_of(content);
    let ghost ls = split_lines(content@);
    let mut out: Vec<(String, String)> = Vec::new();
    let mut i: usize = 0;
    while i < lines.len()
        invariant
            i <= lines@.len(),
            ls == split_lines(content@),
            lines@.len() == ls.len(),
            forall|j: int| 0 <= j < lines@.len() ==> (#[trigger] lines@[j])@ == ls[j],
            pairs_view(out@) == env_entries_of(ls.take(i as int)),
        decreases lines@.len() - i,
    {
        assert(ls.take(i + 1).drop_last() =~= ls.take(i as int));
        assert(ls.take(i + 1).last() == lines@[i as int]@);
        let ghost before = out@;
        let t = trim_chars(lines[i].as_slice());
        if t.len() > 0 && t[0] != '#' {
            let p = find_first(t.as_slice(), '=');
            proof {
                lemma_first_pos_bounds(t@, '=');
            }
            if let Some(k) = p {
                assert(k < t@.len());
                let key = trim_chars(copy_range(t.as_slice(), 0, k).as_slice());
                let raw = trim_chars(copy_range(t.as_slice(), k + 1, t.len()).as_slice());
                let unq = strip_char(raw.as_slice(), '"');
                let value = strip_char(unq.as_slice(), '\'');
                assert(t@.take(k as int) =~= t@.subrange(0, k as int));
                assert(t@.skip(k + 1) =~= t@.subrange(k + 1, t@.len() as int));
                out.push((string_of(key.as_slice()), string_of(value.as_slice())));
                assert(pairs_view(out@) =~= pairs_view(before).push((key@, value@)));
            }
        }
        assert(pairs_view(out@) =~= env_entries_of(ls.take(i + 1)));
        i = i + 1;
    }
    assert(ls.take(lines@.len() as int) =~= ls);
    out
}

/// The value an env file gives `key`.
pub fn env_get(entries: &[(String, String)], key: &str) -> (v: Option<String>)
    ensures
        match v {
            Some(s) => env_lookup(pairs_view(entries@), key@) == Some(s@),
            None => env_lookup(pairs_view(entries@), key@) is None,
        },
{
    let mut i: usize = entries.len();
    assert(entries@.take(entries@.len() as int) =~= entries@);
    while i > 0
        invariant
            i <= entries@.len(),
            env_lookup(pairs_view(entries@), key@) == env_lookup(pairs_view(entries@.take(i as int)), key@),
        decreases i,
    {
        let ghost pv = pairs_view(entries@.take(i as int));
        assert(pv.drop_last() =~= pairs_view(entries@.take(i - 1)));
        if str_eq(entries[i - 1].0.as_str(), key) {
            return Some(entries[i - 1].1.clone());
        }
        i = i - 1;
    }
    assert(pairs_view(entries@.take(0)) =~= Seq::<(Seq<char>, Seq<char>)>::empty());
    None
}

// ---------------------------------------------------------------------------
// Masking secrets

/// Whether the first `n` bytes of `v`'s UTF-8 form end on a character boundary.
pub open spec fn has_byte_prefix(v: Seq<char>, n: int) -> bool {
    exists|k: int| 0 <= k <= v.len() && #[trigger] encode_utf8(v.take(k)).len() == n
}

/// How many characters make up the first `n` bytes of `v`.
pub open spec fn byte_prefix_len(v: Seq<char>, n: int) -> int {
    choose|k: int| 0 <= k <= v.len() && #[trigger] encode_utf8(v.take(k)).len() == n
}

/// How a secret is shown: its first four bytes and `****` when it is longer than four bytes,
/// else only `****`.
pub open spec fn mask_spec(v: Seq<char>) -> Seq<char> {
    if encode_utf8(v).len() > 4 {
        v.take(byte_prefix_len(v, 4)) + "****"@
    } else {
        "****"@
    }
}

/// The secrets that can be shown that way: no character straddles the fourth byte.
pub open spec fn maskable(v: Seq<char>) -> bool {
    encode_utf8(v).len() <= 4 || has_byte_prefix(v, 4)
}

proof fn lemma_take_bytes_increasing(s: Seq<char>, a: int, b: int)
    requires
        0 <= a < b <= s.len(),
    ensures
        encode_utf8(s.take(a)).len() < encode_utf8(s.take(b)).len(),
    decreases b - a,
{
    lemma_encode_utf8_take(s, b - 1);
    if a < b - 1 {
        lemma_take_bytes_increasing(s, a, b - 1);
    }
}

/// Shows a secret by its first four bytes only.
pub fn mask_secret(v: &str) -> (r: String)
    requires
        maskable(v@),
    ensures
        r@ == mask_spec(v@),
{
    let total = v.as_bytes().len();
    if total <= 4 {
        return "****".to_string();
    }
    let cs = chars_of(v);
    let mut k: usize = 0;
    let mut acc: usize = 0;
    assert(cs@.take(0) =~= Seq::<char>::empty());
    assert(encode_utf8(Seq::<char>::empty()) =~= Seq::<u8>::empty());
    while acc < 4 && k < cs.len()
        invariant
            cs@ == v@,
            k <= cs@.len(),
            acc == encode_utf8(cs@.take(k as int)).len(),
            forall|j: int| 0 <= j < k ==> encode_utf8(#[trigger] cs@.take(j)).len() < 4,
        decreases cs@.len() - k,
    {
        proof {
            lemma_encode_utf8_take(cs@, k as int);
        }
        acc = acc + utf8_width(cs[k]);
        k = k + 1;
    }
    proof {
        assert(cs@.take(cs@.len() as int) =~= cs@);
        let c = byte_prefix_len(v@, 4);
        assert(has_byte_prefix(v@, 4));
        assert(0 <= c <= v@.len() && encode_utf8(v@.take(c)).len() == 4);
        if c < k {
            assert(encode_utf8(cs@.take(c)).len() < 4);
        } else if c > k {
            lemma_take_bytes_increasing(cs@, k as int, c);
            if acc < 4 {
                assert(k == cs@.len());
            }
        }
        assert(c == k);
    }
    let mut out = copy_range(cs.as_slice(), 0, k);
    push_str(&mut out, "****");
    string_of(out.as_slice())
}


/// Whether a secret can be shown masked: its fourth byte ends a character.
pub fn can_mask(v: &str) -> (r: bool)
    ensures
        r == maskable(v@),
{
    let total = v.as_bytes().len();
    if total <= 4 {
        return true;
    }
    let cs = chars_of(v);
    let mut k: usize = 0;
    let mut acc: usize = 0;
    assert(cs@.take(0) =~= Seq::<char>::empty());
    assert(encode_utf8(Seq::<char>::empty()) =~= Seq::<u8>::empty());
    while acc < 4 && k < cs.len()
        invariant
            cs@ == v@,
            k <= cs@.len(),
            acc == encode_utf8(cs@.take(k as int)).len(),
            forall|j: int| 0 <= j < k ==> encode_utf8(#[trigger] cs@.take(j)).len() < 4,
        decreases cs@.len() - k,
    {
        proof {
            lemma_encode_utf8_take(cs@, k as int);
        }
        acc = acc + utf8_width(cs[k]);
        k = k + 1;
    }
    proof {
        assert(cs@.take(cs@.len() as int) =~= cs@);
        if acc != 4 && has_byte_prefix(v@, 4) {
            let c = choose|c: int| 0 <= c <= v@.len() && #[trigger] encode_utf8(v@.take(c)).len() == 4;
            if c < k {
                assert(encode_utf8(cs@.take(c)).len() < 4);
            } else if c > k {
                lemma_take_bytes_increasing(cs@, k as int, c);
            }
        }
        if acc == 4 {
            assert(encode_utf8(v@.take(k as int)).len() == 4);
        }
    }
    acc == 4
}

// ---------------------------------------------------------------------------
// The audit

/// The variables the audit reports on: name, whether it is required, whether it is secret,
/// and what it is for.
pub open spec fn audited_vars() -> Seq<(Seq<char>, bool, bool, Seq<char>)> {
    seq![
        ("API_KEY"@, true, true, "API authentication key"@),
        ("ADMIN_PASSWORD"@, false, true, "Admin login password"@),
        ("ADMIN_PASSWORD_HASH"@, false, true, "Bcrypt hash of admin password (preferred over plaintext)"@),
        ("ALLOWED_ORIGINS"@, true, false, "CORS allowed origins (comma-separated)"@),
        ("HOOKBOT_SERVER_URL"@, false, false, "Public server URL"@),
        ("TLS_CERT_PATH"@, false, false, "TLS certificate path"@),
        ("TLS_KEY_PATH"@, false, false, "TLS private key path"@),
        ("WORKOS_API_KEY"@, false, true, "WorkOS API key for multi-tenant auth"@),
        ("WORKOS_CLIENT_ID"@, false, false, "WorkOS client ID"@),
        ("OPENAI_API_KEY"@, false, true, "OpenAI API key"@),
        ("ANTHROPIC_API_KEY"@, false, true, "Anthropic API key"@),
        ("DOCKERHUB_TOKEN"@, false, true, "Docker Hub access token"@),
        ("CLOUDFLARE_API_TOKEN"@, false, true, "Cloudflare API token"@),
        ("LOGIN_RATE_LIMIT_MAX"@, false, false, "Max login attempts per window"@),
        ("DATABASE_URL"@, false, false, "SQLite database path"@),
    ]
}

/// Whether a variable has a value check.
pub open spec fn has_check(key: Seq<char>) -> bool {
    key == "API_KEY"@ || key == "ADMIN_PASSWORD"@ || key == "ALLOWED_ORIGINS"@ || key == "HOOKBOT_SERVER_URL"@
        || key == "TLS_CERT_PATH"@ || key == "TLS_KEY_PATH"@ || key == "LOGIN_RATE_LIMIT_MAX"@
}

/// The warning a variable's value gets, if any; `file_found` says whether a path variable's
/// file exists.
pub open spec fn check_value(key: Seq<char>, v: Seq<char>, file_found: bool) -> Option<Seq<char>> {
    if key == "API_KEY"@ {
        if encode_utf8(v).len() < 16 {
            Some("Too short (min 16 chars recommended)"@)
        } else {
            None
        }
    } else if key == "ADMIN_PASSWORD"@ {
        if encode_utf8(v).len() < 12 {
            Some("Weak password (min 12 chars recommended)"@)
        } else {
            None
        }
    } else if key == "ALLOWED_ORIGINS"@ {
        if v == "*"@ {
            Some("Wildcard CORS is insecure for production"@)
        } else if v.len() == 0 {
            Some("Empty \u{2014} CORS will allow any origin"@)
        } else {
            None
        }
    } else if key == "HOOKBOT_SERVER_URL"@ {
        if v.len() >= 7 && v.take(7) == "http://"@ {
            Some("Using HTTP \u{2014} should be HTTPS in production"@)
        } else {
            None
        }
    } else if key == "TLS_CERT_PATH"@ || key == "TLS_KEY_PATH"@ {
        if !file_found {
            Some("File not found: "@ + v)
        } else {
            None
        }
    } else if key == "LOGIN_RATE_LIMIT_MAX"@ {
        match parse_u32_spec(v) {
            Some(n) => if n > 10 {
                Some("Rate limit too lenient ("@ + decimal(n as nat) + "). Recommend <= 5."@)
            } else {
                None
            },
            None => Some("Invalid number"@),
        }
    } else {
        None
    }
}

/// How a variable fared.
#[derive(PartialEq, Eq, Structural, Clone, Copy, Debug)]
pub enum AuditStatus {
    /// A required variable is not set.
    Missing,
    /// An optional variable is not set.
    Unset,
    /// Its value draws a warning.
    Warn,
    /// Its value passed its check.
    Passed,
    /// It is set and has no check.
    Present,
}

/// One line of the audit.
pub struct AuditRow {
    pub key: String,
    pub status: AuditStatus,
    pub note: String,
}

/// The audit's line for one variable and its value (if set).
pub open spec fn audit_row_spec(var: (Seq<char>, bool, bool, Seq<char>), value: Option<Seq<char>>, file_found: bool) -> (Seq<char>, AuditStatus, Seq<char>) {
    let (key, required, secret, desc) = var;
    match value {
        None => if required {
            (key, AuditStatus::Missing, desc + " (required)"@)
        } else {
            (key, AuditStatus::Unset, desc)
        },
        Some(v) => {
            let shown = if secret {
                mask_spec(v)
            } else {
                v
            };
            if has_check(key) {
                match check_value(key, v, file_found) {
                    Some(w) => (key, AuditStatus::Warn, w),
                    None => (key, AuditStatus::Passed, shown),
                }
            } else {
                (key, AuditStatus::Present, shown)
            }
        },
    }
}

/// The value checks of the audit: an API key under 16 bytes and an admin password under 12
/// are weak; `*` or an empty origin list opens CORS; a plain `http://` server address is
/// flagged; a login limit above 10 attempts is too lenient and a non-number is invalid; the
/// TLS paths warn when their file is missing. Anything else passes.
pub proof fn lemma_value_checks(v: Seq<char>, file_found: bool)
    ensures
        check_value("API_KEY"@, v, file_found) == if encode_utf8(v).len() < 16 {
            Some("Too short (min 16 chars recommended)"@)
        } else {
            None
        },
        check_value("ADMIN_PASSWORD"@, v, file_found) == if encode_utf8(v).len() < 12 {
            Some("Weak password (min 12 chars recommended)"@)
        } else {
            None
        },
        check_value("ALLOWED_ORIGINS"@, v, file_found) == if v == "*"@ {
            Some("Wildcard CORS is insecure for production"@)
        } else if v.len() == 0 {
            Some("Empty \u{2014} CORS will allow any origin"@)
        } else {
            None
        },
        check_value("HOOKBOT_SERVER_URL"@, v, file_found) is Some <==> (v.len() >= 7 && v.take(7) == "http://"@),
        check_value("LOGIN_RATE_LIMIT_MAX"@, v, file_found) == match parse_u32_spec(v) {
            Some(n) => if n > 10 {
                Some("Rate limit too lenient ("@ + decimal(n as nat) + "). Recommend <= 5."@)
            } else {
                None
            },
            None => Some("Invalid number"@),
        },
        check_value("TLS_CERT_PATH"@, v, file_found) == if file_found {
            None
        } else {
            Some("File not found: "@ + v)
        },
        check_value("TLS_KEY_PATH"@, v, file_found) == if file_found {
            None
        } else {
            Some("File not found: "@ + v)
        },
{
    reveal_strlit("API_KEY");
    reveal_strlit("ADMIN_PASSWORD");
    reveal_strlit("ALLOWED_ORIGINS");
    reveal_strlit("HOOKBOT_SERVER_URL");
    reveal_strlit("TLS_CERT_PATH");
    reveal_strlit("TLS_KEY_PATH");
    reveal_strlit("LOGIN_RATE_LIMIT_MAX");
    assert("API_KEY"@ != "ADMIN_PASSWORD"@) by {
        assert("API_KEY"@.len() != "ADMIN_PASSWORD"@.len());
    }
    assert("API_KEY"@ != "ALLOWED_ORIGINS"@) by {
        assert("API_KEY"@.len() != "ALLOWED_ORIGINS"@.len());
    }
    assert("API_KEY"@ != "HOOKBOT_SERVER_URL"@) by {
        assert("API_KEY"@.len() != "HOOKBOT_SERVER_URL"@.len());
    }
    assert("API_KEY"@ != "TLS_CERT_PATH"@) by {
        assert("API_KEY"@.len() != "TLS_CERT_PATH"@.len());
    }
    assert("API_KEY"@ != "TLS_KEY_PATH"@) by {
        assert("API_KEY"@.len() != "TLS_KEY_PATH"@.len());
    }
    assert("API_KEY"@ != "LOGIN_RATE_LIMIT_MAX"@) by {
        assert("API_KEY"@.len() != "LOGIN_RATE_LIMIT_MAX"@.len());
    }
    assert("ADMIN_PASSWORD"@ != "ALLOWED_ORIGINS"@) by {
        assert("ADMIN_PASSWORD"@.len() != "ALLOWED_ORIGINS"@.len());
    }
    assert("ADMIN_PASSWORD"@ != "HOOKBOT_SERVER_URL"@) by {
        assert("ADMIN_PASSWORD"@.len() != "HOOKBOT_SERVER_URL"@.len());
    }
    assert("ADMIN_PASSWORD"@ != "TLS_CERT_PATH"@) by {
        assert("ADMIN_PASSWORD"@.len() != "TLS_CERT_PATH"@.len());
    }
    assert("ADMIN_PASSWORD"@ != "TLS_KEY_PATH"@) by {
        assert("ADMIN_PASSWORD"@.len() != "TLS_KEY_PATH"@.len());
    }
    assert("ADMIN_PASSWORD"@ != "LOGIN_RATE_LIMIT_MAX"@) by {
        assert("ADMIN_PASSWORD"@.len() != "LOGIN_RATE_LIMIT_MAX"@.len());
    }
    assert("ALLOWED_ORIGINS"@ != "HOOKBOT_SERVER_URL"@) by {
        assert("ALLOWED_ORIGINS"@.len() != "HOOKBOT_SERVER_URL"@.len());
    }
    assert("ALLOWED_ORIGINS"@ != "TLS_CERT_PATH"@) by {
        assert("ALLOWED_ORIGINS"@.len() != "TLS_CERT_PATH"@.len());
    }
    assert("ALLOWED_ORIGINS"@ != "TLS_KEY_PATH"@) by {
        assert("ALLOWED_ORIGINS"@.len() != "TLS_KEY_PATH"@.len());
    }
    assert("ALLOWED_ORIGINS"@ != "LOGIN_RATE_LIMIT_MAX"@) by {
        assert("ALLOWED_ORIGINS"@.len() != "LOGIN_RATE_LIMIT_MAX"@.len());
    }
    assert("HOOKBOT_SERVER_URL"@ != "TLS_CERT_PATH"@) by {
        assert("HOOKBOT_SERVER_URL"@.len() != "TLS_CERT_PATH"@.len());
    }
    assert("HOOKBOT_SERVER_URL"@ != "TLS_KEY_PATH"@) by {
        assert("HOOKBOT_SERVER_URL"@.len() != "TLS_KEY_PATH"@.len());
    }
    assert("HOOKBOT_SERVER_URL"@ != "LOGIN_RATE_LIMIT_MAX"@) by {
        assert("HOOKBOT_SERVER_URL"@.len() != "LOGIN_RATE_LIMIT_MAX"@.len());
    }
    assert("TLS_CERT_PATH"@ != "TLS_KEY_PATH"@) by {
        assert("TLS_CERT_PATH"@.len() != "TLS_KEY_PATH"@.len());
    }
    assert("TLS_CERT_PATH"@ != "LOGIN_RATE_LIMIT_MAX"@) by {
        assert("TLS_CERT_PATH"@.len() != "LOGIN_RATE_LIMIT_MAX"@.len());
    }
    assert("TLS_KEY_PATH"@ != "LOGIN_RATE_LIMIT_MAX"@) by {
        assert("TLS_KEY_PATH"@.len() != "LOGIN_RATE_LIMIT_MAX"@.len());
    }
}

/// Whether the file that a path variable names exists, as the caller found.
pub open spec fn found_for(key: Seq<char>, cert_found: bool, key_found: bool) -> bool {
    if key == "TLS_CERT_PATH"@ {
        cert_found
    } else {
        key_found
    }
}

/// A set TLS certificate or key path is reported as passed, showing the path, when its file
/// exists, and as a warning `File not found: <path>` when it does not; an unset one as unset.
pub proof fn lemma_tls_path_rows(entries: Seq<(Seq<char>, Seq<char>)>, cert_found: bool, key_found: bool)
    ensures
        audit_spec(entries, cert_found, key_found)[5].0 == "TLS_CERT_PATH"@,
        audit_spec(entries, cert_found, key_found)[6].0 == "TLS_KEY_PATH"@,
        match env_lookup(entries, "TLS_CERT_PATH"@) {
            Some(v) => audit_spec(entries, cert_found, key_found)[5] == if cert_found {
                ("TLS_CERT_PATH"@, AuditStatus::Passed, v)
            } else {
                ("TLS_CERT_PATH"@, AuditStatus::Warn, "File not found: "@ + v)
            },
            None => audit_spec(entries, cert_found, key_found)[5].1 == AuditStatus::Unset,
        },
        match env_lookup(entries, "TLS_KEY_PATH"@) {
            Some(v) => audit_spec(entries, cert_found, key_found)[6] == if key_found {
                ("TLS_KEY_PATH"@, AuditStatus::Passed, v)
            } else {
                ("TLS_KEY_PATH"@, AuditStatus::Warn, "File not found: "@ + v)
            },
            None => audit_spec(entries, cert_found, key_found)[6].1 == AuditStatus::Unset,
        },
{
    reveal_strlit("TLS_CERT_PATH");
    reveal_strlit("TLS_KEY_PATH");
    reveal_strlit("API_KEY");
    reveal_strlit("ADMIN_PASSWORD");
    reveal_strlit("ALLOWED_ORIGINS");
    reveal_strlit("HOOKBOT_SERVER_URL");
    assert("TLS_CERT_PATH"@ != "API_KEY"@) by {
        assert("TLS_CERT_PATH"@[0] != "API_KEY"@[0]);
    }
    assert("TLS_KEY_PATH"@ != "API_KEY"@) by {
        assert("TLS_KEY_PATH"@[0] != "API_KEY"@[0]);
    }
    assert("TLS_CERT_PATH"@ != "ADMIN_PASSWORD"@) by {
        assert("TLS_CERT_PATH"@[0] != "ADMIN_PASSWORD"@[0]);
    }
    assert("TLS_KEY_PATH"@ != "ADMIN_PASSWORD"@) by {
        assert("TLS_KEY_PATH"@[0] != "ADMIN_PASSWORD"@[0]);
    }
    assert("TLS_CERT_PATH"@ != "ALLOWED_ORIGINS"@) by {
        assert("TLS_CERT_PATH"@[0] != "ALLOWED_ORIGINS"@[0]);
    }
    assert("TLS_KEY_PATH"@ != "ALLOWED_ORIGINS"@) by {
        assert("TLS_KEY_PATH"@[0] != "ALLOWED_ORIGINS"@[0]);
    }
    assert("TLS_CERT_PATH"@ != "HOOKBOT_SERVER_URL"@) by {
        assert("TLS_CERT_PATH"@[0] != "HOOKBOT_SERVER_URL"@[0]);
    }
    assert("TLS_KEY_PATH"@ != "HOOKBOT_SERVER_URL"@) by {
        assert("TLS_KEY_PATH"@[0] != "HOOKBOT_SERVER_URL"@[0]);
    }
    assert("TLS_KEY_PATH"@ != "TLS_CERT_PATH"@) by {
        assert("TLS_KEY_PATH"@[4] != "TLS_CERT_PATH"@[4]);
    }
}

/// The audit's lines, in the table's order.
pub open spec fn audit_spec(entries: Seq<(Seq<char>, Seq<char>)>, cert_found: bool, key_found: bool) -> Seq<(Seq<char>, AuditStatus, Seq<char>)> {
    Seq::new(
        audited_vars().len(),
        |i: int| audit_row_spec(audited_vars()[i], env_lookup(entries, audited_vars()[i].0), found_for(audited_vars()[i].0, cert_found, key_found)),
    )
}

pub open spec fn rows_view(v: Seq<AuditRow>) -> Seq<(Seq<char>, AuditStatus, Seq<char>)> {
    Seq::new(v.len(), |i: int| (v[i].key@, v[i].status, v[i].note@))
}

/// Whether every secret that is set can be shown masked.
pub open spec fn secrets_maskable(entries: Seq<(Seq<char>, Seq<char>)>) -> bool {
    forall|i: int| 0 <= i < audited_vars().len() && #[trigger] audited_vars()[i].2 ==> match env_lookup(entries, audited_vars()[i].0) {
        Some(v) => maskable(v),
        None => true,
    }
}

fn check_value_exec(key: &str, v: &str, file_found: bool) -> (r: Option<String>)
    ensures
        match r {
            Some(w) => check_value(key@, v@, file_found) == Some(w@),
            None => check_value(key@, v@, file_found) is None,
        },
{
    proof {
        reveal_with_fuel(concat_all, 4);
    }
    if str_eq(key, "API_KEY") {
        if v.as_bytes().len() < 16 {
            Some("Too short (min 16 chars recommended)".to_string())
        } else {
            None
        }
    } else if str_eq(key, "ADMIN_PASSWORD") {
        if v.as_bytes().len() < 12 {
            Some("Weak password (min 12 chars recommended)".to_string())
        } else {
            None
        }
    } else if str_eq(key, "ALLOWED_ORIGINS") {
        if str_eq(v, "*") {
            Some("Wildcard CORS is insecure for production".to_string())
        } else if chars_of(v).len() == 0 {
            Some("Empty \u{2014} CORS will allow any origin".to_string())
        } else {
            None
        }
    } else if str_eq(key, "HOOKBOT_SERVER_URL") {
        let vc = chars_of(v);
        let http = chars_of("http://");
        proof {
            reveal_strlit("http://");
        }
        if starts_with(vc.as_slice(), http.as_slice()) {
            Some("Using HTTP \u{2014} should be HTTPS in production".to_string())
        } else {
            None
        }
    } else if str_eq(key, "TLS_CERT_PATH") || str_eq(key, "TLS_KEY_PATH") {
        if !file_found {
            Some(string_of(concat_parts(&["File not found: ", v]).as_slice()))
        } else {
            None
        }
    } else if str_eq(key, "LOGIN_RATE_LIMIT_MAX") {
        match parse_u32(chars_of(v).as_slice()) {
            Some(n) => if n > 10 {
                let mut m = concat_parts(&["Rate limit too lenient ("]);
                push_decimal(&mut m, n as u64);
                push_str(&mut m, "). Recommend <= 5.");
                Some(string_of(m.as_slice()))
            } else {
                None
            },
            None => Some("Invalid number".to_string()),
        }
    } else {
        None
    }
}

fn audit_row(entries: &[(String, String)], key: &str, required: bool, secret: bool, desc: &str, file_found: bool) -> (r: AuditRow)
    requires
        secret ==> match env_lookup(pairs_view(entries@), key@) {
            Some(v) => maskable(v),
            None => true,
        },
    ensures
        (r.key@, r.status, r.note@) == audit_row_spec(
            (key@, required, secret, desc@),
            env_lookup(pairs_view(entries@), key@),
            file_found,
        ),
{
    proof {
        reveal_with_fuel(concat_all, 3);
    }
    match env_get(entries, key) {
        None => if required {
            AuditRow {
                key: key.to_string(),
                status: AuditStatus::Missing,
                note: string_of(concat_parts(&[desc, " (required)"]).as_slice()),
            }
        } else {
            AuditRow { key: key.to_string(), status: AuditStatus::Unset, note: desc.to_string() }
        },
        Some(v) => {
            let shown = if secret {
                mask_secret(v.as_str())
            } else {
                v.clone()
            };
            let checked = str_eq(key, "API_KEY") || str_eq(key, "ADMIN_PASSWORD") || str_eq(key, "ALLOWED_ORIGINS")
                || str_eq(key, "HOOKBOT_SERVER_URL") || str_eq(key, "TLS_CERT_PATH") || str_eq(key, "TLS_KEY_PATH")
                || str_eq(key, "LOGIN_RATE_LIMIT_MAX");
            if checked {
                match check_value_exec(key, v.as_str(), file_found) {
                    Some(w) => AuditRow { key: key.to_string(), status: AuditStatus::Warn, note: w },
                    None => AuditRow { key: key.to_string(), status: AuditStatus::Passed, note: shown },
                }
            } else {
                AuditRow { key: key.to_string(), status: AuditStatus::Present, note: shown }
            }
        },
    }
}

/// Whether every secret the env file sets can be shown masked (the audit's precondition).
pub fn secrets_can_be_masked(entries: &[(String, String)]) -> (r: bool)
    ensures
        r == secrets_maskable(pairs_view(entries@)),
{
    let secrets: Vec<&str> = vec![
        "API_KEY", "ADMIN_PASSWORD", "ADMIN_PASSWORD_HASH", "WORKOS_API_KEY", "OPENAI_API_KEY",
        "ANTHROPIC_API_KEY", "DOCKERHUB_TOKEN", "CLOUDFLARE_API_TOKEN",
    ];
    let ghost table = audited_vars();
    let ghost e = pairs_view(entries@);
    let ghost idx: Seq<int> = seq![0, 1, 2, 7, 9, 10, 11, 12];
    assert(forall|k: int| 0 <= k < 8 ==> 0 <= #[trigger] idx[k] < 15);
    assert forall|k: int| 0 <= k < 8 implies (#[trigger] secrets@[k])@ == table[idx[k]].0 && table[idx[k]].2 by {}
    assert forall|j: int| 0 <= j < table.len() && #[trigger] table[j].2 implies exists|k: int| 0 <= k < 8 && idx[k] == j by {
        if j == 0 { assert(idx[0] == j); }
        else if j == 1 { assert(idx[1] == j); }
        else if j == 2 { assert(idx[2] == j); }
        else if j == 7 { assert(idx[3] == j); }
        else if j == 9 { assert(idx[4] == j); }
        else if j == 10 { assert(idx[5] == j); }
        else if j == 11 { assert(idx[6] == j); }
        else { assert(idx[7] == j); }
    }
    let mut i: usize = 0;
    while i < secrets.len()
        invariant
            secrets@.len() == 8,
            i <= 8,
            table == audited_vars(),
            forall|k: int| 0 <= k < 8 ==> 0 <= #[trigger] idx[k] < 15,
            e == pairs_view(entries@),
            forall|k: int| 0 <= k < 8 ==> (#[trigger] secrets@[k])@ == table[idx[k]].0 && table[idx[k]].2,
            forall|k: int| 0 <= k < i ==> match env_lookup(e, #[trigger] table[idx[k]].0) {
                Some(v) => maskable(v),
                None => true,
            },
        decreases 8 - i,
    {
        match env_get(entries, secrets[i]) {
            Some(v) => {
                if !can_mask(v.as_str()) {
                    proof {
                        let j = idx[i as int];
                        assert(0 <= j < 15);
                        assert(audited_vars()[j].2);
                        assert(env_lookup(e, audited_vars()[j].0) == Some(v@));
                        assert(!secrets_maskable(e));
                    }
                    return false;
                }
            },
            None => {},
        }
        i = i + 1;
    }
    assert forall|j: int| 0 <= j < table.len() && #[trigger] table[j].2 implies match env_lookup(e, table[j].0) {
        Some(v) => maskable(v),
        None => true,
    } by {
        let k = choose|k: int| 0 <= k < 8 && idx[k] == j;
        assert(table[idx[k]].0 == table[j].0);
    }
    true
}

/// The audit of an env file's settings; `cert_found` and `key_found` say whether the files the
/// TLS path variables name exist.
pub fn audit_env(entries: &[(String, String)], cert_found: bool, key_found: bool) -> (rows: Vec<AuditRow>)
    requires
        secrets_maskable(pairs_view(entries@)),
    ensures
        rows_view(rows@) == audit_spec(pairs_view(entries@), cert_found, key_found),
{
    let vars: Vec<(&str, bool, bool, &str)> = vec![
        ("API_KEY", true, true, "API authentication key"),
        ("ADMIN_PASSWORD", false, true, "Admin login password"),
        ("ADMIN_PASSWORD_HASH", false, true, "Bcrypt hash of admin password (preferred over plaintext)"),
        ("ALLOWED_ORIGINS", true, false, "CORS allowed origins (comma-separated)"),
        ("HOOKBOT_SERVER_URL", false, false, "Public server URL"),
        ("TLS_CERT_PATH", false, false, "TLS certificate path"),
        ("TLS_KEY_PATH", false, false, "TLS private key path"),
        ("WORKOS_API_KEY", false, true, "WorkOS API key for multi-tenant auth"),
        ("WORKOS_CLIENT_ID", false, false, "WorkOS client ID"),
        ("OPENAI_API_KEY", false, true, "OpenAI API key"),
        ("ANTHROPIC_API_KEY", false, true, "Anthropic API key"),
        ("DOCKERHUB_TOKEN", false, true, "Docker Hub access token"),
        ("CLOUDFLARE_API_TOKEN", false, true, "Cloudflare API token"),
        ("LOGIN_RATE_LIMIT_MAX", false, false, "Max login attempts per window"),
        ("DATABASE_URL", false, false, "SQLite database path"),
    ];
    let ghost table = audited_vars();
    assert(vars@.len() == table.len());
    assert(forall|i: int| 0 <= i < table.len() ==> (#[trigger] vars@[i]).0@ == table[i].0 && vars@[i].1 == table[i].1
        && vars@[i].2 == table[i].2 && vars@[i].3@ == table[i].3);
    let mut rows: Vec<AuditRow> = Vec::new();
    let mut i: usize = 0;
    while i < vars.len()
        invariant
            i <= vars@.len(),
            vars@.len() == table.len(),
            table == audited_vars(),
            forall|j: int| 0 <= j < table.len() ==> (#[trigger] vars@[j]).0@ == table[j].0 && vars@[j].1 == table[j].1
                && vars@[j].2 == table[j].2 && vars@[j].3@ == table[j].3,
            secrets_maskable(pairs_view(entries@)),
            rows@.len() == i,
            forall|j: int| 0 <= j < i ==> rows_view(rows@)[j] == #[trigger] audit_spec(pairs_view(entries@), cert_found, key_found)[j],
        decreases vars@.len() - i,
    {
        let (key, required, secret, desc) = vars[i];
        let found = if str_eq(key, "TLS_CERT_PATH") {
            cert_found
        } else {
            key_found
        };
        assert(table[i as int].2 ==> match env_lookup(pairs_view(entries@), table[i as int].0) {
            Some(v) => maskable(v),
            None => true,
        });
        let row = audit_row(entries, key, required, secret, desc, found);
        let ghost before = rows@;
        rows.push(row);
        assert forall|j: int| 0 <= j < i + 1 implies rows_view(rows@)[j] == #[trigger] audit_spec(pairs_view(entries@), cert_found, key_found)[j] by {
            if j < i {
                assert(rows@[j] == before[j]);
                assert(rows_view(rows@)[j] == rows_view(before)[j]);
            }
        }
        i = i + 1;
    }
    assert(rows_view(rows@) =~= audit_spec(pairs_view(entries@), cert_found, key_found));
    rows
}

/// How many lines of the audit are errors (missing required variables).
pub open spec fn audit_errors(rows: Seq<(Seq<char>, AuditStatus, Seq<char>)>) -> nat
    decreases rows.len(),
{
    if rows.len() == 0 {
        0
    } else {
        audit_errors(rows.drop_last()) + if rows.last().1 == AuditStatus::Missing {
            1nat
        } else {
            0nat
        }
    }
}

/// How many lines of the audit are warnings.
pub open spec fn audit_warnings(rows: Seq<(Seq<char>, AuditStatus, Seq<char>)>) -> nat
    decreases rows.len(),
{
    if rows.len() == 0 {
        0
    } else {
        audit_warnings(rows.drop_last()) + if rows.last().1 == AuditStatus::Warn {
            1nat
        } else {
            0nat
        }
    }
}

/// The numbers of errors and warnings among the audit's lines.
pub fn audit_counts(rows: &[AuditRow]) -> (r: (usize, usize))
    ensures
        r.0 == audit_errors(rows_view(rows@)),
        r.1 == audit_warnings(rows_view(rows@)),
{
    let mut errors: usize = 0;
    let mut warnings: usize = 0;
    let mut i: usize = 0;
    while i < rows.len()
        invariant
            i <= rows@.len(),
            errors == audit_errors(rows_view(rows@.take(i as int))),
            warnings == audit_warnings(rows_view(rows@.take(i as int))),
            errors <= i,
            warnings <= i,
        decreases rows@.len() - i,
    {
        assert(rows_view(rows@.take(i + 1)).drop_last() =~= rows_view(rows@.take(i as int)));
        if rows[i].status == AuditStatus::Missing {
            errors = errors + 1;
        }
        if rows[i].status == AuditStatus::Warn {
            warnings = warnings + 1;
        }
        i = i + 1;
    }
    assert(rows@.take(rows@.len() as int) =~= rows@);
    (errors, warnings)
}

/// Whether a `.gitignore` lists `.env` on a line of its own.
pub open spec fn ignores_env_spec(gitignore: Seq<char>) -> bool {
    exists|i: int| 0 <= i < split_lines(gitignore).len() && trim(#[trigger] split_lines(gitignore)[i]) == ".env"@
}

/// Whether the `.gitignore` text keeps `.env` out of the repository.
pub fn ignores_env(gitignore: &str) -> (r: bool)
    ensures
        r == ignores_env_spec(gitignore@),
{
    let lines = lines_of(gitignore);
    let mut i: usize = 0;
    while i < lines.len()
        invariant
            i <= lines@.len(),
            lines@.len() == split_lines(gitignore@).len(),
            forall|j: int| 0 <= j < lines@.len() ==> (#[trigger] lines@[j])@ == split_lines(gitignore@)[j],
            forall|j: int| 0 <= j < i ==> trim(#[trigger] split_lines(gitignore@)[j]) != ".env"@,
        decreases lines@.len() - i,
    {
        let t = trim_chars(lines[i].as_slice());
        if str_eq(string_of(t.as_slice()).as_str(), ".env") {
            return true;
        }
        i = i + 1;
    }
    false
}

/// The audit's summary line: `FAIL` with errors, else `WARN` with warnings, else `PASS`.
pub open spec fn summary_spec(errors: nat, warnings: nat) -> Seq<char> {
    if errors > 0 {
        "FAIL"@
    } else if warnings > 0 {
        "WARN"@
    } else {
        "PASS"@
    }
}

proof fn lemma_status_counts(rows: Seq<(Seq<char>, AuditStatus, Seq<char>)>)
    ensures
        audit_errors(rows) == rows.filter(|r: (Seq<char>, AuditStatus, Seq<char>)| r.1 == AuditStatus::Missing).len(),
        audit_warnings(rows) == rows.filter(|r: (Seq<char>, AuditStatus, Seq<char>)| r.1 == AuditStatus::Warn).len(),
        audit_errors(rows) > 0 <==> exists|i: int| 0 <= i < rows.len() && (#[trigger] rows[i]).1 == AuditStatus::Missing,
        audit_warnings(rows) > 0 <==> exists|i: int| 0 <= i < rows.len() && (#[trigger] rows[i]).1 == AuditStatus::Warn,
    decreases rows.len(),
{
    reveal(Seq::filter);
    if rows.len() > 0 {
        let pre = rows.drop_last();
        lemma_status_counts(pre);
        assert forall|i: int| 0 <= i < pre.len() implies #[trigger] pre[i] == rows[i] by {}
        if exists|i: int| 0 <= i < rows.len() && (#[trigger] rows[i]).1 == AuditStatus::Missing {
            let i = choose|i: int| 0 <= i < rows.len() && (#[trigger] rows[i]).1 == AuditStatus::Missing;
            if i < pre.len() {
                assert(pre[i].1 == AuditStatus::Missing);
            }
        }
        if exists|i: int| 0 <= i < rows.len() && (#[trigger] rows[i]).1 == AuditStatus::Warn {
            let i = choose|i: int| 0 <= i < rows.len() && (#[trigger] rows[i]).1 == AuditStatus::Warn;
            if i < pre.len() {
                assert(pre[i].1 == AuditStatus::Warn);
            }
        }
        if exists|i: int| 0 <= i < pre.len() && (#[trigger] pre[i]).1 == AuditStatus::Missing {
            let i = choose|i: int| 0 <= i < pre.len() && (#[trigger] pre[i]).1 == AuditStatus::Missing;
            assert(rows[i].1 == AuditStatus::Missing);
        }
        if exists|i: int| 0 <= i < pre.len() && (#[trigger] pre[i]).1 == AuditStatus::Warn {
            let i = choose|i: int| 0 <= i < pre.len() && (#[trigger] pre[i]).1 == AuditStatus::Warn;
            assert(rows[i].1 == AuditStatus::Warn);
        }
        assert(rows[rows.len() - 1] == rows.last());
    }
}

/// The audit's outcome: errors count the missing required variables and warnings the values
/// that were warned about; it is FAIL when a required variable is missing, else WARN when any
/// value was warned about, else PASS.
pub proof fn lemma_audit_outcome(rows: Seq<(Seq<char>, AuditStatus, Seq<char>)>)
    ensures
        audit_errors(rows) == rows.filter(|r: (Seq<char>, AuditStatus, Seq<char>)| r.1 == AuditStatus::Missing).len(),
        audit_warnings(rows) == rows.filter(|r: (Seq<char>, AuditStatus, Seq<char>)| r.1 == AuditStatus::Warn).len(),
        summary_spec(audit_errors(rows), audit_warnings(rows)) == "FAIL"@ <==> exists|i: int|
            0 <= i < rows.len() && (#[trigger] rows[i]).1 == AuditStatus::Missing,
        (forall|i: int| 0 <= i < rows.len() ==> (#[trigger] rows[i]).1 != AuditStatus::Missing) ==> (summary_spec(
            audit_errors(rows),
            audit_warnings(rows),
        ) == "WARN"@ <==> exists|i: int| 0 <= i < rows.len() && (#[trigger] rows[i]).1 == AuditStatus::Warn),
        summary_spec(audit_errors(rows), audit_warnings(rows)) == "PASS"@ <==> (forall|i: int|
            0 <= i < rows.len() ==> (#[trigger] rows[i]).1 != AuditStatus::Missing && rows[i].1 != AuditStatus::Warn),
{
    lemma_status_counts(rows);
    reveal_strlit("FAIL");
    reveal_strlit("WARN");
    reveal_strlit("PASS");
    assert("FAIL"@[0] != "WARN"@[0]);
    assert("FAIL"@[0] != "PASS"@[0]);
    assert("WARN"@[0] != "PASS"@[0]);
}

/// The audit's summary for its counts.
pub fn summary(errors: usize, warnings: usize) -> (r: &'static str)
    ensures
        r@ == summary_spec(errors as nat, warnings as nat),
{
    if errors > 0 {
        "FAIL"
    } else if warnings > 0 {
        "WARN"
    } else {
        "PASS"
    }
}

} // verus!
