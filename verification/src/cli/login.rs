//! Signing the command-line tool in to a server, and the credentials it saves.
use vstd::prelude::*;
use crate::json::{as_bool, as_str, as_u64, get, json_get, json_of, opt_bool, opt_str, opt_u64, or_else, JsonValue};
use crate::text::{
    chars_of, concat_all, concat_parts, decimal, first_pos, lemma_first_pos_bounds, lines_of,
    push_all, push_decimal, push_str, split_lines, starts_with, str_eq, string_of, strip_char,
    strip_char_end, trim, trim_char, trim_char_end, trim_chars, find_first, copy_range,
};

verus! {

broadcast use vstd::string::group_string_axioms;

/// A server address as typed, made canonical: trimmed, without trailing slashes, and with
/// `https://` added when it names no scheme.
pub open spec fn normalize_url_spec(url: Seq<char>) -> Seq<char> {
    let u = trim_char_end(trim(url), '/');
    if (u.len() >= 7 && u.take(7) == "http://"@) || (u.len() >= 8 && u.take(8) == "https://"@) {
        u
    } else {
        "https://"@ + u
    }
}

/// Normalises a user-supplied server URL.
pub fn normalize_url(url: &str) -> (r: String)
    ensures
        r@ == normalize_url_spec(url@),
{
    let t = trim_chars(chars_of(url).as_slice());
    let u = strip_char_end(t.as_slice(), '/');
    let http = chars_of("http://");
    let https = chars_of("https://");
    proof {
        reveal_strlit("http://");
        reveal_strlit("https://");
    }
    if starts_with(u.as_slice(), http.as_slice()) || starts_with(u.as_slice(), https.as_slice()) {
        string_of(u.as_slice())
    } else {
        let mut v = chars_of("https://");
        push_all(&mut v, u.as_slice());
        string_of(v.as_slice())
    }
}

/// What the health probe of a server must show before anything is stored: a successful
/// answer whose JSON body has `"status": "ok"`. `Ok` carries the status, its display text and
/// the body when it is JSON; `Err` the connection error.
pub open spec fn health_spec(server: Seq<char>, answer: Result<(u16, Seq<char>, Option<JsonValue>), Seq<char>>) -> Result<(), Seq<char>> {
    match answer {
        Err(e) => Err("Cannot reach "@ + server + "/api/health: "@ + e),
        Ok((status, shown, body)) => if !(200 <= status <= 299) {
            Err(server + "/api/health returned HTTP "@ + shown + " \u{2014} is this a Hookbot server?"@)
        } else {
            match body {
                None => Err(server + "/api/health did not return JSON \u{2014} is this a Hookbot server?"@),
                Some(b) => if opt_str(json_get(json_of(b), "status"@)) == Some("ok"@) {
                    Ok(())
                } else {
                    Err(server + "/api/health returned an unexpected payload \u{2014} is this a Hookbot server?"@)
                },
            }
        },
    }
}

pub open spec fn text_result(r: Result<(), String>) -> Result<(), Seq<char>> {
    match r {
        Ok(()) => Ok(()),
        Err(e) => Err(e@),
    }
}

/// Checks that the server answered its health probe as a Hookbot server does.
pub fn check_health(server: &str, answer: &Result<(u16, String, Option<JsonValue>), String>) -> (r: Result<(), String>)
    ensures
        text_result(r) == health_spec(
            server@,
            match answer {
                Ok((s, t, b)) => Ok((*s, t@, *b)),
                Err(e) => Err(e@),
            },
        ),
{
    proof {
        reveal_with_fuel(concat_all, 5);
    }
    match answer {
        Err(e) => Err(string_of(concat_parts(&["Cannot reach ", server, "/api/health: ", e.as_str()]).as_slice())),
        Ok((status, shown, body)) => {
            if !(200 <= *status && *status <= 299) {
                return Err(string_of(concat_parts(&[server, "/api/health returned HTTP ", shown.as_str(), " \u{2014} is this a Hookbot server?"]).as_slice()));
            }
            match body {
                None => Err(string_of(concat_parts(&[server, "/api/health did not return JSON \u{2014} is this a Hookbot server?"]).as_slice())),
                Some(b) => {
                    let ok = match as_str(get(b, "status")) {
                        Some(s) => str_eq(s, "ok"),
                        None => false,
                    };
                    if ok {
                        Ok(())
                    } else {
                        Err(string_of(concat_parts(&[server, "/api/health returned an unexpected payload \u{2014} is this a Hookbot server?"]).as_slice()))
                    }
                },
            }
        },
    }
}

/// Whether the server's auth status for a presented key says it is signed in.
pub fn check_key_status(body: &JsonValue) -> (r: Result<(), String>)
    ensures
        text_result(r) == if opt_bool(json_get(json_of(*body), "authenticated"@)) == Some(true) {
            Ok::<(), Seq<char>>(())
        } else {
            Err("API key rejected by the server."@)
        },
{
    match as_bool(get(body, "authenticated")) {
        Some(true) => Ok(()),
        _ => Err("API key rejected by the server.".to_string()),
    }
}

/// The error a refused password login reports: the server's message (or `Login failed`),
/// with the wait before retrying when the server rate-limited the attempt and says how long.
pub open spec fn login_failure_spec(shown: Seq<char>, status: u16, body: JsonValue) -> Seq<char> {
    let msg = or_else(opt_str(json_get(json_of(body), "error"@)), "Login failed"@);
    let fallback = msg + " (HTTP "@ + shown + ")"@;
    if status == 429 {
        match opt_u64(json_get(json_of(body), "retry_after_secs"@)) {
            Some(s) => msg + " Wait "@ + decimal(s as nat)
                + "s and retry \u{2014} the limit is per client IP, and a wrong password counts. Use --password to avoid burning attempts on typos."@,
            None => fallback,
        }
    } else {
        fallback
    }
}

/// The outcome of a password login: `Ok` on a successful status, else the error to report.
pub fn check_login(status: u16, shown: &str, body: &JsonValue) -> (r: Result<(), String>)
    ensures
        text_result(r) == if 200 <= status <= 299 {
            Ok::<(), Seq<char>>(())
        } else {
            Err(login_failure_spec(shown@, status, *body))
        },
{
    if 200 <= status && status <= 299 {
        return Ok(());
    }
    let msg: &str = match as_str(get(body, "error")) {
        Some(m) => m,
        None => "Login failed",
    };
    proof {
        reveal_with_fuel(concat_all, 5);
    }
    if status == 429 {
        if let Some(s) = as_u64(get(body, "retry_after_secs")) {
            let mut v = concat_parts(&[msg, " Wait "]);
            push_decimal(&mut v, s);
            push_str(&mut v, "s and retry \u{2014} the limit is per client IP, and a wrong password counts. Use --password to avoid burning attempts on typos.");
            return Err(string_of(v.as_slice()));
        }
    }
    Err(string_of(concat_parts(&[msg, " (HTTP ", shown, ")"]).as_slice()))
}

/// The API key the signed-in session is issued (`api_key` of the account endpoint's answer).
pub fn issued_api_key(me: &JsonValue) -> (k: Option<String>)
    ensures
        match k {
            Some(s) => opt_str(json_get(json_of(*me), "api_key"@)) == Some(s@),
            None => opt_str(json_get(json_of(*me), "api_key"@)) is None,
        },
{
    match as_str(get(me, "api_key")) {
        Some(s) => Some(s.to_string()),
        None => None,
    }
}

/// The credentials file's text: the server address, and the API key when there is one.
pub open spec fn credentials_spec(url: Seq<char>, key: Option<Seq<char>>) -> Seq<char> {
    "url=\""@ + url + "\"\n"@ + match key {
        Some(k) => "api_key=\""@ + k + "\"\n"@,
        None => Seq::empty(),
    }
}

/// The text saved for the server address and API key.
pub fn credentials_text(url: &str, key: Option<&str>) -> (t: String)
    ensures
        t@ == credentials_spec(
            url@,
            match key {
                Some(k) => Some(k@),
                None => None,
            },
        ),
{
    proof {
        reveal_with_fuel(concat_all, 4);
    }
    let mut v = concat_parts(&["url=\"", url, "\"\n"]);
    if let Some(k) = key {
        let w = concat_parts(&["api_key=\"", k, "\"\n"]);
        push_all(&mut v, w.as_slice());
    }
    string_of(v.as_slice())
}

/// The setting one line of the credentials file makes: the trimmed name before the first `=`,
/// and the trimmed value after it without surrounding quotes.
pub open spec fn credential_line(line: Seq<char>) -> Option<(Seq<char>, Seq<char>)> {
    let t = trim(line);
    let p = first_pos(t, '=');
    if p < 0 {
        None
    } else {
        Some((trim(t.take(p)), trim_char(trim(t.skip(p + 1)), '"')))
    }
}

/// The address and key read from the first `n` lines; a later line overrides an earlier one.
pub open spec fn credentials_after(lines: Seq<Seq<char>>, n: int) -> (Option<Seq<char>>, Option<Seq<char>>)
    decreases n,
{
    if n <= 0 {
        (None, None)
    } else {
        let (url, key) = credentials_after(lines, n - 1);
        match credential_line(lines[n - 1]) {
            Some((k, v)) => if k == "url"@ {
                (Some(v), key)
            } else if k == "api_key"@ {
                (url, Some(v))
            } else {
                (url, key)
            },
            None => (url, key),
        }
    }
}

/// The address and key a credentials file holds.
pub open spec fn parse_credentials_spec(content: Seq<char>) -> (Option<Seq<char>>, Option<Seq<char>>) {
    credentials_after(split_lines(content), split_lines(content).len() as int)
}

pub open spec fn opt_text(o: Option<String>) -> Option<Seq<char>> {
    match o {
        Some(s) => Some(s@),
        None => None,
    }
}

/// Reads the server address and API key from the credentials file's text.
pub fn parse_credentials(content: &str) -> (r: (Option<String>, Option<String>))
    ensures
        (opt_text(r.0), opt_text(r.1)) == parse_credentials_spec(content@),
{
    let lines = lines_of(content);
    let ghost ls = split_lines(content@);
    let mut url: Option<String> = None;
    let mut key: Option<String> = None;
    let mut i: usize = 0;
    while i < lines.len()
        invariant
            i <= lines@.len(),
            ls == split_lines(content@),
            lines@.len() == ls.len(),
            forall|j: int| 0 <= j < lines@.len() ==> (#[trigger] lines@[j])@ == ls[j],
            (opt_text(url), opt_text(key)) == credentials_after(ls, i as int),
        decreases lines@.len() - i,
    {
        let t = trim_chars(lines[i].as_slice());
        let p = find_first(t.as_slice(), '=');
        proof {
            lemma_first_pos_bounds(t@, '=');
        }
        if let Some(k) = p {
            assert(k < t@.len());
            let name = trim_chars(copy_range(t.as_slice(), 0, k).as_slice());
            let raw = trim_chars(copy_range(t.as_slice(), k + 1, t.len()).as_slice());
            let value = strip_char(raw.as_slice(), '"');
            assert(t@.take(k as int) =~= t@.subrange(0, k as int));
            assert(t@.skip(k + 1) =~= t@.subrange(k + 1, t@.len() as int));
            let name_s = string_of(name.as_slice());
            if str_eq(name_s.as_str(), "url") {
                url = Some(string_of(value.as_slice()));
            } else if str_eq(name_s.as_str(), "api_key") {
                key = Some(string_of(value.as_slice()));
            }
        }
        i = i + 1;
    }
    (url, key)
}

/// The address the log view fetches: the latest `limit` entries, for one device when given,
/// after a timestamp when following.
pub open spec fn logs_url_spec(base: Seq<char>, limit: u32, device: Option<Seq<char>>, after: Option<Seq<char>>) -> Seq<char> {
    base + "/api/logs?limit="@ + decimal(limit as nat) + match device {
        Some(d) => "&device_id="@ + d,
        None => Seq::empty(),
    } + match after {
        Some(t) => "&after="@ + t,
        None => Seq::empty(),
    }
}

/// Builds the log view's request address.
pub fn logs_url(base: &str, limit: u32, device: Option<&str>, after: Option<&str>) -> (u: String)
    ensures
        u@ == logs_url_spec(
            base@,
            limit,
            match device {
                Some(d) => Some(d@),
                None => None,
            },
            match after {
                Some(t) => Some(t@),
                None => None,
            },
        ),
{
    proof {
        reveal_with_fuel(concat_all, 3);
    }
    let mut v = concat_parts(&[base, "/api/logs?limit="]);
    push_decimal(&mut v, limit as u64);
    if let Some(d) = device {
        push_all(&mut v, concat_parts(&["&device_id=", d]).as_slice());
    }
    if let Some(t) = after {
        push_all(&mut v, concat_parts(&["&after=", t]).as_slice());
    }
    string_of(v.as_slice())
}

/// What a ping names and requests: a device's record, or the server's health endpoint.
pub open spec fn ping_spec(base: Seq<char>, device: Option<Seq<char>>) -> (Seq<char>, Seq<char>) {
    match device {
        Some(id) => ("device "@ + id, base + "/api/devices/"@ + id),
        None => ("server "@ + base, base + "/api/health"@),
    }
}

/// The ping's target description and request address.
pub fn ping_target(base: &str, device: Option<&str>) -> (r: (String, String))
    ensures
        (r.0@, r.1@) == ping_spec(
            base@,
            match device {
                Some(d) => Some(d@),
                None => None,
            },
        ),
{
    proof {
        reveal_with_fuel(concat_all, 4);
    }
    match device {
        Some(id) => (
            string_of(concat_parts(&["device ", id]).as_slice()),
            string_of(concat_parts(&[base, "/api/devices/", id]).as_slice()),
        ),
        None => (
            string_of(concat_parts(&["server ", base]).as_slice()),
            string_of(concat_parts(&[base, "/api/health"]).as_slice()),
        ),
    }
}


/// A value the credentials file keeps intact: on one line, and not starting or ending with
/// a quote (which reading strips).
pub open spec fn storable(v: Seq<char>) -> bool {
    &&& forall|i: int| 0 <= i < v.len() ==> v[i] != '\n'
    &&& (v.len() > 0 ==> v[0] != '"' && v.last() != '"')
}

proof fn lemma_unquote(v: Seq<char>)
    requires
        storable(v),
    ensures
        trim_char(seq!['"'] + v + seq!['"'], '"') == v,
{
    let q = seq!['"'] + v + seq!['"'];
    assert(q.drop_first() =~= v + seq!['"']);
    assert(q[0] == '"');
    assert(crate::text::trim_char_start(q, '"') == crate::text::trim_char_start(v + seq!['"'], '"'));
    if v.len() == 0 {
        let w = v + seq!['"'];
        assert(w[0] == '"');
        assert(w.drop_first() =~= Seq::<char>::empty());
        assert(crate::text::trim_char_start(w, '"') == crate::text::trim_char_start(Seq::<char>::empty(), '"'));
        assert(crate::text::trim_char_start(Seq::<char>::empty(), '"') =~= Seq::<char>::empty());
        assert(trim_char_end(Seq::<char>::empty(), '"') =~= Seq::<char>::empty());
    } else {
        assert((v + seq!['"'])[0] == v[0]);
        assert(crate::text::trim_char_start(v + seq!['"'], '"') == v + seq!['"']);
        assert((v + seq!['"']).drop_last() =~= v);
        assert(trim_char_end(v + seq!['"'], '"') == trim_char_end(v, '"'));
        assert(trim_char_end(v, '"') == v);
    }
}

proof fn lemma_plain_trim(s: Seq<char>)
    requires
        s.len() > 0,
        !crate::text::is_whitespace(s[0]),
        !crate::text::is_whitespace(s.last()),
    ensures
        trim(s) == s,
{
    assert(crate::text::trim_start(s) == s);
}

proof fn lemma_setting_line(name: Seq<char>, v: Seq<char>)
    requires
        storable(v),
        name.len() > 0,
        forall|i: int| 0 <= i < name.len() ==> name[i] != '=' && !crate::text::is_whitespace(name[i]),
    ensures
        credential_line(name + seq!['=', '"'] + v + seq!['"']) == Some((name, v)),
{
    let line = name + seq!['=', '"'] + v + seq!['"'];
    lemma_plain_trim(line);
    crate::text::lemma_first_pos(line, '=', name.len() as int);
    assert(line.take(name.len() as int) =~= name);
    lemma_plain_trim(name);
    let rest = line.skip(name.len() as int + 1);
    assert(rest =~= seq!['"'] + v + seq!['"']);
    lemma_plain_trim(rest);
    lemma_unquote(v);
}

proof fn lemma_lines_two(a: Seq<char>, b: Seq<char>)
    requires
        forall|i: int| 0 <= i < a.len() ==> a[i] != '\n',
        forall|i: int| 0 <= i < b.len() ==> b[i] != '\n',
    ensures
        split_lines(a + seq!['\n']) == seq![a],
        split_lines(a + seq!['\n'] + b + seq!['\n']) == seq![a, b],
{
    let s1 = a + seq!['\n'];
    crate::text::lemma_first_pos(s1, '\n', a.len() as int);
    assert(s1.take(a.len() as int) =~= a);
    assert(s1.skip(a.len() as int + 1) =~= Seq::<char>::empty());
    assert(split_lines(Seq::<char>::empty()) =~= Seq::<Seq<char>>::empty());
    assert(split_lines(s1) =~= seq![a]);
    let s2 = a + seq!['\n'] + b + seq!['\n'];
    crate::text::lemma_first_pos(s2, '\n', a.len() as int);
    assert(s2.take(a.len() as int) =~= a);
    assert(s2.skip(a.len() as int + 1) =~= b + seq!['\n']);
    let s3 = b + seq!['\n'];
    crate::text::lemma_first_pos(s3, '\n', b.len() as int);
    assert(s3.take(b.len() as int) =~= b);
    assert(s3.skip(b.len() as int + 1) =~= Seq::<char>::empty());
    assert(split_lines(s3) =~= seq![b]);
    assert(split_lines(s2) =~= seq![a] + seq![b]);
}

/// Reading back the credentials file gives the address and key that were saved.
pub proof fn lemma_credentials_round_trip(url: Seq<char>, key: Option<Seq<char>>)
    requires
        storable(url),
        key matches Some(k) ==> storable(k),
    ensures
        parse_credentials_spec(credentials_spec(url, key)) == (Some(url), key),
{
    reveal_strlit("url=\"");
    reveal_strlit("\"\n");
    reveal_strlit("api_key=\"");
    reveal_strlit("url");
    reveal_strlit("api_key");
    let n1 = seq!['u', 'r', 'l'];
    assert("url"@ =~= n1);
    let l1 = n1 + seq!['=', '"'] + url + seq!['"'];
    assert forall|i: int| 0 <= i < l1.len() implies l1[i] != '\n' by {
        if 5 <= i < 5 + url.len() {
            assert(l1[i] == url[i - 5]);
        }
    }
    lemma_setting_line(n1, url);
    match key {
        None => {
            assert(credentials_spec(url, key) =~= l1 + seq!['\n']);
            lemma_lines_two(l1, Seq::empty());
            let ls = split_lines(credentials_spec(url, key));
            assert(ls =~= seq![l1]);
            assert(credentials_after(ls, 0) == (None::<Seq<char>>, None::<Seq<char>>));
        },
        Some(k) => {
            let n2 = seq!['a', 'p', 'i', '_', 'k', 'e', 'y'];
            assert("api_key"@ =~= n2);
            let l2 = n2 + seq!['=', '"'] + k + seq!['"'];
            assert forall|i: int| 0 <= i < l2.len() implies l2[i] != '\n' by {
                if 9 <= i < 9 + k.len() {
                    assert(l2[i] == k[i - 9]);
                }
            }
            lemma_setting_line(n2, k);
            assert(credentials_spec(url, key) =~= l1 + seq!['\n'] + l2 + seq!['\n']);
            lemma_lines_two(l1, l2);
            let ls = split_lines(credentials_spec(url, key));
            assert(ls =~= seq![l1, l2]);
            assert(credentials_after(ls, 0) == (None::<Seq<char>>, None::<Seq<char>>));
            assert(credentials_after(ls, 1) == (Some(url), None::<Seq<char>>));
            assert(n2 != "url"@);
        },
    }
}

} // verus!
