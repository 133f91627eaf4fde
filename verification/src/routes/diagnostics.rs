//! Server diagnostics: what each probe's outcome reports.
use vstd::prelude::*;
use crate::json::{as_str, get, json_get, json_of, opt_str, or_else, JsonValue};
use crate::text::{concat_all, concat_parts, decimal, push_decimal, push_signed_decimal, push_str, signed_decimal, str_eq, string_of};

verus! {

broadcast use vstd::string::group_string_axioms;

pub struct DiagResult {
    pub checks: Vec<Check>,
    pub overall: String,
}

/// One diagnostic check; `status` is `pass`, `fail` or `warn`.
pub struct Check {
    pub name: String,
    pub status: String,
    pub message: String,
    pub latency_ms: Option<u64>,
}

/// A check as plain values: name, status, message, latency.
pub type CheckView = (Seq<char>, Seq<char>, Seq<char>, Option<u64>);

pub open spec fn check_view(c: Check) -> CheckView {
    (c.name@, c.status@, c.message@, c.latency_ms)
}

pub open spec fn checks_view(v: Seq<Check>) -> Seq<CheckView> {
    Seq::new(v.len(), |i: int| check_view(v[i]))
}

fn check(name: Vec<char>, status: &str, message: Vec<char>, latency_ms: Option<u64>) -> (c: Check)
    ensures
        check_view(c) == (name@, status@, message@, latency_ms),
{
    Check {
        name: string_of(name.as_slice()),
        status: status.to_string(),
        message: string_of(message.as_slice()),
        latency_ms,
    }
}

/// The overall result: `fail` if any check failed, else `warn` if any warned, else `pass`.
pub open spec fn overall_spec(checks: Seq<CheckView>) -> Seq<char> {
    if exists|i: int| 0 <= i < checks.len() && (#[trigger] checks[i]).1 == "fail"@ {
        "fail"@
    } else if exists|i: int| 0 <= i < checks.len() && (#[trigger] checks[i]).1 == "warn"@ {
        "warn"@
    } else {
        "pass"@
    }
}

/// The overall result of a list of checks.
pub fn overall_status(checks: &[Check]) -> (r: &'static str)
    ensures
        r@ == overall_spec(checks_view(checks@)),
{
    let mut any_fail = false;
    let mut any_warn = false;
    let mut i: usize = 0;
    while i < checks.len()
        invariant
            i <= checks@.len(),
            any_fail == exists|j: int| 0 <= j < i && (#[trigger] checks_view(checks@)[j]).1 == "fail"@,
            any_warn == exists|j: int| 0 <= j < i && (#[trigger] checks_view(checks@)[j]).1 == "warn"@,
        decreases checks@.len() - i,
    {
        assert(checks_view(checks@)[i as int] == check_view(checks@[i as int]));
        if str_eq(checks[i].status.as_str(), "fail") {
            any_fail = true;
        }
        if str_eq(checks[i].status.as_str(), "warn") {
            any_warn = true;
        }
        i = i + 1;
    }
    if any_fail {
        "fail"
    } else if any_warn {
        "warn"
    } else {
        "pass"
    }
}

/// The database check: the device count, or the query's error.
pub open spec fn database_check_spec(result: Result<i32, Seq<char>>, latency: u64) -> CheckView {
    match result {
        Ok(n) => ("database"@, "pass"@, "SQLite OK - "@ + signed_decimal(n as int) + " device(s)"@, Some(latency)),
        Err(e) => ("database"@, "fail"@, "SQLite error: "@ + e, Some(latency)),
    }
}

/// Reports the database probe.
pub fn database_check(result: &Result<i32, String>, latency: u64) -> (c: Check)
    ensures
        check_view(c) == database_check_spec(
            match result {
                Ok(n) => Ok(*n),
                Err(e) => Err(e@),
            },
            latency,
        ),
{
    proof {
        reveal_with_fuel(concat_all, 3);
    }
    match result {
        Ok(n) => {
            let mut m = concat_parts(&["SQLite OK - "]);
            push_signed_decimal(&mut m, *n as i64);
            push_str(&mut m, " device(s)");
            check(concat_parts(&["database"]), "pass", m, Some(latency))
        },
        Err(e) => check(concat_parts(&["database"]), "fail", concat_parts(&["SQLite error: ", e.as_str()]), Some(latency)),
    }
}

/// How the TCP probe of a device's port 80 ended.
pub enum TcpOutcome {
    Open,
    Refused(String),
    TimedOut,
}

/// Whether a device's HTTP and DNS probes run after its TCP probe: only when port 80 was
/// open; a refused or timed-out connection ends the device's checks.
pub fn probes_continue(outcome: &TcpOutcome) -> (r: bool)
    ensures
        r == (*outcome is Open),
{
    match outcome {
        TcpOutcome::Open => true,
        _ => false,
    }
}

/// The TCP check of device `name` at `ip`.
pub open spec fn tcp_check_spec(name: Seq<char>, ip: Seq<char>, outcome: TcpOutcome, latency: u64) -> CheckView {
    let n = name + " - tcp:80"@;
    match outcome {
        TcpOutcome::Open => (n, "pass"@, "Port 80 open on "@ + ip, Some(latency)),
        TcpOutcome::Refused(e) => (n, "fail"@, "Connection refused: "@ + e@, Some(latency)),
        TcpOutcome::TimedOut => (n, "fail"@, "Connection timeout ("@ + ip + ":80)"@, Some(latency)),
    }
}

/// Reports the TCP probe of a device (see `probes_continue` for what follows it).
pub fn tcp_check(name: &str, ip: &str, outcome: &TcpOutcome, latency: u64) -> (c: Check)
    ensures
        check_view(c) == tcp_check_spec(name@, ip@, *outcome, latency),
{
    proof {
        reveal_with_fuel(concat_all, 4);
    }
    let n = concat_parts(&[name, " - tcp:80"]);
    match outcome {
        TcpOutcome::Open => check(n, "pass", concat_parts(&["Port 80 open on ", ip]), Some(latency)),
        TcpOutcome::Refused(e) => check(n, "fail", concat_parts(&["Connection refused: ", e.as_str()]), Some(latency)),
        TcpOutcome::TimedOut => check(n, "fail", concat_parts(&["Connection timeout (", ip, ":80)"]), Some(latency)),
    }
}

/// How the HTTP status probe of a device ended.
pub enum HttpOutcome {
    /// An answer: its status code, the code as displayed (`200 OK`), and its body when that
    /// is JSON.
    Answered { status: u16, shown: String, body: Option<JsonValue> },
    Failed(String),
}

/// `body[key].as_str()`, or `?`.
pub open spec fn field_or_unknown(body: JsonValue, key: Seq<char>) -> Seq<char> {
    or_else(opt_str(json_get(json_of(body), key)), "?"@)
}

/// The HTTP check of device `name`.
pub open spec fn http_check_spec(name: Seq<char>, outcome: HttpOutcome, latency: u64) -> CheckView {
    let n = name + " - http"@;
    match outcome {
        HttpOutcome::Answered { status, shown, body } => if 200 <= status <= 299 {
            match body {
                Some(b) => (n, "pass"@, "HTTP OK - state: "@ + field_or_unknown(b, "state"@) + ", fw: "@
                    + field_or_unknown(b, "firmware_version"@), Some(latency)),
                None => (n, "warn"@, "HTTP "@ + shown@ + " but invalid JSON body"@, Some(latency)),
            }
        } else {
            (n, "fail"@, "HTTP "@ + shown@, Some(latency))
        },
        HttpOutcome::Failed(e) => (n, "fail"@, "HTTP error: "@ + e@, Some(latency)),
    }
}

fn field_text<'a>(body: &'a JsonValue, key: &str) -> (t: &'a str)
    ensures
        t@ == field_or_unknown(*body, key@),
{
    match as_str(get(body, key)) {
        Some(s) => s,
        None => "?",
    }
}

/// Reports the HTTP status probe.
pub fn http_check(name: &str, outcome: &HttpOutcome, latency: u64) -> (c: Check)
    ensures
        check_view(c) == http_check_spec(name@, *outcome, latency),
{
    proof {
        reveal_with_fuel(concat_all, 5);
    }
    let n = concat_parts(&[name, " - http"]);
    match outcome {
        HttpOutcome::Answered { status, shown, body } => {
            if 200 <= *status && *status <= 299 {
                match body {
                    Some(b) => check(
                        n,
                        "pass",
                        concat_parts(&["HTTP OK - state: ", field_text(b, "state"), ", fw: ", field_text(b, "firmware_version")]),
                        Some(latency),
                    ),
                    None => check(n, "warn", concat_parts(&["HTTP ", shown.as_str(), " but invalid JSON body"]), Some(latency)),
                }
            } else {
                check(n, "fail", concat_parts(&["HTTP ", shown.as_str()]), Some(latency))
            }
        },
        HttpOutcome::Failed(e) => check(n, "fail", concat_parts(&["HTTP error: ", e.as_str()]), Some(latency)),
    }
}

/// The DNS check of device `name`: the first address it resolves to, no check when it
/// resolves to none, a warning when the lookup fails.
pub open spec fn dns_check_spec(name: Seq<char>, outcome: Result<Option<Seq<char>>, Seq<char>>, latency: u64) -> Seq<CheckView> {
    let n = name + " - dns"@;
    match outcome {
        Ok(Some(addr)) => seq![(n, "pass"@, "Resolves to "@ + addr, Some(latency))],
        Ok(None) => Seq::empty(),
        Err(e) => seq![(n, "warn"@, "DNS lookup failed: "@ + e, Some(latency))],
    }
}

/// Reports the DNS probe.
pub fn dns_check(name: &str, outcome: &Result<Option<String>, String>, latency: u64) -> (r: Vec<Check>)
    ensures
        checks_view(r@) == dns_check_spec(
            name@,
            match outcome {
                Ok(Some(a)) => Ok(Some(a@)),
                Ok(None) => Ok(None),
                Err(e) => Err(e@),
            },
            latency,
        ),
{
    proof {
        reveal_with_fuel(concat_all, 3);
    }
    let mut out: Vec<Check> = Vec::new();
    match outcome {
        Ok(Some(a)) => out.push(check(concat_parts(&[name, " - dns"]), "pass", concat_parts(&["Resolves to ", a.as_str()]), Some(latency))),
        Ok(None) => {},
        Err(e) => out.push(check(concat_parts(&[name, " - dns"]), "warn", concat_parts(&["DNS lookup failed: ", e.as_str()]), Some(latency))),
    }
    assert(checks_view(out@) =~= dns_check_spec(
        name@,
        match outcome {
            Ok(Some(a)) => Ok(Some(a@)),
            Ok(None) => Ok(None),
            Err(e) => Err(e@),
        },
        latency,
    ));
    out
}

/// The warning given when no device is registered.
pub fn no_devices_check() -> (c: Check)
    ensures
        check_view(c) == ("devices"@, "warn"@, "No devices registered"@, None::<u64>),
{
    proof {
        reveal_with_fuel(concat_all, 2);
    }
    check(concat_parts(&["devices"]), "warn", concat_parts(&["No devices registered"]), None)
}

/// The firmware directory check: `files` is how many entries the directory holds, or `None`
/// when it does not exist.
pub open spec fn firmware_dir_spec(dir: Seq<char>, files: Option<u64>) -> CheckView {
    match files {
        Some(n) => ("firmware_dir"@, "pass"@, dir + " exists ("@ + decimal(n as nat) + " files)"@, None),
        None => ("firmware_dir"@, "warn"@, dir + " does not exist"@, None),
    }
}

/// Reports the firmware directory.
pub fn firmware_dir_check(dir: &str, files: Option<u64>) -> (c: Check)
    ensures
        check_view(c) == firmware_dir_spec(dir@, files),
{
    proof {
        reveal_with_fuel(concat_all, 3);
    }
    match files {
        Some(n) => {
            let mut m = concat_parts(&[dir, " exists ("]);
            push_decimal(&mut m, n);
            push_str(&mut m, " files)");
            check(concat_parts(&["firmware_dir"]), "pass", m, None)
        },
        None => check(concat_parts(&["firmware_dir"]), "warn", concat_parts(&[dir, " does not exist"]), None),
    }
}

} // verus!
