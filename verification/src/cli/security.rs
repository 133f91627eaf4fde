//! Security audit of a running server: what each probe's response means.
use vstd::prelude::*;
use crate::config::opt_view;
use crate::json::{get, json_get, json_of, Json, JsonValue};
use crate::text::{
    chars_of, contains_seq, decimal, first_pos, lemma_first_pos_bounds, push_decimal, push_str,
    str_contains, str_eq, string_of, trim, trim_chars, copy_range, find_first, starts_with,
    lowercase_spec, to_lowercase, concat_all, concat_parts, join,
};

verus! {

broadcast use vstd::string::group_string_axioms;

/// One audit finding.
pub struct Finding {
    pub severity: Severity,
    pub category: String,
    pub title: String,
    pub detail: String,
    pub remediation: String,
}

/// How serious a finding is, from least to most.
#[derive(Clone, Copy, PartialEq, Eq, Structural, Debug)]
pub enum Severity {
    Info,
    Low,
    Medium,
    High,
    Critical,
}

/// The position of a severity in the order `Info < Low < Medium < High < Critical`.
pub open spec fn rank(s: Severity) -> int {
    match s {
        Severity::Info => 0,
        Severity::Low => 1,
        Severity::Medium => 2,
        Severity::High => 3,
        Severity::Critical => 4,
    }
}

/// A severity's name as reports print it.
pub open spec fn severity_label(s: Severity) -> Seq<char> {
    match s {
        Severity::Info => "INFO"@,
        Severity::Low => "LOW"@,
        Severity::Medium => "MEDIUM"@,
        Severity::High => "HIGH"@,
        Severity::Critical => "CRITICAL"@,
    }
}

impl Severity {
    /// The severity's name: `INFO`, `LOW`, `MEDIUM`, `HIGH` or `CRITICAL`.
    pub fn label(&self) -> (s: &'static str)
        ensures
            s@ == severity_label(*self),
    {
        match self {
            Severity::Info => "INFO",
            Severity::Low => "LOW",
            Severity::Medium => "MEDIUM",
            Severity::High => "HIGH",
            Severity::Critical => "CRITICAL",
        }
    }
}

/// A finding as plain values: severity, category, title, detail, remediation.
pub type FindingView = (Severity, Seq<char>, Seq<char>, Seq<char>, Seq<char>);

pub open spec fn finding_view(f: Finding) -> FindingView {
    (f.severity, f.category@, f.title@, f.detail@, f.remediation@)
}

pub open spec fn findings_view(v: Seq<Finding>) -> Seq<FindingView> {
    Seq::new(v.len(), |i: int| finding_view(v[i]))
}

fn finding(severity: Severity, category: &str, title: Vec<char>, detail: Vec<char>, remediation: &str) -> (f: Finding)
    ensures
        finding_view(f) == (severity, category@, title@, detail@, remediation@),
{
    Finding {
        severity,
        category: category.to_string(),
        title: string_of(title.as_slice()),
        detail: string_of(detail.as_slice()),
        remediation: remediation.to_string(),
    }
}

fn copy_finding(f: &Finding) -> (r: Finding)
    ensures
        finding_view(r) == finding_view(*f),
{
    Finding {
        severity: f.severity,
        category: f.category.clone(),
        title: f.title.clone(),
        detail: f.detail.clone(),
        remediation: f.remediation.clone(),
    }
}

// ---------------------------------------------------------------------------
// Selecting checks, ordering and scoring findings

/// `char::to_ascii_lowercase`.
pub open spec fn ascii_lower(c: char) -> char {
    if 'A' <= c <= 'Z' {
        ((c as u32) + 32) as char
    } else {
        c
    }
}

/// `str::eq_ignore_ascii_case`.
pub open spec fn eq_ignore_ascii_case(a: Seq<char>, b: Seq<char>) -> bool {
    a.len() == b.len() && forall|i: int| 0 <= i < a.len() ==> ascii_lower(#[trigger] a[i]) == ascii_lower(b[i])
}

fn lower_char(c: char) -> (r: char)
    ensures
        r == ascii_lower(c),
{
    if 'A' <= c && c <= 'Z' {
        ((c as u8) + 32) as char
    } else {
        c
    }
}

fn eq_ignore_case(a: &[char], b: &[char]) -> (r: bool)
    ensures
        r == eq_ignore_ascii_case(a@, b@),
{
    if a.len() != b.len() {
        return false;
    }
    let mut i: usize = 0;
    while i < a.len()
        invariant
            a@.len() == b@.len(),
            i <= a@.len(),
            forall|j: int| 0 <= j < i ==> ascii_lower(#[trigger] a@[j]) == ascii_lower(b@[j]),
        decreases a@.len() - i,
    {
        if lower_char(a[i]) != lower_char(b[i]) {
            return false;
        }
        i = i + 1;
    }
    true
}

/// The trimmed pieces of `s` between commas, empty ones included (`split(',')` then `trim`).
pub open spec fn comma_pieces(s: Seq<char>) -> Seq<Seq<char>>
    decreases s.len(),
{
    let p = first_pos(s, ',');
    if p < 0 {
        seq![trim(s)]
    } else {
        proof {
            lemma_first_pos_bounds(s, ',');
        }
        seq![trim(s.take(p))] + comma_pieces(s.skip(p + 1))
    }
}

/// Whether one of the comma-separated names in `list` is `check`, ignoring ASCII case.
pub open spec fn names_check(list: Seq<char>, check: Seq<char>) -> bool {
    exists|i: int| 0 <= i < comma_pieces(list).len() && eq_ignore_ascii_case(#[trigger] comma_pieces(list)[i], check)
}

fn list_names(list: &str, check: &str) -> (r: bool)
    ensures
        r == names_check(list@, check@),
{
    let cs = chars_of(list);
    let want = chars_of(check);
    let mut pos: usize = 0;
    let ghost mut done: Seq<Seq<char>> = Seq::empty();
    assert(cs@.skip(0) =~= cs@);
    loop
        invariant
            pos <= cs@.len(),
            cs@ == list@,
            want@ == check@,
            comma_pieces(list@) == done + comma_pieces(cs@.skip(pos as int)),
            forall|i: int| 0 <= i < done.len() ==> !eq_ignore_ascii_case(#[trigger] done[i], check@),
        decreases cs@.len() + 1 - pos,
    {
        let rest = &cs.as_slice()[pos..cs.len()];
        assert(rest@ =~= cs@.skip(pos as int));
        let p = find_first(rest, ',');
        proof {
            lemma_first_pos_bounds(rest@, ',');
        }
        let end = match p {
            Some(k) => k,
            None => rest.len(),
        };
        let seg = &rest[0..end];
        proof {
            if p is None {
                assert(seg@ =~= rest@);
            } else {
                assert(seg@ =~= rest@.take(end as int));
            }
        }
        let t = trim_chars(seg);
        if eq_ignore_case(t.as_slice(), want.as_slice()) {
            assert(comma_pieces(list@)[done.len() as int] == t@);
            return true;
        }
        proof {
            done = done.push(t@);
        }
        match p {
            None => {
                assert(comma_pieces(list@) =~= done);
                return false;
            },
            Some(k) => {
                assert(rest@.skip(k + 1) =~= cs@.skip(pos + k + 1));
                assert(comma_pieces(list@) =~= done + comma_pieces(cs@.skip(pos + k + 1)));
                pos = pos + k + 1;
            },
        }
    }
}

/// Whether a check runs: when `only` is given, exactly the checks it names; otherwise
/// every check that `skip` does not name.
pub open spec fn should_run_spec(check: Seq<char>, only: Option<Seq<char>>, skip: Option<Seq<char>>) -> bool {
    match only {
        Some(o) => names_check(o, check),
        None => match skip {
            Some(s) => !names_check(s, check),
            None => true,
        },
    }
}

/// Whether the check named `check` runs under the `--only` and `--skip` lists.
pub fn should_run(check: &str, only: Option<&str>, skip: Option<&str>) -> (r: bool)
    ensures
        r == should_run_spec(
            check@,
            match only {
                Some(o) => Some(o@),
                None => None,
            },
            match skip {
                Some(s) => Some(s@),
                None => None,
            },
        ),
{
    if let Some(o) = only {
        return list_names(o, check);
    }
    if let Some(s) = skip {
        return !list_names(s, check);
    }
    true
}

/// The findings of rank `r`, in their order.
pub open spec fn with_rank(f: Seq<FindingView>, r: int) -> Seq<FindingView>
    decreases f.len(),
{
    if f.len() == 0 {
        Seq::empty()
    } else {
        with_rank(f.drop_last(), r) + if rank(f.last().0) == r {
            seq![f.last()]
        } else {
            Seq::empty()
        }
    }
}

/// The findings ordered from most to least severe, keeping the order among equals.
pub open spec fn by_severity(f: Seq<FindingView>) -> Seq<FindingView> {
    with_rank(f, 4) + with_rank(f, 3) + with_rank(f, 2) + with_rank(f, 1) + with_rank(f, 0)
}

fn append_rank(out: &mut Vec<Finding>, f: &[Finding], r: u8)
    requires
        r <= 4,
    ensures
        findings_view(final(out)@) == findings_view(old(out)@) + with_rank(findings_view(f@), r as int),
{
    let ghost start = findings_view(out@);
    let mut i: usize = 0;
    while i < f.len()
        invariant
            i <= f@.len(),
            r <= 4,
            findings_view(out@) == start + with_rank(findings_view(f@.take(i as int)), r as int),
        decreases f@.len() - i,
    {
        let ghost before = out@;
        assert(findings_view(f@.take(i + 1)).drop_last() =~= findings_view(f@.take(i as int)));
        let k: u8 = match f[i].severity {
            Severity::Info => 0,
            Severity::Low => 1,
            Severity::Medium => 2,
            Severity::High => 3,
            Severity::Critical => 4,
        };
        if k == r {
            out.push(copy_finding(&f[i]));
            assert(findings_view(out@) =~= findings_view(before).push(finding_view(f@[i as int])));
        }
        i = i + 1;
    }
    assert(f@.take(f@.len() as int) =~= f@);
}

/// The findings from most to least severe; findings of equal severity keep their order.
pub fn sort_by_severity(findings: &[Finding]) -> (sorted: Vec<Finding>)
    ensures
        findings_view(sorted@) == by_severity(findings_view(findings@)),
{
    let mut out: Vec<Finding> = Vec::new();
    assert(findings_view(out@) =~= Seq::<FindingView>::empty());
    append_rank(&mut out, findings, 4);
    append_rank(&mut out, findings, 3);
    append_rank(&mut out, findings, 2);
    append_rank(&mut out, findings, 1);
    append_rank(&mut out, findings, 0);
    let ghost f = findings_view(findings@);
    assert(findings_view(out@) =~= by_severity(f));
    out
}

/// How many findings have severity `s`.
pub fn count_severity(findings: &[Finding], s: Severity) -> (n: usize)
    ensures
        n == with_rank(findings_view(findings@), rank(s)).len(),
{
    let mut n: usize = 0;
    let mut i: usize = 0;
    while i < findings.len()
        invariant
            i <= findings@.len(),
            n == with_rank(findings_view(findings@.take(i as int)), rank(s)).len(),
            n <= i,
        decreases findings@.len() - i,
    {
        assert(findings_view(findings@.take(i + 1)).drop_last() =~= findings_view(findings@.take(i as int)));
        if findings[i].severity == s {
            n = n + 1;
        }
        i = i + 1;
    }
    assert(findings@.take(findings@.len() as int) =~= findings@);
    n
}

/// Points a finding of severity `s` takes off the score.
pub open spec fn penalty(s: Severity) -> nat {
    match s {
        Severity::Critical => 25,
        Severity::High => 15,
        Severity::Medium => 8,
        Severity::Low => 3,
        Severity::Info => 0,
    }
}

/// The total penalty of a list of findings.
pub open spec fn total_penalty(f: Seq<FindingView>) -> nat
    decreases f.len(),
{
    if f.len() == 0 {
        0
    } else {
        total_penalty(f.drop_last()) + penalty(f.last().0)
    }
}

/// The security score: 100 less the penalties, and never below zero.
pub open spec fn score_spec(f: Seq<FindingView>) -> nat {
    if total_penalty(f) >= 100 {
        0
    } else {
        (100 - total_penalty(f)) as nat
    }
}

/// The audit's score out of 100.
pub fn compute_score(findings: &[Finding]) -> (score: u32)
    ensures
        score == score_spec(findings_view(findings@)),
{
    let mut penalty_sum: u32 = 0;
    let mut i: usize = 0;
    while i < findings.len()
        invariant
            i <= findings@.len(),
            total_penalty(findings_view(findings@.take(i as int))) >= 100 ==> penalty_sum == 100,
            total_penalty(findings_view(findings@.take(i as int))) < 100 ==> penalty_sum
                == total_penalty(findings_view(findings@.take(i as int))),
        decreases findings@.len() - i,
    {
        assert(findings_view(findings@.take(i + 1)).drop_last() =~= findings_view(findings@.take(i as int)));
        let p: u32 = match findings[i].severity {
            Severity::Critical => 25,
            Severity::High => 15,
            Severity::Medium => 8,
            Severity::Low => 3,
            Severity::Info => 0,
        };
        if penalty_sum + p >= 100 {
            penalty_sum = 100;
        } else {
            penalty_sum = penalty_sum + p;
        }
        i = i + 1;
    }
    assert(findings@.take(findings@.len() as int) =~= findings@);
    100 - penalty_sum
}


/// Sorting by severity neither drops nor adds a finding.
pub proof fn lemma_sort_keeps_count(f: Seq<FindingView>)
    ensures
        by_severity(f).len() == f.len(),
    decreases f.len(),
{
    if f.len() > 0 {
        lemma_sort_keeps_count(f.drop_last());
        let r = rank(f.last().0);
        assert(0 <= r <= 4);
    }
}

/// How severe a finding is, from informational (0) to critical (4).
pub open spec fn severity_weight(s: Severity) -> int {
    match s {
        Severity::Critical => 4,
        Severity::High => 3,
        Severity::Medium => 2,
        Severity::Low => 1,
        Severity::Info => 0,
    }
}

proof fn lemma_with_rank_members(f: Seq<FindingView>, r: int)
    ensures
        forall|i: int| 0 <= i < with_rank(f, r).len() ==> rank((#[trigger] with_rank(f, r)[i]).0) == r,
    decreases f.len(),
{
    if f.len() > 0 {
        lemma_with_rank_members(f.drop_last(), r);
        let pre = with_rank(f.drop_last(), r);
        assert forall|i: int| 0 <= i < with_rank(f, r).len() implies rank((#[trigger] with_rank(f, r)[i]).0) == r by {
            if i < pre.len() {
                assert(with_rank(f, r)[i] == pre[i]);
            }
        }
    }
}

/// The ordered findings run from most to least severe: critical, then high, medium, low,
/// and informational last.
pub proof fn lemma_sorted_most_severe_first(f: Seq<FindingView>)
    ensures
        forall|i: int, j: int|
            0 <= i < j < by_severity(f).len() ==> severity_weight((#[trigger] by_severity(f)[i]).0)
                >= severity_weight((#[trigger] by_severity(f)[j]).0),
{
    let b4 = with_rank(f, 4);
    let b3 = with_rank(f, 3);
    let b2 = with_rank(f, 2);
    let b1 = with_rank(f, 1);
    let b0 = with_rank(f, 0);
    lemma_with_rank_members(f, 4);
    lemma_with_rank_members(f, 3);
    lemma_with_rank_members(f, 2);
    lemma_with_rank_members(f, 1);
    lemma_with_rank_members(f, 0);
    let s = by_severity(f);
    let e1 = b4.len() as int;
    let e2 = e1 + b3.len();
    let e3 = e2 + b2.len();
    let e4 = e3 + b1.len();
    assert forall|i: int| 0 <= i < s.len() implies severity_weight((#[trigger] s[i]).0) == (if i < e1 {
        4int
    } else if i < e2 {
        3int
    } else if i < e3 {
        2int
    } else if i < e4 {
        1int
    } else {
        0int
    }) by {
        if i < e1 {
            assert(s[i] == b4[i]);
        } else if i < e2 {
            assert(s[i] == b3[i - e1]);
        } else if i < e3 {
            assert(s[i] == b2[i - e2]);
        } else if i < e4 {
            assert(s[i] == b1[i - e3]);
        } else {
            assert(s[i] == b0[i - e4]);
        }
        let w = s[i].0;
        assert(severity_weight(w) == rank(w));
    }
}

/// The score is at most 100, and it is 100 exactly when no finding carries a penalty.
pub proof fn lemma_score_bounds(f: Seq<FindingView>)
    ensures
        score_spec(f) <= 100,
        score_spec(f) == 100 <==> (forall|i: int| 0 <= i < f.len() ==> penalty(#[trigger] f[i].0) == 0),
    decreases f.len(),
{
    if f.len() > 0 {
        lemma_score_bounds(f.drop_last());
        lemma_total_penalty_zero(f);
    } else {
    }
}

/// How many of the findings have severity `s`.
pub open spec fn severity_count(f: Seq<FindingView>, s: Severity) -> nat
    decreases f.len(),
{
    if f.len() == 0 {
        0
    } else {
        severity_count(f.drop_last(), s) + if f.last().0 == s {
            1nat
        } else {
            0nat
        }
    }
}

/// The score is 100 less 25 for each critical, 15 for each high, 8 for each medium and 3 for
/// each low finding (informational ones cost nothing), and never below zero: one medium
/// finding scores 92, one low finding 97.
pub proof fn lemma_score_formula(f: Seq<FindingView>)
    ensures
        score_spec(f) == ({
            let p = 25 * severity_count(f, Severity::Critical) + 15 * severity_count(f, Severity::High) + 8
                * severity_count(f, Severity::Medium) + 3 * severity_count(f, Severity::Low);
            if p >= 100 {
                0
            } else {
                100 - p
            }
        }),
{
    lemma_penalty_counts(f);
}

proof fn lemma_penalty_counts(f: Seq<FindingView>)
    ensures
        total_penalty(f) == 25 * severity_count(f, Severity::Critical) + 15 * severity_count(f, Severity::High) + 8
            * severity_count(f, Severity::Medium) + 3 * severity_count(f, Severity::Low),
    decreases f.len(),
{
    if f.len() > 0 {
        lemma_penalty_counts(f.drop_last());
    }
}

proof fn lemma_total_penalty_zero(f: Seq<FindingView>)
    ensures
        total_penalty(f) == 0 <==> (forall|i: int| 0 <= i < f.len() ==> penalty(#[trigger] f[i].0) == 0),
    decreases f.len(),
{
    if f.len() > 0 {
        lemma_total_penalty_zero(f.drop_last());
        if total_penalty(f) == 0 {
            assert forall|i: int| 0 <= i < f.len() implies penalty(#[trigger] f[i].0) == 0 by {
                if i < f.len() - 1 {
                    assert(f.drop_last()[i] == f[i]);
                }
            }
        } else {
            if penalty(f.last().0) == 0 {
                let k = choose|i: int| 0 <= i < f.drop_last().len() && penalty(#[trigger] f.drop_last()[i].0) != 0;
                assert(f[k] == f.drop_last()[k]);
            }
        }
    }
}

// ---------------------------------------------------------------------------
// Reading probe responses

/// A response header: its (lowercase) name and its value when that is visible ASCII.
pub struct HeaderField {
    pub name: String,
    pub value: Option<String>,
}

/// The first header named `name`: `Some(value text, if readable)`, or `None` when absent.
pub open spec fn header_get(hs: Seq<HeaderField>, name: Seq<char>) -> Option<Option<Seq<char>>>
    decreases hs.len(),
{
    if hs.len() == 0 {
        None
    } else if hs[0].name@ == name {
        Some(opt_view(hs[0].value))
    } else {
        header_get(hs.drop_first(), name)
    }
}

/// `headers.get(name).and_then(|v| v.to_str().ok())`.
pub open spec fn header_str(hs: Seq<HeaderField>, name: Seq<char>) -> Option<Seq<char>> {
    match header_get(hs, name) {
        Some(Some(t)) => Some(t),
        _ => None,
    }
}

fn lookup<'a>(hs: &'a [HeaderField], name: &str) -> (r: Option<&'a HeaderField>)
    ensures
        match r {
            Some(h) => header_get(hs@, name@) == Some(opt_view(h.value)),
            None => header_get(hs@, name@) is None,
        },
{
    let mut i: usize = 0;
    assert(hs@.skip(0) =~= hs@);
    while i < hs.len()
        invariant
            i <= hs@.len(),
            header_get(hs@, name@) == header_get(hs@.skip(i as int), name@),
        decreases hs@.len() - i,
    {
        assert(hs@.skip(i as int)[0] == hs@[i as int]);
        assert(hs@.skip(i as int).drop_first() =~= hs@.skip(i + 1));
        if str_eq(hs[i].name.as_str(), name) {
            return Some(&hs[i]);
        }
        i = i + 1;
    }
    None
}

fn header_text<'a>(hs: &'a [HeaderField], name: &str) -> (r: Option<&'a str>)
    ensures
        match r {
            Some(t) => header_str(hs@, name@) == Some(t@),
            None => header_str(hs@, name@) is None,
        },
{
    match lookup(hs, name) {
        Some(h) => match &h.value {
            Some(v) => Some(v.as_str()),
            None => None,
        },
        None => None,
    }
}

/// A Cloudflare "origin unreachable" status.
pub open spec fn is_down_spec(status: u16) -> bool {
    status == 522 || status == 521 || status == 523 || status == 520
}

/// Whether a status says the origin behind Cloudflare is down.
pub fn is_down(status: u16) -> (r: bool)
    ensures
        r == is_down_spec(status),
{
    status == 522 || status == 521 || status == 523 || status == 520
}

/// A finding's view.
pub open spec fn fv(sev: Severity, cat: Seq<char>, title: Seq<char>, detail: Seq<char>, fix: Seq<char>) -> FindingView {
    (sev, cat, title, detail, fix)
}

/// The finding for a missing security header, if it is missing.
pub open spec fn missing_header(hs: Seq<HeaderField>, label: Seq<char>, url: Seq<char>, name: Seq<char>, sev: Severity, fix: Seq<char>) -> Seq<FindingView> {
    if header_get(hs, name) is Some {
        Seq::empty()
    } else {
        seq![fv(sev, "A05:Security Misconfiguration"@, label + ": Missing "@ + name, "The "@ + name + " header is not set on "@ + url, fix)]
    }
}

/// What a page's response headers show: each missing security header, a CSP that allows
/// unsafe code, a `Server` header that gives a version, and an `X-Powered-By` header.
pub open spec fn header_findings_spec(label: Seq<char>, url: Seq<char>, status: u16, hs: Seq<HeaderField>) -> Seq<FindingView> {
    if is_down_spec(status) {
        Seq::empty()
    } else {
        let cat = "A05:Security Misconfiguration"@;
        let csp = match header_str(hs, "content-security-policy"@) {
            Some(c) => if contains_seq(c, "unsafe-inline"@) || contains_seq(c, "unsafe-eval"@) {
                seq![fv(Severity::Medium, cat, label + ": Weak CSP policy"@, "CSP contains unsafe directives: "@ + c, "Remove 'unsafe-inline' and 'unsafe-eval' from CSP."@)]
            } else {
                Seq::empty()
            },
            None => Seq::empty(),
        };
        let server = match header_str(hs, "server"@) {
            Some(v) => if contains_seq(v, "/"@) && !(v.len() >= 10 && v.take(10) == "cloudflare"@) {
                seq![fv(Severity::Low, cat, label + ": Server version disclosed"@, "Server header reveals: "@ + v, "Remove version info from Server header."@)]
            } else {
                Seq::empty()
            },
            None => Seq::empty(),
        };
        let powered = match header_str(hs, "x-powered-by"@) {
            Some(v) => seq![fv(Severity::Low, cat, label + ": Technology stack disclosed"@, "X-Powered-By: "@ + v, "Remove the X-Powered-By header."@)],
            None => Seq::empty(),
        };
        missing_header(hs, label, url, "strict-transport-security"@, Severity::High, "Add Strict-Transport-Security: max-age=31536000; includeSubDomains"@)
            + missing_header(hs, label, url, "content-security-policy"@, Severity::High, "Add Content-Security-Policy: default-src 'self'; script-src 'self'"@)
            + missing_header(hs, label, url, "x-frame-options"@, Severity::Medium, "Add X-Frame-Options: DENY to prevent clickjacking"@)
            + missing_header(hs, label, url, "x-content-type-options"@, Severity::Low, "Add X-Content-Type-Options: nosniff"@)
            + missing_header(hs, label, url, "referrer-policy"@, Severity::Low, "Add Referrer-Policy: strict-origin-when-cross-origin"@)
            + missing_header(hs, label, url, "permissions-policy"@, Severity::Low, "Add Permissions-Policy: camera=(), microphone=(), geolocation=()"@)
            + csp + server + powered
    }
}

fn check_missing(out: &mut Vec<Finding>, hs: &[HeaderField], label: &str, url: &str, name: &str, sev: Severity, fix: &str)
    ensures
        findings_view(final(out)@) == findings_view(old(out)@) + missing_header(hs@, label@, url@, name@, sev, fix@),
{
    let ghost before = out@;
    if lookup(hs, name).is_none() {
        let f = finding(
            sev,
            "A05:Security Misconfiguration",
            concat_parts(&[label, ": Missing ", name]),
            concat_parts(&[
                "The ",
                name,
                " header is not set on ",
                url,
            ]),
            fix,
        );
        out.push(f);
        proof {
            reveal_with_fuel(concat_all, 5);
        }
        assert(findings_view(out@) =~= findings_view(before) + missing_header(hs@, label@, url@, name@, sev, fix@));
    } else {
        assert(findings_view(out@) =~= findings_view(before) + missing_header(hs@, label@, url@, name@, sev, fix@));
    }
}

/// The findings on a page's security headers (`label` names the page in titles).
pub fn security_header_findings(label: &str, url: &str, status: u16, hs: &[HeaderField]) -> (r: Vec<Finding>)
    ensures
        findings_view(r@) == header_findings_spec(label@, url@, status, hs@),
{
    let mut out: Vec<Finding> = Vec::new();
    if is_down(status) {
        assert(findings_view(out@) =~= Seq::<FindingView>::empty());
        return out;
    }
    assert(findings_view(out@) =~= Seq::<FindingView>::empty());
    check_missing(&mut out, hs, label, url, "strict-transport-security", Severity::High, "Add Strict-Transport-Security: max-age=31536000; includeSubDomains");
    check_missing(&mut out, hs, label, url, "content-security-policy", Severity::High, "Add Content-Security-Policy: default-src 'self'; script-src 'self'");
    check_missing(&mut out, hs, label, url, "x-frame-options", Severity::Medium, "Add X-Frame-Options: DENY to prevent clickjacking");
    check_missing(&mut out, hs, label, url, "x-content-type-options", Severity::Low, "Add X-Content-Type-Options: nosniff");
    check_missing(&mut out, hs, label, url, "referrer-policy", Severity::Low, "Add Referrer-Policy: strict-origin-when-cross-origin");
    check_missing(&mut out, hs, label, url, "permissions-policy", Severity::Low, "Add Permissions-Policy: camera=(), microphone=(), geolocation=()");
    let ghost after_missing = findings_view(out@);
    let cat = "A05:Security Misconfiguration";
    let mut extra: Vec<Finding> = Vec::new();
    if let Some(c) = header_text(hs, "content-security-policy") {
        if str_contains(c, "unsafe-inline") || str_contains(c, "unsafe-eval") {
            extra.push(finding(Severity::Medium, cat, concat_parts(&[label, ": Weak CSP policy"]), concat_parts(&["CSP contains unsafe directives: ", c]), "Remove 'unsafe-inline' and 'unsafe-eval' from CSP."));
        }
    }
    let ghost after_csp = findings_view(extra@);
    if let Some(v) = header_text(hs, "server") {
        let vc = chars_of(v);
        let cf = chars_of("cloudflare");
        proof {
            reveal_strlit("cloudflare");
        }
        if str_contains(v, "/") && !starts_with(vc.as_slice(), cf.as_slice()) {
            extra.push(finding(Severity::Low, cat, concat_parts(&[label, ": Server version disclosed"]), concat_parts(&["Server header reveals: ", v]), "Remove version info from Server header."));
        }
    }
    let ghost after_server = findings_view(extra@);
    if let Some(v) = header_text(hs, "x-powered-by") {
        extra.push(finding(Severity::Low, cat, concat_parts(&[label, ": Technology stack disclosed"]), concat_parts(&["X-Powered-By: ", v]), "Remove the X-Powered-By header."));
    }
    proof {
        reveal_with_fuel(concat_all, 3);
    }
    let ghost ev = findings_view(extra@);
    let ghost spec = header_findings_spec(label@, url@, status, hs@);
    assert(ev =~= spec.skip(after_missing.len() as int)) by {
        assert(after_csp.len() <= after_server.len());
    }
    let mut k: usize = 0;
    let ghost base = findings_view(out@);
    while k < extra.len()
        invariant
            k <= extra@.len(),
            findings_view(out@) == base + findings_view(extra@).take(k as int),
        decreases extra@.len() - k,
    {
        let ghost before = out@;
        out.push(copy_finding(&extra[k]));
        assert(findings_view(out@) =~= findings_view(before).push(finding_view(extra@[k as int])));
        assert(findings_view(out@) =~= base + findings_view(extra@).take(k + 1));
        k = k + 1;
    }
    assert(findings_view(extra@).take(extra@.len() as int) =~= findings_view(extra@));
    assert(findings_view(out@) =~= spec);
    out
}


/// What a CORS probe from a foreign origin shows: a wildcard or reflected origin, which is
/// critical when credentials are allowed too.
pub open spec fn cors_findings_spec(status: u16, hs: Seq<HeaderField>) -> Seq<FindingView> {
    let acao = match header_str(hs, "access-control-allow-origin"@) {
        Some(v) => v,
        None => ""@,
    };
    if is_down_spec(status) || !(acao == "*"@ || acao == "https://evil-attacker.com"@) {
        Seq::empty()
    } else {
        let creds = header_str(hs, "access-control-allow-credentials"@) == Some("true"@);
        let sev = if creds {
            Severity::Critical
        } else {
            Severity::High
        };
        let detail = if creds {
            "CORS allows '"@ + acao + "' WITH credentials \u{2014} any site can make authenticated requests."@
        } else {
            "CORS allows origin '"@ + acao + "' \u{2014} cross-origin requests possible."@
        };
        seq![fv(sev, "A01:Broken Access Control"@, "Permissive CORS policy"@, detail, "Set ALLOWED_ORIGINS to your frontend domain(s) only."@)]
    }
}

fn text_or_empty<'a>(hs: &'a [HeaderField], name: &str) -> (t: &'a str)
    ensures
        t@ == match header_str(hs@, name@) {
            Some(v) => v,
            None => ""@,
        },
{
    match header_text(hs, name) {
        Some(v) => v,
        None => "",
    }
}

/// The finding of a CORS probe sent with a foreign `Origin`.
pub fn cors_findings(status: u16, hs: &[HeaderField]) -> (r: Vec<Finding>)
    ensures
        findings_view(r@) == cors_findings_spec(status, hs@),
{
    let mut out: Vec<Finding> = Vec::new();
    let acao = text_or_empty(hs, "access-control-allow-origin");
    if is_down(status) || !(str_eq(acao, "*") || str_eq(acao, "https://evil-attacker.com")) {
        assert(findings_view(out@) =~= cors_findings_spec(status, hs@));
        return out;
    }
    let creds = match header_text(hs, "access-control-allow-credentials") {
        Some(v) => str_eq(v, "true"),
        None => false,
    };
    let sev = if creds {
        Severity::Critical
    } else {
        Severity::High
    };
    let detail = if creds {
        concat_parts(&["CORS allows '", acao, "' WITH credentials \u{2014} any site can make authenticated requests."])
    } else {
        concat_parts(&["CORS allows origin '", acao, "' \u{2014} cross-origin requests possible."])
    };
    proof {
        reveal_with_fuel(concat_all, 4);
    }
    out.push(finding(sev, "A01:Broken Access Control", concat_parts(&["Permissive CORS policy"]), detail, "Set ALLOWED_ORIGINS to your frontend domain(s) only."));
    assert(findings_view(out@) =~= cors_findings_spec(status, hs@));
    out
}

/// What a preflight request shows: wildcard allowed methods, and wildcard allowed headers.
pub open spec fn preflight_findings_spec(status: u16, hs: Seq<HeaderField>) -> Seq<FindingView> {
    if is_down_spec(status) {
        Seq::empty()
    } else {
        let methods = match header_str(hs, "access-control-allow-methods"@) {
            Some(v) => v,
            None => ""@,
        };
        let headers = match header_str(hs, "access-control-allow-headers"@) {
            Some(v) => v,
            None => ""@,
        };
        (if contains_seq(methods, "*"@) {
            seq![fv(Severity::Medium, "A01:Broken Access Control"@, "CORS preflight allows all methods"@, "Access-Control-Allow-Methods: "@ + methods, "Restrict allowed methods to GET, POST, PUT, DELETE."@)]
        } else {
            Seq::empty()
        }) + (if contains_seq(headers, "*"@) {
            seq![fv(Severity::Low, "A01:Broken Access Control"@, "CORS preflight allows all headers"@, "Access-Control-Allow-Headers: "@ + headers, "Restrict allowed headers to specific known values."@)]
        } else {
            Seq::empty()
        })
    }
}

/// The findings of a CORS preflight probe.
pub fn preflight_findings(status: u16, hs: &[HeaderField]) -> (r: Vec<Finding>)
    ensures
        findings_view(r@) == preflight_findings_spec(status, hs@),
{
    let mut out: Vec<Finding> = Vec::new();
    if is_down(status) {
        assert(findings_view(out@) =~= preflight_findings_spec(status, hs@));
        return out;
    }
    let methods = text_or_empty(hs, "access-control-allow-methods");
    let headers = text_or_empty(hs, "access-control-allow-headers");
    proof {
        reveal_with_fuel(concat_all, 3);
    }
    if str_contains(methods, "*") {
        out.push(finding(Severity::Medium, "A01:Broken Access Control", concat_parts(&["CORS preflight allows all methods"]), concat_parts(&["Access-Control-Allow-Methods: ", methods]), "Restrict allowed methods to GET, POST, PUT, DELETE."));
    }
    let ghost mid = out@;
    if str_contains(headers, "*") {
        out.push(finding(Severity::Low, "A01:Broken Access Control", concat_parts(&["CORS preflight allows all headers"]), concat_parts(&["Access-Control-Allow-Headers: ", headers]), "Restrict allowed headers to specific known values."));
    }
    assert(findings_view(out@) =~= preflight_findings_spec(status, hs@));
    out
}

/// The endpoints that must refuse unauthenticated requests, with their methods.
pub open spec fn protected_endpoints_spec() -> Seq<(Seq<char>, Seq<char>)> {
    seq![
        ("GET"@, "/api/devices"@),
        ("GET"@, "/api/settings"@),
        ("GET"@, "/api/users"@),
        ("GET"@, "/api/firmware"@),
        ("GET"@, "/api/logs"@),
        ("GET"@, "/api/ota/jobs"@),
        ("GET"@, "/api/automation/rules"@),
        ("GET"@, "/api/community/plugins"@),
        ("DELETE"@, "/api/devices/1"@),
        ("PUT"@, "/api/settings"@),
    ]
}

/// The endpoints the authentication check probes without credentials.
pub fn protected_endpoints() -> (r: Vec<(&'static str, &'static str)>)
    ensures
        r@.len() == protected_endpoints_spec().len(),
        forall|i: int| 0 <= i < r@.len() ==> (#[trigger] r@[i]).0@ == protected_endpoints_spec()[i].0
            && r@[i].1@ == protected_endpoints_spec()[i].1,
{
    vec![
        ("GET", "/api/devices"),
        ("GET", "/api/settings"),
        ("GET", "/api/users"),
        ("GET", "/api/firmware"),
        ("GET", "/api/logs"),
        ("GET", "/api/ota/jobs"),
        ("GET", "/api/automation/rules"),
        ("GET", "/api/community/plugins"),
        ("DELETE", "/api/devices/1"),
        ("PUT", "/api/settings"),
    ]
}

/// An unauthenticated request to a protected endpoint that was neither refused (401, 403),
/// absent (404, 405) nor met by a down origin.
pub open spec fn auth_gap_spec(method: Seq<char>, path: Seq<char>, status: u16) -> Seq<FindingView> {
    if status != 401 && status != 403 && !is_down_spec(status) && status != 404 && status != 405 {
        seq![fv(Severity::Critical, "A01:Broken Access Control"@, "Unauthenticated access to protected endpoint"@, method + " "@ + path + " => HTTP "@ + decimal(status as nat), "Ensure auth middleware covers all sensitive routes."@)]
    } else {
        Seq::empty()
    }
}

/// The finding for an unauthenticated probe of `method path` that got `status`.
pub fn auth_gap_finding(method: &str, path: &str, status: u16) -> (r: Vec<Finding>)
    ensures
        findings_view(r@) == auth_gap_spec(method@, path@, status),
{
    let mut out: Vec<Finding> = Vec::new();
    if status != 401 && status != 403 && !is_down(status) && status != 404 && status != 405 {
        let mut d = concat_parts(&[method, " ", path, " => HTTP "]);
        push_decimal(&mut d, status as u64);
        proof {
            reveal_with_fuel(concat_all, 5);
        }
        out.push(finding(Severity::Critical, "A01:Broken Access Control", concat_parts(&["Unauthenticated access to protected endpoint"]), d, "Ensure auth middleware covers all sensitive routes."));
    }
    assert(findings_view(out@) =~= auth_gap_spec(method@, path@, status));
    out
}

/// The name of a cookie, from its lowercased `Set-Cookie` value: the text before the first `=`.
pub open spec fn cookie_name(v: Seq<char>) -> Seq<char> {
    let p = first_pos(v, '=');
    if p < 0 {
        v
    } else {
        v.take(p)
    }
}

/// What one `Set-Cookie` value (lowercased) shows: a missing `HttpOnly`, a missing `Secure`
/// on an HTTPS site, and a missing `SameSite`.
pub open spec fn cookie_findings_spec(url: Seq<char>, v: Seq<char>) -> Seq<FindingView> {
    let name = cookie_name(v);
    (if !contains_seq(v, "httponly"@) {
        seq![fv(Severity::Medium, "A05:Security Misconfiguration"@, "Cookie '"@ + name + "' missing HttpOnly flag"@, "Session cookie accessible to JavaScript \u{2014} XSS can steal sessions."@, "Set HttpOnly flag on all session cookies."@)]
    } else {
        Seq::empty()
    }) + (if url.len() >= 8 && url.take(8) == "https://"@ && !contains_seq(v, "secure"@) {
        seq![fv(Severity::Medium, "A02:Cryptographic Failures"@, "Cookie '"@ + name + "' missing Secure flag"@, "Cookie can be sent over plain HTTP, exposing it to interception."@, "Set Secure flag on all cookies when using HTTPS."@)]
    } else {
        Seq::empty()
    }) + (if !contains_seq(v, "samesite"@) {
        seq![fv(Severity::Low, "A01:Broken Access Control"@, "Cookie '"@ + name + "' missing SameSite attribute"@, "Missing SameSite may allow CSRF attacks."@, "Set SameSite=Lax or SameSite=Strict on cookies."@)]
    } else {
        Seq::empty()
    })
}

/// The findings on one cookie the login endpoint sets; `value` is the header already lowercased.
pub fn cookie_findings(url: &str, value: &str) -> (r: Vec<Finding>)
    ensures
        findings_view(r@) == cookie_findings_spec(url@, value@),
{
    let vc = chars_of(value);
    let p = find_first(vc.as_slice(), '=');
    proof {
        lemma_first_pos_bounds(vc@, '=');
    }
    let name_chars = match p {
        Some(k) => copy_range(vc.as_slice(), 0, k),
        None => copy_range(vc.as_slice(), 0, vc.len()),
    };
    assert(name_chars@ =~= cookie_name(value@));
    let name = string_of(name_chars.as_slice());
    let n = name.as_str();
    let mut out: Vec<Finding> = Vec::new();
    proof {
        reveal_with_fuel(concat_all, 4);
    }
    if !str_contains(value, "httponly") {
        out.push(finding(Severity::Medium, "A05:Security Misconfiguration", concat_parts(&["Cookie '", n, "' missing HttpOnly flag"]), concat_parts(&["Session cookie accessible to JavaScript \u{2014} XSS can steal sessions."]), "Set HttpOnly flag on all session cookies."));
    }
    let uc = chars_of(url);
    let https = chars_of("https://");
    proof {
        reveal_strlit("https://");
    }
    if starts_with(uc.as_slice(), https.as_slice()) && !str_contains(value, "secure") {
        out.push(finding(Severity::Medium, "A02:Cryptographic Failures", concat_parts(&["Cookie '", n, "' missing Secure flag"]), concat_parts(&["Cookie can be sent over plain HTTP, exposing it to interception."]), "Set Secure flag on all cookies when using HTTPS."));
    }
    if !str_contains(value, "samesite") {
        out.push(finding(Severity::Low, "A01:Broken Access Control", concat_parts(&["Cookie '", n, "' missing SameSite attribute"]), concat_parts(&["Missing SameSite may allow CSRF attacks."]), "Set SameSite=Lax or SameSite=Strict on cookies."));
    }
    assert(findings_view(out@) =~= cookie_findings_spec(url@, value@));
    out
}

/// A tracing method (`TRACE`, `TRACK`) the server does not refuse with 405 or 501.
pub open spec fn method_finding_spec(method: Seq<char>, status: u16) -> Seq<FindingView> {
    if status != 405 && status != 501 && !is_down_spec(status) {
        seq![fv(Severity::Low, "A05:Security Misconfiguration"@, method + " method enabled"@, method + " /api/health => HTTP "@ + decimal(status as nat), "Disable "@ + method + " method."@)]
    } else {
        Seq::empty()
    }
}

/// The finding for a `method` probe of the health endpoint that got `status`.
pub fn method_finding(method: &str, status: u16) -> (r: Vec<Finding>)
    ensures
        findings_view(r@) == method_finding_spec(method@, status),
{
    let mut out: Vec<Finding> = Vec::new();
    if status != 405 && status != 501 && !is_down(status) {
        let mut d = concat_parts(&[method, " /api/health => HTTP "]);
        push_decimal(&mut d, status as u64);
        let fix = string_of(concat_parts(&["Disable ", method, " method."]).as_slice());
        proof {
            reveal_with_fuel(concat_all, 4);
        }
        out.push(finding(Severity::Low, "A05:Security Misconfiguration", concat_parts(&[method, " method enabled"]), d, fix.as_str()));
    }
    assert(findings_view(out@) =~= method_finding_spec(method@, status));
    out
}

/// An answer that ends the rate-limit probe: 429 or a down origin.
pub open spec fn stops_probe(s: Option<u16>) -> bool {
    match s {
        Some(x) => x == 429 || is_down_spec(x),
        None => false,
    }
}

/// Whether repeated bad logins met rate limiting: the probe stops at the first answer that
/// is 429 or a down origin; when none is, there is a finding. `None` marks a failed request.
pub open spec fn rate_limit_spec(statuses: Seq<Option<u16>>) -> Seq<FindingView> {
    if exists|i: int| 0 <= i < statuses.len() && #[trigger] stops_probe(statuses[i]) {
        Seq::empty()
    } else {
        seq![fv(Severity::Medium, "A07:Security Misconfiguration"@, "Login rate limiting may be insufficient"@, "8 rapid login attempts did not trigger rate limiting (expected 429)."@, "Set LOGIN_RATE_LIMIT_MAX=5 and LOGIN_RATE_LIMIT_WINDOW_SECS=300."@)]
    }
}

/// The finding on the answers to eight rapid bad logins.
pub fn rate_limit_finding(statuses: &[Option<u16>]) -> (r: Vec<Finding>)
    ensures
        findings_view(r@) == rate_limit_spec(statuses@),
{
    let mut out: Vec<Finding> = Vec::new();
    let mut i: usize = 0;
    while i < statuses.len()
        invariant
            i <= statuses@.len(),
            forall|j: int| 0 <= j < i ==> !#[trigger] stops_probe(statuses@[j]),
            out@.len() == 0,
        decreases statuses@.len() - i,
    {
        if let Some(s) = statuses[i] {
            if s == 429 || is_down(s) {
                assert(stops_probe(statuses@[i as int]));
                assert(findings_view(out@) =~= rate_limit_spec(statuses@));
                return out;
            }
        }
        i = i + 1;
    }
    proof {
        reveal_with_fuel(concat_all, 2);
    }
    out.push(finding(Severity::Medium, "A07:Security Misconfiguration", concat_parts(&["Login rate limiting may be insufficient"]), concat_parts(&["8 rapid login attempts did not trigger rate limiting (expected 429)."]), "Set LOGIN_RATE_LIMIT_MAX=5 and LOGIN_RATE_LIMIT_WINDOW_SECS=300."));
    assert(findings_view(out@) =~= rate_limit_spec(statuses@));
    out
}


/// The text after the last `sep` in `s`, scanning matches from the left from index `i`
/// with the current piece starting at `start` (`split(sep).last()`).
pub open spec fn last_piece_from(s: Seq<char>, sep: Seq<char>, i: int, start: int) -> Seq<char>
    decreases s.len() - i,
{
    if sep.len() == 0 || i < 0 || i + sep.len() > s.len() {
        s.skip(start)
    } else if s.subrange(i, i + sep.len()) == sep {
        last_piece_from(s, sep, i + sep.len(), i + sep.len())
    } else {
        last_piece_from(s, sep, i + 1, start)
    }
}

/// `s.split(sep).last()`.
pub open spec fn last_piece(s: Seq<char>, sep: Seq<char>) -> Seq<char> {
    last_piece_from(s, sep, 0, 0)
}

fn last_piece_of(s: &[char], sep: &[char]) -> (r: Vec<char>)
    requires
        sep@.len() > 0,
    ensures
        r@ == last_piece(s@, sep@),
{
    let n = sep.len();
    let mut i: usize = 0;
    let mut start: usize = 0;
    while n <= s.len() - i
        invariant
            n == sep@.len(),
            n > 0,
            start <= i,
            i <= s@.len(),
            last_piece(s@, sep@) == last_piece_from(s@, sep@, i as int, start as int),
        decreases s@.len() - i,
    {
        let rest = &s[i..s.len()];
        if starts_with(rest, sep) {
            assert(rest@.take(n as int) =~= s@.subrange(i as int, i + n));
            i = i + n;
            start = i;
        } else {
            assert(rest@.take(n as int) =~= s@.subrange(i as int, i + n));
            i = i + 1;
        }
    }
    let r = copy_range(s, start, s.len());
    assert(r@ =~= s@.skip(start as int));
    r
}

/// A site served without HTTPS.
pub open spec fn plain_http_spec(url: Seq<char>) -> Seq<FindingView> {
    if url.len() >= 8 && url.take(8) == "https://"@ {
        Seq::empty()
    } else {
        seq![fv(Severity::High, "A02:Cryptographic Failures"@, "No TLS/HTTPS"@, url + " uses plain HTTP."@, "Enable TLS (e.g. via Cloudflare or Let's Encrypt)."@)]
    }
}

/// The finding for a site address that is not HTTPS.
pub fn plain_http_finding(url: &str) -> (r: Vec<Finding>)
    ensures
        findings_view(r@) == plain_http_spec(url@),
{
    let mut out: Vec<Finding> = Vec::new();
    let uc = chars_of(url);
    let https = chars_of("https://");
    proof {
        reveal_strlit("https://");
        reveal_with_fuel(concat_all, 3);
    }
    if !starts_with(uc.as_slice(), https.as_slice()) {
        out.push(finding(Severity::High, "A02:Cryptographic Failures", concat_parts(&["No TLS/HTTPS"]), concat_parts(&[url, " uses plain HTTP."]), "Enable TLS (e.g. via Cloudflare or Let's Encrypt)."));
    }
    assert(findings_view(out@) =~= plain_http_spec(url@));
    out
}

/// The plain-HTTP address probed for a redirect: every `https://` in `url` made `http://`.
pub fn http_probe_url(url: &str) -> (r: String)
    ensures
        r@ == crate::text::replace_all(url@, "https://"@, "http://"@),
{
    let uc = chars_of(url);
    let from = chars_of("https://");
    let to = chars_of("http://");
    proof {
        reveal_strlit("https://");
    }
    let v = crate::text::replace_chars(uc.as_slice(), from.as_slice(), to.as_slice());
    string_of(v.as_slice())
}

/// What the plain-HTTP probe of an HTTPS site shows: no redirect, or a redirect that does not
/// go to HTTPS.
pub open spec fn https_redirect_spec(url: Seq<char>, status: u16, location: Option<Seq<char>>) -> Seq<FindingView> {
    if !(301 <= status <= 308) {
        seq![fv(Severity::Medium, "A02:Cryptographic Failures"@, "No HTTP->HTTPS redirect for "@ + last_piece(url, "//"@), "HTTP returns "@ + decimal(status as nat) + " instead of 301/308 redirect."@, "Configure HTTP->HTTPS redirect."@)]
    } else {
        let loc = match location {
            Some(l) => l,
            None => ""@,
        };
        if loc.len() >= 8 && loc.take(8) == "https://"@ {
            Seq::empty()
        } else {
            seq![fv(Severity::Medium, "A02:Cryptographic Failures"@, "HTTP redirect not to HTTPS"@, "Redirects to "@ + loc + " (not HTTPS)."@, "Redirect to HTTPS URL."@)]
        }
    }
}

/// The finding on the plain-HTTP probe's answer (`location` is its readable `Location` header).
pub fn https_redirect_finding(url: &str, status: u16, location: Option<&str>) -> (r: Vec<Finding>)
    ensures
        findings_view(r@) == https_redirect_spec(
            url@,
            status,
            match location {
                Some(l) => Some(l@),
                None => None,
            },
        ),
{
    let mut out: Vec<Finding> = Vec::new();
    proof {
        reveal_with_fuel(concat_all, 4);
        reveal_strlit("https://");
        reveal_strlit("//");
    }
    if !(301 <= status && status <= 308) {
        let uc = chars_of(url);
        let sep = chars_of("//");
        let host = string_of(last_piece_of(uc.as_slice(), sep.as_slice()).as_slice());
        let mut d = concat_parts(&["HTTP returns "]);
        push_decimal(&mut d, status as u64);
        push_str(&mut d, " instead of 301/308 redirect.");
        out.push(finding(Severity::Medium, "A02:Cryptographic Failures", concat_parts(&["No HTTP->HTTPS redirect for ", host.as_str()]), d, "Configure HTTP->HTTPS redirect."));
    } else {
        let loc: &str = match location {
            Some(l) => l,
            None => "",
        };
        let lc = chars_of(loc);
        let https = chars_of("https://");
        if !starts_with(lc.as_slice(), https.as_slice()) {
            out.push(finding(Severity::Medium, "A02:Cryptographic Failures", concat_parts(&["HTTP redirect not to HTTPS"]), concat_parts(&["Redirects to ", loc, " (not HTTPS)."]), "Redirect to HTTPS URL."));
        }
    }
    assert(findings_view(out@) =~= https_redirect_spec(
        url@,
        status,
        match location {
            Some(l) => Some(l@),
            None => None,
        },
    ));
    out
}

/// Paths that must not be served, what they are, and how serious exposing them is.
pub open spec fn sensitive_paths_spec() -> Seq<(Seq<char>, Seq<char>, Severity)> {
    seq![
        ("/.env"@, "Environment variables"@, Severity::Critical),
        ("/.git/config"@, "Git config"@, Severity::Critical),
        ("/.git/HEAD"@, "Git HEAD"@, Severity::Critical),
        ("/data/deskbot.db"@, "SQLite database"@, Severity::Critical),
        ("/.DS_Store"@, "macOS metadata"@, Severity::Low),
        ("/api/debug"@, "Debug endpoint"@, Severity::High),
        ("/server-status"@, "Server status"@, Severity::Medium),
        ("/actuator"@, "Actuator"@, Severity::Medium),
        ("/actuator/health"@, "Actuator health"@, Severity::Medium),
        ("/wp-admin"@, "WordPress admin"@, Severity::Medium),
        ("/robots.txt"@, "Robots file"@, Severity::Info),
        ("/sitemap.xml"@, "Sitemap"@, Severity::Info),
        ("/.well-known/security.txt"@, "Security policy"@, Severity::Info),
        ("/backup.sql"@, "SQL backup"@, Severity::Critical),
        ("/dump.sql"@, "SQL dump"@, Severity::Critical),
        ("/config.json"@, "Config file"@, Severity::High),
        ("/package.json"@, "Package manifest"@, Severity::Medium),
        ("/Cargo.toml"@, "Rust manifest"@, Severity::Medium),
        ("/docker-compose.yml"@, "Docker compose"@, Severity::High),
    ]
}

/// The sensitive paths the audit requests.
pub fn sensitive_paths() -> (r: Vec<(&'static str, &'static str, Severity)>)
    ensures
        r@.len() == sensitive_paths_spec().len(),
        forall|i: int| 0 <= i < r@.len() ==> (#[trigger] r@[i]).0@ == sensitive_paths_spec()[i].0
            && r@[i].1@ == sensitive_paths_spec()[i].1 && r@[i].2 == sensitive_paths_spec()[i].2,
{
    vec![
        ("/.env", "Environment variables", Severity::Critical),
        ("/.git/config", "Git config", Severity::Critical),
        ("/.git/HEAD", "Git HEAD", Severity::Critical),
        ("/data/deskbot.db", "SQLite database", Severity::Critical),
        ("/.DS_Store", "macOS metadata", Severity::Low),
        ("/api/debug", "Debug endpoint", Severity::High),
        ("/server-status", "Server status", Severity::Medium),
        ("/actuator", "Actuator", Severity::Medium),
        ("/actuator/health", "Actuator health", Severity::Medium),
        ("/wp-admin", "WordPress admin", Severity::Medium),
        ("/robots.txt", "Robots file", Severity::Info),
        ("/sitemap.xml", "Sitemap", Severity::Info),
        ("/.well-known/security.txt", "Security policy", Severity::Info),
        ("/backup.sql", "SQL backup", Severity::Critical),
        ("/dump.sql", "SQL dump", Severity::Critical),
        ("/config.json", "Config file", Severity::High),
        ("/package.json", "Package manifest", Severity::Medium),
        ("/Cargo.toml", "Rust manifest", Severity::Medium),
        ("/docker-compose.yml", "Docker compose", Severity::High),
    ]
}

/// A sensitive path served with content (an informational one is not reported).
pub open spec fn exposed_path_spec(path: Seq<char>, desc: Seq<char>, sev: Severity, status: u16, content_length: Option<u64>) -> Seq<FindingView> {
    let len: u64 = match content_length {
        Some(n) => n,
        None => 0,
    };
    if status == 200 && len > 0 && sev != Severity::Info {
        seq![fv(sev, "A01:Broken Access Control"@, "Sensitive path exposed: "@ + path, desc + " accessible \u{2014} HTTP 200, "@ + decimal(len as nat) + " bytes"@, "Block access to "@ + path + " via reverse proxy."@)]
    } else {
        Seq::empty()
    }
}

/// The finding on the answer to a sensitive path's request.
pub fn exposed_path_finding(path: &str, desc: &str, sev: Severity, status: u16, content_length: Option<u64>) -> (r: Vec<Finding>)
    ensures
        findings_view(r@) == exposed_path_spec(path@, desc@, sev, status, content_length),
{
    let mut out: Vec<Finding> = Vec::new();
    let len: u64 = match content_length {
        Some(n) => n,
        None => 0,
    };
    if status == 200 && len > 0 && sev != Severity::Info {
        let mut d = concat_parts(&[desc, " accessible \u{2014} HTTP 200, "]);
        push_decimal(&mut d, len);
        push_str(&mut d, " bytes");
        let fix = string_of(concat_parts(&["Block access to ", path, " via reverse proxy."]).as_slice());
        proof {
            reveal_with_fuel(concat_all, 4);
        }
        out.push(finding(sev, "A01:Broken Access Control", concat_parts(&["Sensitive path exposed: ", path]), d, fix.as_str()));
    }
    assert(findings_view(out@) =~= exposed_path_spec(path@, desc@, sev, status, content_length));
    out
}

/// An error page that names the server's internals.
pub open spec fn suspicious_words_spec() -> Seq<Seq<char>> {
    seq![
        "stack trace"@, "at /"@, "panic"@, "thread '"@, "rust_backtrace"@, "sqlite"@, "rusqlite"@,
        "src/main.rs"@, "traceback"@, "internal server error"@, "diesel"@, "actix"@, "axum::"@,
        "tower::"@,
    ]
}

/// The words of `words` that occur in `body`, in order.
pub open spec fn words_in(words: Seq<Seq<char>>, body: Seq<char>) -> Seq<Seq<char>>
    decreases words.len(),
{
    if words.len() == 0 {
        Seq::empty()
    } else {
        words_in(words.drop_last(), body) + if contains_seq(body, words.last()) {
            seq![words.last()]
        } else {
            Seq::empty()
        }
    }
}

/// An error page (lowercased `body`) that leaks internal details.
pub open spec fn leak_spec(path: Seq<char>, body: Seq<char>) -> Seq<FindingView> {
    let leaked = words_in(suspicious_words_spec(), body);
    if leaked.len() == 0 {
        Seq::empty()
    } else {
        seq![fv(Severity::Medium, "A05:Security Misconfiguration"@, "Error response leaks internal info"@, path + " response contains: "@ + join(leaked, ", "@), "Return generic error messages in production."@)]
    }
}

/// The finding on an error page; `body` is its text already lowercased.
pub fn leak_finding(path: &str, body: &str) -> (r: Vec<Finding>)
    ensures
        findings_view(r@) == leak_spec(path@, body@),
{
    let words: Vec<&str> = vec![
        "stack trace", "at /", "panic", "thread '", "rust_backtrace", "sqlite", "rusqlite",
        "src/main.rs", "traceback", "internal server error", "diesel", "actix", "axum::",
        "tower::",
    ];
    let ghost ws = Seq::new(words@.len(), |i: int| words@[i]@);
    assert(ws =~= suspicious_words_spec());
    let mut joined: Vec<char> = Vec::new();
    let mut count: usize = 0;
    let mut i: usize = 0;
    while i < words.len()
        invariant
            i <= words@.len(),
            ws == Seq::new(words@.len(), |k: int| words@[k]@),
            count == words_in(ws.take(i as int), body@).len(),
            joined@ == join(words_in(ws.take(i as int), body@), ", "@),
            count <= i,
        decreases words@.len() - i,
    {
        assert(ws.take(i + 1).drop_last() =~= ws.take(i as int));
        assert(ws.take(i + 1).last() == words@[i as int]@);
        if str_contains(body, words[i]) {
            if count > 0 {
                push_str(&mut joined, ", ");
            }
            push_str(&mut joined, words[i]);
            proof {
                let prev = words_in(ws.take(i as int), body@);
                let now = words_in(ws.take(i + 1), body@);
                assert(now == prev.push(words@[i as int]@));
                assert(now.drop_last() =~= prev);
                if count == 0 {
                    assert(joined@ =~= join(now, ", "@));
                }
            }
            count = count + 1;
        } else {
            assert(words_in(ws.take(i + 1), body@) =~= words_in(ws.take(i as int), body@));
        }
        i = i + 1;
    }
    assert(ws.take(words@.len() as int) =~= ws);
    let mut out: Vec<Finding> = Vec::new();
    if count > 0 {
        let mut d = concat_parts(&[path, " response contains: "]);
        push_all_chars(&mut d, joined.as_slice());
        proof {
            reveal_with_fuel(concat_all, 3);
        }
        out.push(finding(Severity::Medium, "A05:Security Misconfiguration", concat_parts(&["Error response leaks internal info"]), d, "Return generic error messages in production."));
    }
    assert(findings_view(out@) =~= leak_spec(path@, body@));
    out
}

fn push_all_chars(v: &mut Vec<char>, s: &[char])
    ensures
        final(v)@ == old(v)@ + s@,
{
    crate::text::push_all(v, s);
}


/// A database error in the (lowercased) answer to an injection payload.
pub open spec fn sql_leak_spec(payload: Seq<char>, body: Seq<char>) -> Seq<FindingView> {
    if contains_seq(body, "sqlite"@) || contains_seq(body, "syntax error"@) || contains_seq(body, "sql"@)
        || contains_seq(body, "unrecognized token"@) {
        seq![fv(Severity::High, "A03:Injection"@, "SQL injection indicator"@, payload + " => SQL error leaked in response"@, "Use parameterized queries. Don't expose SQL errors."@)]
    } else {
        Seq::empty()
    }
}

/// The finding on the answer to a SQL injection payload; `body` is already lowercased.
pub fn sql_leak_finding(payload: &str, body: &str) -> (r: Vec<Finding>)
    ensures
        findings_view(r@) == sql_leak_spec(payload@, body@),
{
    let mut out: Vec<Finding> = Vec::new();
    if str_contains(body, "sqlite") || str_contains(body, "syntax error") || str_contains(body, "sql")
        || str_contains(body, "unrecognized token") {
        proof {
            reveal_with_fuel(concat_all, 3);
        }
        out.push(finding(Severity::High, "A03:Injection", concat_parts(&["SQL injection indicator"]), concat_parts(&[payload, " => SQL error leaked in response"]), "Use parameterized queries. Don't expose SQL errors."));
    }
    assert(findings_view(out@) =~= sql_leak_spec(payload@, body@));
    out
}

/// A script payload echoed back unescaped.
pub open spec fn xss_spec(marker: Seq<char>, body: Seq<char>) -> Seq<FindingView> {
    if contains_seq(body, marker) {
        seq![fv(Severity::High, "A03:Injection"@, "XSS reflected in response"@, "Input reflected unescaped: "@ + marker, "Sanitize and encode all output."@)]
    } else {
        Seq::empty()
    }
}

/// The finding on the answer to a reflected-script payload.
pub fn xss_finding(marker: &str, body: &str) -> (r: Vec<Finding>)
    ensures
        findings_view(r@) == xss_spec(marker@, body@),
{
    let mut out: Vec<Finding> = Vec::new();
    if str_contains(body, marker) {
        proof {
            reveal_with_fuel(concat_all, 3);
        }
        out.push(finding(Severity::High, "A03:Injection", concat_parts(&["XSS reflected in response"]), concat_parts(&["Input reflected unescaped: ", marker]), "Sanitize and encode all output."));
    }
    assert(findings_view(out@) =~= xss_spec(marker@, body@));
    out
}

/// A login that succeeded with an operator object for a password.
pub open spec fn operator_login_spec(status: u16) -> Seq<FindingView> {
    if 200 <= status <= 299 && !is_down_spec(status) {
        seq![fv(Severity::Critical, "A03:Injection"@, "NoSQL injection in login"@, "Login accepted operator object as password."@, "Validate input types strictly."@)]
    } else {
        Seq::empty()
    }
}

/// The finding on a login sent an operator object as its password.
pub fn operator_login_finding(status: u16) -> (r: Vec<Finding>)
    ensures
        findings_view(r@) == operator_login_spec(status),
{
    let mut out: Vec<Finding> = Vec::new();
    if 200 <= status && status <= 299 && !is_down(status) {
        proof {
            reveal_with_fuel(concat_all, 2);
        }
        out.push(finding(Severity::Critical, "A03:Injection", concat_parts(&["NoSQL injection in login"]), concat_parts(&["Login accepted operator object as password."]), "Validate input types strictly."));
    }
    assert(findings_view(out@) =~= operator_login_spec(status));
    out
}

/// A redirect that follows an attacker-supplied target.
pub open spec fn open_redirect_spec(path: Seq<char>, status: u16, location: Option<Seq<char>>) -> Seq<FindingView> {
    let loc = match location {
        Some(l) => l,
        None => ""@,
    };
    if 301 <= status <= 308 && contains_seq(loc, "evil.com"@) {
        seq![fv(Severity::Medium, "A01:Broken Access Control"@, "Open redirect vulnerability"@, path + " redirects to "@ + loc, "Validate redirect URLs against an allowlist."@)]
    } else {
        Seq::empty()
    }
}

/// The finding on the answer to a redirect payload.
pub fn open_redirect_finding(path: &str, status: u16, location: Option<&str>) -> (r: Vec<Finding>)
    ensures
        findings_view(r@) == open_redirect_spec(
            path@,
            status,
            match location {
                Some(l) => Some(l@),
                None => None,
            },
        ),
{
    let mut out: Vec<Finding> = Vec::new();
    let loc: &str = match location {
        Some(l) => l,
        None => "",
    };
    if 301 <= status && status <= 308 && str_contains(loc, "evil.com") {
        proof {
            reveal_with_fuel(concat_all, 4);
        }
        out.push(finding(Severity::Medium, "A01:Broken Access Control", concat_parts(&["Open redirect vulnerability"]), concat_parts(&[path, " redirects to ", loc]), "Validate redirect URLs against an allowlist."));
    }
    assert(findings_view(out@) =~= open_redirect_spec(
        path@,
        status,
        match location {
            Some(l) => Some(l@),
            None => None,
        },
    ));
    out
}

/// A traversal payload answered with a system file.
pub open spec fn traversal_spec(path: Seq<char>, status: u16, body: Seq<char>) -> Seq<FindingView> {
    if status == 200 && (contains_seq(body, "root:"@) || contains_seq(body, "/bin/"@)) {
        seq![fv(Severity::Critical, "A01:Broken Access Control"@, "Path traversal vulnerability"@, path + " returned file system content"@, "Sanitize file paths. Block .. sequences."@)]
    } else {
        Seq::empty()
    }
}

/// The finding on the answer to a path traversal payload.
pub fn traversal_finding(path: &str, status: u16, body: &str) -> (r: Vec<Finding>)
    ensures
        findings_view(r@) == traversal_spec(path@, status, body@),
{
    let mut out: Vec<Finding> = Vec::new();
    if status == 200 && (str_contains(body, "root:") || str_contains(body, "/bin/")) {
        proof {
            reveal_with_fuel(concat_all, 4);
        }
        out.push(finding(Severity::Critical, "A01:Broken Access Control", concat_parts(&["Path traversal vulnerability"]), concat_parts(&[path, " returned file system content"]), "Sanitize file paths. Block .. sequences."));
    }
    assert(findings_view(out@) =~= traversal_spec(path@, status, body@));
    out
}

/// A device record served without authentication.
pub open spec fn idor_spec(id: Seq<char>, status: u16, body: Json) -> Seq<FindingView> {
    if status == 200 && (json_get(body, "ip"@) is Some || json_get(body, "api_key"@) is Some) {
        seq![fv(Severity::High, "A01:Broken Access Control"@, "IDOR: Device "@ + id + " data accessible without auth"@, "Device details including IP/keys returned without authentication."@, "Ensure device endpoints require authentication and ownership."@)]
    } else {
        Seq::empty()
    }
}

/// The finding on an unauthenticated request for device `id` (a body that is not JSON is `null`).
pub fn idor_finding(id: &str, status: u16, body: &JsonValue) -> (r: Vec<Finding>)
    ensures
        findings_view(r@) == idor_spec(id@, status, json_of(*body)),
{
    let mut out: Vec<Finding> = Vec::new();
    if status == 200 && (get(body, "ip").is_some() || get(body, "api_key").is_some()) {
        proof {
            reveal_with_fuel(concat_all, 4);
        }
        out.push(finding(Severity::High, "A01:Broken Access Control", concat_parts(&["IDOR: Device ", id, " data accessible without auth"]), concat_parts(&["Device details including IP/keys returned without authentication."]), "Ensure device endpoints require authentication and ownership."));
    }
    assert(findings_view(out@) =~= idor_spec(id@, status, json_of(*body)));
    out
}


/// What the health probe shows: an unreachable server, or an origin down behind Cloudflare.
/// `Ok` carries the status and its display text (`code reason`), `Err` the connection error.
pub open spec fn reachability_spec(answer: Result<(u16, Seq<char>), Seq<char>>) -> Seq<FindingView> {
    match answer {
        Ok((status, shown)) => if is_down_spec(status) {
            seq![fv(Severity::High, "A07:Security Misconfiguration"@, "Origin server unreachable"@, "Cloudflare returns "@ + shown + " \u{2014} origin is down."@, "Ensure the server process is running and the port is open."@)]
        } else {
            Seq::empty()
        },
        Err(e) => seq![fv(Severity::High, "Availability"@, "Server unreachable"@, "Connection failed: "@ + e, "Verify the server is running and the URL is correct."@)],
    }
}

/// The finding on the health probe's outcome.
pub fn reachability_finding(answer: &Result<(u16, String), String>) -> (r: Vec<Finding>)
    ensures
        findings_view(r@) == reachability_spec(
            match answer {
                Ok((s, t)) => Ok((*s, t@)),
                Err(e) => Err(e@),
            },
        ),
{
    let mut out: Vec<Finding> = Vec::new();
    proof {
        reveal_with_fuel(concat_all, 4);
    }
    match answer {
        Ok((status, shown)) => {
            if is_down(*status) {
                out.push(finding(Severity::High, "A07:Security Misconfiguration", concat_parts(&["Origin server unreachable"]), concat_parts(&["Cloudflare returns ", shown.as_str(), " \u{2014} origin is down."]), "Ensure the server process is running and the port is open."));
            }
        },
        Err(e) => {
            out.push(finding(Severity::High, "Availability", concat_parts(&["Server unreachable"]), concat_parts(&["Connection failed: ", e.as_str()]), "Verify the server is running and the URL is correct."));
        },
    }
    assert(findings_view(out@) =~= reachability_spec(
        match answer {
            Ok((s, t)) => Ok((*s, t@)),
            Err(e) => Err(e@),
        },
    ));
    out
}

/// A connection error on an HTTPS site that names its certificate or TLS.
pub open spec fn cert_error_spec(error: Seq<char>) -> Seq<FindingView> {
    let e = lowercase_spec(error);
    if contains_seq(e, "certificate"@) || contains_seq(e, "ssl"@) || contains_seq(e, "tls"@) {
        seq![fv(Severity::Critical, "A02:Cryptographic Failures"@, "SSL/TLS certificate error"@, "Certificate validation failed: "@ + error, "Renew or fix the SSL certificate."@)]
    } else {
        Seq::empty()
    }
}

/// The finding on a failed connection to an HTTPS site, from the error's text.
pub fn cert_error_finding(error: &str) -> (r: Vec<Finding>)
    ensures
        findings_view(r@) == cert_error_spec(error@),
{
    let mut out: Vec<Finding> = Vec::new();
    let e = to_lowercase(error);
    let es = e.as_str();
    if str_contains(es, "certificate") || str_contains(es, "ssl") || str_contains(es, "tls") {
        proof {
            reveal_with_fuel(concat_all, 3);
        }
        out.push(finding(Severity::Critical, "A02:Cryptographic Failures", concat_parts(&["SSL/TLS certificate error"]), concat_parts(&["Certificate validation failed: ", error]), "Renew or fix the SSL certificate."));
    }
    assert(findings_view(out@) =~= cert_error_spec(error@));
    out
}

} // verus!
