//! Device commands of the command-line tool.
use vstd::prelude::*;
use vstd::utf8::encode_utf8;
use crate::text::{chars_of, contains_seq, lines_of, lowercase_spec, push_str, split_lines, str_contains, string_of, to_lowercase, utf8_cut, utf8_len_exceeds, utf8_prefix};

verus! {

broadcast use vstd::string::group_string_axioms;

/// A device name as the device table shows it: names over 18 bytes are cut to their first 15
/// bytes and marked with `...`.
pub open spec fn short_name_spec(name: Seq<char>) -> Seq<char> {
    if encode_utf8(name).len() > 18 {
        utf8_cut(name, 15).unwrap() + "..."@
    } else {
        name
    }
}

/// Whether a name can be shortened: the cut falls between characters (`&name[..15]` panics
/// otherwise).
pub open spec fn short_name_ok(name: Seq<char>) -> bool {
    encode_utf8(name).len() > 18 ==> utf8_cut(name, 15) is Some
}

/// The name column of the device table.
pub fn short_name(name: &str) -> (s: String)
    requires
        short_name_ok(name@),
    ensures
        s@ == short_name_spec(name@),
{
    if utf8_len_exceeds(name, 18) {
        match utf8_prefix(name, 15) {
            Some(p) => {
                let mut m: Vec<char> = Vec::new();
                push_str(&mut m, p.as_str());
                push_str(&mut m, "...");
                string_of(m.as_slice())
            },
            None => {
                assert(false);
                String::new()
            },
        }
    } else {
        name.to_string()
    }
}

/// The error a device listing reports for an HTTP status the server answered with, when it is
/// one the tool explains: 401 asks for a key.
pub fn list_status_error(code: u16) -> (r: Option<String>)
    ensures
        match r {
            Some(m) => code == 401 && m@ == "Authentication required. Pass --key <API_KEY> or set HOOKBOT_API_KEY."@,
            None => code != 401,
        },
{
    if code == 401 {
        Some("Authentication required. Pass --key <API_KEY> or set HOOKBOT_API_KEY.".to_string())
    } else {
        None
    }
}

/// The error a command on one device reports for an HTTP status the tool explains: 401 needs
/// authentication, 404 names the missing device.
pub fn device_status_error(code: u16, id: &str) -> (r: Option<String>)
    ensures
        match r {
            Some(m) => (code == 401 && m@ == "Authentication required."@) || (code == 404 && m@
                == "Device '"@ + id@ + "' not found."@),
            None => code != 401 && code != 404,
        },
{
    if code == 401 {
        Some("Authentication required.".to_string())
    } else if code == 404 {
        let mut m: Vec<char> = Vec::new();
        push_str(&mut m, "Device '");
        push_str(&mut m, id);
        push_str(&mut m, "' not found.");
        Some(string_of(m.as_slice()))
    } else {
        None
    }
}


/// A line as `str::lines` gives it: a line that ended in `\r\n` loses the `\r`.
pub open spec fn line_text(line: Seq<char>, terminated: bool) -> Seq<char> {
    if terminated && line.len() > 0 && line.last() == '\r' {
        line.drop_last()
    } else {
        line
    }
}

/// The lines of a text as `str::lines` gives them.
pub open spec fn std_lines(s: Seq<char>) -> Seq<Seq<char>> {
    let ls = split_lines(s);
    Seq::new(ls.len(), |i: int| line_text(ls[i], i < ls.len() - 1 || (s.len() > 0 && s.last() == '\n')))
}

/// The lines of a service browser's output that name a Hookbot (in any case).
pub open spec fn hookbot_lines_spec(lines: Seq<Seq<char>>) -> Seq<Seq<char>>
    decreases lines.len(),
{
    if lines.len() == 0 {
        Seq::empty()
    } else {
        hookbot_lines_spec(lines.drop_last()) + if contains_seq(lowercase_spec(lines.last()), "hookbot"@) {
            seq![lines.last()]
        } else {
            Seq::empty()
        }
    }
}

/// The discovery output's lines about Hookbot devices, in order.
pub fn hookbot_lines(output: &str) -> (r: Vec<String>)
    ensures
        r@.len() == hookbot_lines_spec(std_lines(output@)).len(),
        forall|i: int| 0 <= i < r@.len() ==> (#[trigger] r@[i])@ == hookbot_lines_spec(std_lines(output@))[i],
{
    let cs = chars_of(output);
    let ends_newline = cs.len() > 0 && cs[cs.len() - 1] == '\n';
    let lines = lines_of(output);
    let ghost all = std_lines(output@);
    let mut out: Vec<String> = Vec::new();
    let mut i: usize = 0;
    while i < lines.len()
        invariant
            cs@ == output@,
            ends_newline == (output@.len() > 0 && output@.last() == '\n'),
            lines@.len() == split_lines(output@).len(),
            forall|k: int| 0 <= k < lines@.len() ==> (#[trigger] lines@[k])@ == split_lines(output@)[k],
            all == std_lines(output@),
            i <= lines@.len(),
            out@.len() == hookbot_lines_spec(all.take(i as int)).len(),
            forall|k: int| 0 <= k < out@.len() ==> (#[trigger] out@[k])@ == hookbot_lines_spec(all.take(i as int))[k],
        decreases lines@.len() - i,
    {
        let l = &lines[i];
        let terminated = i + 1 < lines.len() || ends_newline;
        let n = l.len();
        let text: String = if terminated && n > 0 && l[n - 1] == '\r' {
            let mut v: Vec<char> = Vec::new();
            let mut j: usize = 0;
            while j < n - 1
                invariant
                    n == l@.len(),
                    n > 0,
                    j <= n - 1,
                    v@ == l@.take(j as int),
                decreases n - 1 - j,
            {
                v.push(l[j]);
                assert(l@.take(j + 1) =~= l@.take(j as int).push(l@[j as int]));
                j = j + 1;
            }
            assert(v@ =~= l@.drop_last());
            string_of(v.as_slice())
        } else {
            string_of(l.as_slice())
        };
        assert(text@ == all[i as int]);
        assert(all.take(i + 1).drop_last() =~= all.take(i as int));
        let low = to_lowercase(text.as_str());
        let ghost before = out@;
        if str_contains(low.as_str(), "hookbot") {
            out.push(text);
        }
        proof {
            let prev = hookbot_lines_spec(all.take(i as int));
            let now = hookbot_lines_spec(all.take(i + 1));
            assert(all.take(i + 1).last() == all[i as int]);
            assert forall|k: int| 0 <= k < out@.len() implies (#[trigger] out@[k])@ == now[k] by {
                if k < before.len() {
                    assert(out@[k] == before[k]);
                }
            }
        }
        i = i + 1;
    }
    assert(all.take(lines@.len() as int) =~= all);
    out
}

} // verus!
