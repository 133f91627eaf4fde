//! Device groups: one state or command sent to every member.
use vstd::prelude::*;
use crate::json::JsonValue;
use crate::text::{chars_of, push_all, push_str, strip_char_start, string_of, trim_char_start};

verus! {

broadcast use vstd::string::group_string_axioms;

/// A request to send the same JSON body to one endpoint of every member.
pub struct GroupCommandRequest {
    pub endpoint: String,
    pub body: JsonValue,
}

/// The address a member's state is sent to.
pub fn group_state_url(ip: &str) -> (u: String)
    ensures
        u@ == "http://"@ + ip@ + "/state"@,
{
    let mut m: Vec<char> = Vec::new();
    push_str(&mut m, "http://");
    push_str(&mut m, ip);
    push_str(&mut m, "/state");
    string_of(m.as_slice())
}

/// The address a group command reaches on a member: the endpoint without its leading slashes,
/// under the member's address.
pub fn group_command_url(ip: &str, endpoint: &str) -> (u: String)
    ensures
        u@ == "http://"@ + ip@ + "/"@ + trim_char_start(endpoint@, '/'),
{
    let e = chars_of(endpoint);
    let tail = strip_char_start(e.as_slice(), '/');
    let mut m: Vec<char> = Vec::new();
    push_str(&mut m, "http://");
    push_str(&mut m, ip);
    push_str(&mut m, "/");
    push_all(&mut m, tail.as_slice());
    string_of(m.as_slice())
}

/// The number of `true` outcomes.
pub open spec fn successes_in(outcomes: Seq<bool>) -> nat
    decreases outcomes.len(),
{
    if outcomes.len() == 0 {
        0
    } else {
        successes_in(outcomes.drop_last()) + if outcomes.last() {
            1nat
        } else {
            0nat
        }
    }
}

/// The (successes, failures) of sending to each member; together they count every member.
pub fn tally(outcomes: &[bool]) -> (r: (usize, usize))
    ensures
        r.0 == successes_in(outcomes@),
        r.0 + r.1 == outcomes@.len(),
{
    let mut ok: usize = 0;
    let mut failed: usize = 0;
    let mut i: usize = 0;
    while i < outcomes.len()
        invariant
            i <= outcomes@.len(),
            ok == successes_in(outcomes@.take(i as int)),
            ok + failed == i,
        decreases outcomes@.len() - i,
    {
        assert(outcomes@.take(i + 1).drop_last() =~= outcomes@.take(i as int));
        if outcomes[i] {
            ok = ok + 1;
        } else {
            failed = failed + 1;
        }
        i = i + 1;
    }
    assert(outcomes@.take(outcomes@.len() as int) =~= outcomes@);
    (ok, failed)
}

} // verus!
