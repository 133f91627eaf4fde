//! Managing tunnels.
use vstd::prelude::*;
use crate::text::{push_signed_decimal, push_str, signed_decimal, string_of};

verus! {

broadcast use vstd::string::group_string_axioms;

pub enum TunnelAction {
    List,
    Start { id: String },
    Stop { id: String },
    Status { id: Option<String> },
    QuickConnect,
    Logs { id: String, limit: u32 },
}


/// A tunnel's uptime as the status shows it: seconds under a minute, then minutes and seconds,
/// hours and minutes, or days and hours.
pub open spec fn format_duration_spec(secs: i64) -> Seq<char> {
    if secs < 60 {
        signed_decimal(secs as int) + "s"@
    } else if secs < 3600 {
        signed_decimal(secs / 60) + "m "@ + signed_decimal((secs % 60) as int) + "s"@
    } else if secs < 86400 {
        signed_decimal(secs / 3600) + "h "@ + signed_decimal(((secs % 3600) / 60) as int) + "m"@
    } else {
        signed_decimal(secs / 86400) + "d "@ + signed_decimal(((secs % 86400) / 3600) as int) + "h"@
    }
}

/// A duration in seconds, in the largest units that fit.
pub fn format_duration(secs: i64) -> (s: String)
    ensures
        s@ == format_duration_spec(secs),
{
    let mut m: Vec<char> = Vec::new();
    if secs < 60 {
        push_signed_decimal(&mut m, secs);
        push_str(&mut m, "s");
    } else if secs < 3600 {
        push_signed_decimal(&mut m, secs / 60);
        push_str(&mut m, "m ");
        push_signed_decimal(&mut m, secs % 60);
        push_str(&mut m, "s");
    } else if secs < 86400 {
        push_signed_decimal(&mut m, secs / 3600);
        push_str(&mut m, "h ");
        push_signed_decimal(&mut m, (secs % 3600) / 60);
        push_str(&mut m, "m");
    } else {
        push_signed_decimal(&mut m, secs / 86400);
        push_str(&mut m, "d ");
        push_signed_decimal(&mut m, (secs % 86400) / 3600);
        push_str(&mut m, "h");
    }
    string_of(m.as_slice())
}

} // verus!
