//! Server settings: how long device status logs are kept.
use vstd::prelude::*;
use crate::text::{chars_of, decimal, parse_u64, parse_u64_spec, push_decimal, push_str, string_of};

verus! {

broadcast use vstd::string::group_string_axioms;

pub struct ServerSettings {
    pub log_retention_hours: u64,
    pub poll_interval_secs: u64,
}

pub struct UpdateSettings {
    pub log_retention_hours: Option<u64>,
}

/// The retention in force: the stored setting when it reads as a number of hours, else the
/// configured default.
pub fn retention_hours(stored: Option<&str>, default_hours: u64) -> (h: u64)
    ensures
        h == match stored {
            Some(s) => match parse_u64_spec(s@) {
                Some(n) => n,
                None => default_hours,
            },
            None => default_hours,
        },
{
    match stored {
        Some(s) => {
            let cs = chars_of(s);
            match parse_u64(cs.as_slice()) {
                Some(n) => n,
                None => default_hours,
            }
        },
        None => default_hours,
    }
}

/// Checks a settings update: a retention of zero hours is refused.
pub fn check_settings_update(input: &UpdateSettings) -> (r: Result<(), String>)
    ensures
        r is Err <==> input.log_retention_hours == Some(0u64),
        r matches Err(m) ==> m@ == "Retention must be at least 1 hour"@,
{
    match input.log_retention_hours {
        Some(0) => Err("Retention must be at least 1 hour".to_string()),
        _ => Ok(()),
    }
}

/// The SQLite time modifier reaching back over the retention period.
pub fn retention_window(hours: u64) -> (w: String)
    ensures
        w@ == "-"@ + decimal(hours as nat) + " hours"@,
{
    let mut m: Vec<char> = Vec::new();
    push_str(&mut m, "-");
    push_decimal(&mut m, hours);
    push_str(&mut m, " hours");
    string_of(m.as_slice())
}

} // verus!
