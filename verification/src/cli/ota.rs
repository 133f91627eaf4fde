//! Firmware listings of the command-line tool.
use vstd::prelude::*;
use crate::numbers::{div_round_even, round_half_even};
use crate::text::{decimal, push_decimal, push_signed_decimal, push_str, signed_decimal, string_of};

verus! {

broadcast use vstd::string::group_string_axioms;

/// A number of tenths written with one decimal place.
pub open spec fn tenths_text(t: nat) -> Seq<char> {
    decimal(t / 10) + "."@ + decimal(t % 10)
}

/// A size in bytes as the listing shows it: whole bytes under a KiB, else KiB or MiB with one
/// decimal, rounded half to even as `{:.1}` rounds the exact quotient.
pub open spec fn format_bytes_spec(b: int) -> Seq<char> {
    if b < 1024 {
        signed_decimal(b) + " B"@
    } else if b < 1024 * 1024 {
        tenths_text(round_half_even(10 * b, 1024) as nat) + " KB"@
    } else {
        tenths_text(round_half_even(10 * b, 1048576) as nat) + " MB"@
    }
}

/// A file size for the firmware listing; sizes stay below 2^53 bytes, where dividing them as
/// floating-point numbers is exact.
pub fn format_bytes(b: i64) -> (s: String)
    requires
        b < 0x20_0000_0000_0000,
    ensures
        s@ == format_bytes_spec(b as int),
{
    let mut m: Vec<char> = Vec::new();
    if b < 1024 {
        push_signed_decimal(&mut m, b);
        push_str(&mut m, " B");
    } else {
        let unit: i128 = if b < 1024 * 1024 {
            1024
        } else {
            1024 * 1024
        };
        let t = div_round_even(10 * (b as i128), unit);
        push_decimal(&mut m, (t / 10) as u64);
        push_str(&mut m, ".");
        push_decimal(&mut m, (t % 10) as u64);
        if b < 1024 * 1024 {
            push_str(&mut m, " KB");
        } else {
            push_str(&mut m, " MB");
        }
    }
    string_of(m.as_slice())
}

} // verus!
