//! Integer division rounded half to even, as `{:.0}` prints a quotient.
use vstd::prelude::*;

verus! {

/// `n / d` for `n >= 0`, `d > 0`, rounded to the nearest integer with halves to even, as
/// `{:.0}` prints a number.
pub open spec fn round_half_even(n: int, d: int) -> int {
    let q = n / d;
    let r = n % d;
    if 2 * r > d {
        q + 1
    } else if 2 * r < d {
        q
    } else if q % 2 == 0 {
        q
    } else {
        q + 1
    }
}

/// `n / d` rounded half to even.
pub fn div_round_even(n: i128, d: i128) -> (r: i128)
    requires
        0 < d < 0x1000_0000_0000_0000_0000_0000_0000_0000,
        0 <= n < 0x1000_0000_0000_0000_0000_0000_0000_0000,
    ensures
        r == round_half_even(n as int, d as int),
        r >= 0,
{
    let q = n / d;
    let r = n % d;
    if 2 * r > d {
        q + 1
    } else if 2 * r < d {
        q
    } else if q % 2 == 0 {
        q
    } else {
        q + 1
    }
}

} // verus!
