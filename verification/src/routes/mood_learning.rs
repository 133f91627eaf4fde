//! Learning mood preferences.
use vstd::prelude::*;
use crate::text::str_eq;

verus! {

pub struct DeviceQuery {
    pub device_id: Option<String>,
}


/// The (positive, negative) responses one piece of feedback adds: `positive` counts as
/// positive, anything else as negative.
pub fn feedback_counts(feedback: &str) -> (r: (i64, i64))
    ensures
        r == if feedback@ == "positive"@ {
            (1i64, 0i64)
        } else {
            (0i64, 1i64)
        },
{
    if str_eq(feedback, "positive") {
        (1, 0)
    } else {
        (0, 1)
    }
}

} // verus!
