//! Desk occupancy sensing: event kinds, configuration updates and the weekly report.
use vstd::prelude::*;
use crate::models::{DeskOccupancyConfig, UpdateDeskOccupancyConfig};
use crate::text::{rfc3339_nanos, rfc3339_nanos_spec, str_eq};

verus! {

pub struct DeviceQuery {
    pub device_id: Option<String>,
}

/// The occupancy events a sensor may report.
pub open spec fn is_occupancy_event(t: Seq<char>) -> bool {
    t == "occupied"@ || t == "vacant"@ || t == "break_start"@ || t == "break_end"@
}

/// Checks the kind of a recorded occupancy event.
pub fn check_event_type(event_type: &str) -> (r: Result<(), String>)
    ensures
        r is Ok <==> is_occupancy_event(event_type@),
        r matches Err(m) ==> m@ == "event_type must be one of: occupied, vacant, break_start, break_end"@,
{
    if str_eq(event_type, "occupied") || str_eq(event_type, "vacant") || str_eq(event_type, "break_start")
        || str_eq(event_type, "break_end") {
        Ok(())
    } else {
        Err("event_type must be one of: occupied, vacant, break_start, break_end".to_string())
    }
}

/// The configuration a device gets when it has none yet: a reminder every hour, enabled.
pub fn default_occupancy_config(id: String, device_id: String, created_at: String) -> (c: DeskOccupancyConfig)
    ensures
        c.id@ == id@,
        c.device_id@ == device_id@,
        c.break_remind_minutes == 60,
        c.enabled,
        c.created_at@ == created_at@,
{
    DeskOccupancyConfig { id, device_id, break_remind_minutes: 60, enabled: true, created_at }
}

/// A configuration after an update: each field the update carries replaces the stored one.
pub fn occupancy_config_updated(config: DeskOccupancyConfig, update: &UpdateDeskOccupancyConfig) -> (c: DeskOccupancyConfig)
    ensures
        c.id@ == config.id@,
        c.device_id@ == config.device_id@,
        c.created_at@ == config.created_at@,
        c.break_remind_minutes == match update.break_remind_minutes {
            Some(v) => v,
            None => config.break_remind_minutes,
        },
        c.enabled == match update.enabled {
            Some(v) => v,
            None => config.enabled,
        },
{
    let break_remind_minutes = match update.break_remind_minutes {
        Some(v) => v,
        None => config.break_remind_minutes,
    };
    let enabled = match update.enabled {
        Some(v) => v,
        None => config.enabled,
    };
    DeskOccupancyConfig { break_remind_minutes, enabled, ..config }
}

/// Whole minutes from one RFC 3339 instant to another (`TimeDelta::num_minutes` of their
/// difference, so truncated toward zero); `None` when either text is not RFC 3339.
pub uninterp spec fn rfc3339_minutes_between_spec(start: Seq<char>, end: Seq<char>) -> Option<int>;

/// `chrono::DateTime::parse_from_rfc3339` on both texts, then `num_minutes` of the difference
/// of the two instants in UTC: the result is named `rfc3339_minutes_between_spec`, and it is
/// there exactly when both texts parse.
#[verifier::external_body]
fn rfc3339_minutes_between(start: &str, end: &str) -> (r: Option<i64>)
    ensures
        match r {
            Some(m) => rfc3339_minutes_between_spec(start@, end@) == Some(m as int),
            None => rfc3339_minutes_between_spec(start@, end@) is None,
        },
        r is Some <==> (rfc3339_nanos_spec(start@) is Some && rfc3339_nanos_spec(end@) is Some),
{
    let a = chrono::DateTime::parse_from_rfc3339(start).ok()?;
    let b = chrono::DateTime::parse_from_rfc3339(end).ok()?;
    Some((b.with_timezone(&chrono::Utc) - a.with_timezone(&chrono::Utc)).num_minutes())
}

/// What the weekly report counts, in whole minutes.
pub struct OccupancyTally {
    pub desk_minutes: i128,
    pub break_minutes: i128,
    pub breaks_taken: i64,
    pub session_count: i64,
}

/// Desk minutes, break minutes, breaks, sessions, and the open session and break (the
/// timestamp of the event that opened them).
pub type OccupancyState = (int, int, int, int, Option<Seq<char>>, Option<Seq<char>>);

/// The minutes of a closed interval; an interval whose ends do not parse adds nothing.
pub open spec fn interval_minutes(open: Option<Seq<char>>, end: Seq<char>) -> int {
    match open {
        Some(start) => match rfc3339_minutes_between_spec(start, end) {
            Some(m) => m,
            None => 0,
        },
        None => 0,
    }
}

/// One event, kind then timestamp, read into the report; events whose timestamp is not
/// RFC 3339, and unknown kinds, change nothing.
pub open spec fn occupancy_step(s: OccupancyState, e: (String, String)) -> OccupancyState {
    let kind = e.0@;
    let ts = e.1@;
    if rfc3339_nanos_spec(ts) is None {
        s
    } else if kind == "occupied"@ {
        (s.0, s.1, s.2, s.3 + 1, Some(ts), s.5)
    } else if kind == "vacant"@ {
        (s.0 + interval_minutes(s.4, ts), s.1, s.2, s.3, None, s.5)
    } else if kind == "break_start"@ {
        (s.0, s.1, s.2 + 1, s.3, s.4, Some(ts))
    } else if kind == "break_end"@ {
        (s.0, s.1 + interval_minutes(s.5, ts), s.2, s.3, s.4, None)
    } else {
        s
    }
}

/// The events read in order, from nothing counted and nothing open.
pub open spec fn occupancy_fold(events: Seq<(String, String)>) -> OccupancyState
    decreases events.len(),
{
    if events.len() == 0 {
        (0, 0, 0, 0, None, None)
    } else {
        occupancy_step(occupancy_fold(events.drop_last()), events.last())
    }
}

/// Counts desk time, break time, breaks and sessions over a week of events in time order.
pub fn occupancy_tally(events: &Vec<(String, String)>) -> (t: OccupancyTally)
    requires
        events@.len() <= i64::MAX,
    ensures
        t.desk_minutes == occupancy_fold(events@).0,
        t.break_minutes == occupancy_fold(events@).1,
        t.breaks_taken == occupancy_fold(events@).2,
        t.session_count == occupancy_fold(events@).3,
{
    let mut desk: i128 = 0;
    let mut brk: i128 = 0;
    let mut breaks: i64 = 0;
    let mut sessions: i64 = 0;
    let mut last_occupied: Option<String> = None;
    let mut last_break: Option<String> = None;
    let mut i: usize = 0;
    while i < events.len()
        invariant
            i <= events@.len() <= i64::MAX,
            ({
                let s = occupancy_fold(events@.take(i as int));
                &&& desk == s.0
                &&& brk == s.1
                &&& breaks == s.2
                &&& sessions == s.3
                &&& s.4 == match last_occupied {
                    Some(t) => Some(t@),
                    None => None::<Seq<char>>,
                }
                &&& s.5 == match last_break {
                    Some(t) => Some(t@),
                    None => None::<Seq<char>>,
                }
            }),
            -(i as int) * 0x8000_0000_0000_0000 <= desk <= (i as int) * 0x8000_0000_0000_0000,
            -(i as int) * 0x8000_0000_0000_0000 <= brk <= (i as int) * 0x8000_0000_0000_0000,
            0 <= breaks <= i,
            0 <= sessions <= i,
        decreases events@.len() - i,
    {
        assert(events@.take(i as int + 1).drop_last() == events@.take(i as int));
        let kind = &events[i].0;
        let ts = &events[i].1;
        if rfc3339_nanos(ts).is_some() {
            if str_eq(kind, "occupied") {
                sessions = sessions + 1;
                last_occupied = Some(ts.clone());
            } else if str_eq(kind, "vacant") {
                match &last_occupied {
                    Some(start) => match rfc3339_minutes_between(start, ts) {
                        Some(m) => {
                            desk = desk + m as i128;
                        },
                        None => {},
                    },
                    None => {},
                }
                last_occupied = None;
            } else if str_eq(kind, "break_start") {
                breaks = breaks + 1;
                last_break = Some(ts.clone());
            } else if str_eq(kind, "break_end") {
                match &last_break {
                    Some(start) => match rfc3339_minutes_between(start, ts) {
                        Some(m) => {
                            brk = brk + m as i128;
                        },
                        None => {},
                    },
                    None => {},
                }
                last_break = None;
            }
        }
        i = i + 1;
    }
    assert(events@.take(events@.len() as int) == events@);
    OccupancyTally { desk_minutes: desk, break_minutes: brk, breaks_taken: breaks, session_count: sessions }
}

/// The advice the weekly report gives: more breaks when none was taken in over two hours at
/// the desk, shorter sessions when they average over ninety minutes, else praise.
pub open spec fn occupancy_suggestion_spec(desk_minutes: int, breaks_taken: int, session_count: int) -> Seq<char> {
    if breaks_taken == 0 && desk_minutes > 120 {
        "You should take more breaks! Try a 5-minute break every hour."@
    } else if session_count > 0 && desk_minutes > 90 * session_count {
        "Your sessions are quite long. Consider shorter, focused sessions with breaks."@
    } else {
        "Good balance! Keep taking regular breaks."@
    }
}

/// The report's advice for a tally.
pub fn occupancy_suggestion(t: &OccupancyTally) -> (r: String)
    ensures
        r@ == occupancy_suggestion_spec(t.desk_minutes as int, t.breaks_taken as int, t.session_count as int),
{
    if t.breaks_taken == 0 && t.desk_minutes > 120 {
        "You should take more breaks! Try a 5-minute break every hour.".to_string()
    } else if t.session_count > 0 && t.desk_minutes > 90 * (t.session_count as i128) {
        "Your sessions are quite long. Consider shorter, focused sessions with breaks.".to_string()
    } else {
        "Good balance! Keep taking regular breaks.".to_string()
    }
}

} // verus!
