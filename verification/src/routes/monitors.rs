//! Multi-monitor tracking: which monitor the bot turns to, and at what servo angle.
use vstd::prelude::*;
use crate::json::{as_i64, get, json_get, json_of, lemma_json_of_object, members, opt_i64, Json, JsonValue};
use crate::text::{push_signed_decimal, push_str, signed_decimal, string_of};

verus! {

broadcast use vstd::string::group_string_axioms;

pub struct DeviceQuery {
    pub device_id: Option<String>,
}

/// A device's monitor setup.
pub struct MonitorConfig {
    pub id: String,
    pub device_id: String,
    pub monitor_count: i32,
    pub servo_pin: Option<i32>,
    /// Servo angle per monitor index, keyed by the index written in decimal.
    pub angle_map: JsonValue,
    pub detection_method: String,
    pub enabled: bool,
    pub active_monitor: i32,
    pub created_at: String,
}

pub struct CreateMonitorConfig {
    pub device_id: Option<String>,
    pub monitor_count: Option<i32>,
    pub servo_pin: Option<i32>,
    pub angle_map: Option<JsonValue>,
    pub detection_method: Option<String>,
}

pub struct UpdateMonitorConfig {
    pub monitor_count: Option<i32>,
    pub servo_pin: Option<i32>,
    pub angle_map: Option<JsonValue>,
    pub detection_method: Option<String>,
    pub enabled: Option<bool>,
}

pub struct SetActiveMonitor {
    pub monitor: i32,
}

/// The angles a new setup starts with: 45, 90 and 135 degrees for monitors 0, 1 and 2.
pub open spec fn default_angles_spec() -> Json {
    Json::Object(seq![("0"@, Json::Number("45"@)), ("1"@, Json::Number("90"@)), ("2"@, Json::Number("135"@))])
}

/// The setup a device gets the first time it is asked for: two monitors, no servo pin, the
/// default angles, manual detection, enabled, looking at monitor 0.
pub fn default_monitor_config(id: String, device_id: String, created_at: String) -> (c: MonitorConfig)
    ensures
        c.id == id,
        c.device_id == device_id,
        c.monitor_count == 2,
        c.servo_pin is None,
        json_of(c.angle_map) == default_angles_spec(),
        c.detection_method@ == "manual"@,
        c.enabled,
        c.active_monitor == 0,
        c.created_at == created_at,
{
    let f = vec![
        ("0".to_string(), JsonValue::Number("45".to_string())),
        ("1".to_string(), JsonValue::Number("90".to_string())),
        ("2".to_string(), JsonValue::Number("135".to_string())),
    ];
    proof {
        lemma_json_of_object(f);
        assert(members(f@) =~= seq![("0"@, Json::Number("45"@)), ("1"@, Json::Number("90"@)), ("2"@, Json::Number("135"@))]);
    }
    let angles = JsonValue::Object(f);
    MonitorConfig {
        id,
        device_id,
        monitor_count: 2,
        servo_pin: None,
        angle_map: angles,
        detection_method: "manual".to_string(),
        enabled: true,
        active_monitor: 0,
        created_at,
    }
}

/// The servo angle for turning to `monitor`: the angle the map gives under the monitor's
/// index (an integer), 90 degrees otherwise; an index at or past the monitor count is refused.
pub open spec fn monitor_target_spec(monitor: i32, count: i32, angle_map: Json) -> Result<i64, Seq<char>> {
    if monitor >= count {
        Err("Monitor index "@ + signed_decimal(monitor as int) + " out of range (0-"@ + signed_decimal(count - 1) + ")"@)
    } else {
        match opt_i64(json_get(angle_map, signed_decimal(monitor as int))) {
            Some(a) => Ok(a),
            None => Ok(90),
        }
    }
}

/// The angle to turn to for a newly active monitor.
pub fn monitor_target(monitor: i32, count: i32, angle_map: &JsonValue) -> (r: Result<i64, String>)
    ensures
        match (r, monitor_target_spec(monitor, count, json_of(*angle_map))) {
            (Ok(a), Ok(b)) => a == b,
            (Err(m), Err(t)) => m@ == t,
            _ => false,
        },
{
    if monitor >= count {
        let mut m: Vec<char> = Vec::new();
        push_str(&mut m, "Monitor index ");
        push_signed_decimal(&mut m, monitor as i64);
        push_str(&mut m, " out of range (0-");
        push_signed_decimal(&mut m, count as i64 - 1);
        push_str(&mut m, ")");
        return Err(string_of(m.as_slice()));
    }
    let mut key: Vec<char> = Vec::new();
    push_signed_decimal(&mut key, monitor as i64);
    let k = string_of(key.as_slice());
    let found = get(angle_map, k.as_str());
    proof {
        match found {
            Some(x) => assert(Some(json_of(*x)) == json_get(json_of(*angle_map), k@)),
            None => {},
        }
    }
    match as_i64(found) {
        Some(a) => Ok(a),
        None => Ok(90),
    }
}

/// The message confirming the monitor the bot now faces.
pub fn looking_message(monitor: i32) -> (m: String)
    ensures
        m@ == "Hookbot now looking at monitor "@ + signed_decimal(monitor as int),
{
    let mut v: Vec<char> = Vec::new();
    push_str(&mut v, "Hookbot now looking at monitor ");
    push_signed_decimal(&mut v, monitor as i64);
    string_of(v.as_slice())
}

} // verus!
