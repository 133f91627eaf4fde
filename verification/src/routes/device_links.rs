//! Device-to-device links.
use vstd::prelude::*;
use crate::json::{as_str, get, json_get, json_of, lemma_json_of_object, members, opt_str, or_else, Json, JsonValue};
use crate::text::{sql_datetime_secs, sql_datetime_secs_spec, str_eq};

verus! {

broadcast use vstd::string::group_string_axioms;

pub struct LinkQuery {
    pub device_id: Option<String>,
}


/// Whether a link is still cooling down at `now` (Unix seconds): it last fired at a readable
/// time less than `cooldown` seconds ago.
pub open spec fn in_cooldown_spec(last_triggered: Option<Seq<char>>, cooldown: i64, now: i64) -> bool {
    match last_triggered {
        Some(l) => match sql_datetime_secs_spec(l) {
            Some(t) => now - t < cooldown,
            None => false,
        },
        None => false,
    }
}

/// Whether the link must wait before firing again.
pub fn in_cooldown(last_triggered: Option<&str>, cooldown: i64, now: i64) -> (r: bool)
    ensures
        r == in_cooldown_spec(
            match last_triggered {
                Some(l) => Some(l@),
                None => None,
            },
            cooldown,
            now,
        ),
{
    match last_triggered {
        Some(l) => match sql_datetime_secs(l) {
            Some(t) => (now as i128) - (t as i128) < cooldown as i128,
            None => false,
        },
        None => false,
    }
}

/// What firing a link sends to the target device: the endpoint and the JSON body.
pub open spec fn link_action_spec(action_type: Seq<char>, config: Json, new_state: Seq<char>) -> Option<(Seq<char>, Json)> {
    if action_type == "set_state"@ {
        let st = or_else(opt_str(json_get(config, "state"@)), new_state);
        Some(("/state"@, Json::Object(seq![("state"@, Json::Str(st))])))
    } else if action_type == "play_animation"@ {
        Some(("/animation"@, config))
    } else if action_type == "send_notification"@ {
        let msg = or_else(opt_str(json_get(config, "message"@)), "Device link triggered"@);
        Some(("/notification"@, Json::Object(seq![
            ("source"@, Json::Str("device_link"@)),
            ("unread"@, Json::Number("1"@)),
            ("message"@, Json::Str(msg)),
        ])))
    } else if action_type == "relay_state"@ {
        Some(("/state"@, Json::Object(seq![("state"@, Json::Str(new_state))])))
    } else {
        None
    }
}

fn object1(k: &str, v: JsonValue) -> (r: JsonValue)
    ensures
        json_of(r) == Json::Object(seq![(k@, json_of(v))]),
{
    let f = vec![(k.to_string(), v)];
    proof {
        lemma_json_of_object(f);
        assert(members(f@) =~= seq![(k@, json_of(v))]);
    }
    JsonValue::Object(f)
}

/// The request a link of type `action_type` sends when its source enters `new_state`;
/// `None` for an unknown action type.
pub fn link_action(action_type: &str, config: JsonValue, new_state: &str) -> (r: Option<(&'static str, JsonValue)>)
    ensures
        match r {
            Some((path, body)) => link_action_spec(action_type@, json_of(config), new_state@) == Some(
                (path@, json_of(body)),
            ),
            None => link_action_spec(action_type@, json_of(config), new_state@) is None,
        },
{
    if str_eq(action_type, "set_state") {
        let st: &str = match as_str(get(&config, "state")) {
            Some(s) => s,
            None => new_state,
        };
        let body = object1("state", JsonValue::Str(st.to_string()));
        Some(("/state", body))
    } else if str_eq(action_type, "play_animation") {
        Some(("/animation", config))
    } else if str_eq(action_type, "send_notification") {
        let msg: &str = match as_str(get(&config, "message")) {
            Some(s) => s,
            None => "Device link triggered",
        };
        let f = vec![
            ("source".to_string(), JsonValue::Str("device_link".to_string())),
            ("unread".to_string(), JsonValue::Number("1".to_string())),
            ("message".to_string(), JsonValue::Str(msg.to_string())),
        ];
        proof {
            lemma_json_of_object(f);
            assert(members(f@) =~= seq![
                ("source"@, Json::Str("device_link"@)),
                ("unread"@, Json::Number("1"@)),
                ("message"@, Json::Str(msg@)),
            ]);
        }
        Some(("/notification", JsonValue::Object(f)))
    } else if str_eq(action_type, "relay_state") {
        Some(("/state", object1("state", JsonValue::Str(new_state.to_string()))))
    } else {
        None
    }
}

} // verus!
