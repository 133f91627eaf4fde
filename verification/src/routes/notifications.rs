//! Notification forwarding.
use vstd::prelude::*;
use crate::json::{json_of, lemma_json_of_object, members, Json, JsonValue};
use crate::text::{push_signed_decimal, signed_decimal, string_of};

verus! {

broadcast use vstd::string::group_string_axioms;

pub struct NotificationInput {
    pub source: String,
    pub unread: i32,
    pub active: Option<bool>,
}

pub struct WebhookInput {
    pub source: Option<String>,
    pub unread: Option<i32>,
    pub active: Option<bool>,
    pub device_id: Option<String>,
}


/// The notification sent to a device: its source, unread count, and whether it is active
/// (by default, when something is unread).
pub open spec fn notification_json(source: Seq<char>, unread: i32, active: Option<bool>) -> Json {
    let a = match active {
        Some(b) => b,
        None => unread > 0,
    };
    Json::Object(seq![
        ("source"@, Json::Str(source)),
        ("unread"@, Json::Number(signed_decimal(unread as int))),
        ("active"@, Json::Bool(a)),
    ])
}

/// The body forwarded to a device for a notification.
pub fn notification_body(source: &str, unread: i32, active: Option<bool>) -> (v: JsonValue)
    ensures
        json_of(v) == notification_json(source@, unread, active),
{
    let a = match active {
        Some(b) => b,
        None => unread > 0,
    };
    let mut n: Vec<char> = Vec::new();
    push_signed_decimal(&mut n, unread as i64);
    let f = vec![
        ("source".to_string(), JsonValue::Str(source.to_string())),
        ("unread".to_string(), JsonValue::Number(string_of(n.as_slice()))),
        ("active".to_string(), JsonValue::Bool(a)),
    ];
    proof {
        lemma_json_of_object(f);
        assert(members(f@) =~= notification_json(source@, unread, active)->Object_0);
    }
    JsonValue::Object(f)
}

/// A webhook notification's source (`teams` by default) and unread count (1 by default).
pub fn webhook_defaults(input: &WebhookInput) -> (r: (String, i32))
    ensures
        r.0@ == match input.source {
            Some(s) => s@,
            None => "teams"@,
        },
        r.1 == match input.unread {
            Some(u) => u,
            None => 1i32,
        },
{
    let source = match &input.source {
        Some(s) => s.clone(),
        None => "teams".to_string(),
    };
    let unread = match input.unread {
        Some(u) => u,
        None => 1,
    };
    (source, unread)
}

} // verus!
