//! Plugin sandboxes.
use vstd::prelude::*;
use crate::models::{CreatePluginSandbox, PluginSandbox};
use crate::text::{chars_of, push_str, starts_with, str_eq, string_of, texts};

verus! {

broadcast use vstd::string::group_string_axioms;

pub struct SandboxQuery {
    pub device_id: Option<String>,
    pub plugin_id: Option<String>,
}

pub struct CheckPermissionRequest {
    pub plugin_id: String,
    pub device_id: Option<String>,
    pub api: String,
}

pub struct CheckPermissionResponse {
    pub allowed: bool,
    pub reason: String,
}

/// The stored rules of one plugin's sandbox on one device.
pub struct SandboxRules {
    pub allowed_apis: Vec<String>,
    pub blocked_apis: Vec<String>,
    pub can_access_network: bool,
    pub can_modify_state: bool,
    pub can_send_notifications: bool,
    pub can_access_sensors: bool,
    pub enabled: bool,
}

/// Whether `s` begins with `p`.
pub open spec fn has_prefix(s: Seq<char>, p: Seq<char>) -> bool {
    p.len() <= s.len() && s.take(p.len() as int) == p
}

/// Whether the capability an API name falls under is granted: `network…`, `state…`,
/// `notification…` and `sensor…` APIs each need their own, any other API none.
pub open spec fn capability_granted(api: Seq<char>, r: SandboxRules) -> bool {
    if has_prefix(api, "network"@) {
        r.can_access_network
    } else if has_prefix(api, "state"@) {
        r.can_modify_state
    } else if has_prefix(api, "notification"@) {
        r.can_send_notifications
    } else if has_prefix(api, "sensor"@) {
        r.can_access_sensors
    } else {
        true
    }
}

/// The answer to a permission check: no sandbox means no restriction; otherwise a disabled
/// sandbox, a blocked API, a capability not granted, or an API missing from a nonempty allow
/// list each refuse, in that order.
pub open spec fn permission_spec(rules: Option<SandboxRules>, api: Seq<char>) -> (bool, Seq<char>) {
    match rules {
        None => (true, "No sandbox configured (unrestricted)"@),
        Some(r) => if !r.enabled {
            (false, "Plugin sandbox is disabled"@)
        } else if texts(r.blocked_apis@).contains(api) {
            (false, "API '"@ + api + "' is blocked"@)
        } else if !capability_granted(api, r) {
            (false, "Capability for '"@ + api + "' not granted"@)
        } else if r.allowed_apis@.len() > 0 && !texts(r.allowed_apis@).contains(api) {
            (false, "API '"@ + api + "' not in allowed list"@)
        } else {
            (true, "Permitted"@)
        },
    }
}

/// Whether `s` begins with `p`.
pub fn str_starts_with(s: &str, p: &str) -> (r: bool)
    ensures
        r == has_prefix(s@, p@),
{
    let a = chars_of(s);
    let b = chars_of(p);
    starts_with(a.as_slice(), b.as_slice())
}

/// Whether `name` is one of `list`.
pub fn listed(list: &[String], name: &str) -> (r: bool)
    ensures
        r == texts(list@).contains(name@),
{
    let mut i: usize = 0;
    while i < list.len()
        invariant
            i <= list@.len(),
            forall|k: int| 0 <= k < i ==> list@[k]@ != name@,
        decreases list@.len() - i,
    {
        if str_eq(list[i].as_str(), name) {
            assert(texts(list@)[i as int] == name@);
            return true;
        }
        i = i + 1;
    }
    assert forall|k: int| 0 <= k < texts(list@).len() implies texts(list@)[k] != name@ by {
    }
    false
}

fn quoted(before: &str, api: &str, after: &str) -> (s: String)
    ensures
        s@ == before@ + api@ + after@,
{
    let mut m: Vec<char> = Vec::new();
    push_str(&mut m, before);
    push_str(&mut m, api);
    push_str(&mut m, after);
    string_of(m.as_slice())
}

/// Whether a plugin may call `api`, given the sandbox configured for it on the device, if any.
pub fn check_permission(rules: Option<&SandboxRules>, api: &str) -> (r: CheckPermissionResponse)
    ensures
        (r.allowed, r.reason@) == permission_spec(
            match rules {
                Some(x) => Some(*x),
                None => None,
            },
            api@,
        ),
{
    match rules {
        None => CheckPermissionResponse {
            allowed: true,
            reason: "No sandbox configured (unrestricted)".to_string(),
        },
        Some(r) => {
            if !r.enabled {
                return CheckPermissionResponse {
                    allowed: false,
                    reason: "Plugin sandbox is disabled".to_string(),
                };
            }
            if listed(r.blocked_apis.as_slice(), api) {
                return CheckPermissionResponse { allowed: false, reason: quoted("API '", api, "' is blocked") };
            }
            let cap = if str_starts_with(api, "network") {
                r.can_access_network
            } else if str_starts_with(api, "state") {
                r.can_modify_state
            } else if str_starts_with(api, "notification") {
                r.can_send_notifications
            } else if str_starts_with(api, "sensor") {
                r.can_access_sensors
            } else {
                true
            };
            if !cap {
                return CheckPermissionResponse {
                    allowed: false,
                    reason: quoted("Capability for '", api, "' not granted"),
                };
            }
            if r.allowed_apis.len() > 0 && !listed(r.allowed_apis.as_slice(), api) {
                return CheckPermissionResponse {
                    allowed: false,
                    reason: quoted("API '", api, "' not in allowed list"),
                };
            }
            CheckPermissionResponse { allowed: true, reason: "Permitted".to_string() }
        },
    }
}

/// The sandbox a create request makes, once stored under `id` for `device_id`: no API lists
/// when none are given, 60 calls a minute and no capability unless asked for, enabled.
pub fn new_sandbox(id: i64, device_id: String, input: CreatePluginSandbox) -> (s: PluginSandbox)
    ensures
        s.id == id,
        s.plugin_id == input.plugin_id,
        s.device_id == device_id,
        s.allowed_apis@ == match input.allowed_apis {
            Some(v) => v@,
            None => Seq::<String>::empty(),
        },
        s.blocked_apis@ == match input.blocked_apis {
            Some(v) => v@,
            None => Seq::<String>::empty(),
        },
        s.max_calls_per_minute == match input.max_calls_per_minute {
            Some(n) => n,
            None => 60,
        },
        s.can_access_network == (input.can_access_network == Some(true)),
        s.can_modify_state == (input.can_modify_state == Some(true)),
        s.can_send_notifications == (input.can_send_notifications == Some(true)),
        s.can_access_sensors == (input.can_access_sensors == Some(true)),
        s.enabled,
        s.created_at@ == "just now"@,
{
    PluginSandbox {
        id,
        plugin_id: input.plugin_id,
        device_id,
        allowed_apis: match input.allowed_apis {
            Some(v) => v,
            None => Vec::new(),
        },
        blocked_apis: match input.blocked_apis {
            Some(v) => v,
            None => Vec::new(),
        },
        max_calls_per_minute: match input.max_calls_per_minute {
            Some(n) => n,
            None => 60,
        },
        can_access_network: match input.can_access_network {
            Some(b) => b,
            None => false,
        },
        can_modify_state: match input.can_modify_state {
            Some(b) => b,
            None => false,
        },
        can_send_notifications: match input.can_send_notifications {
            Some(b) => b,
            None => false,
        },
        can_access_sensors: match input.can_access_sensors {
            Some(b) => b,
            None => false,
        },
        enabled: true,
        created_at: "just now".to_string(),
    }
}

} // verus!
