//! Automation rules: what a device does when something happens.
use vstd::prelude::*;
use crate::json::JsonValue;

verus! {

/// A stored automation rule.
pub struct AutomationRule {
    pub id: String,
    pub device_id: String,
    pub name: String,
    pub enabled: bool,
    pub trigger_type: String,
    pub trigger_config: JsonValue,
    pub action_type: String,
    pub action_config: JsonValue,
    pub cooldown_secs: i64,
    pub last_triggered_at: Option<String>,
    pub created_at: String,
}

pub struct CreateRule {
    pub name: String,
    pub trigger_type: String,
    pub trigger_config: JsonValue,
    pub action_type: String,
    pub action_config: JsonValue,
    pub cooldown_secs: Option<i64>,
}

pub struct UpdateRule {
    pub name: Option<String>,
    pub enabled: Option<bool>,
    pub trigger_type: Option<String>,
    pub trigger_config: Option<JsonValue>,
    pub action_type: Option<String>,
    pub action_config: Option<JsonValue>,
    pub cooldown_secs: Option<i64>,
}

/// The rule a create request stores under `id`: enabled, a 60 second cooldown unless given,
/// never triggered yet.
pub fn new_rule(id: String, device_id: String, created_at: String, body: CreateRule) -> (r: AutomationRule)
    ensures
        r.id == id,
        r.device_id == device_id,
        r.name == body.name,
        r.enabled,
        r.trigger_type == body.trigger_type,
        r.trigger_config == body.trigger_config,
        r.action_type == body.action_type,
        r.action_config == body.action_config,
        r.cooldown_secs == match body.cooldown_secs {
            Some(c) => c,
            None => 60,
        },
        r.last_triggered_at is None,
        r.created_at == created_at,
{
    AutomationRule {
        id,
        device_id,
        name: body.name,
        enabled: true,
        trigger_type: body.trigger_type,
        trigger_config: body.trigger_config,
        action_type: body.action_type,
        action_config: body.action_config,
        cooldown_secs: match body.cooldown_secs {
            Some(c) => c,
            None => 60,
        },
        last_triggered_at: None,
        created_at,
    }
}

/// `a` is rule `r` changed by `u`: every field the change gives replaces the stored one; the
/// id, device, trigger time and creation time stay.
pub open spec fn rule_updated(r: AutomationRule, u: UpdateRule, a: AutomationRule) -> bool {
    &&& a.id == r.id
    &&& a.device_id == r.device_id
    &&& a.name == match u.name {
        Some(n) => n,
        None => r.name,
    }
    &&& a.enabled == match u.enabled {
        Some(e) => e,
        None => r.enabled,
    }
    &&& a.trigger_type == match u.trigger_type {
        Some(t) => t,
        None => r.trigger_type,
    }
    &&& a.trigger_config == match u.trigger_config {
        Some(t) => t,
        None => r.trigger_config,
    }
    &&& a.action_type == match u.action_type {
        Some(t) => t,
        None => r.action_type,
    }
    &&& a.action_config == match u.action_config {
        Some(t) => t,
        None => r.action_config,
    }
    &&& a.cooldown_secs == match u.cooldown_secs {
        Some(c) => c,
        None => r.cooldown_secs,
    }
    &&& a.last_triggered_at == r.last_triggered_at
    &&& a.created_at == r.created_at
}

/// A rule after an update.
pub fn apply_rule_update(r: AutomationRule, u: UpdateRule) -> (a: AutomationRule)
    ensures
        rule_updated(r, u, a),
{
    AutomationRule {
        id: r.id,
        device_id: r.device_id,
        name: match u.name {
            Some(n) => n,
            None => r.name,
        },
        enabled: match u.enabled {
            Some(e) => e,
            None => r.enabled,
        },
        trigger_type: match u.trigger_type {
            Some(t) => t,
            None => r.trigger_type,
        },
        trigger_config: match u.trigger_config {
            Some(t) => t,
            None => r.trigger_config,
        },
        action_type: match u.action_type {
            Some(t) => t,
            None => r.action_type,
        },
        action_config: match u.action_config {
            Some(t) => t,
            None => r.action_config,
        },
        cooldown_secs: match u.cooldown_secs {
            Some(c) => c,
            None => r.cooldown_secs,
        },
        last_triggered_at: r.last_triggered_at,
        created_at: r.created_at,
    }
}

/// Sending the same update twice leaves a rule as the first time did.
pub proof fn lemma_rule_update_idempotent(r: AutomationRule, u: UpdateRule, a: AutomationRule, b: AutomationRule)
    requires
        rule_updated(r, u, a),
        rule_updated(a, u, b),
    ensures
        b == a,
{
}

} // verus!
