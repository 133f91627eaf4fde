use hookbot::cli::hooks::{hook_config, merge_hook_entries, shell_quote, with_suffix};
use hookbot::json::{get, JsonValue};

const SCRIPT: &str = "/home/dev/Hookbot/hooks/deskbot-hook.js";
const EVENTS: [&str; 4] = ["PreToolUse", "PostToolUse", "UserPromptSubmit", "Stop"];

fn s(t: &str) -> JsonValue {
    JsonValue::Str(t.to_string())
}

fn obj(fields: Vec<(&str, JsonValue)>) -> JsonValue {
    JsonValue::Object(fields.into_iter().map(|(k, v)| (k.to_string(), v)).collect())
}

fn arr(items: Vec<JsonValue>) -> JsonValue {
    JsonValue::Array(items)
}

fn copy(v: &JsonValue) -> JsonValue {
    match v {
        JsonValue::Null => JsonValue::Null,
        JsonValue::Bool(b) => JsonValue::Bool(*b),
        JsonValue::Number(n) => JsonValue::Number(n.clone()),
        JsonValue::Str(t) => JsonValue::Str(t.clone()),
        JsonValue::Array(a) => JsonValue::Array(a.iter().map(copy).collect()),
        JsonValue::Object(f) => JsonValue::Object(f.iter().map(|(k, x)| (k.clone(), copy(x))).collect()),
    }
}

fn field<'a>(v: &'a JsonValue, key: &str) -> &'a JsonValue {
    get(v, key).unwrap_or(&JsonValue::Null)
}

fn items(v: &JsonValue) -> Vec<&JsonValue> {
    match v {
        JsonValue::Array(a) => a.iter().collect(),
        _ => Vec::new(),
    }
}

fn commands(settings: &JsonValue, event: &str) -> Vec<String> {
    let matchers = field(field(settings, "hooks"), event);
    assert!(matches!(matchers, JsonValue::Array(_)), "event array");
    items(matchers)
        .into_iter()
        .flat_map(|m| items(field(m, "hooks")))
        .map(|h| match field(h, "command") {
            JsonValue::Str(c) => c.clone(),
            _ => String::new(),
        })
        .collect()
}

#[test]
fn installs_every_event_from_empty_settings() {
    let mut settings = obj(vec![]);
    let added = merge_hook_entries(&mut settings, SCRIPT);

    assert_eq!(added, EVENTS.iter().map(|e| e.to_string()).collect::<Vec<_>>());
    for event in EVENTS {
        assert_eq!(commands(&settings, event), vec![format!("node {SCRIPT} {event}")]);
    }
}

#[test]
fn is_idempotent() {
    let mut once = obj(vec![]);
    merge_hook_entries(&mut once, SCRIPT);
    let mut twice = copy(&once);
    merge_hook_entries(&mut twice, SCRIPT);
    merge_hook_entries(&mut twice, SCRIPT);

    assert_eq!(once, twice, "re-running must not change the settings");
    for event in EVENTS {
        assert_eq!(commands(&twice, event).len(), 1, "{event} duplicated");
    }
}

#[test]
fn preserves_unrelated_settings_keys() {
    let mut settings = obj(vec![
        ("model", s("opus")),
        ("permissions", obj(vec![("allow", arr(vec![s("Bash(ls:*)")]))])),
        ("env", obj(vec![("FOO", s("bar"))])),
    ]);
    merge_hook_entries(&mut settings, SCRIPT);

    assert_eq!(field(&settings, "model"), &s("opus"));
    assert_eq!(field(field(&settings, "permissions"), "allow"), &arr(vec![s("Bash(ls:*)")]));
    assert_eq!(field(field(&settings, "env"), "FOO"), &s("bar"));
}

#[test]
fn preserves_other_peoples_hooks() {
    let mut settings = obj(vec![(
        "hooks",
        obj(vec![
            (
                "PreToolUse",
                arr(vec![obj(vec![
                    ("matcher", s("Bash")),
                    ("hooks", arr(vec![obj(vec![("type", s("command")), ("command", s("node /opt/other/guard.js"))])])),
                ])]),
            ),
            (
                "SessionStart",
                arr(vec![obj(vec![("hooks", arr(vec![obj(vec![("type", s("command")), ("command", s("echo hi"))])]))])]),
            ),
        ]),
    )]);
    merge_hook_entries(&mut settings, SCRIPT);

    let pre = commands(&settings, "PreToolUse");
    assert_eq!(pre.len(), 2);
    assert_eq!(pre[0], "node /opt/other/guard.js");
    assert!(pre[1].contains("deskbot-hook.js PreToolUse"));

    assert_eq!(commands(&settings, "SessionStart"), vec!["echo hi"]);
    let first = items(field(field(&settings, "hooks"), "PreToolUse"))[0];
    assert_eq!(field(first, "matcher"), &s("Bash"));
}

#[test]
fn replaces_a_stale_hookbot_entry() {
    let entry = |c: &str| obj(vec![("hooks", arr(vec![obj(vec![("type", s("command")), ("command", s(c))])]))]);
    let mut settings = obj(vec![(
        "hooks",
        obj(vec![(
            "PostToolUse",
            arr(vec![
                entry("node /old/path/hookbot-hook.js PostToolUse"),
                entry("node /old/path/deskbot-hook.js PostToolUse"),
                entry("make lint"),
            ]),
        )]),
    )]);
    merge_hook_entries(&mut settings, SCRIPT);

    let post = commands(&settings, "PostToolUse");
    assert_eq!(post, vec!["make lint".to_string(), format!("node {SCRIPT} PostToolUse")]);
}

#[test]
fn recovers_from_a_non_object_hooks_value() {
    let mut settings = obj(vec![("hooks", s("nonsense")), ("model", s("opus"))]);
    merge_hook_entries(&mut settings, SCRIPT);

    assert!(matches!(field(&settings, "hooks"), JsonValue::Object(_)));
    assert_eq!(field(&settings, "model"), &s("opus"));
    assert_eq!(commands(&settings, "Stop").len(), 1);
}

#[test]
fn quotes_paths_that_need_it() {
    let mut settings = obj(vec![]);
    merge_hook_entries(&mut settings, "/home/my dev/hooks/deskbot-hook.js");
    assert_eq!(commands(&settings, "Stop"), vec!["node '/home/my dev/hooks/deskbot-hook.js' Stop"]);
}

#[test]
fn shell_quote_escapes_single_quotes() {
    assert_eq!(shell_quote("/tmp/it's/hook.js"), "'/tmp/it'\\''s/hook.js'");
    assert_eq!(shell_quote("/plain/path-1_2.js"), "/plain/path-1_2.js");
}

#[test]
fn hook_config_keeps_hand_set_values_and_replaces_ours() {
    let existing = obj(vec![("mode", s("local")), ("device_id", s("hand-set")), ("extra", s("x"))]);
    let doc = hook_config(existing, "https://hookbot.example", Some("key-1"), None);
    assert_eq!(field(&doc, "mode"), &s("local"));
    assert_eq!(field(&doc, "host"), &s("https://hookbot.example"));
    assert_eq!(field(&doc, "api_key"), &s("key-1"));
    assert_eq!(field(&doc, "device_id"), &s("hand-set"));
    assert_eq!(field(&doc, "extra"), &s("x"));
}

#[test]
fn hook_config_starts_over_from_a_non_object() {
    let doc = hook_config(s("garbage"), "http://localhost:3000", None, Some("dev-9"));
    assert_eq!(
        doc,
        obj(vec![("host", s("http://localhost:3000")), ("mode", s("server")), ("device_id", s("dev-9"))])
    );
}

#[test]
fn backup_suffix_keeps_the_original_name() {
    assert_eq!(with_suffix("/a/b/settings.json", ".bak.42"), "/a/b/settings.json.bak.42");
}

#[test]
fn merge_is_idempotent_for_a_script_without_a_marker() {
    let mut once = obj(vec![("hooks", obj(vec![("Stop", arr(vec![obj(vec![("matcher", s("x"))])]))]))]);
    merge_hook_entries(&mut once, "/opt/x/run.js");
    let mut twice = copy(&once);
    let added = merge_hook_entries(&mut twice, "/opt/x/run.js");
    assert_eq!(twice, once);
    assert_eq!(added, EVENTS.iter().map(|e| e.to_string()).collect::<Vec<_>>());
    assert_eq!(items(field(field(&twice, "hooks"), "Stop")).len(), 2);
}

#[test]
fn hook_config_sets_server_mode_only_when_none_is_set() {
    let doc = hook_config(obj(vec![("device_id", s("d1"))]), "http://h", None, None);
    assert_eq!(field(&doc, "mode"), &s("server"));
    let doc = hook_config(obj(vec![("mode", s("local")), ("device_id", s("d1")), ("extra", s("1"))]), "http://h", None, None);
    assert_eq!(field(&doc, "mode"), &s("local"));
    assert_eq!(field(&doc, "device_id"), &s("d1"));
    assert_eq!(field(&doc, "extra"), &s("1"));
    assert_eq!(field(&doc, "host"), &s("http://h"));
    assert_eq!(field(&doc, "api_key"), &JsonValue::Null);
}
