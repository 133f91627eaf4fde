//! Registering the Hookbot hook script in an agent settings document.
use vstd::prelude::*;
use crate::json::{
    find_member, get, get_field, json_get, json_of, jsons, lemma_json_of_array,
    lemma_json_of_object, lemma_key_index, lemma_key_index_bounds, lemma_set_field,
    lemma_set_field_same, members, set_field, Json, JsonValue,
};
use crate::text::{chars_of, contains_chars, contains_seq, push_str, str_eq, string_of};

verus! {

broadcast use vstd::string::group_string_axioms;

/// The agent events the hook script listens for, in the order they are wired up.
pub open spec fn hook_events() -> Seq<Seq<char>> {
    seq!["PreToolUse"@, "PostToolUse"@, "UserPromptSubmit"@, "Stop"@]
}

pub enum HookAction {
    Install {
        project: bool,
        settings: Option<String>,
        script: Option<String>,
        device: Option<String>,
    },
}

pub open spec fn is_safe_path_char(c: char) -> bool {
    ('a' <= c <= 'z') || ('A' <= c <= 'Z') || ('0' <= c <= '9') || c == '/' || c == '.' || c
        == '-' || c == '_' || c == '~'
}

/// Each `'` becomes `'\''`.
pub open spec fn escape_quotes(s: Seq<char>) -> Seq<char>
    decreases s.len(),
{
    if s.len() == 0 {
        Seq::empty()
    } else {
        escape_quotes(s.drop_last()) + if s.last() == '\'' {
            seq!['\'', '\\', '\'', '\'']
        } else {
            seq![s.last()]
        }
    }
}

/// A path as it appears in a shell command: as is when every character is safe,
/// otherwise single-quoted.
pub open spec fn shell_quote_spec(path: Seq<char>) -> Seq<char> {
    if forall|i: int| 0 <= i < path.len() ==> is_safe_path_char(#[trigger] path[i]) {
        path
    } else {
        seq!['\''] + escape_quotes(path) + seq!['\'']
    }
}

/// Quotes a path for the shell only when it needs it.
pub fn shell_quote(path: &str) -> (q: String)
    ensures
        q@ == shell_quote_spec(path@),
{
    let cs = chars_of(path);
    let mut safe = true;
    let mut i: usize = 0;
    while i < cs.len()
        invariant
            i <= cs@.len(),
            cs@ == path@,
            safe == (forall|j: int| 0 <= j < i ==> is_safe_path_char(#[trigger] cs@[j])),
        decreases cs@.len() - i,
    {
        let c = cs[i];
        let ok = ('a' <= c && c <= 'z') || ('A' <= c && c <= 'Z') || ('0' <= c && c <= '9') || c
            == '/' || c == '.' || c == '-' || c == '_' || c == '~';
        safe = safe && ok;
        i = i + 1;
    }
    if safe {
        return string_of(cs.as_slice());
    }
    let mut v: Vec<char> = Vec::new();
    v.push('\'');
    let mut k: usize = 0;
    while k < cs.len()
        invariant
            k <= cs@.len(),
            v@ == seq!['\''] + escape_quotes(cs@.take(k as int)),
        decreases cs@.len() - k,
    {
        let c = cs[k];
        assert(cs@.take(k + 1).drop_last() =~= cs@.take(k as int));
        if c == '\'' {
            v.push('\'');
            v.push('\\');
            v.push('\'');
            v.push('\'');
        } else {
            v.push(c);
        }
        k = k + 1;
    }
    assert(cs@.take(cs@.len() as int) =~= cs@);
    v.push('\'');
    string_of(v.as_slice())
}

/// The hook command for one event.
pub open spec fn command_spec(script: Seq<char>, event: Seq<char>) -> Seq<char> {
    "node "@ + shell_quote_spec(script) + " "@ + event
}

/// The matcher registering the script for one event.
pub open spec fn hook_entry_spec(script: Seq<char>, event: Seq<char>) -> Json {
    Json::Object(
        seq![
            (
                "hooks"@,
                Json::Array(
                    seq![
                        Json::Object(
                            seq![
                                ("type"@, Json::Str("command"@)),
                                ("command"@, Json::Str(command_spec(script, event))),
                            ],
                        ),
                    ],
                ),
            ),
        ],
    )
}

/// Whether a hook command belongs to Hookbot.
pub open spec fn command_marked(h: Json) -> bool {
    match json_get(h, "command"@) {
        Some(Json::Str(c)) => contains_seq(c, "hookbot-hook"@) || contains_seq(c, "deskbot-hook"@),
        _ => false,
    }
}

/// Whether any command inside this matcher belongs to Hookbot.
pub open spec fn is_hookbot_spec(m: Json) -> bool {
    match json_get(m, "hooks"@) {
        Some(Json::Array(hs)) => exists|j: int| 0 <= j < hs.len() && command_marked(#[trigger] hs[j]),
        _ => false,
    }
}

/// Whether this matcher runs exactly the command `cmd`.
pub open spec fn has_command(m: Json, cmd: Seq<char>) -> bool {
    match json_get(m, "hooks"@) {
        Some(Json::Array(hs)) => exists|j: int| 0 <= j < hs.len() && json_get(#[trigger] hs[j], "command"@)
            == Some(Json::Str(cmd)),
        _ => false,
    }
}

/// Whether the merge takes this matcher for Hookbot's own, when it is about to install the
/// command `cmd`: a command of it carries a Hookbot marker, or it already runs `cmd`.
pub open spec fn owned_spec(m: Json, cmd: Seq<char>) -> bool {
    is_hookbot_spec(m) || has_command(m, cmd)
}

/// The matchers that are not Hookbot's, in order.
pub open spec fn keep_foreign(s: Seq<Json>, cmd: Seq<char>) -> Seq<Json>
    decreases s.len(),
{
    if s.len() == 0 {
        s
    } else {
        let r = keep_foreign(s.drop_last(), cmd);
        if owned_spec(s.last(), cmd) {
            r
        } else {
            r.push(s.last())
        }
    }
}

/// The hooks object after wiring up one event: its earlier Hookbot matchers are
/// dropped, everyone else's kept, and the current one appended.
pub open spec fn merge_event_spec(hooks: Seq<(Seq<char>, Json)>, event: Seq<char>, script: Seq<char>) -> Seq<(Seq<char>, Json)> {
    let existing = match get_field(hooks, event) {
        Some(Json::Array(a)) => a,
        _ => Seq::empty(),
    };
    set_field(
        hooks,
        event,
        Json::Array(keep_foreign(existing, command_spec(script, event)).push(hook_entry_spec(script, event))),
    )
}

/// All four events wired up in turn.
pub open spec fn merge_all_events(hooks: Seq<(Seq<char>, Json)>, script: Seq<char>) -> Seq<(Seq<char>, Json)> {
    let e = hook_events();
    merge_event_spec(
        merge_event_spec(merge_event_spec(merge_event_spec(hooks, e[0], script), e[1], script), e[2], script),
        e[3],
        script,
    )
}

/// The settings document after `merge_hook_entries`.
pub open spec fn merge_spec(settings: Json, script: Seq<char>) -> Json {
    let root = match settings {
        Json::Object(f) => f,
        _ => Seq::empty(),
    };
    let hooks = match get_field(root, "hooks"@) {
        Some(Json::Object(h)) => h,
        _ => Seq::empty(),
    };
    Json::Object(set_field(root, "hooks"@, Json::Object(merge_all_events(hooks, script))))
}

proof fn lemma_is_hookbot(m: Json, js: Seq<Json>, j: int)
    requires
        json_get(m, "hooks"@) == Some(Json::Array(js)),
        0 <= j < js.len(),
        command_marked(js[j]),
    ensures
        is_hookbot_spec(m),
{
    let hs = match json_get(m, "hooks"@) {
        Some(Json::Array(hs)) => hs,
        _ => Seq::empty(),
    };
    assert(hs == js);
    assert(command_marked(hs[j]));
    assert(exists|k: int| 0 <= k < hs.len() && command_marked(#[trigger] hs[k]));
}

fn command_marked_exec(h: &JsonValue) -> (r: bool)
    ensures
        r == command_marked(json_of(*h)),
{
    match get(h, "command") {
        Some(JsonValue::Str(c)) => {
            let cs = chars_of(c.as_str());
            let m1 = chars_of("hookbot-hook");
            let m2 = chars_of("deskbot-hook");
            contains_chars(cs.as_slice(), m1.as_slice()) || contains_chars(cs.as_slice(), m2.as_slice())
        },
        _ => false,
    }
}

/// True if any command inside this matcher belongs to Hookbot.
pub fn is_hookbot_matcher(m: &JsonValue) -> (r: bool)
    ensures
        r == is_hookbot_spec(json_of(*m)),
{
    match get(m, "hooks") {
        Some(JsonValue::Array(hs)) => {
            proof {
                lemma_json_of_array(*hs);
            }
            let ghost js = jsons(hs@);
            assert(json_get(json_of(*m), "hooks"@) == Some(Json::Array(js)));
            let mut i: usize = 0;
            while i < hs.len()
                invariant
                    i <= hs@.len(),
                    js == jsons(hs@),
                    json_get(json_of(*m), "hooks"@) == Some(Json::Array(js)),
                    forall|j: int| 0 <= j < i ==> !command_marked(#[trigger] js[j]),
                decreases hs@.len() - i,
            {
                if command_marked_exec(&hs[i]) {
                    assert(command_marked(js[i as int]));
                    assert(json_get(json_of(*m), "hooks"@) == Some(Json::Array(js)));
                    proof {
                        lemma_is_hookbot(json_of(*m), js, i as int);
                    }
                    return true;
                }
                i = i + 1;
            }
            false
        },
        _ => false,
    }
}

proof fn lemma_has_command(m: Json, js: Seq<Json>, j: int, cmd: Seq<char>)
    requires
        json_get(m, "hooks"@) == Some(Json::Array(js)),
        0 <= j < js.len(),
        json_get(js[j], "command"@) == Some(Json::Str(cmd)),
    ensures
        has_command(m, cmd),
{
    let hs = match json_get(m, "hooks"@) {
        Some(Json::Array(hs)) => hs,
        _ => Seq::empty(),
    };
    assert(hs == js);
    assert(json_get(hs[j], "command"@) == Some(Json::Str(cmd)));
}

fn command_is_exec(h: &JsonValue, cmd: &str) -> (r: bool)
    ensures
        r == (json_get(json_of(*h), "command"@) == Some(Json::Str(cmd@))),
{
    match get(h, "command") {
        Some(JsonValue::Str(c)) => str_eq(c.as_str(), cmd),
        _ => false,
    }
}

/// Whether the matcher already runs exactly `cmd`.
fn has_command_exec(m: &JsonValue, cmd: &str) -> (r: bool)
    ensures
        r == has_command(json_of(*m), cmd@),
{
    match get(m, "hooks") {
        Some(JsonValue::Array(hs)) => {
            proof {
                lemma_json_of_array(*hs);
            }
            let ghost js = jsons(hs@);
            let mut i: usize = 0;
            while i < hs.len()
                invariant
                    i <= hs@.len(),
                    js == jsons(hs@),
                    json_get(json_of(*m), "hooks"@) == Some(Json::Array(js)),
                    forall|j: int| 0 <= j < i ==> json_get(#[trigger] js[j], "command"@) != Some(Json::Str(cmd@)),
                decreases hs@.len() - i,
            {
                if command_is_exec(&hs[i], cmd) {
                    proof {
                        lemma_has_command(json_of(*m), js, i as int, cmd@);
                    }
                    return true;
                }
                i = i + 1;
            }
            false
        },
        _ => false,
    }
}

fn keep_foreign_exec(arr: Vec<JsonValue>, cmd: &str) -> (kept: Vec<JsonValue>)
    ensures
        jsons(kept@) == keep_foreign(jsons(arr@), cmd@),
{
    let ghost orig = jsons(arr@);
    let mut rest = arr;
    let mut kept: Vec<JsonValue> = Vec::new();
    let ghost mut taken: int = 0;
    while rest.len() > 0
        invariant
            taken + rest@.len() == orig.len(),
            0 <= taken,
            forall|j: int| 0 <= j < rest@.len() ==> json_of(#[trigger] rest@[j]) == orig[taken + j],
            jsons(kept@) == keep_foreign(orig.take(taken), cmd@),
        decreases rest@.len(),
    {
        let ghost before = rest@;
        let m = rest.remove(0);
        proof {
            assert(json_of(m) == orig[taken]);
            assert(orig.take(taken + 1).drop_last() =~= orig.take(taken));
            assert forall|j: int| 0 <= j < rest@.len() implies json_of(#[trigger] rest@[j]) == orig[taken + 1 + j] by {
                assert(rest@[j] == before[j + 1]);
            }
        }
        if !(is_hookbot_matcher(&m) || has_command_exec(&m, cmd)) {
            let ghost kb = kept@;
            kept.push(m);
            assert(jsons(kept@) =~= jsons(kb).push(json_of(m)));
        }
        proof {
            taken = taken + 1;
        }
    }
    assert(orig.take(taken) =~= orig);
    kept
}

/// The hook command for one event: `node {script, quoted when needed} {event}`.
fn hook_command(script: &str, event: &str) -> (cmd: String)
    ensures
        cmd@ == command_spec(script@, event@),
{
    let mut v: Vec<char> = Vec::new();
    push_str(&mut v, "node ");
    push_str(&mut v, shell_quote(script).as_str());
    push_str(&mut v, " ");
    push_str(&mut v, event);
    string_of(v.as_slice())
}

/// The matcher registering `script` for `event`.
pub fn hook_entry(script: &str, event: &str) -> (entry: JsonValue)
    ensures
        json_of(entry) == hook_entry_spec(script@, event@),
{
    let command = hook_command(script, event);
    let mut inner: Vec<(String, JsonValue)> = Vec::new();
    inner.push(("type".to_string(), JsonValue::Str("command".to_string())));
    inner.push(("command".to_string(), JsonValue::Str(command)));
    let inner_obj = JsonValue::Object(inner);
    let mut list: Vec<JsonValue> = Vec::new();
    list.push(inner_obj);
    let hooks_arr = JsonValue::Array(list);
    let mut outer: Vec<(String, JsonValue)> = Vec::new();
    outer.push(("hooks".to_string(), hooks_arr));
    proof {
        lemma_json_of_object(inner);
        assert(members(inner@) =~= seq![
            ("type"@, Json::Str("command"@)),
            ("command"@, Json::Str(command_spec(script@, event@))),
        ]);
        lemma_json_of_array(list);
        assert(jsons(list@) =~= seq![json_of(inner_obj)]);
        lemma_json_of_object(outer);
        assert(members(outer@) =~= seq![("hooks"@, json_of(hooks_arr))]);
    }
    JsonValue::Object(outer)
}

fn merge_event(hooks: &mut Vec<(String, JsonValue)>, event: &str, script: &str)
    ensures
        members(final(hooks)@) == merge_event_spec(members(old(hooks)@), event@, script@),
{
    let ghost h0 = members(hooks@);
    let idx = find_member(hooks, event);
    proof {
        lemma_key_index_bounds(h0, event@);
    }
    let arr: Vec<JsonValue> = match idx {
        Some(i) => {
            let ghost entry = hooks@[i as int];
            let (_, v) = hooks.remove(i);
            proof {
                assert(get_field(h0, event@) == Some(json_of(v)));
            }
            match v {
                JsonValue::Array(a) => {
                    proof {
                        lemma_json_of_array(a);
                    }
                    a
                },
                _ => Vec::new(),
            }
        },
        None => Vec::new(),
    };
    let ghost existing = match get_field(h0, event@) {
        Some(Json::Array(a)) => a,
        _ => Seq::<Json>::empty(),
    };
    assert(jsons(arr@) =~= existing);
    let cmd = hook_command(script, event);
    let mut kept = keep_foreign_exec(arr, cmd.as_str());
    let entry = hook_entry(script, event);
    let ghost kb = kept@;
    kept.push(entry);
    assert(jsons(kept@) =~= jsons(kb).push(json_of(entry)));
    let value = JsonValue::Array(kept);
    proof {
        lemma_json_of_array(kept);
    }
    match idx {
        Some(i) => {
            let ghost mid = hooks@;
            hooks.insert(i, (event.to_string(), value));
            assert(members(hooks@) =~= h0.update(i as int, (event@, json_of(value))));
        },
        None => {
            let ghost mid = hooks@;
            hooks.push((event.to_string(), value));
            assert(members(hooks@) =~= h0.push((event@, json_of(value))));
        },
    }
}

/// Merges the Hookbot hook entries into an agent settings document.
///
/// Existing settings, including other people's hooks, are kept. A previous Hookbot
/// entry for an event is replaced rather than duplicated. Returns the events that
/// were wired up.
pub fn merge_hook_entries(settings: &mut JsonValue, script: &str) -> (added: Vec<String>)
    ensures
        json_of(*final(settings)) == merge_spec(json_of(*old(settings)), script@),
        added@.len() == 4,
        forall|i: int| 0 <= i < 4 ==> #[trigger] added@[i]@ == hook_events()[i],
{
    let mut doc = JsonValue::Null;
    std::mem::swap(settings, &mut doc);
    let ghost j0 = json_of(doc);
    let mut root: Vec<(String, JsonValue)> = match doc {
        JsonValue::Object(f) => {
            proof {
                lemma_json_of_object(f);
            }
            f
        },
        _ => Vec::new(),
    };
    let ghost r0 = members(root@);
    assert(r0 == match j0 {
        Json::Object(f) => f,
        _ => Seq::<(Seq<char>, Json)>::empty(),
    });
    let hidx = find_member(&root, "hooks");
    proof {
        lemma_key_index_bounds(r0, "hooks"@);
    }
    let mut hooks: Vec<(String, JsonValue)> = match hidx {
        Some(i) => {
            let (_, v) = root.remove(i);
            proof {
                assert(get_field(r0, "hooks"@) == Some(json_of(v)));
            }
            match v {
                JsonValue::Object(h) => {
                    proof {
                        lemma_json_of_object(h);
                    }
                    h
                },
                _ => Vec::new(),
            }
        },
        None => Vec::new(),
    };
    let ghost h0 = members(hooks@);
    assert(h0 =~= match get_field(r0, "hooks"@) {
        Some(Json::Object(h)) => h,
        _ => Seq::<(Seq<char>, Json)>::empty(),
    });
    proof {
        reveal_strlit("PreToolUse");
        reveal_strlit("PostToolUse");
        reveal_strlit("UserPromptSubmit");
        reveal_strlit("Stop");
    }
    merge_event(&mut hooks, "PreToolUse", script);
    merge_event(&mut hooks, "PostToolUse", script);
    merge_event(&mut hooks, "UserPromptSubmit", script);
    merge_event(&mut hooks, "Stop", script);
    assert(members(hooks@) == merge_all_events(h0, script@));
    let hv = JsonValue::Object(hooks);
    proof {
        lemma_json_of_object(hooks);
    }
    match hidx {
        Some(i) => {
            root.insert(i, ("hooks".to_string(), hv));
            assert(members(root@) =~= r0.update(i as int, ("hooks"@, json_of(hv))));
        },
        None => {
            root.push(("hooks".to_string(), hv));
            assert(members(root@) =~= r0.push(("hooks"@, json_of(hv))));
        },
    }
    let out = JsonValue::Object(root);
    proof {
        lemma_json_of_object(root);
    }
    *settings = out;
    let mut added: Vec<String> = Vec::new();
    added.push("PreToolUse".to_string());
    added.push("PostToolUse".to_string());
    added.push("UserPromptSubmit".to_string());
    added.push("Stop".to_string());
    added
}


pub open spec fn all_foreign(s: Seq<Json>, cmd: Seq<char>) -> bool {
    forall|j: int| 0 <= j < s.len() ==> !owned_spec(#[trigger] s[j], cmd)
}

proof fn lemma_keep_foreign_all(s: Seq<Json>, cmd: Seq<char>)
    requires
        all_foreign(s, cmd),
    ensures
        keep_foreign(s, cmd) == s,
    decreases s.len(),
{
    if s.len() > 0 {
        assert(all_foreign(s.drop_last(), cmd)) by {
            assert forall|j: int| 0 <= j < s.drop_last().len() implies !owned_spec(#[trigger] s.drop_last()[j], cmd) by {
                assert(s.drop_last()[j] == s[j]);
            }
        }
        lemma_keep_foreign_all(s.drop_last(), cmd);
        assert(!owned_spec(s[s.len() - 1], cmd));
        assert(s.drop_last().push(s.last()) =~= s);
    }
}

proof fn lemma_keep_foreign_clean(s: Seq<Json>, cmd: Seq<char>)
    ensures
        all_foreign(keep_foreign(s, cmd), cmd),
    decreases s.len(),
{
    if s.len() > 0 {
        lemma_keep_foreign_clean(s.drop_last(), cmd);
    }
}

proof fn lemma_entry_owned(script: Seq<char>, event: Seq<char>)
    ensures
        owned_spec(hook_entry_spec(script, event), command_spec(script, event)),
{
    reveal_strlit("type");
    reveal_strlit("command");
    let cmd = command_spec(script, event);
    let inner_f = seq![("type"@, Json::Str("command"@)), ("command"@, Json::Str(cmd))];
    assert("type"@.len() == 4);
    assert("command"@.len() == 7);
    assert(inner_f[0].0 != "command"@);
    lemma_key_index(inner_f, "command"@, 1);
    let inner = Json::Object(inner_f);
    assert(json_get(inner, "command"@) == Some(Json::Str(cmd)));
    let outer_f = seq![("hooks"@, Json::Array(seq![inner]))];
    lemma_key_index(outer_f, "hooks"@, 0);
    lemma_has_command(hook_entry_spec(script, event), seq![inner], 0, cmd);
}

/// Event `e` of `h` holds other people's matchers followed by the current Hookbot entry.
pub open spec fn settled(h: Seq<(Seq<char>, Json)>, e: Seq<char>, script: Seq<char>) -> bool {
    match get_field(h, e) {
        Some(Json::Array(v)) => v.len() > 0 && v.last() == hook_entry_spec(script, e) && all_foreign(
            v.drop_last(),
            command_spec(script, e),
        ),
        _ => false,
    }
}

proof fn lemma_merge_event_settles(h: Seq<(Seq<char>, Json)>, e: Seq<char>, script: Seq<char>)
    ensures
        settled(merge_event_spec(h, e, script), e, script),
{
    let existing = match get_field(h, e) {
        Some(Json::Array(a)) => a,
        _ => Seq::empty(),
    };
    let cmd = command_spec(script, e);
    let v = keep_foreign(existing, cmd).push(hook_entry_spec(script, e));
    lemma_set_field(h, e, Json::Array(v), e);
    lemma_keep_foreign_clean(existing, cmd);
    assert(v.drop_last() =~= keep_foreign(existing, cmd));
}

proof fn lemma_settled_kept(h: Seq<(Seq<char>, Json)>, e: Seq<char>, e2: Seq<char>, script: Seq<char>)
    requires
        settled(h, e, script),
        e2 != e,
    ensures
        settled(merge_event_spec(h, e2, script), e, script),
{
    let existing = match get_field(h, e2) {
        Some(Json::Array(a)) => a,
        _ => Seq::empty(),
    };
    let v = keep_foreign(existing, command_spec(script, e2)).push(hook_entry_spec(script, e2));
    lemma_set_field(h, e2, Json::Array(v), e);
}

proof fn lemma_settled_stable(h: Seq<(Seq<char>, Json)>, e: Seq<char>, script: Seq<char>)
    requires
        settled(h, e, script),
    ensures
        merge_event_spec(h, e, script) == h,
{
    let v = match get_field(h, e) {
        Some(Json::Array(a)) => a,
        _ => Seq::empty(),
    };
    let cmd = command_spec(script, e);
    lemma_entry_owned(script, e);
    assert(v.drop_last().push(v.last()) =~= v);
    lemma_keep_foreign_all(v.drop_last(), cmd);
    assert(keep_foreign(v, cmd) == v.drop_last());
    lemma_set_field_same(h, e, Json::Array(v));
}

/// Running the merge a second time changes nothing, whatever the script.
pub proof fn lemma_merge_idempotent(settings: Json, script: Seq<char>)
    ensures
        merge_spec(merge_spec(settings, script), script) == merge_spec(settings, script),
{
    reveal_strlit("PreToolUse");
    reveal_strlit("PostToolUse");
    reveal_strlit("UserPromptSubmit");
    reveal_strlit("Stop");
    let ev = hook_events();
    let root = match settings {
        Json::Object(f) => f,
        _ => Seq::empty(),
    };
    let h0 = match get_field(root, "hooks"@) {
        Some(Json::Object(h)) => h,
        _ => Seq::empty(),
    };
    let h1 = merge_event_spec(h0, ev[0], script);
    let h2 = merge_event_spec(h1, ev[1], script);
    let h3 = merge_event_spec(h2, ev[2], script);
    let h4 = merge_event_spec(h3, ev[3], script);
    assert(ev[0] != ev[1] && ev[0] != ev[2] && ev[0] != ev[3] && ev[1] != ev[2] && ev[1] != ev[3]
        && ev[2] != ev[3]);
    lemma_merge_event_settles(h0, ev[0], script);
    lemma_settled_kept(h1, ev[0], ev[1], script);
    lemma_settled_kept(h2, ev[0], ev[2], script);
    lemma_settled_kept(h3, ev[0], ev[3], script);
    lemma_merge_event_settles(h1, ev[1], script);
    lemma_settled_kept(h2, ev[1], ev[2], script);
    lemma_settled_kept(h3, ev[1], ev[3], script);
    lemma_merge_event_settles(h2, ev[2], script);
    lemma_settled_kept(h3, ev[2], ev[3], script);
    lemma_merge_event_settles(h3, ev[3], script);
    lemma_settled_stable(h4, ev[0], script);
    lemma_settled_stable(h4, ev[1], script);
    lemma_settled_stable(h4, ev[2], script);
    lemma_settled_stable(h4, ev[3], script);
    assert(merge_all_events(h4, script) == h4);
    let r1 = set_field(root, "hooks"@, Json::Object(h4));
    lemma_set_field(root, "hooks"@, Json::Object(h4), "hooks"@);
    lemma_set_field_same(r1, "hooks"@, Json::Object(h4));
}

/// Keys other than `hooks` are left as they were.
pub proof fn lemma_merge_preserves_other_keys(settings: Json, script: Seq<char>, key: Seq<char>)
    requires
        settings is Object,
        key != "hooks"@,
    ensures
        json_get(merge_spec(settings, script), key) == json_get(settings, key),
{
    let root = match settings {
        Json::Object(f) => f,
        _ => Seq::empty(),
    };
    let h0 = match get_field(root, "hooks"@) {
        Some(Json::Object(h)) => h,
        _ => Seq::empty(),
    };
    lemma_set_field(root, "hooks"@, Json::Object(merge_all_events(h0, script)), key);
}

/// Other people's matchers for a managed event are kept, in order, ahead of Hookbot's entry.
pub proof fn lemma_merge_keeps_foreign_matchers(hooks: Seq<(Seq<char>, Json)>, existing: Seq<Json>, event: Seq<char>, script: Seq<char>)
    requires
        get_field(hooks, event) == Some(Json::Array(existing)),
    ensures
        get_field(merge_event_spec(hooks, event, script), event) == Some(
            Json::Array(
                keep_foreign(existing, command_spec(script, event)).push(hook_entry_spec(script, event)),
            ),
        ),
        all_foreign(keep_foreign(existing, command_spec(script, event)), command_spec(script, event)),
        all_foreign(existing, command_spec(script, event)) ==> keep_foreign(
            existing,
            command_spec(script, event),
        ) == existing,
{
    let cmd = command_spec(script, event);
    lemma_set_field(hooks, event, Json::Array(keep_foreign(existing, cmd).push(hook_entry_spec(script, event))), event);
    lemma_keep_foreign_clean(existing, cmd);
    if all_foreign(existing, cmd) {
        lemma_keep_foreign_all(existing, cmd);
    }
}


/// The hook script's configuration after installing: the members of the existing
/// configuration (none when it is not an object), with the server address, `server` mode
/// unless a mode is already set, and the API key and device when given, each replacing a
/// member of that name.
pub open spec fn hook_config_spec(existing: Json, base: Seq<char>, key: Option<Seq<char>>, device: Option<Seq<char>>) -> Json {
    let f0 = match existing {
        Json::Object(f) => f,
        _ => Seq::empty(),
    };
    let fh = set_field(f0, "host"@, Json::Str(base));
    let f1 = if get_field(fh, "mode"@) is Some {
        fh
    } else {
        set_field(fh, "mode"@, Json::Str("server"@))
    };
    let f2 = match key {
        Some(k) => set_field(f1, "api_key"@, Json::Str(k)),
        None => f1,
    };
    let f3 = match device {
        Some(d) => set_field(f2, "device_id"@, Json::Str(d)),
        None => f2,
    };
    Json::Object(f3)
}

/// Merges the server address, mode, key and device into the hook script's configuration,
/// keeping whatever else it holds (a hand-set mode, or a value of another name, survives).
pub fn hook_config(existing: JsonValue, base: &str, key: Option<&str>, device: Option<&str>) -> (doc: JsonValue)
    ensures
        json_of(doc) == hook_config_spec(
            json_of(existing),
            base@,
            match key {
                Some(k) => Some(k@),
                None => None,
            },
            match device {
                Some(d) => Some(d@),
                None => None,
            },
        ),
{
    let mut f: Vec<(String, JsonValue)> = match existing {
        JsonValue::Object(f) => {
            proof {
                lemma_json_of_object(f);
            }
            f
        },
        _ => Vec::new(),
    };
    assert(members(f@) == match json_of(existing) {
        Json::Object(g) => g,
        _ => Seq::empty(),
    }) by {
        if !(existing is Object) {
            assert(members(f@) =~= Seq::<(Seq<char>, Json)>::empty());
        }
    }
    crate::json::insert_member(&mut f, "host".to_string(), JsonValue::Str(base.to_string()));
    if find_member(&f, "mode").is_none() {
        crate::json::insert_member(&mut f, "mode".to_string(), JsonValue::Str("server".to_string()));
    }
    if let Some(k) = key {
        crate::json::insert_member(&mut f, "api_key".to_string(), JsonValue::Str(k.to_string()));
    }
    if let Some(d) = device {
        crate::json::insert_member(&mut f, "device_id".to_string(), JsonValue::Str(d.to_string()));
    }
    let doc = JsonValue::Object(f);
    proof {
        lemma_json_of_object(f);
    }
    doc
}

/// The name of a backup beside `path`: `suffix` appended to the file name it ends in
/// (`foo/settings.json` and `.bak.123` give `foo/settings.json.bak.123`).
pub fn with_suffix(path: &str, suffix: &str) -> (r: String)
    ensures
        r@ == path@ + suffix@,
{
    let mut v = chars_of(path);
    push_str(&mut v, suffix);
    string_of(v.as_slice())
}

} // verus!
