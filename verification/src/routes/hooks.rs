//! Agent hook events turned into avatar states.
use vstd::prelude::*;
use crate::json::or_else;
use crate::models::HookEvent;
use crate::text::{contains_seq, lowercase_spec, str_contains, str_eq, to_lowercase};

verus! {

broadcast use vstd::string::group_string_axioms;

/// Whether a finished tool call was a passing build or test: a shell tool whose output
/// mentions passing or success (case-insensitively).
pub open spec fn build_or_test_passed(tool_name: Seq<char>, tool_output: Seq<char>) -> bool {
    let name = lowercase_spec(tool_name);
    let out = lowercase_spec(tool_output);
    contains_seq(name, "bash"@) && (contains_seq(out, "passed"@) || contains_seq(out, "success"@)
        || contains_seq(out, "build succeeded"@))
}

/// The avatar state an agent hook event shows.
pub open spec fn hook_state_spec(event: Seq<char>, tool_name: Option<Seq<char>>, tool_output: Option<Seq<char>>) -> Seq<char> {
    if event == "PreToolUse"@ {
        "thinking"@
    } else if event == "PostToolUse"@ {
        if build_or_test_passed(or_else(tool_name, ""@), or_else(tool_output, ""@)) {
            "success"@
        } else {
            "idle"@
        }
    } else if event == "UserPromptSubmit"@ {
        "thinking"@
    } else if event == "Stop"@ {
        "idle"@
    } else if event == "TaskCompleted"@ {
        "success"@
    } else {
        "idle"@
    }
}

fn opt_text(o: &Option<String>) -> (t: &str)
    ensures
        t@ == or_else(
            match o {
                Some(s) => Some(s@),
                None => None,
            },
            ""@,
        ),
{
    match o {
        Some(s) => s.as_str(),
        None => "",
    }
}

/// The avatar state for an agent hook event.
pub fn hook_state(input: &HookEvent) -> (state: &'static str)
    ensures
        state@ == hook_state_spec(
            input.event@,
            match input.tool_name {
                Some(s) => Some(s@),
                None => None,
            },
            match input.tool_output {
                Some(s) => Some(s@),
                None => None,
            },
        ),
{
    let event = input.event.as_str();
    if str_eq(event, "PreToolUse") {
        "thinking"
    } else if str_eq(event, "PostToolUse") {
        let name = to_lowercase(opt_text(&input.tool_name));
        let out = to_lowercase(opt_text(&input.tool_output));
        let passed = str_contains(name.as_str(), "bash") && (str_contains(out.as_str(), "passed")
            || str_contains(out.as_str(), "success") || str_contains(out.as_str(), "build succeeded"));
        if passed {
            "success"
        } else {
            "idle"
        }
    } else if str_eq(event, "UserPromptSubmit") {
        "thinking"
    } else if str_eq(event, "Stop") {
        "idle"
    } else if str_eq(event, "TaskCompleted") {
        "success"
    } else {
        "idle"
    }
}

/// The device a hook event is routed to before falling back to the first device:
/// the project's route, else the device the event names.
pub fn routed_device(project_route: Option<String>, requested: Option<String>) -> (d: Option<String>)
    ensures
        d == match project_route {
            Some(r) => Some(r),
            None => requested,
        },
{
    match project_route {
        Some(r) => Some(r),
        None => requested,
    }
}

} // verus!
