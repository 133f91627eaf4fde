//! GitHub webhooks mapped to avatar states.
use vstd::prelude::*;
use crate::json::{as_bool, as_str, as_u64, get, get_opt, json_get, json_of, opt_bool, opt_get, opt_str, opt_u64, or_else, str_at, Json, JsonValue};
use crate::text::{chars_of, decimal, push_all, push_decimal, push_str, replace_all, replace_chars, str_eq, string_of};

verus! {

broadcast use vstd::string::group_string_axioms;

/// The state a CI run's outcome shows.
pub open spec fn run_state(action: Seq<char>, conclusion: Seq<char>) -> Seq<char> {
    if action == "completed"@ && conclusion == "success"@ {
        "success"@
    } else if action == "completed"@ && (conclusion == "failure"@ || conclusion == "timed_out"@) {
        "error"@
    } else {
        "idle"@
    }
}

/// The avatar state for a webhook event.
pub open spec fn github_state_spec(event: Seq<char>, b: Json) -> Seq<char> {
    let action = or_else(opt_str(json_get(b, "action"@)), ""@);
    if event == "push"@ {
        "success"@
    } else if event == "pull_request"@ {
        if action == "opened"@ || action == "reopened"@ {
            "thinking"@
        } else if action == "closed"@ {
            if opt_bool(opt_get(json_get(b, "pull_request"@), "merged"@)) == Some(true) {
                "success"@
            } else {
                "idle"@
            }
        } else {
            "idle"@
        }
    } else if event == "issues"@ {
        if action == "opened"@ {
            "thinking"@
        } else if action == "closed"@ {
            "success"@
        } else {
            "idle"@
        }
    } else if event == "workflow_run"@ {
        run_state(action, or_else(str_at(b, "workflow_run"@, "conclusion"@), ""@))
    } else if event == "check_run"@ {
        run_state(action, or_else(str_at(b, "check_run"@, "conclusion"@), ""@))
    } else if event == "star"@ {
        if action == "created"@ {
            "success"@
        } else {
            "idle"@
        }
    } else if event == "ping"@ {
        "success"@
    } else {
        "idle"@
    }
}

pub open spec fn number_or_zero(n: Option<u64>) -> nat {
    match n {
        Some(v) => v as nat,
        None => 0,
    }
}

/// The activity name recorded for a webhook event.
pub open spec fn github_tool_spec(event: Seq<char>, b: Json) -> Seq<char> {
    let action = or_else(opt_str(json_get(b, "action"@)), ""@);
    if event == "push"@ {
        "github:push:"@ + replace_all(or_else(opt_str(json_get(b, "ref"@)), ""@), "refs/heads/"@, ""@)
    } else if event == "pull_request"@ {
        "github:pr:"@ + action + "#"@ + decimal(
            number_or_zero(opt_u64(opt_get(json_get(b, "pull_request"@), "number"@))),
        )
    } else if event == "issues"@ {
        "github:issue:"@ + action + "#"@ + decimal(
            number_or_zero(opt_u64(opt_get(json_get(b, "issue"@), "number"@))),
        )
    } else if event == "workflow_run"@ {
        "github:ci:"@ + or_else(str_at(b, "workflow_run"@, "name"@), "workflow"@)
    } else if event == "check_run"@ {
        "github:check:"@ + or_else(str_at(b, "check_run"@, "name"@), "check"@)
    } else if event == "star"@ {
        "github:star:"@ + or_else(str_at(b, "repository"@, "full_name"@), "unknown"@)
    } else if event == "ping"@ {
        "github:ping"@
    } else {
        "github:"@ + event
    }
}

fn run_state_exec(action: &str, conclusion: &str) -> (s: &'static str)
    ensures
        s@ == run_state(action@, conclusion@),
{
    let completed = str_eq(action, "completed");
    if completed && str_eq(conclusion, "success") {
        "success"
    } else if completed && (str_eq(conclusion, "failure") || str_eq(conclusion, "timed_out")) {
        "error"
    } else {
        "idle"
    }
}

fn str_or<'a>(s: Option<&'a str>, d: &'a str) -> (r: &'a str)
    ensures
        r@ == match s {
            Some(x) => x@,
            None => d@,
        },
{
    match s {
        Some(x) => x,
        None => d,
    }
}

/// Maps a GitHub webhook event and its payload to an avatar state and an activity name.
pub fn map_github_event(event: &str, body: &JsonValue) -> (r: (&'static str, String))
    ensures
        r.0@ == github_state_spec(event@, json_of(*body)),
        r.1@ == github_tool_spec(event@, json_of(*body)),
{
    let b = Some(body);
    let action = str_or(as_str(get(body, "action")), "");
    let state: &'static str = if str_eq(event, "push") {
        "success"
    } else if str_eq(event, "pull_request") {
        if str_eq(action, "opened") || str_eq(action, "reopened") {
            "thinking"
        } else if str_eq(action, "closed") {
            if as_bool(get_opt(get(body, "pull_request"), "merged")) == Some(true) {
                "success"
            } else {
                "idle"
            }
        } else {
            "idle"
        }
    } else if str_eq(event, "issues") {
        if str_eq(action, "opened") {
            "thinking"
        } else if str_eq(action, "closed") {
            "success"
        } else {
            "idle"
        }
    } else if str_eq(event, "workflow_run") {
        run_state_exec(action, str_or(as_str(get_opt(get(body, "workflow_run"), "conclusion")), ""))
    } else if str_eq(event, "check_run") {
        run_state_exec(action, str_or(as_str(get_opt(get(body, "check_run"), "conclusion")), ""))
    } else if str_eq(event, "star") {
        if str_eq(action, "created") {
            "success"
        } else {
            "idle"
        }
    } else if str_eq(event, "ping") {
        "success"
    } else {
        "idle"
    };
    let mut v: Vec<char> = Vec::new();
    if str_eq(event, "push") {
        push_str(&mut v, "github:push:");
        let r = chars_of(str_or(as_str(get(body, "ref")), ""));
        let pat = chars_of("refs/heads/");
        let empty: Vec<char> = Vec::new();
        proof {
            reveal_strlit("refs/heads/");
            reveal_strlit("");
        }
        let replaced = replace_chars(r.as_slice(), pat.as_slice(), empty.as_slice());
        assert(empty@ =~= ""@);
        push_all(&mut v, replaced.as_slice());
    } else if str_eq(event, "pull_request") {
        push_str(&mut v, "github:pr:");
        push_str(&mut v, action);
        push_str(&mut v, "#");
        let n = match as_u64(get_opt(get(body, "pull_request"), "number")) {
            Some(n) => n,
            None => 0,
        };
        push_decimal(&mut v, n);
    } else if str_eq(event, "issues") {
        push_str(&mut v, "github:issue:");
        push_str(&mut v, action);
        push_str(&mut v, "#");
        let n = match as_u64(get_opt(get(body, "issue"), "number")) {
            Some(n) => n,
            None => 0,
        };
        push_decimal(&mut v, n);
    } else if str_eq(event, "workflow_run") {
        push_str(&mut v, "github:ci:");
        push_str(&mut v, str_or(as_str(get_opt(get(body, "workflow_run"), "name")), "workflow"));
    } else if str_eq(event, "check_run") {
        push_str(&mut v, "github:check:");
        push_str(&mut v, str_or(as_str(get_opt(get(body, "check_run"), "name")), "check"));
    } else if str_eq(event, "star") {
        push_str(&mut v, "github:star:");
        push_str(&mut v, str_or(as_str(get_opt(get(body, "repository"), "full_name")), "unknown"));
    } else if str_eq(event, "ping") {
        push_str(&mut v, "github:ping");
    } else {
        push_str(&mut v, "github:");
        push_str(&mut v, event);
    }
    (state, string_of(v.as_slice()))
}


/// The repository a GitHub event came from: `repository.full_name`, or `unknown`.
pub fn repo_name(body: &JsonValue) -> (r: String)
    ensures
        r@ == or_else(str_at(json_of(*body), "repository"@, "full_name"@), "unknown"@),
{
    let repo = get(body, "repository");
    let name = get_opt(repo, "full_name");
    proof {
        match repo {
            Some(x) => assert(json_get(json_of(*body), "repository"@) == Some(json_of(*x))),
            None => {},
        }
    }
    match as_str(name) {
        Some(s) => s.to_string(),
        None => "unknown".to_string(),
    }
}

} // verus!
