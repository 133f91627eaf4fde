//! Guessing what the developer is doing from the tools used last.
use vstd::prelude::*;
use crate::text::{contains_seq, lowercase_spec, str_contains, texts, to_lowercase};

verus! {

broadcast use vstd::string::group_string_axioms;

/// The activities a run of tools can point to, in the order they are weighed.
pub open spec fn context_names() -> Seq<Seq<char>> {
    seq!["searching"@, "coding"@, "testing"@, "debugging"@, "reviewing"@]
}

/// The words whose presence in a tool's lowercased name puts it in activity `c`.
pub open spec fn context_words(c: int) -> Seq<Seq<char>> {
    if c == 0 {
        seq!["search"@, "grep"@, "find"@, "glob"@]
    } else if c == 1 {
        seq!["edit"@, "write"@, "create"@, "insert"@]
    } else if c == 2 {
        seq!["test"@, "run"@, "exec"@, "bash"@]
    } else if c == 3 {
        seq!["debug"@, "log"@, "inspect"@, "console"@]
    } else {
        seq!["read"@, "diff"@, "review"@, "git"@]
    }
}

/// Whether a tool counts toward activity `c`.
pub open spec fn in_context(tool: Seq<char>, c: int) -> bool {
    let l = lowercase_spec(tool);
    let w = context_words(c);
    contains_seq(l, w[0]) || contains_seq(l, w[1]) || contains_seq(l, w[2]) || contains_seq(l, w[3])
}

/// How many of the tools count toward activity `c`.
pub open spec fn context_count(tools: Seq<Seq<char>>, c: int) -> nat
    decreases tools.len(),
{
    if tools.len() == 0 {
        0
    } else {
        context_count(tools.drop_last(), c) + if in_context(tools.last(), c) {
            1nat
        } else {
            0nat
        }
    }
}

/// The activity with the most tools among the first `n`, the later one on a tie.
pub open spec fn best_context(tools: Seq<Seq<char>>, n: int) -> int
    decreases n,
{
    if n <= 1 {
        0
    } else {
        let b = best_context(tools, n - 1);
        if context_count(tools, n - 1) >= context_count(tools, b) {
            n - 1
        } else {
            b
        }
    }
}

/// The guess and how many tools back it: the activity most of the tools point to (the later
/// one in `context_names` on a tie), or `idle` with none when no tool points anywhere.
pub open spec fn detect_context_spec(tools: Seq<Seq<char>>) -> (Seq<char>, nat) {
    let b = best_context(tools, 5);
    if context_count(tools, b) == 0 {
        ("idle"@, 0)
    } else {
        (context_names()[b], context_count(tools, b))
    }
}

proof fn lemma_best_context_range(tools: Seq<Seq<char>>, n: int)
    requires
        1 <= n,
    ensures
        0 <= best_context(tools, n) < n,
    decreases n,
{
    if n > 1 {
        lemma_best_context_range(tools, n - 1);
    }
}

fn tool_in_context(tool: &str, c: usize) -> (r: bool)
    requires
        c < 5,
    ensures
        r == in_context(tool@, c as int),
{
    let l = to_lowercase(tool);
    let ls = l.as_str();
    if c == 0 {
        str_contains(ls, "search") || str_contains(ls, "grep") || str_contains(ls, "find") || str_contains(ls, "glob")
    } else if c == 1 {
        str_contains(ls, "edit") || str_contains(ls, "write") || str_contains(ls, "create") || str_contains(ls, "insert")
    } else if c == 2 {
        str_contains(ls, "test") || str_contains(ls, "run") || str_contains(ls, "exec") || str_contains(ls, "bash")
    } else if c == 3 {
        str_contains(ls, "debug") || str_contains(ls, "log") || str_contains(ls, "inspect") || str_contains(ls, "console")
    } else {
        str_contains(ls, "read") || str_contains(ls, "diff") || str_contains(ls, "review") || str_contains(ls, "git")
    }
}

fn count_context(tools: &[String], c: usize) -> (n: usize)
    requires
        c < 5,
    ensures
        n == context_count(texts(tools@), c as int),
{
    let ghost t = texts(tools@);
    let mut n: usize = 0;
    let mut i: usize = 0;
    while i < tools.len()
        invariant
            c < 5,
            t == texts(tools@),
            i <= tools@.len(),
            n == context_count(t.take(i as int), c as int),
            n <= i,
        decreases tools@.len() - i,
    {
        assert(t.take(i + 1).drop_last() =~= t.take(i as int));
        if tool_in_context(tools[i].as_str(), c) {
            n = n + 1;
        }
        i = i + 1;
    }
    assert(t.take(tools@.len() as int) =~= t);
    n
}

/// The activity the recent tools point to, with the number of tools that point there.
pub fn detect_context(tools: &[String]) -> (r: (String, usize))
    ensures
        (r.0@, r.1 as nat) == detect_context_spec(texts(tools@)),
{
    let ghost t = texts(tools@);
    let mut best: usize = 0;
    let mut best_n = count_context(tools, 0);
    let mut c: usize = 1;
    while c < 5
        invariant
            1 <= c <= 5,
            t == texts(tools@),
            best as int == best_context(t, c as int),
            best_n == context_count(t, best as int),
        decreases 5 - c,
    {
        proof {
            lemma_best_context_range(t, c as int);
        }
        let n = count_context(tools, c);
        if n >= best_n {
            best = c;
            best_n = n;
        }
        c = c + 1;
    }
    proof {
        lemma_best_context_range(t, 5);
    }
    if best_n == 0 {
        return ("idle".to_string(), 0);
    }
    let name = if best == 0 {
        "searching"
    } else if best == 1 {
        "coding"
    } else if best == 2 {
        "testing"
    } else if best == 3 {
        "debugging"
    } else {
        "reviewing"
    };
    (name.to_string(), best_n)
}

} // verus!
