//! Experience points, levels and titles.
use vstd::prelude::*;
use crate::models::GamificationStats;
use crate::text::{push_str, string_of, str_eq};

verus! {

/// Total XP needed to reach `level`: 100 * level * (level + 1) / 2.
pub open spec fn xp_at(level: int) -> int {
    50 * level * (level + 1)
}

/// The highest level whose threshold stays within `i64` once doubled.
pub const MAX_LEVEL_STEP: i64 = 303700049;

/// Any total below this can be converted to a level without overflow.
pub const MAX_TOTAL_XP: i64 = 4611686003315122500;

/// The level reached with `total_xp` XP: the largest `l >= 0` with `xp_at(l) <= total_xp`
/// (zero when no positive level is reached).
pub open spec fn is_level_of(total_xp: int, l: int) -> bool {
    &&& 0 <= l
    &&& (l == 0 || xp_at(l) <= total_xp)
    &&& total_xp < xp_at(l + 1)
}

/// Thresholds strictly increase with the level.
pub proof fn lemma_xp_strictly_increasing(a: int, b: int)
    requires
        0 <= a < b,
    ensures
        xp_at(a) < xp_at(b),
{
    assert(50 * a * (a + 1) < 50 * b * (b + 1)) by (nonlinear_arith)
        requires
            0 <= a < b,
    ;
}

pub fn xp_for_level(level: i64) -> (xp: i64)
    requires
        i64::MIN <= 100 * level <= i64::MAX,
        i64::MIN <= 100 * level * (level + 1) <= i64::MAX,
    ensures
        xp == xp_at(level as int),
{
    let a: i64 = 100 * level;
    let b: i64 = a * (level + 1);
    proof {
        let l = level as int;
        assert(b == 2 * (50 * l * (l + 1))) by (nonlinear_arith)
            requires
                b == (100 * l) * (l + 1),
        ;
    }
    b / 2
}

pub fn level_from_xp(total_xp: i64) -> (level: i64)
    requires
        total_xp < MAX_TOTAL_XP,
    ensures
        is_level_of(total_xp as int, level as int),
{
    let mut level: i64 = 0;
    assert(100 * 303700049int * 303700050int <= i64::MAX);
    assert(xp_at(MAX_LEVEL_STEP as int) == MAX_TOTAL_XP) by {
        assert(50 * 303700049int * (303700049int + 1) == 4611686003315122500int)
            by (nonlinear_arith);
    }
    loop
        invariant
            0 <= level < MAX_LEVEL_STEP,
            level == 0 || xp_at(level as int) <= total_xp,
            total_xp < MAX_TOTAL_XP,
            xp_at(MAX_LEVEL_STEP as int) == MAX_TOTAL_XP,
        ensures
            is_level_of(total_xp as int, level as int),
        decreases MAX_LEVEL_STEP - level,
    {
        proof {
            let n = (level + 1) as int;
            assert(100 * n * (n + 1) <= 100 * 303700049int * 303700050int) by (nonlinear_arith)
                requires
                    1 <= n <= 303700049int,
            ;
            assert(0 <= 100 * n <= 100 * 303700049int) by (nonlinear_arith)
                requires
                    1 <= n <= 303700049int,
            ;
        }
        let next = xp_for_level(level + 1);
        if next > total_xp {
            break;
        }
        level = level + 1;
        proof {
            if level >= MAX_LEVEL_STEP {
                if level > MAX_LEVEL_STEP {
                    lemma_xp_strictly_increasing(MAX_LEVEL_STEP as int, level as int);
                }
            }
        }
    }
    level
}

pub open spec fn title_spec(level: int) -> Seq<char> {
    if level == 0 {
        "Newbie"@
    } else if 1 <= level <= 2 {
        "Apprentice"@
    } else if 3 <= level <= 5 {
        "Coder"@
    } else if 6 <= level <= 9 {
        "Developer"@
    } else if 10 <= level <= 14 {
        "Engineer"@
    } else if 15 <= level <= 19 {
        "Architect"@
    } else if 20 <= level <= 29 {
        "Wizard"@
    } else if 30 <= level <= 49 {
        "Legend"@
    } else {
        "Mythic"@
    }
}

pub fn title_for_level(level: i64) -> (title: &'static str)
    ensures
        title@ == title_spec(level as int),
{
    if level == 0 {
        "Newbie"
    } else if 1 <= level && level <= 2 {
        "Apprentice"
    } else if 3 <= level && level <= 5 {
        "Coder"
    } else if 6 <= level && level <= 9 {
        "Developer"
    } else if 10 <= level && level <= 14 {
        "Engineer"
    } else if 15 <= level && level <= 19 {
        "Architect"
    } else if 20 <= level && level <= 29 {
        "Wizard"
    } else if 30 <= level && level <= 49 {
        "Legend"
    } else {
        "Mythic"
    }
}

/// A threshold is reached by exactly one level: the level of `xp_at(l)` XP is `l`.
pub proof fn lemma_level_of_threshold(l: int)
    requires
        0 <= l,
    ensures
        is_level_of(xp_at(l), l),
{
    lemma_xp_strictly_increasing(l, l + 1);
}

/// Each total has exactly one level.
pub proof fn lemma_level_unique(total_xp: int, a: int, b: int)
    requires
        is_level_of(total_xp, a),
        is_level_of(total_xp, b),
    ensures
        a == b,
{
    if a < b {
        lemma_xp_strictly_increasing(a + 1, b);
        if a + 1 < b {
        }
    } else if b < a {
        lemma_xp_strictly_increasing(b + 1, a);
    }
}

/// More XP never means a lower level.
pub proof fn lemma_level_monotone(x: int, y: int, a: int, b: int)
    requires
        x <= y,
        is_level_of(x, a),
        is_level_of(y, b),
    ensures
        a <= b,
{
    if b < a {
        lemma_xp_strictly_increasing(b + 1, a);
        if b + 1 < a {
        }
    }
}

/// XP earned for a hook event.
pub open spec fn event_xp_spec(event: Seq<char>) -> i64 {
    if event == "PreToolUse"@ {
        5
    } else if event == "PostToolUse"@ {
        10
    } else if event == "UserPromptSubmit"@ {
        3
    } else if event == "TaskCompleted"@ {
        25
    } else if event == "Stop"@ {
        2
    } else {
        1
    }
}

/// XP earned for a hook event.
pub fn event_xp(event: &str) -> (xp: i64)
    ensures
        xp == event_xp_spec(event@),
{
    if str_eq(event, "PreToolUse") {
        5
    } else if str_eq(event, "PostToolUse") {
        10
    } else if str_eq(event, "UserPromptSubmit") {
        3
    } else if str_eq(event, "TaskCompleted") {
        25
    } else if str_eq(event, "Stop") {
        2
    } else {
        1
    }
}

/// What each hook event is worth: a finished task 25 XP, a tool result 10, a tool call 5, a
/// prompt 3, a stop 2, and any other event 1; every event earns something, and a finished
/// task the most.
pub proof fn lemma_event_xp_values(event: Seq<char>)
    ensures
        event == "TaskCompleted"@ ==> event_xp_spec(event) == 25,
        event == "PostToolUse"@ ==> event_xp_spec(event) == 10,
        event == "PreToolUse"@ ==> event_xp_spec(event) == 5,
        event == "UserPromptSubmit"@ ==> event_xp_spec(event) == 3,
        event == "Stop"@ ==> event_xp_spec(event) == 2,
        event != "TaskCompleted"@ && event != "PostToolUse"@ && event != "PreToolUse"@ && event
            != "UserPromptSubmit"@ && event != "Stop"@ ==> event_xp_spec(event) == 1,
        1 <= event_xp_spec(event) <= 25,
{
    reveal_strlit("TaskCompleted");
    reveal_strlit("PostToolUse");
    reveal_strlit("PreToolUse");
    reveal_strlit("UserPromptSubmit");
    reveal_strlit("Stop");
    assert("TaskCompleted"@[0] != "PostToolUse"@[0]);
    assert("TaskCompleted"@[0] != "PreToolUse"@[0]);
    assert("TaskCompleted"@[0] != "UserPromptSubmit"@[0]);
    assert("TaskCompleted"@[0] != "Stop"@[0]);
    assert("PostToolUse"@[1] != "PreToolUse"@[1]);
    assert("PostToolUse"@[0] != "UserPromptSubmit"@[0]);
    assert("PostToolUse"@[0] != "Stop"@[0]);
    assert("PreToolUse"@[0] != "UserPromptSubmit"@[0]);
    assert("PreToolUse"@[0] != "Stop"@[0]);
    assert("UserPromptSubmit"@[0] != "Stop"@[0]);
}

/// The titles by level band: Newbie at 0, Apprentice 1-2, Coder 3-5, Developer 6-9,
/// Engineer 10-14, Architect 15-19, Wizard 20-29, Legend 30-49, Mythic from 50 on.
pub proof fn lemma_title_bands(level: int)
    requires
        level >= 0,
    ensures
        level == 0 ==> title_spec(level) == "Newbie"@,
        1 <= level < 3 ==> title_spec(level) == "Apprentice"@,
        3 <= level < 6 ==> title_spec(level) == "Coder"@,
        6 <= level < 10 ==> title_spec(level) == "Developer"@,
        10 <= level < 15 ==> title_spec(level) == "Engineer"@,
        15 <= level < 20 ==> title_spec(level) == "Architect"@,
        20 <= level < 30 ==> title_spec(level) == "Wizard"@,
        30 <= level < 50 ==> title_spec(level) == "Legend"@,
        level >= 50 ==> title_spec(level) == "Mythic"@,
{
}

/// The ledger reason for an award: `event:tool`.
pub fn xp_reason(event: &str, tool_name: &str) -> (reason: String)
    ensures
        reason@ == event@ + seq![':'] + tool_name@,
{
    let mut v: Vec<char> = Vec::new();
    push_str(&mut v, event);
    v.push(':');
    push_str(&mut v, tool_name);
    string_of(v.as_slice())
}

/// The streak after activity `today`: unchanged (`None`) when the last active day is
/// today, extended when it was yesterday, otherwise restarted at one day.
pub open spec fn next_streak_spec(current: i64, longest: i64, last_date: Option<Seq<char>>, today: Seq<char>, yesterday: Seq<char>) -> Option<(i64, i64)> {
    if last_date == Some(today) {
        None
    } else {
        let s = if last_date == Some(yesterday) {
            current + 1
        } else {
            1
        };
        Some((s as i64, (if s >= longest { s } else { longest as int }) as i64))
    }
}

/// Streaks: a second event on the same day changes nothing; activity on the day after the
/// last active day extends the streak by one; after a gap it restarts at one; and the longest
/// streak never drops and never trails the current one.
pub proof fn lemma_streak_law(current: i64, longest: i64, last_date: Option<Seq<char>>, today: Seq<char>, yesterday: Seq<char>)
    requires
        current < i64::MAX,
        today != yesterday,
    ensures
        last_date == Some(today) ==> next_streak_spec(current, longest, last_date, today, yesterday) is None,
        last_date == Some(yesterday) ==> (next_streak_spec(current, longest, last_date, today, yesterday) matches Some(
            (c, l),
        ) && c == current + 1),
        last_date != Some(today) && last_date != Some(yesterday) ==> (next_streak_spec(
            current,
            longest,
            last_date,
            today,
            yesterday,
        ) matches Some((c, l)) && c == 1),
        next_streak_spec(current, longest, last_date, today, yesterday) matches Some((c, l)) ==> (l >= c && l
            >= longest && (l == c || l == longest)),
{
}

/// New `(current, longest)` streak values, or `None` when nothing changes.
pub fn next_streak(current: i64, longest: i64, last_date: Option<&str>, today: &str, yesterday: &str) -> (r: Option<(i64, i64)>)
    requires
        current < i64::MAX,
    ensures
        r == next_streak_spec(
            current,
            longest,
            match last_date {
                Some(d) => Some(d@),
                None => None,
            },
            today@,
            yesterday@,
        ),
{
    let (is_today, is_yesterday) = match last_date {
        Some(d) => (str_eq(d, today), str_eq(d, yesterday)),
        None => (false, false),
    };
    if is_today {
        return None;
    }
    let s = if is_yesterday {
        current + 1
    } else {
        1
    };
    let l = if s >= longest {
        s
    } else {
        longest
    };
    Some((s, l))
}

/// The activity figures that badges are awarded on.
pub struct BadgeInputs {
    pub total_tools: i64,
    pub hour: i64,
    pub recent_5min: i64,
    pub current_streak: i64,
    pub total_xp: i64,
}

/// The badges whose conditions hold, in the order they are checked.
pub open spec fn earned_badges_spec(b: BadgeInputs, level: i64) -> Seq<Seq<char>> {
    let c = seq![
        ("first_hook"@, b.total_tools >= 1),
        ("tool_100"@, b.total_tools >= 100),
        ("tool_500"@, b.total_tools >= 500),
        ("tool_1000"@, b.total_tools >= 1000),
        ("night_owl"@, b.hour >= 0 && b.hour < 4),
        ("early_bird"@, b.hour >= 4 && b.hour < 6),
        ("speed_demon"@, b.recent_5min >= 10),
        ("streak_3"@, b.current_streak >= 3),
        ("streak_7"@, b.current_streak >= 7),
        ("streak_30"@, b.current_streak >= 30),
        ("xp_1000"@, b.total_xp >= 1000),
        ("xp_10000"@, b.total_xp >= 10000),
        ("level_5"@, level >= 5),
        ("level_10"@, level >= 10),
        ("level_20"@, level >= 20),
    ];
    passing_names(c)
}

/// The names whose conditions hold, in order.
pub open spec fn passing_names(c: Seq<(Seq<char>, bool)>) -> Seq<Seq<char>>
    decreases c.len(),
{
    if c.len() == 0 {
        Seq::empty()
    } else {
        passing_names(c.drop_last()) + if c.last().1 {
            seq![c.last().0]
        } else {
            Seq::empty()
        }
    }
}

proof fn lemma_passing_at(c: Seq<(Seq<char>, bool)>, j: int)
    requires
        0 <= j < c.len(),
        forall|i: int| 0 <= i < c.len() && i != j ==> #[trigger] c[i].0 != c[j].0,
    ensures
        passing_names(c).contains(c[j].0) <==> c[j].1,
    decreases c.len(),
{
    let pre = c.drop_last();
    let last = (c.len() - 1) as int;
    if j < last {
        assert forall|i: int| 0 <= i < pre.len() && i != j implies #[trigger] pre[i].0 != pre[j].0 by {
            assert(pre[i] == c[i] && pre[j] == c[j]);
        }
        assert(pre[j] == c[j]);
        lemma_passing_at(pre, j);
        assert(c[j].0 != c[last].0);
        if c.last().1 {
            let r = passing_names(pre);
            if r.contains(c[j].0) {
                let m = choose|m: int| 0 <= m < r.len() && r[m] == c[j].0;
                assert((r + seq![c.last().0])[m] == c[j].0);
            }
            if (r + seq![c.last().0]).contains(c[j].0) {
                let m = choose|m: int| 0 <= m < (r + seq![c.last().0]).len() && (r + seq![c.last().0])[m] == c[j].0;
                if m < r.len() {
                    assert(r[m] == c[j].0);
                }
            }
        } else {
            assert(passing_names(pre) + Seq::<Seq<char>>::empty() =~= passing_names(pre));
        }
    } else {
        let r = passing_names(pre);
        assert forall|i: int| 0 <= i < pre.len() implies #[trigger] pre[i].0 != c[j].0 by {
            assert(pre[i] == c[i]);
        }
        lemma_passing_excludes(pre, c[j].0);
        if c.last().1 {
            assert((r + seq![c.last().0])[r.len() as int] == c[j].0);
        } else {
            assert(r + Seq::<Seq<char>>::empty() =~= r);
        }
    }
}

/// A name that no check carries is never among the passing names.
proof fn lemma_passing_excludes(c: Seq<(Seq<char>, bool)>, x: Seq<char>)
    requires
        forall|i: int| 0 <= i < c.len() ==> #[trigger] c[i].0 != x,
    ensures
        !passing_names(c).contains(x),
    decreases c.len(),
{
    if c.len() > 0 {
        let pre = c.drop_last();
        assert forall|i: int| 0 <= i < pre.len() implies #[trigger] pre[i].0 != x by {
            assert(pre[i] == c[i]);
        }
        lemma_passing_excludes(pre, x);
        let r = passing_names(pre);
        let s = passing_names(c);
        if s.contains(x) {
            let m = choose|m: int| 0 <= m < s.len() && s[m] == x;
            if c.last().1 {
                if m < r.len() {
                    assert(s[m] == r[m]);
                } else {
                    assert(s[m] == c.last().0);
                    assert(c[c.len() - 1].0 != x);
                }
            } else {
                assert(s =~= r);
            }
        }
    }
}

/// The badge checks, in the order they run.
spec fn badge_checks(b: BadgeInputs, level: i64) -> Seq<(Seq<char>, bool)> {
    seq![
        ("first_hook"@, b.total_tools >= 1),
        ("tool_100"@, b.total_tools >= 100),
        ("tool_500"@, b.total_tools >= 500),
        ("tool_1000"@, b.total_tools >= 1000),
        ("night_owl"@, b.hour >= 0 && b.hour < 4),
        ("early_bird"@, b.hour >= 4 && b.hour < 6),
        ("speed_demon"@, b.recent_5min >= 10),
        ("streak_3"@, b.current_streak >= 3),
        ("streak_7"@, b.current_streak >= 7),
        ("streak_30"@, b.current_streak >= 30),
        ("xp_1000"@, b.total_xp >= 1000),
        ("xp_10000"@, b.total_xp >= 10000),
        ("level_5"@, level >= 5),
        ("level_10"@, level >= 10),
        ("level_20"@, level >= 20),
    ]
}

#[verifier::rlimit(50)]
proof fn lemma_badge_group_0(b: BadgeInputs, level: i64)
    ensures
        passing_names(badge_checks(b, level)).contains("first_hook"@) <==> (b.total_tools >= 1),
        passing_names(badge_checks(b, level)).contains("tool_100"@) <==> (b.total_tools >= 100),
        passing_names(badge_checks(b, level)).contains("tool_500"@) <==> (b.total_tools >= 500),
        passing_names(badge_checks(b, level)).contains("tool_1000"@) <==> (b.total_tools >= 1000),
        passing_names(badge_checks(b, level)).contains("night_owl"@) <==> (b.hour >= 0 && b.hour < 4),
{
    reveal_strlit("first_hook");
    reveal_strlit("tool_100");
    reveal_strlit("tool_500");
    reveal_strlit("tool_1000");
    reveal_strlit("night_owl");
    reveal_strlit("early_bird");
    reveal_strlit("speed_demon");
    reveal_strlit("streak_3");
    reveal_strlit("streak_7");
    reveal_strlit("streak_30");
    reveal_strlit("xp_1000");
    reveal_strlit("xp_10000");
    reveal_strlit("level_5");
    reveal_strlit("level_10");
    reveal_strlit("level_20");
    let c = badge_checks(b, level);
    assert forall|i: int| 0 <= i < c.len() && i != 0 implies #[trigger] c[i].0 != c[0].0 by {
        if i == 1 {
            assert("tool_100"@.len() != "first_hook"@.len());
        } else if i == 2 {
            assert("tool_500"@.len() != "first_hook"@.len());
        } else if i == 3 {
            assert("tool_1000"@.len() != "first_hook"@.len());
        } else if i == 4 {
            assert("night_owl"@.len() != "first_hook"@.len());
        } else if i == 5 {
            assert("early_bird"@[0] != "first_hook"@[0]);
        } else if i == 6 {
            assert("speed_demon"@.len() != "first_hook"@.len());
        } else if i == 7 {
            assert("streak_3"@.len() != "first_hook"@.len());
        } else if i == 8 {
            assert("streak_7"@.len() != "first_hook"@.len());
        } else if i == 9 {
            assert("streak_30"@.len() != "first_hook"@.len());
        } else if i == 10 {
            assert("xp_1000"@.len() != "first_hook"@.len());
        } else if i == 11 {
            assert("xp_10000"@.len() != "first_hook"@.len());
        } else if i == 12 {
            assert("level_5"@.len() != "first_hook"@.len());
        } else if i == 13 {
            assert("level_10"@.len() != "first_hook"@.len());
        } else if i == 14 {
            assert("level_20"@.len() != "first_hook"@.len());
        }
    }
    lemma_passing_at(c, 0);
    assert forall|i: int| 0 <= i < c.len() && i != 1 implies #[trigger] c[i].0 != c[1].0 by {
        if i == 0 {
            assert("first_hook"@.len() != "tool_100"@.len());
        } else if i == 2 {
            assert("tool_500"@[5] != "tool_100"@[5]);
        } else if i == 3 {
            assert("tool_1000"@.len() != "tool_100"@.len());
        } else if i == 4 {
            assert("night_owl"@.len() != "tool_100"@.len());
        } else if i == 5 {
            assert("early_bird"@.len() != "tool_100"@.len());
        } else if i == 6 {
            assert("speed_demon"@.len() != "tool_100"@.len());
        } else if i == 7 {
            assert("streak_3"@[0] != "tool_100"@[0]);
        } else if i == 8 {
            assert("streak_7"@[0] != "tool_100"@[0]);
        } else if i == 9 {
            assert("streak_30"@.len() != "tool_100"@.len());
        } else if i == 10 {
            assert("xp_1000"@.len() != "tool_100"@.len());
        } else if i == 11 {
            assert("xp_10000"@[0] != "tool_100"@[0]);
        } else if i == 12 {
            assert("level_5"@.len() != "tool_100"@.len());
        } else if i == 13 {
            assert("level_10"@[0] != "tool_100"@[0]);
        } else if i == 14 {
            assert("level_20"@[0] != "tool_100"@[0]);
        }
    }
    lemma_passing_at(c, 1);
    assert forall|i: int| 0 <= i < c.len() && i != 2 implies #[trigger] c[i].0 != c[2].0 by {
        if i == 0 {
            assert("first_hook"@.len() != "tool_500"@.len());
        } else if i == 1 {
            assert("tool_100"@[5] != "tool_500"@[5]);
        } else if i == 3 {
            assert("tool_1000"@.len() != "tool_500"@.len());
        } else if i == 4 {
            assert("night_owl"@.len() != "tool_500"@.len());
        } else if i == 5 {
            assert("early_bird"@.len() != "tool_500"@.len());
        } else if i == 6 {
            assert("speed_demon"@.len() != "tool_500"@.len());
        } else if i == 7 {
            assert("streak_3"@[0] != "tool_500"@[0]);
        } else if i == 8 {
            assert("streak_7"@[0] != "tool_500"@[0]);
        } else if i == 9 {
            assert("streak_30"@.len() != "tool_500"@.len());
        } else if i == 10 {
            assert("xp_1000"@.len() != "tool_500"@.len());
        } else if i == 11 {
            assert("xp_10000"@[0] != "tool_500"@[0]);
        } else if i == 12 {
            assert("level_5"@.len() != "tool_500"@.len());
        } else if i == 13 {
            assert("level_10"@[0] != "tool_500"@[0]);
        } else if i == 14 {
            assert("level_20"@[0] != "tool_500"@[0]);
        }
    }
    lemma_passing_at(c, 2);
    assert forall|i: int| 0 <= i < c.len() && i != 3 implies #[trigger] c[i].0 != c[3].0 by {
        if i == 0 {
            assert("first_hook"@.len() != "tool_1000"@.len());
        } else if i == 1 {
            assert("tool_100"@.len() != "tool_1000"@.len());
        } else if i == 2 {
            assert("tool_500"@.len() != "tool_1000"@.len());
        } else if i == 4 {
            assert("night_owl"@[0] != "tool_1000"@[0]);
        } else if i == 5 {
            assert("early_bird"@.len() != "tool_1000"@.len());
        } else if i == 6 {
            assert("speed_demon"@.len() != "tool_1000"@.len());
        } else if i == 7 {
            assert("streak_3"@.len() != "tool_1000"@.len());
        } else if i == 8 {
            assert("streak_7"@.len() != "tool_1000"@.len());
        } else if i == 9 {
            assert("streak_30"@[0] != "tool_1000"@[0]);
        } else if i == 10 {
            assert("xp_1000"@.len() != "tool_1000"@.len());
        } else if i == 11 {
            assert("xp_10000"@.len() != "tool_1000"@.len());
        } else if i == 12 {
            assert("level_5"@.len() != "tool_1000"@.len());
        } else if i == 13 {
            assert("level_10"@.len() != "tool_1000"@.len());
        } else if i == 14 {
            assert("level_20"@.len() != "tool_1000"@.len());
        }
    }
    lemma_passing_at(c, 3);
    assert forall|i: int| 0 <= i < c.len() && i != 4 implies #[trigger] c[i].0 != c[4].0 by {
        if i == 0 {
            assert("first_hook"@.len() != "night_owl"@.len());
        } else if i == 1 {
            assert("tool_100"@.len() != "night_owl"@.len());
        } else if i == 2 {
            assert("tool_500"@.len() != "night_owl"@.len());
        } else if i == 3 {
            assert("tool_1000"@[0] != "night_owl"@[0]);
        } else if i == 5 {
            assert("early_bird"@.len() != "night_owl"@.len());
        } else if i == 6 {
            assert("speed_demon"@.len() != "night_owl"@.len());
        } else if i == 7 {
            assert("streak_3"@.len() != "night_owl"@.len());
        } else if i == 8 {
            assert("streak_7"@.len() != "night_owl"@.len());
        } else if i == 9 {
            assert("streak_30"@[0] != "night_owl"@[0]);
        } else if i == 10 {
            assert("xp_1000"@.len() != "night_owl"@.len());
        } else if i == 11 {
            assert("xp_10000"@.len() != "night_owl"@.len());
        } else if i == 12 {
            assert("level_5"@.len() != "night_owl"@.len());
        } else if i == 13 {
            assert("level_10"@.len() != "night_owl"@.len());
        } else if i == 14 {
            assert("level_20"@.len() != "night_owl"@.len());
        }
    }
    lemma_passing_at(c, 4);
}

#[verifier::rlimit(50)]
proof fn lemma_badge_group_1(b: BadgeInputs, level: i64)
    ensures
        passing_names(badge_checks(b, level)).contains("early_bird"@) <==> (b.hour >= 4 && b.hour < 6),
        passing_names(badge_checks(b, level)).contains("speed_demon"@) <==> (b.recent_5min >= 10),
        passing_names(badge_checks(b, level)).contains("streak_3"@) <==> (b.current_streak >= 3),
        passing_names(badge_checks(b, level)).contains("streak_7"@) <==> (b.current_streak >= 7),
        passing_names(badge_checks(b, level)).contains("streak_30"@) <==> (b.current_streak >= 30),
{
    reveal_strlit("first_hook");
    reveal_strlit("tool_100");
    reveal_strlit("tool_500");
    reveal_strlit("tool_1000");
    reveal_strlit("night_owl");
    reveal_strlit("early_bird");
    reveal_strlit("speed_demon");
    reveal_strlit("streak_3");
    reveal_strlit("streak_7");
    reveal_strlit("streak_30");
    reveal_strlit("xp_1000");
    reveal_strlit("xp_10000");
    reveal_strlit("level_5");
    reveal_strlit("level_10");
    reveal_strlit("level_20");
    let c = badge_checks(b, level);
    assert forall|i: int| 0 <= i < c.len() && i != 5 implies #[trigger] c[i].0 != c[5].0 by {
        if i == 0 {
            assert("first_hook"@[0] != "early_bird"@[0]);
        } else if i == 1 {
            assert("tool_100"@.len() != "early_bird"@.len());
        } else if i == 2 {
            assert("tool_500"@.len() != "early_bird"@.len());
        } else if i == 3 {
            assert("tool_1000"@.len() != "early_bird"@.len());
        } else if i == 4 {
            assert("night_owl"@.len() != "early_bird"@.len());
        } else if i == 6 {
            assert("speed_demon"@.len() != "early_bird"@.len());
        } else if i == 7 {
            assert("streak_3"@.len() != "early_bird"@.len());
        } else if i == 8 {
            assert("streak_7"@.len() != "early_bird"@.len());
        } else if i == 9 {
            assert("streak_30"@.len() != "early_bird"@.len());
        } else if i == 10 {
            assert("xp_1000"@.len() != "early_bird"@.len());
        } else if i == 11 {
            assert("xp_10000"@.len() != "early_bird"@.len());
        } else if i == 12 {
            assert("level_5"@.len() != "early_bird"@.len());
        } else if i == 13 {
            assert("level_10"@.len() != "early_bird"@.len());
        } else if i == 14 {
            assert("level_20"@.len() != "early_bird"@.len());
        }
    }
    lemma_passing_at(c, 5);
    assert forall|i: int| 0 <= i < c.len() && i != 6 implies #[trigger] c[i].0 != c[6].0 by {
        if i == 0 {
            assert("first_hook"@.len() != "speed_demon"@.len());
        } else if i == 1 {
            assert("tool_100"@.len() != "speed_demon"@.len());
        } else if i == 2 {
            assert("tool_500"@.len() != "speed_demon"@.len());
        } else if i == 3 {
            assert("tool_1000"@.len() != "speed_demon"@.len());
        } else if i == 4 {
            assert("night_owl"@.len() != "speed_demon"@.len());
        } else if i == 5 {
            assert("early_bird"@.len() != "speed_demon"@.len());
        } else if i == 7 {
            assert("streak_3"@.len() != "speed_demon"@.len());
        } else if i == 8 {
            assert("streak_7"@.len() != "speed_demon"@.len());
        } else if i == 9 {
            assert("streak_30"@.len() != "speed_demon"@.len());
        } else if i == 10 {
            assert("xp_1000"@.len() != "speed_demon"@.len());
        } else if i == 11 {
            assert("xp_10000"@.len() != "speed_demon"@.len());
        } else if i == 12 {
            assert("level_5"@.len() != "speed_demon"@.len());
        } else if i == 13 {
            assert("level_10"@.len() != "speed_demon"@.len());
        } else if i == 14 {
            assert("level_20"@.len() != "speed_demon"@.len());
        }
    }
    lemma_passing_at(c, 6);
    assert forall|i: int| 0 <= i < c.len() && i != 7 implies #[trigger] c[i].0 != c[7].0 by {
        if i == 0 {
            assert("first_hook"@.len() != "streak_3"@.len());
        } else if i == 1 {
            assert("tool_100"@[0] != "streak_3"@[0]);
        } else if i == 2 {
            assert("tool_500"@[0] != "streak_3"@[0]);
        } else if i == 3 {
            assert("tool_1000"@.len() != "streak_3"@.len());
        } else if i == 4 {
            assert("night_owl"@.len() != "streak_3"@.len());
        } else if i == 5 {
            assert("early_bird"@.len() != "streak_3"@.len());
        } else if i == 6 {
            assert("speed_demon"@.len() != "streak_3"@.len());
        } else if i == 8 {
            assert("streak_7"@[7] != "streak_3"@[7]);
        } else if i == 9 {
            assert("streak_30"@.len() != "streak_3"@.len());
        } else if i == 10 {
            assert("xp_1000"@.len() != "streak_3"@.len());
        } else if i == 11 {
            assert("xp_10000"@[0] != "streak_3"@[0]);
        } else if i == 12 {
            assert("level_5"@.len() != "streak_3"@.len());
        } else if i == 13 {
            assert("level_10"@[0] != "streak_3"@[0]);
        } else if i == 14 {
            assert("level_20"@[0] != "streak_3"@[0]);
        }
    }
    lemma_passing_at(c, 7);
    assert forall|i: int| 0 <= i < c.len() && i != 8 implies #[trigger] c[i].0 != c[8].0 by {
        if i == 0 {
            assert("first_hook"@.len() != "streak_7"@.len());
        } else if i == 1 {
            assert("tool_100"@[0] != "streak_7"@[0]);
        } else if i == 2 {
            assert("tool_500"@[0] != "streak_7"@[0]);
        } else if i == 3 {
            assert("tool_1000"@.len() != "streak_7"@.len());
        } else if i == 4 {
            assert("night_owl"@.len() != "streak_7"@.len());
        } else if i == 5 {
            assert("early_bird"@.len() != "streak_7"@.len());
        } else if i == 6 {
            assert("speed_demon"@.len() != "streak_7"@.len());
        } else if i == 7 {
            assert("streak_3"@[7] != "streak_7"@[7]);
        } else if i == 9 {
            assert("streak_30"@.len() != "streak_7"@.len());
        } else if i == 10 {
            assert("xp_1000"@.len() != "streak_7"@.len());
        } else if i == 11 {
            assert("xp_10000"@[0] != "streak_7"@[0]);
        } else if i == 12 {
            assert("level_5"@.len() != "streak_7"@.len());
        } else if i == 13 {
            assert("level_10"@[0] != "streak_7"@[0]);
        } else if i == 14 {
            assert("level_20"@[0] != "streak_7"@[0]);
        }
    }
    lemma_passing_at(c, 8);
    assert forall|i: int| 0 <= i < c.len() && i != 9 implies #[trigger] c[i].0 != c[9].0 by {
        if i == 0 {
            assert("first_hook"@.len() != "streak_30"@.len());
        } else if i == 1 {
            assert("tool_100"@.len() != "streak_30"@.len());
        } else if i == 2 {
            assert("tool_500"@.len() != "streak_30"@.len());
        } else if i == 3 {
            assert("tool_1000"@[0] != "streak_30"@[0]);
        } else if i == 4 {
            assert("night_owl"@[0] != "streak_30"@[0]);
        } else if i == 5 {
            assert("early_bird"@.len() != "streak_30"@.len());
        } else if i == 6 {
            assert("speed_demon"@.len() != "streak_30"@.len());
        } else if i == 7 {
            assert("streak_3"@.len() != "streak_30"@.len());
        } else if i == 8 {
            assert("streak_7"@.len() != "streak_30"@.len());
        } else if i == 10 {
            assert("xp_1000"@.len() != "streak_30"@.len());
        } else if i == 11 {
            assert("xp_10000"@.len() != "streak_30"@.len());
        } else if i == 12 {
            assert("level_5"@.len() != "streak_30"@.len());
        } else if i == 13 {
            assert("level_10"@.len() != "streak_30"@.len());
        } else if i == 14 {
            assert("level_20"@.len() != "streak_30"@.len());
        }
    }
    lemma_passing_at(c, 9);
}

#[verifier::rlimit(50)]
proof fn lemma_badge_group_2(b: BadgeInputs, level: i64)
    ensures
        passing_names(badge_checks(b, level)).contains("xp_1000"@) <==> (b.total_xp >= 1000),
        passing_names(badge_checks(b, level)).contains("xp_10000"@) <==> (b.total_xp >= 10000),
        passing_names(badge_checks(b, level)).contains("level_5"@) <==> (level >= 5),
        passing_names(badge_checks(b, level)).contains("level_10"@) <==> (level >= 10),
        passing_names(badge_checks(b, level)).contains("level_20"@) <==> (level >= 20),
{
    reveal_strlit("first_hook");
    reveal_strlit("tool_100");
    reveal_strlit("tool_500");
    reveal_strlit("tool_1000");
    reveal_strlit("night_owl");
    reveal_strlit("early_bird");
    reveal_strlit("speed_demon");
    reveal_strlit("streak_3");
    reveal_strlit("streak_7");
    reveal_strlit("streak_30");
    reveal_strlit("xp_1000");
    reveal_strlit("xp_10000");
    reveal_strlit("level_5");
    reveal_strlit("level_10");
    reveal_strlit("level_20");
    let c = badge_checks(b, level);
    assert forall|i: int| 0 <= i < c.len() && i != 10 implies #[trigger] c[i].0 != c[10].0 by {
        if i == 0 {
            assert("first_hook"@.len() != "xp_1000"@.len());
        } else if i == 1 {
            assert("tool_100"@.len() != "xp_1000"@.len());
        } else if i == 2 {
            assert("tool_500"@.len() != "xp_1000"@.len());
        } else if i == 3 {
            assert("tool_1000"@.len() != "xp_1000"@.len());
        } else if i == 4 {
            assert("night_owl"@.len() != "xp_1000"@.len());
        } else if i == 5 {
            assert("early_bird"@.len() != "xp_1000"@.len());
        } else if i == 6 {
            assert("speed_demon"@.len() != "xp_1000"@.len());
        } else if i == 7 {
            assert("streak_3"@.len() != "xp_1000"@.len());
        } else if i == 8 {
            assert("streak_7"@.len() != "xp_1000"@.len());
        } else if i == 9 {
            assert("streak_30"@.len() != "xp_1000"@.len());
        } else if i == 11 {
            assert("xp_10000"@.len() != "xp_1000"@.len());
        } else if i == 12 {
            assert("level_5"@[0] != "xp_1000"@[0]);
        } else if i == 13 {
            assert("level_10"@.len() != "xp_1000"@.len());
        } else if i == 14 {
            assert("level_20"@.len() != "xp_1000"@.len());
        }
    }
    lemma_passing_at(c, 10);
    assert forall|i: int| 0 <= i < c.len() && i != 11 implies #[trigger] c[i].0 != c[11].0 by {
        if i == 0 {
            assert("first_hook"@.len() != "xp_10000"@.len());
        } else if i == 1 {
            assert("tool_100"@[0] != "xp_10000"@[0]);
        } else if i == 2 {
            assert("tool_500"@[0] != "xp_10000"@[0]);
        } else if i == 3 {
            assert("tool_1000"@.len() != "xp_10000"@.len());
        } else if i == 4 {
            assert("night_owl"@.len() != "xp_10000"@.len());
        } else if i == 5 {
            assert("early_bird"@.len() != "xp_10000"@.len());
        } else if i == 6 {
            assert("speed_demon"@.len() != "xp_10000"@.len());
        } else if i == 7 {
            assert("streak_3"@[0] != "xp_10000"@[0]);
        } else if i == 8 {
            assert("streak_7"@[0] != "xp_10000"@[0]);
        } else if i == 9 {
            assert("streak_30"@.len() != "xp_10000"@.len());
        } else if i == 10 {
            assert("xp_1000"@.len() != "xp_10000"@.len());
        } else if i == 12 {
            assert("level_5"@.len() != "xp_10000"@.len());
        } else if i == 13 {
            assert("level_10"@[0] != "xp_10000"@[0]);
        } else if i == 14 {
            assert("level_20"@[0] != "xp_10000"@[0]);
        }
    }
    lemma_passing_at(c, 11);
    assert forall|i: int| 0 <= i < c.len() && i != 12 implies #[trigger] c[i].0 != c[12].0 by {
        if i == 0 {
            assert("first_hook"@.len() != "level_5"@.len());
        } else if i == 1 {
            assert("tool_100"@.len() != "level_5"@.len());
        } else if i == 2 {
            assert("tool_500"@.len() != "level_5"@.len());
        } else if i == 3 {
            assert("tool_1000"@.len() != "level_5"@.len());
        } else if i == 4 {
            assert("night_owl"@.len() != "level_5"@.len());
        } else if i == 5 {
            assert("early_bird"@.len() != "level_5"@.len());
        } else if i == 6 {
            assert("speed_demon"@.len() != "level_5"@.len());
        } else if i == 7 {
            assert("streak_3"@.len() != "level_5"@.len());
        } else if i == 8 {
            assert("streak_7"@.len() != "level_5"@.len());
        } else if i == 9 {
            assert("streak_30"@.len() != "level_5"@.len());
        } else if i == 10 {
            assert("xp_1000"@[0] != "level_5"@[0]);
        } else if i == 11 {
            assert("xp_10000"@.len() != "level_5"@.len());
        } else if i == 13 {
            assert("level_10"@.len() != "level_5"@.len());
        } else if i == 14 {
            assert("level_20"@.len() != "level_5"@.len());
        }
    }
    lemma_passing_at(c, 12);
    assert forall|i: int| 0 <= i < c.len() && i != 13 implies #[trigger] c[i].0 != c[13].0 by {
        if i == 0 {
            assert("first_hook"@.len() != "level_10"@.len());
        } else if i == 1 {
            assert("tool_100"@[0] != "level_10"@[0]);
        } else if i == 2 {
            assert("tool_500"@[0] != "level_10"@[0]);
        } else if i == 3 {
            assert("tool_1000"@.len() != "level_10"@.len());
        } else if i == 4 {
            assert("night_owl"@.len() != "level_10"@.len());
        } else if i == 5 {
            assert("early_bird"@.len() != "level_10"@.len());
        } else if i == 6 {
            assert("speed_demon"@.len() != "level_10"@.len());
        } else if i == 7 {
            assert("streak_3"@[0] != "level_10"@[0]);
        } else if i == 8 {
            assert("streak_7"@[0] != "level_10"@[0]);
        } else if i == 9 {
            assert("streak_30"@.len() != "level_10"@.len());
        } else if i == 10 {
            assert("xp_1000"@.len() != "level_10"@.len());
        } else if i == 11 {
            assert("xp_10000"@[0] != "level_10"@[0]);
        } else if i == 12 {
            assert("level_5"@.len() != "level_10"@.len());
        } else if i == 14 {
            assert("level_20"@[6] != "level_10"@[6]);
        }
    }
    lemma_passing_at(c, 13);
    assert forall|i: int| 0 <= i < c.len() && i != 14 implies #[trigger] c[i].0 != c[14].0 by {
        if i == 0 {
            assert("first_hook"@.len() != "level_20"@.len());
        } else if i == 1 {
            assert("tool_100"@[0] != "level_20"@[0]);
        } else if i == 2 {
            assert("tool_500"@[0] != "level_20"@[0]);
        } else if i == 3 {
            assert("tool_1000"@.len() != "level_20"@.len());
        } else if i == 4 {
            assert("night_owl"@.len() != "level_20"@.len());
        } else if i == 5 {
            assert("early_bird"@.len() != "level_20"@.len());
        } else if i == 6 {
            assert("speed_demon"@.len() != "level_20"@.len());
        } else if i == 7 {
            assert("streak_3"@[0] != "level_20"@[0]);
        } else if i == 8 {
            assert("streak_7"@[0] != "level_20"@[0]);
        } else if i == 9 {
            assert("streak_30"@.len() != "level_20"@.len());
        } else if i == 10 {
            assert("xp_1000"@.len() != "level_20"@.len());
        } else if i == 11 {
            assert("xp_10000"@[0] != "level_20"@[0]);
        } else if i == 12 {
            assert("level_5"@.len() != "level_20"@.len());
        } else if i == 13 {
            assert("level_10"@[6] != "level_20"@[6]);
        }
    }
    lemma_passing_at(c, 14);
}

/// Each badge is earned exactly when its own condition holds: the first hook, 100, 500 and
/// 1000 tool uses, night-owl hours (midnight to 4), early-bird hours (4 to 6), ten uses in
/// five minutes, 3, 7 and 30 day streaks, 1000 and 10000 XP, and levels 5, 10 and 20.
pub proof fn lemma_badge_conditions(b: BadgeInputs, level: i64)
    ensures
        earned_badges_spec(b, level).contains("first_hook"@) <==> (b.total_tools >= 1),
        earned_badges_spec(b, level).contains("tool_100"@) <==> (b.total_tools >= 100),
        earned_badges_spec(b, level).contains("tool_500"@) <==> (b.total_tools >= 500),
        earned_badges_spec(b, level).contains("tool_1000"@) <==> (b.total_tools >= 1000),
        earned_badges_spec(b, level).contains("night_owl"@) <==> (b.hour >= 0 && b.hour < 4),
        earned_badges_spec(b, level).contains("early_bird"@) <==> (b.hour >= 4 && b.hour < 6),
        earned_badges_spec(b, level).contains("speed_demon"@) <==> (b.recent_5min >= 10),
        earned_badges_spec(b, level).contains("streak_3"@) <==> (b.current_streak >= 3),
        earned_badges_spec(b, level).contains("streak_7"@) <==> (b.current_streak >= 7),
        earned_badges_spec(b, level).contains("streak_30"@) <==> (b.current_streak >= 30),
        earned_badges_spec(b, level).contains("xp_1000"@) <==> (b.total_xp >= 1000),
        earned_badges_spec(b, level).contains("xp_10000"@) <==> (b.total_xp >= 10000),
        earned_badges_spec(b, level).contains("level_5"@) <==> (level >= 5),
        earned_badges_spec(b, level).contains("level_10"@) <==> (level >= 10),
        earned_badges_spec(b, level).contains("level_20"@) <==> (level >= 20),
{
    assert(earned_badges_spec(b, level) == passing_names(badge_checks(b, level)));
    lemma_badge_group_0(b, level);
    lemma_badge_group_1(b, level);
    lemma_badge_group_2(b, level);
}

/// The text of each string.
pub open spec fn str_views(v: Seq<&str>) -> Seq<Seq<char>> {
    Seq::new(v.len(), |i: int| v[i]@)
}

/// The name and outcome of each check.
pub open spec fn check_views(v: Seq<(&str, bool)>) -> Seq<(Seq<char>, bool)> {
    Seq::new(v.len(), |i: int| (v[i].0@, v[i].1))
}

/// The badges the activity qualifies for (those not yet awarded are then recorded).
pub fn earned_badges(b: &BadgeInputs) -> (badges: Vec<&'static str>)
    requires
        b.total_xp < MAX_TOTAL_XP,
    ensures
        exists|level: i64|
            is_level_of(b.total_xp as int, level as int) && str_views(badges@)
                == earned_badges_spec(*b, level),
{
    let level = level_from_xp(b.total_xp);
    let checks: [(&'static str, bool); 15] = [
        ("first_hook", b.total_tools >= 1),
        ("tool_100", b.total_tools >= 100),
        ("tool_500", b.total_tools >= 500),
        ("tool_1000", b.total_tools >= 1000),
        ("night_owl", b.hour >= 0 && b.hour < 4),
        ("early_bird", b.hour >= 4 && b.hour < 6),
        ("speed_demon", b.recent_5min >= 10),
        ("streak_3", b.current_streak >= 3),
        ("streak_7", b.current_streak >= 7),
        ("streak_30", b.current_streak >= 30),
        ("xp_1000", b.total_xp >= 1000),
        ("xp_10000", b.total_xp >= 10000),
        ("level_5", level >= 5),
        ("level_10", level >= 10),
        ("level_20", level >= 20),
    ];
    let ghost cs = check_views(checks@);
    assert(cs =~= seq![
        ("first_hook"@, b.total_tools >= 1),
        ("tool_100"@, b.total_tools >= 100),
        ("tool_500"@, b.total_tools >= 500),
        ("tool_1000"@, b.total_tools >= 1000),
        ("night_owl"@, b.hour >= 0 && b.hour < 4),
        ("early_bird"@, b.hour >= 4 && b.hour < 6),
        ("speed_demon"@, b.recent_5min >= 10),
        ("streak_3"@, b.current_streak >= 3),
        ("streak_7"@, b.current_streak >= 7),
        ("streak_30"@, b.current_streak >= 30),
        ("xp_1000"@, b.total_xp >= 1000),
        ("xp_10000"@, b.total_xp >= 10000),
        ("level_5"@, level >= 5),
        ("level_10"@, level >= 10),
        ("level_20"@, level >= 20),
    ]);
    let mut out: Vec<&'static str> = Vec::new();
    let mut i: usize = 0;
    while i < 15
        invariant
            i <= 15,
            cs.len() == 15,
            cs == check_views(checks@),
            str_views(out@) == passing_names(cs.take(i as int)),
        decreases 15 - i,
    {
        let (name, ok) = checks[i];
        proof {
            assert(cs.take(i + 1).drop_last() =~= cs.take(i as int));
        }
        let ghost before = out@;
        if ok {
            out.push(name);
            assert(str_views(out@) =~= str_views(before).push(name@));
        }
        assert(str_views(out@) =~= passing_names(cs.take(i + 1)));
        i = i + 1;
    }
    assert(cs.take(15) =~= cs);
    assert(str_views(out@) == earned_badges_spec(*b, level));
    out
}

/// The badges an award records, from those earned (in the order they are checked) and
/// those the device already holds: each earned badge not yet held, once.
pub open spec fn new_badges_spec(earned: Seq<Seq<char>>, held: Seq<Seq<char>>) -> Seq<Seq<char>>
    decreases earned.len(),
{
    if earned.len() == 0 {
        Seq::empty()
    } else {
        let r = new_badges_spec(earned.drop_last(), held);
        let e = earned.last();
        if held.contains(e) || r.contains(e) {
            r
        } else {
            r.push(e)
        }
    }
}

/// What the new badges are: earned, not held before, and each listed once.
pub proof fn lemma_new_badges(earned: Seq<Seq<char>>, held: Seq<Seq<char>>)
    ensures
        forall|i: int| 0 <= i < new_badges_spec(earned, held).len() ==> earned.contains(
            #[trigger] new_badges_spec(earned, held)[i],
        ) && !held.contains(new_badges_spec(earned, held)[i]),
        forall|i: int, j: int|
            0 <= i < j < new_badges_spec(earned, held).len() ==> #[trigger] new_badges_spec(earned, held)[i]
                != #[trigger] new_badges_spec(earned, held)[j],
        forall|e: Seq<char>| earned.contains(e) && !held.contains(e) ==> #[trigger] new_badges_spec(
            earned,
            held,
        ).contains(e),
    decreases earned.len(),
{
    if earned.len() > 0 {
        let pre = earned.drop_last();
        lemma_new_badges(pre, held);
        let r = new_badges_spec(pre, held);
        let e = earned.last();
        assert forall|x: Seq<char>| pre.contains(x) implies earned.contains(x) by {
            let k = choose|k: int| 0 <= k < pre.len() && pre[k] == x;
            assert(earned[k] == x);
        }
        assert forall|x: Seq<char>| earned.contains(x) && !held.contains(x) implies #[trigger] new_badges_spec(
            earned,
            held,
        ).contains(x) by {
            let k = choose|k: int| 0 <= k < earned.len() && earned[k] == x;
            if k < earned.len() - 1 {
                assert(pre[k] == x);
                assert(r.contains(x));
                if !(held.contains(e) || r.contains(e)) {
                    let m = choose|m: int| 0 <= m < r.len() && r[m] == x;
                    assert(r.push(e)[m] == x);
                }
            } else if !(held.contains(e) || r.contains(e)) {
                assert(r.push(e)[r.len() as int] == x);
            }
        }
        if !(held.contains(e) || r.contains(e)) {
            assert(earned[earned.len() - 1] == e);
            assert forall|i: int, j: int| 0 <= i < j < r.push(e).len() implies #[trigger] r.push(e)[i]
                != #[trigger] r.push(e)[j] by {
                if j == r.len() {
                    assert(r.push(e)[i] == r[i]);
                    if r[i] == e {
                        assert(r.contains(e));
                    }
                }
            }
        }
    }
}

/// The badges an event awards: none when the event has no device; else the badges the
/// device's activity earns that it does not hold yet, in the order they are checked.
pub fn badges_for_event(activity: Option<&BadgeInputs>, held: &Vec<String>) -> (awarded: Vec<String>)
    requires
        activity matches Some(b) ==> b.total_xp < MAX_TOTAL_XP,
    ensures
        activity is None ==> awarded@.len() == 0,
        activity matches Some(b) ==> exists|level: i64|
            is_level_of(b.total_xp as int, level as int) && awarded@.map_values(|s: String| s@)
                == new_badges_spec(earned_badges_spec(*b, level), held@.map_values(|s: String| s@)),
{
    let b = match activity {
        None => return Vec::new(),
        Some(b) => b,
    };
    let earned = earned_badges(b);
    let ghost es = str_views(earned@);
    let ghost hs = held@.map_values(|s: String| s@);
    let mut out: Vec<String> = Vec::new();
    let mut i: usize = 0;
    while i < earned.len()
        invariant
            i <= earned@.len(),
            es == str_views(earned@),
            hs == held@.map_values(|s: String| s@),
            out@.map_values(|s: String| s@) == new_badges_spec(es.take(i as int), hs),
        decreases earned@.len() - i,
    {
        let e = earned[i];
        assert(es.take(i + 1).drop_last() =~= es.take(i as int));
        assert(es.take(i + 1).last() == e@);
        let mut seen = false;
        let mut k: usize = 0;
        while k < held.len()
            invariant
                k <= held@.len(),
                hs == held@.map_values(|s: String| s@),
                seen == (exists|j: int| 0 <= j < k && hs[j] == e@),
            decreases held@.len() - k,
        {
            assert(hs[k as int] == held@[k as int]@);
            if str_eq(held[k].as_str(), e) {
                seen = true;
            }
            k = k + 1;
        }
        let ghost ov = out@.map_values(|s: String| s@);
        assert(seen ==> hs.contains(e@));
        let mut k2: usize = 0;
        while k2 < out.len()
            invariant
                k2 <= out@.len(),
                ov == out@.map_values(|s: String| s@),
                seen ==> (hs.contains(e@) || ov.contains(e@)),
                !seen ==> !hs.contains(e@) && (forall|j: int| 0 <= j < k2 ==> ov[j] != e@),
            decreases out@.len() - k2,
        {
            assert(ov[k2 as int] == out@[k2 as int]@);
            if str_eq(out[k2].as_str(), e) {
                seen = true;
                assert(ov[k2 as int] == e@);
            }
            k2 = k2 + 1;
        }
        if !seen {
            let ghost before = out@;
            out.push(e.to_string());
            assert(out@.map_values(|s: String| s@) =~= before.map_values(|s: String| s@).push(e@));
        }
        i = i + 1;
    }
    assert(es.take(earned@.len() as int) =~= es);
    out
}

pub struct DeviceQuery {
    pub device_id: Option<String>,
}

pub struct ActivityQuery {
    pub device_id: Option<String>,
    pub limit: Option<i64>,
}

pub struct AnalyticsQuery {
    pub device_id: Option<String>,
    pub days: Option<i64>,
}


/// Thresholds up to `MAX_LEVEL_STEP` are computed without overflow.
proof fn lemma_threshold_fits(n: int)
    requires
        0 <= n <= MAX_LEVEL_STEP,
    ensures
        i64::MIN <= 100 * n <= i64::MAX,
        i64::MIN <= 100 * n * (n + 1) <= i64::MAX,
{
    assert(100 * n * (n + 1) <= 100 * 303700049int * 303700050int) by (nonlinear_arith)
        requires
            0 <= n <= 303700049int,
    ;
    assert(0 <= 100 * n * (n + 1)) by (nonlinear_arith)
        requires
            0 <= n,
    ;
    assert(100 * 303700049int * 303700050int <= i64::MAX);
}

/// The statistics reported for an XP total and the counters read beside it: the level,
/// the thresholds of this level and the next, and the level's title.
pub fn gamification_stats(
    total_xp: i64,
    total_tool_uses: i64,
    current_streak: i64,
    longest_streak: i64,
    achievements_earned: i64,
) -> (s: GamificationStats)
    requires
        total_xp < MAX_TOTAL_XP,
    ensures
        s.total_xp == total_xp,
        is_level_of(total_xp as int, s.level as int),
        s.xp_for_current_level == xp_at(s.level as int),
        s.xp_for_next_level == xp_at(s.level + 1),
        s.total_tool_uses == total_tool_uses,
        s.current_streak == current_streak,
        s.longest_streak == longest_streak,
        s.achievements_earned == achievements_earned,
        s.title@ == title_spec(s.level as int),
{
    let level = level_from_xp(total_xp);
    proof {
        assert(xp_at(MAX_LEVEL_STEP as int) == MAX_TOTAL_XP) by {
            assert(50 * 303700049int * (303700049int + 1) == 4611686003315122500int)
                by (nonlinear_arith);
        }
        if level >= MAX_LEVEL_STEP {
            if level > MAX_LEVEL_STEP {
                lemma_xp_strictly_increasing(MAX_LEVEL_STEP as int, level as int);
            }
        }
        lemma_threshold_fits(level as int);
        lemma_threshold_fits(level + 1);
    }
    let current = xp_for_level(level);
    let next = xp_for_level(level + 1);
    GamificationStats {
        total_xp,
        level,
        xp_for_current_level: current,
        xp_for_next_level: next,
        total_tool_uses,
        current_streak,
        longest_streak,
        achievements_earned,
        title: title_for_level(level).to_string(),
    }
}

/// How many activity entries a request gets: 50 by default, at most 200.
pub fn activity_limit(limit: Option<i64>) -> (n: i64)
    ensures
        n == match limit {
            Some(l) => if l < 200 {
                l
            } else {
                200
            },
            None => 50,
        },
{
    let l = match limit {
        Some(l) => l,
        None => 50,
    };
    if l < 200 {
        l
    } else {
        200
    }
}

} // verus!
