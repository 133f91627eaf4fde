//! The weekly boss-bug challenge.
use vstd::prelude::*;
use vstd::utf8::encode_utf8;
use crate::text::{chars_of, concat_all, concat_parts, push_signed_decimal, push_str, signed_decimal, string_of, trim, trim_chars};

verus! {

broadcast use vstd::string::group_string_axioms;

pub struct BossState {
    pub boss_id: String,
    pub boss_name: String,
    pub challenge: String,
    pub xp_reward: i64,
    pub week_number: i64,
    pub defeated: bool,
    pub defeated_at: Option<String>,
    pub attempts: i64,
    pub global_defeats: i64,
    pub hint: Option<String>,
}

pub struct DeviceQuery {
    pub device_id: Option<String>,
}

pub struct AttemptRequest {
    pub device_id: Option<String>,
    pub answer: String,
}

pub struct AttemptResponse {
    pub ok: bool,
    pub correct: bool,
    pub xp_earned: i64,
    pub message: String,
    pub attempts: i64,
}


/// The bosses, in weekly rotation: id, name, challenge, XP reward.
pub open spec fn bosses() -> Seq<(Seq<char>, Seq<char>, Seq<char>, i64)> {
    seq![
        ("regex_wraith"@, "Regex Wraith"@, "Write a regex that matches all valid IPv4 addresses"@, 50i64),
        ("null_pointer_phantom"@, "Null Pointer Phantom"@, "Find and fix the null reference in the code snippet"@, 40i64),
        ("infinite_loop_hydra"@, "Infinite Loop Hydra"@, "Identify the termination condition bug"@, 45i64),
        ("off_by_one_ogre"@, "Off-By-One Ogre"@, "Fix the array boundary error"@, 35i64),
        ("race_condition_dragon"@, "Race Condition Dragon"@, "Spot the concurrency bug in the async code"@, 60i64),
        ("memory_leak_leviathan"@, "Memory Leak Leviathan"@, "Find where the resource isn't freed"@, 55i64),
        ("sql_injection_serpent"@, "SQL Injection Serpent"@, "Secure the vulnerable query"@, 45i64),
        ("deadlock_demon"@, "Deadlock Demon"@, "Reorder the lock acquisitions to prevent deadlock"@, 50i64),
    ]
}

/// The boss of week `week` (the year's week number): the bosses take turns.
pub fn boss_for_week(week: u64) -> (b: (&'static str, &'static str, &'static str, i64))
    ensures
        (b.0@, b.1@, b.2@, b.3) == bosses()[(week % 8) as int],
{
    let table: Vec<(&'static str, &'static str, &'static str, i64)> = vec![
        ("regex_wraith", "Regex Wraith", "Write a regex that matches all valid IPv4 addresses", 50),
        ("null_pointer_phantom", "Null Pointer Phantom", "Find and fix the null reference in the code snippet", 40),
        ("infinite_loop_hydra", "Infinite Loop Hydra", "Identify the termination condition bug", 45),
        ("off_by_one_ogre", "Off-By-One Ogre", "Fix the array boundary error", 35),
        ("race_condition_dragon", "Race Condition Dragon", "Spot the concurrency bug in the async code", 60),
        ("memory_leak_leviathan", "Memory Leak Leviathan", "Find where the resource isn't freed", 55),
        ("sql_injection_serpent", "SQL Injection Serpent", "Secure the vulnerable query", 45),
        ("deadlock_demon", "Deadlock Demon", "Reorder the lock acquisitions to prevent deadlock", 50),
    ];
    assert(forall|i: int| 0 <= i < 8 ==> ((#[trigger] table@[i]).0@, table@[i].1@, table@[i].2@, table@[i].3) == bosses()[i]);
    table[(week % 8) as usize]
}

/// The hint offered after three failed attempts at an undefeated boss.
pub open spec fn hint_spec(attempts: i64, defeated: bool, boss_name: Seq<char>) -> Option<Seq<char>> {
    if attempts >= 3 && !defeated {
        Some("Hint: Focus on the edge cases in the "@ + boss_name + " challenge!"@)
    } else {
        None
    }
}

/// The hint for the boss, if one is due.
pub fn boss_hint(attempts: i64, defeated: bool, boss_name: &str) -> (h: Option<String>)
    ensures
        match h {
            Some(t) => hint_spec(attempts, defeated, boss_name@) == Some(t@),
            None => hint_spec(attempts, defeated, boss_name@) is None,
        },
{
    if attempts >= 3 && !defeated {
        proof {
            reveal_with_fuel(concat_all, 4);
        }
        Some(string_of(concat_parts(&["Hint: Focus on the edge cases in the ", boss_name, " challenge!"]).as_slice()))
    } else {
        None
    }
}

/// Whether an answer counts as a real attempt (and so defeats the boss): at least ten bytes
/// once trimmed.
pub open spec fn answer_counts(answer: Seq<char>) -> bool {
    trim(answer).len() != 0 && encode_utf8(trim(answer)).len() >= 10
}

/// Judges an answer.
pub fn answer_is_attempt(answer: &str) -> (r: bool)
    ensures
        r == answer_counts(answer@),
{
    let t = string_of(trim_chars(chars_of(answer).as_slice()).as_slice());
    let n = t.as_str().as_bytes().len();
    chars_of(t.as_str()).len() != 0 && n >= 10
}

/// The bonus for defeating a boss quickly: half the reward at the first attempt, a quarter at
/// the second.
pub open spec fn bonus_spec(xp_reward: int, attempts: int) -> int {
    if attempts == 1 {
        xp_reward / 2
    } else if attempts == 2 {
        xp_reward / 4
    } else {
        0
    }
}

/// What a defeat earns and says, after `attempts` attempts.
pub open spec fn defeat_spec(boss_name: Seq<char>, xp_reward: int, attempts: int) -> (int, Seq<char>) {
    let bonus = bonus_spec(xp_reward, attempts);
    let total = xp_reward + bonus;
    (total, "You defeated "@ + boss_name + "! +"@ + signed_decimal(total) + " XP"@ + if bonus > 0 {
        " (includes "@ + signed_decimal(bonus) + " bonus for quick solve!)"@
    } else {
        Seq::empty()
    })
}

/// The outcome of an attempt: a defeat with its XP and message, or the message of a miss.
pub fn attempt_outcome(boss_name: &str, xp_reward: i64, attempts: i64, correct: bool) -> (r: (i64, String))
    requires
        0 <= xp_reward <= 1000,
    ensures
        correct ==> (r.0 as int, r.1@) == defeat_spec(boss_name@, xp_reward as int, attempts as int),
        !correct ==> r.0 == 0 && r.1@ == "Not quite! "@ + boss_name@ + " still stands. Try again! (Attempt #"@
            + signed_decimal(attempts as int) + ")"@,
{
    proof {
        reveal_with_fuel(concat_all, 4);
    }
    if correct {
        let bonus: i64 = if attempts == 1 {
            xp_reward / 2
        } else if attempts == 2 {
            xp_reward / 4
        } else {
            0
        };
        let total = xp_reward + bonus;
        let mut m = concat_parts(&["You defeated ", boss_name, "! +"]);
        push_signed_decimal(&mut m, total);
        push_str(&mut m, " XP");
        if bonus > 0 {
            push_str(&mut m, " (includes ");
            push_signed_decimal(&mut m, bonus);
            push_str(&mut m, " bonus for quick solve!)");
        }
        (total, string_of(m.as_slice()))
    } else {
        let mut m = concat_parts(&["Not quite! ", boss_name, " still stands. Try again! (Attempt #"]);
        push_signed_decimal(&mut m, attempts);
        push_str(&mut m, ")");
        (0, string_of(m.as_slice()))
    }
}

/// The answer when the boss was already defeated this week.
pub fn already_defeated_message(boss_name: &str) -> (m: String)
    ensures
        m@ == "You already defeated "@ + boss_name@ + " this week!"@,
{
    proof {
        reveal_with_fuel(concat_all, 4);
    }
    string_of(concat_parts(&["You already defeated ", boss_name, " this week!"]).as_slice())
}

} // verus!
