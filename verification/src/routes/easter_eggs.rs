//! Easter eggs: the Konami code, loot drops and seasonal events.
use vstd::prelude::*;
use crate::routes::gamification::{is_level_of, level_from_xp, xp_at, xp_for_level, MAX_TOTAL_XP};
use crate::json::{as_i64, get, json_get, json_of, opt_i64, JsonValue};
use crate::text::str_eq;

verus! {

broadcast use vstd::string::group_string_axioms;

pub struct KonamiRequest {
    pub device_id: Option<String>,
    pub sequence: Vec<String>,
}

pub struct KonamiResponse {
    pub ok: bool,
    pub valid: bool,
    pub message: String,
    pub achievement_unlocked: bool,
    pub secret_animation: Option<String>,
}

pub struct DeviceQuery {
    pub device_id: Option<String>,
}

pub struct LootDrop {
    pub id: i64,
    pub device_id: String,
    pub item_type: String,
    pub item_id: String,
    pub item_name: String,
    pub rarity: String,
    pub dropped_at: String,
    pub claimed: bool,
}


/// The Konami code: up, up, down, down, left, right, left, right, b, a.
pub open spec fn konami_spec() -> Seq<Seq<char>> {
    seq!["up"@, "up"@, "down"@, "down"@, "left"@, "right"@, "left"@, "right"@, "b"@, "a"@]
}

/// Whether the entered sequence is exactly the Konami code.
pub fn konami_matches(sequence: &[String]) -> (r: bool)
    ensures
        r == (sequence@.len() == konami_spec().len() && forall|i: int| 0 <= i < sequence@.len() ==> (#[trigger] sequence@[i])@ == konami_spec()[i]),
{
    let code: Vec<&str> = vec!["up", "up", "down", "down", "left", "right", "left", "right", "b", "a"];
    assert(forall|i: int| 0 <= i < 10 ==> (#[trigger] code@[i])@ == konami_spec()[i]);
    if sequence.len() != code.len() {
        return false;
    }
    let mut i: usize = 0;
    while i < code.len()
        invariant
            i <= 10,
            code@.len() == 10,
            sequence@.len() == 10,
            forall|j: int| 0 <= j < 10 ==> (#[trigger] code@[j])@ == konami_spec()[j],
            forall|j: int| 0 <= j < i ==> (#[trigger] sequence@[j])@ == konami_spec()[j],
        decreases 10 - i,
    {
        if !str_eq(sequence[i].as_str(), code[i]) {
            return false;
        }
        i = i + 1;
    }
    true
}

/// The secret animation the Konami code unlocks, as JSON text (keys in order).
pub open spec fn konami_animation() -> Seq<char> {
    "{\"frames\":[{\"accessories\":[\"party_hat\",\"sunglasses\"],\"duration_ms\":200,\"state\":\"happy\"},{\"accessories\":[\"crown\",\"cape\"],\"duration_ms\":200,\"state\":\"excited\"},{\"accessories\":[\"fireworks\"],\"duration_ms\":300,\"state\":\"celebrating\"},{\"accessories\":[\"rainbow\"],\"duration_ms\":500,\"state\":\"happy\"}],\"loop_count\":3,\"name\":\"konami_secret\"}"@
}

/// The answer to a Konami attempt: a wrong sequence is told so; the right one reveals the
/// secret animation and says whether the achievement was unlocked now or before.
pub fn konami_response(valid: bool, newly_unlocked: bool) -> (r: KonamiResponse)
    ensures
        r.ok,
        r.valid == valid,
        r.achievement_unlocked == (valid && newly_unlocked),
        !valid ==> r.message@ == "Not the right sequence..."@ && r.secret_animation is None,
        valid ==> (r.secret_animation matches Some(a) && a@ == konami_animation()),
        valid && newly_unlocked ==> r.message@ == "KONAMI CODE ACTIVATED! Secret achievement unlocked! +100 XP"@,
        valid && !newly_unlocked ==> r.message@ == "KONAMI CODE ACTIVATED! (Achievement already unlocked)"@,
{
    if !valid {
        return KonamiResponse {
            ok: true,
            valid: false,
            message: "Not the right sequence...".to_string(),
            achievement_unlocked: false,
            secret_animation: None,
        };
    }
    let anim = "{\"frames\":[{\"accessories\":[\"party_hat\",\"sunglasses\"],\"duration_ms\":200,\"state\":\"happy\"},{\"accessories\":[\"crown\",\"cape\"],\"duration_ms\":200,\"state\":\"excited\"},{\"accessories\":[\"fireworks\"],\"duration_ms\":300,\"state\":\"celebrating\"},{\"accessories\":[\"rainbow\"],\"duration_ms\":500,\"state\":\"happy\"}],\"loop_count\":3,\"name\":\"konami_secret\"}".to_string();
    KonamiResponse {
        ok: true,
        valid: true,
        message: if newly_unlocked {
            "KONAMI CODE ACTIVATED! Secret achievement unlocked! +100 XP".to_string()
        } else {
            "KONAMI CODE ACTIVATED! (Achievement already unlocked)".to_string()
        },
        achievement_unlocked: newly_unlocked,
        secret_animation: Some(anim),
    }
}

/// The avatar's forms and the levels they need.
pub open spec fn evolution_forms() -> Seq<(Seq<char>, i64)> {
    seq![("egg"@, 0i64), ("blob"@, 10i64), ("robot"@, 20i64), ("mech"@, 30i64), ("cosmic"@, 40i64)]
}

/// The form shown at `level`: the last form whose level is reached (the egg below all).
pub open spec fn current_form_spec(level: int) -> Seq<char> {
    if level >= 40 {
        "cosmic"@
    } else if level >= 30 {
        "mech"@
    } else if level >= 20 {
        "robot"@
    } else if level >= 10 {
        "blob"@
    } else {
        "egg"@
    }
}

/// The level of the next form, if any remains.
pub open spec fn next_form_level(level: int) -> Option<i64> {
    if level < 0 {
        Some(0)
    } else if level < 10 {
        Some(10)
    } else if level < 20 {
        Some(20)
    } else if level < 30 {
        Some(30)
    } else if level < 40 {
        Some(40)
    } else {
        None
    }
}

/// The evolution summary for an XP total: its level, its form, the level of the next form,
/// and how much XP that form still needs (never negative).
pub fn evolution(total_xp: i64) -> (r: (i64, &'static str, Option<i64>, i64))
    requires
        total_xp < MAX_TOTAL_XP,
        total_xp >= 5500 - i64::MAX,
    ensures
        is_level_of(total_xp as int, r.0 as int),
        r.1@ == current_form_spec(r.0 as int),
        r.2 == next_form_level(r.0 as int),
        r.3 == match r.2 {
            Some(l) => if xp_at(l as int) - total_xp > 0 {
                xp_at(l as int) - total_xp
            } else {
                0
            },
            None => 0,
        },
{
    let level = level_from_xp(total_xp);
    let form: &'static str = if level >= 40 {
        "cosmic"
    } else if level >= 30 {
        "mech"
    } else if level >= 20 {
        "robot"
    } else if level >= 10 {
        "blob"
    } else {
        "egg"
    };
    let next: Option<i64> = if level < 10 {
        Some(10)
    } else if level < 20 {
        Some(20)
    } else if level < 30 {
        Some(30)
    } else if level < 40 {
        Some(40)
    } else {
        None
    };
    let to_next: i64 = match next {
        Some(l) => {
            assert(xp_at(l as int) <= 82000) by {
                assert(50 * 40 * 41 == 82000);
            }
            let need = xp_for_level(l);
            proof {
                if total_xp < 0 {
                    assert(level == 0) by {
                        if level > 0 {
                            assert(xp_at(level as int) >= 0) by (nonlinear_arith)
                                requires
                                    level > 0,
                            ;
                        }
                    }
                    assert(need == 5500);
                }
            }
            if need - total_xp > 0 {
                need - total_xp
            } else {
                0
            }
        },
        None => 0,
    };
    (level, form, next, to_next)
}

/// The XP a typing result earns before its accuracy bonus, by words per minute.
pub open spec fn typing_base_xp(wpm: int) -> int {
    if 0 <= wpm <= 30 {
        5
    } else if 31 <= wpm <= 60 {
        10
    } else if 61 <= wpm <= 90 {
        20
    } else if 91 <= wpm <= 120 {
        35
    } else {
        50
    }
}

/// The typing rank for a speed.
pub open spec fn typing_rank_spec(wpm: int) -> Seq<char> {
    if 0 <= wpm <= 20 {
        "Pecking"@
    } else if 21 <= wpm <= 40 {
        "Hunt & Peck"@
    } else if 41 <= wpm <= 60 {
        "Average"@
    } else if 61 <= wpm <= 80 {
        "Proficient"@
    } else if 81 <= wpm <= 100 {
        "Fast"@
    } else if 101 <= wpm <= 120 {
        "Speed Demon"@
    } else {
        "Legendary"@
    }
}

/// A typing result's base XP, rank, whether it beats the personal best, and the best after it.
pub fn typing_result(wpm: i64, prev_best: i64) -> (r: (i64, &'static str, bool, i64))
    ensures
        r.0 == typing_base_xp(wpm as int),
        r.1@ == typing_rank_spec(wpm as int),
        r.2 == (wpm > prev_best),
        r.3 == if wpm > prev_best {
            wpm
        } else {
            prev_best
        },
{
    let base: i64 = if 0 <= wpm && wpm <= 30 {
        5
    } else if 31 <= wpm && wpm <= 60 {
        10
    } else if 61 <= wpm && wpm <= 90 {
        20
    } else if 91 <= wpm && wpm <= 120 {
        35
    } else {
        50
    };
    let rank: &'static str = if 0 <= wpm && wpm <= 20 {
        "Pecking"
    } else if 21 <= wpm && wpm <= 40 {
        "Hunt & Peck"
    } else if 41 <= wpm && wpm <= 60 {
        "Average"
    } else if 61 <= wpm && wpm <= 80 {
        "Proficient"
    } else if 81 <= wpm && wpm <= 100 {
        "Fast"
    } else if 101 <= wpm && wpm <= 120 {
        "Speed Demon"
    } else {
        "Legendary"
    };
    let record = wpm > prev_best;
    (base, rank, record, if record {
        wpm
    } else {
        prev_best
    })
}

/// The idle stages' thresholds, in minutes.
pub open spec fn idle_thresholds() -> Seq<i64> {
    seq![5i64, 15, 30, 45, 60, 90, 120, 180, 240, 360]
}

/// The idle stage for the minutes since the last activity, if any is reached.
pub fn idle_stage(minutes: i64) -> (r: Option<usize>)
    ensures
        match r {
            Some(i) => i < 10 && minutes >= idle_thresholds()[i as int] && forall|j: int| i < j < 10 ==> minutes < #[trigger] idle_thresholds()[j],
            None => forall|j: int| 0 <= j < 10 ==> minutes < #[trigger] idle_thresholds()[j],
        },
{
    let t: Vec<i64> = vec![5, 15, 30, 45, 60, 90, 120, 180, 240, 360];
    assert(t@ =~= idle_thresholds());
    let mut i: usize = 10;
    while i > 0
        invariant
            i <= 10,
            t@ == idle_thresholds(),
            forall|j: int| i <= j < 10 ==> minutes < #[trigger] idle_thresholds()[j],
        decreases i,
    {
        if minutes >= t[i - 1] {
            return Some(i - 1);
        }
        i = i - 1;
    }
    None
}

/// Which seasonal events are on for a date (month and day): Halloween from 20 October,
/// the winter holidays from 15 December, April Fools on 1 April, New Year from 30 December
/// to 2 January.
pub open spec fn seasons_active_spec(month: u32, day: u32) -> Seq<bool> {
    seq![
        month == 10 && day >= 20,
        month == 12 && day >= 15,
        month == 4 && day == 1,
        (month == 12 && day >= 30) || (month == 1 && day <= 2),
    ]
}

/// The seasonal events on at a date, in the order halloween, winter holidays, April Fools, New Year.
pub fn seasons_active(month: u32, day: u32) -> (r: Vec<bool>)
    ensures
        r@ == seasons_active_spec(month, day),
{
    let r = vec![
        month == 10 && day >= 20,
        month == 12 && day >= 15,
        month == 4 && day == 1,
        (month == 12 && day >= 30) || (month == 1 && day <= 2),
    ];
    assert(r@ =~= seasons_active_spec(month, day));
    r
}

/// The indices below `n` whose event is (`want`) or is not active, in order.
pub open spec fn indices_where(active: Seq<bool>, n: int, want: bool) -> Seq<usize>
    decreases n,
{
    if n <= 0 {
        Seq::empty()
    } else {
        indices_where(active, n - 1, want) + if active[n - 1] == want {
            seq![(n - 1) as usize]
        } else {
            Seq::empty()
        }
    }
}

fn push_indices(order: &mut Vec<usize>, active: &[bool], want: bool)
    ensures
        final(order)@ == old(order)@ + indices_where(active@, active@.len() as int, want),
{
    let ghost start = order@;
    let mut i: usize = 0;
    while i < active.len()
        invariant
            i <= active@.len(),
            order@ == start + indices_where(active@, i as int, want),
        decreases active@.len() - i,
    {
        if active[i] == want {
            order.push(i);
        }
        i = i + 1;
    }
}

/// The order in which the events are listed: active ones first, each group in the order
/// given (a stable sort on "not active").
pub fn event_order(active: &[bool]) -> (order: Vec<usize>)
    ensures
        order@ == indices_where(active@, active@.len() as int, true) + indices_where(active@, active@.len() as int, false),
{
    let mut order: Vec<usize> = Vec::new();
    push_indices(&mut order, active, true);
    push_indices(&mut order, active, false);
    assert(order@ =~= indices_where(active@, active@.len() as int, true) + indices_where(active@, active@.len() as int, false));
    order
}


/// The loot drop a claim names: its `loot_id` as an integer; a claim without one is refused.
pub fn loot_id_of(input: &JsonValue) -> (r: Result<i64, String>)
    ensures
        match r {
            Ok(id) => opt_i64(json_get(json_of(*input), "loot_id"@)) == Some(id),
            Err(m) => opt_i64(json_get(json_of(*input), "loot_id"@)) is None && m@ == "Missing loot_id"@,
        },
{
    let v = get(input, "loot_id");
    proof {
        match v {
            Some(x) => assert(json_get(json_of(*input), "loot_id"@) == Some(json_of(*x))),
            None => {},
        }
    }
    match as_i64(v) {
        Some(id) => Ok(id),
        None => Err("Missing loot_id".to_string()),
    }
}

} // verus!
