//! The desk pet and token usage.
use vstd::prelude::*;
use crate::text::str_eq;

verus! {

broadcast use vstd::string::group_string_axioms;

pub struct PetState {
    pub device_id: String,
    pub hunger: i64,
    pub happiness: i64,
    pub last_fed_at: Option<String>,
    pub last_pet_at: Option<String>,
    pub total_feeds: i64,
    pub total_pets: i64,
    pub mood: String,
}

pub struct DeviceQuery {
    pub device_id: Option<String>,
}

pub struct FeedRequest {
    pub device_id: Option<String>,
    pub food_type: Option<String>,
}

pub struct FeedResponse {
    pub ok: bool,
    pub hunger: i64,
    pub happiness: i64,
    pub mood: String,
    pub message: String,
}

pub struct PetPetRequest {
    pub device_id: Option<String>,
}

pub struct TokenUsageEntry {
    pub id: i64,
    pub device_id: String,
    pub input_tokens: i64,
    pub output_tokens: i64,
    pub model: String,
    pub recorded_at: String,
}

pub struct TokenUsageSummary {
    pub total_input: i64,
    pub total_output: i64,
    pub total_tokens: i64,
    pub today_input: i64,
    pub today_output: i64,
    pub today_total: i64,
    pub entries_count: i64,
    pub recent: Vec<TokenUsageEntry>,
    pub daily: Vec<DailyTokenUsage>,
}

pub struct DailyTokenUsage {
    pub date: String,
    pub input_tokens: i64,
    pub output_tokens: i64,
}

pub struct TokenQuery {
    pub device_id: Option<String>,
    pub days: Option<i64>,
}

pub struct RecordTokensRequest {
    pub device_id: Option<String>,
    pub input_tokens: i64,
    pub output_tokens: i64,
    pub model: Option<String>,
}


/// `a / b` for `b > 0`, rounded toward zero as `i64` division does.
pub open spec fn div_trunc(a: int, b: int) -> int {
    if a >= 0 {
        a / b
    } else {
        -((-a) / b)
    }
}

/// The pet's mood from the average of its hunger and happiness (rounded toward zero).
pub open spec fn mood_spec(hunger: int, happiness: int) -> Seq<char> {
    let avg = div_trunc(hunger + happiness, 2);
    if 90 <= avg <= 100 {
        "ecstatic"@
    } else if 70 <= avg <= 89 {
        "happy"@
    } else if 50 <= avg <= 69 {
        "content"@
    } else if 30 <= avg <= 49 {
        "grumpy"@
    } else if 10 <= avg <= 29 {
        "sad"@
    } else {
        "miserable"@
    }
}

/// The pet's mood.
pub fn mood_from(hunger: i64, happiness: i64) -> (m: &'static str)
    requires
        i64::MIN <= hunger + happiness <= i64::MAX,
    ensures
        m@ == mood_spec(hunger as int, happiness as int),
{
    let avg = (hunger + happiness) / 2;
    if 90 <= avg && avg <= 100 {
        "ecstatic"
    } else if 70 <= avg && avg <= 89 {
        "happy"
    } else if 50 <= avg && avg <= 69 {
        "content"
    } else if 30 <= avg && avg <= 49 {
        "grumpy"
    } else if 10 <= avg && avg <= 29 {
        "sad"
    } else {
        "miserable"
    }
}

/// A stat that has decayed by one point per `per` minutes since it was last topped up,
/// never below zero; `default` when it was never topped up (`minutes` is then `None`).
pub open spec fn decayed_spec(value: int, minutes: Option<int>, per: int, default: int) -> int {
    match minutes {
        Some(m) => {
            let d = value - div_trunc(m, per);
            if d > 0 {
                d
            } else {
                0
            }
        },
        None => default,
    }
}

fn decay(value: i64, minutes: Option<i64>, per: i64, default: i64) -> (r: i64)
    requires
        per >= 10,
        0 <= value <= 100,
        0 <= default <= 100,
    ensures
        r == decayed_spec(value as int, match minutes {
            Some(m) => Some(m as int),
            None => None,
        }, per as int, default as int),
        0 <= r <= 100 + 922337203685477581,
{
    match minutes {
        Some(m) => {
            let q = m / per;
            proof {
                assert(-922337203685477581 <= q) by (nonlinear_arith)
                    requires
                        per >= 10,
                        q == div_trunc(m as int, per as int),
                        i64::MIN <= m <= i64::MAX,
                ;
            }
            if q >= value {
                0
            } else {
                value - q
            }
        },
        None => default,
    }
}

/// The pet as shown now: hunger falls a point per 10 minutes since it was fed (zero if it
/// never was), happiness a point per 30 minutes since it was petted (50 if it never was).
pub fn pet_view(hunger: i64, happiness: i64, minutes_since_fed: Option<i64>, minutes_since_pet: Option<i64>) -> (r: (i64, i64, &'static str))
    requires
        0 <= hunger <= 100,
        0 <= happiness <= 100,
    ensures
        r.0 == decayed_spec(hunger as int, match minutes_since_fed {
            Some(m) => Some(m as int),
            None => None,
        }, 10, 0),
        r.1 == decayed_spec(happiness as int, match minutes_since_pet {
            Some(m) => Some(m as int),
            None => None,
        }, 30, 50),
        r.2@ == mood_spec(r.0 as int, r.1 as int),
{
    let h = decay(hunger, minutes_since_fed, 10, 0);
    let p = decay(happiness, minutes_since_pet, 30, 50);
    (h, p, mood_from(h, p))
}

/// How much a food fills the pet: a feast 60, a meal 35, anything else a snack's 15.
pub open spec fn food_amount(food: Option<Seq<char>>) -> int {
    match food {
        Some(f) => if f == "feast"@ {
            60
        } else if f == "meal"@ {
            35
        } else {
            15
        },
        None => 15,
    }
}

/// What the pet says when it is fed.
pub open spec fn feed_message(food: Option<Seq<char>>) -> Seq<char> {
    match food {
        Some(f) => if f == "feast"@ {
            "Om nom nom! That was amazing!"@
        } else if f == "meal"@ {
            "Mmm, delicious! Thanks!"@
        } else {
            "Tasty snack!"@
        },
        None => "Tasty snack!"@,
    }
}

/// A stat raised by `boost`, capped at 100.
pub open spec fn raised(value: int, boost: int) -> int {
    if value + boost < 100 {
        value + boost
    } else {
        100
    }
}

fn raise(value: i64, boost: i64) -> (r: i64)
    requires
        0 <= boost <= 100,
    ensures
        r == raised(value as int, boost as int),
{
    if value < 100 - boost {
        value + boost
    } else {
        100
    }
}

/// Feeding: hunger rises by the food's amount and happiness by a third of it, each capped at
/// 100; the answer carries the new mood and the pet's message.
pub fn feed(hunger: i64, happiness: i64, food_type: Option<&str>) -> (r: FeedResponse)
    requires
        hunger + happiness >= i64::MIN,
    ensures
        r.ok,
        r.hunger == raised(hunger as int, food_amount(match food_type {
            Some(f) => Some(f@),
            None => None,
        })),
        r.happiness == raised(happiness as int, food_amount(match food_type {
            Some(f) => Some(f@),
            None => None,
        }) / 3),
        r.mood@ == mood_spec(r.hunger as int, r.happiness as int),
        r.message@ == feed_message(match food_type {
            Some(f) => Some(f@),
            None => None,
        }),
{
    let amount: i64 = match food_type {
        Some(f) => if str_eq(f, "feast") {
            60
        } else if str_eq(f, "meal") {
            35
        } else {
            15
        },
        None => 15,
    };
    let message: &str = match food_type {
        Some(f) => if str_eq(f, "feast") {
            "Om nom nom! That was amazing!"
        } else if str_eq(f, "meal") {
            "Mmm, delicious! Thanks!"
        } else {
            "Tasty snack!"
        },
        None => "Tasty snack!",
    };
    let h = raise(hunger, amount);
    let p = raise(happiness, amount / 3);
    FeedResponse { ok: true, hunger: h, happiness: p, mood: mood_from(h, p).to_string(), message: message.to_string() }
}

/// Petting: happiness rises by 20, capped at 100.
pub fn pet(hunger: i64, happiness: i64) -> (r: FeedResponse)
    requires
        hunger + happiness >= i64::MIN,
        hunger <= i64::MAX - 100,
    ensures
        r.ok,
        r.hunger == hunger,
        r.happiness == raised(happiness as int, 20),
        r.mood@ == mood_spec(hunger as int, r.happiness as int),
        r.message@ == "Purrs happily!"@,
{
    let p = raise(happiness, 20);
    FeedResponse { ok: true, hunger, happiness: p, mood: mood_from(hunger, p).to_string(), message: "Purrs happily!".to_string() }
}

/// Feeding or petting never lowers a stat and never takes it above 100 (when it was at most 100).
pub proof fn lemma_care_bounds(value: int, boost: int)
    requires
        0 <= boost,
        value <= 100,
    ensures
        value <= raised(value, boost) <= 100,
{
}

/// How much recorded token usage feeds the pet: a point per 500 tokens, at most 10.
pub open spec fn token_food_spec(input_tokens: int, output_tokens: int) -> int {
    let f = div_trunc(input_tokens + output_tokens, 500);
    if f < 10 {
        f
    } else {
        10
    }
}

/// The hunger points a token usage record is worth (it feeds the pet only when positive).
pub fn token_food(input_tokens: i64, output_tokens: i64) -> (r: i64)
    requires
        i64::MIN <= input_tokens + output_tokens <= i64::MAX,
    ensures
        r == token_food_spec(input_tokens as int, output_tokens as int),
{
    let f = (input_tokens + output_tokens) / 500;
    if f < 10 {
        f
    } else {
        10
    }
}

} // verus!
