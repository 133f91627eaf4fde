//! Mini-game scores.
use vstd::prelude::*;
use crate::text::{push_str, str_eq, string_of};

verus! {

broadcast use vstd::string::group_string_axioms;

pub struct GameScore {
    pub id: i64,
    pub device_id: String,
    pub game: String,
    pub score: i64,
    pub duration_secs: i64,
    pub played_at: String,
}

pub struct GameLeaderboard {
    pub game: String,
    pub scores: Vec<GameScore>,
    pub personal_best: Option<i64>,
}

pub struct GameQuery {
    pub device_id: Option<String>,
    pub game: Option<String>,
    pub limit: Option<i64>,
}

pub struct SubmitScoreRequest {
    pub device_id: Option<String>,
    pub game: String,
    pub score: i64,
    pub duration_secs: Option<i64>,
}

pub struct SubmitScoreResponse {
    pub ok: bool,
    pub new_high_score: bool,
    pub xp_earned: i64,
    pub rank: i64,
}


/// The games that can be played.
pub open spec fn is_game(g: Seq<char>) -> bool {
    g == "snake"@ || g == "pong"@ || g == "tetris"@
}

/// The outcome of a submitted score: whether it beats the device's best so far (any score
/// does when there is none) and the XP it earns (15 for a new best, else 5); an unknown game is
/// refused.
pub open spec fn score_outcome_spec(game: Seq<char>, score: i64, previous_best: Option<i64>) -> Result<(bool, i64), Seq<char>> {
    if !is_game(game) {
        Err("Invalid game: "@ + game + ". Valid: [\"snake\", \"pong\", \"tetris\"]"@)
    } else {
        let best = match previous_best {
            Some(b) => score > b,
            None => true,
        };
        Ok((best, if best {
            15
        } else {
            5
        }))
    }
}

/// Whether a submitted score is a new best, and the XP it earns.
pub fn score_outcome(game: &str, score: i64, previous_best: Option<i64>) -> (r: Result<(bool, i64), String>)
    ensures
        match (r, score_outcome_spec(game@, score, previous_best)) {
            (Ok(a), Ok(b)) => a == b,
            (Err(m), Err(t)) => m@ == t,
            _ => false,
        },
{
    if !(str_eq(game, "snake") || str_eq(game, "pong") || str_eq(game, "tetris")) {
        let mut m: Vec<char> = Vec::new();
        push_str(&mut m, "Invalid game: ");
        push_str(&mut m, game);
        push_str(&mut m, ". Valid: [\"snake\", \"pong\", \"tetris\"]");
        return Err(string_of(m.as_slice()));
    }
    let best = match previous_best {
        Some(b) => score > b,
        None => true,
    };
    Ok((best, if best {
        15
    } else {
        5
    }))
}

/// The game and the number of scores a leaderboard shows: `snake` and 20 unless asked
/// otherwise, never more than 100.
pub fn leaderboard_query(game: Option<&str>, limit: Option<i64>) -> (r: (&str, i64))
    ensures
        r.0@ == match game {
            Some(g) => g@,
            None => "snake"@,
        },
        r.1 == match limit {
            Some(n) => if n < 100 {
                n
            } else {
                100
            },
            None => 20,
        },
{
    let g = match game {
        Some(g) => g,
        None => "snake",
    };
    let n = match limit {
        Some(n) => if n < 100 {
            n
        } else {
            100
        },
        None => 20,
    };
    (g, n)
}

} // verus!
