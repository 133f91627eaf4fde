//! Developer activity insights.
use vstd::prelude::*;
use crate::config::opt_view;
use crate::numbers::{div_round_even, round_half_even};
use crate::text::{
    decimal, join, push_decimal, push_decimal_wide, push_joined, push_signed_decimal,
    push_signed_decimal_wide, push_str, signed_decimal, string_of, texts, ymd_day_number,
    ymd_day_number_spec,
};

verus! {

broadcast use vstd::string::group_string_axioms;

pub struct InsightsQuery {
    pub device_id: Option<String>,
    pub days: Option<i64>,
}


/// The day numbers of a list of dates (`None` for one that is not a `YYYY-MM-DD` date).
pub open spec fn day_numbers(dates: Seq<String>) -> Seq<Option<int>> {
    Seq::new(dates.len(), |i: int| ymd_day_number_spec(dates[i]@))
}

/// The longest run so far and the current run after reading the first `n` dates: a date the
/// day after the previous one extends the run, any other date ends it, and a pair with an
/// unreadable date changes nothing.
pub open spec fn runs_after(d: Seq<Option<int>>, n: int) -> (int, int)
    decreases n,
{
    if n <= 1 {
        (0, 1)
    } else {
        let (m, c) = runs_after(d, n - 1);
        match (d[n - 2], d[n - 1]) {
            (Some(p), Some(q)) => if q - p == 1 {
                (m, c + 1)
            } else {
                (if m > c {
                    m
                } else {
                    c
                }, 1)
            },
            _ => (m, c),
        }
    }
}

/// The longest run of consecutive days in an ordered list of active dates (1 for an empty list).
pub open spec fn longest_run_spec(d: Seq<Option<int>>) -> int {
    let (m, c) = runs_after(d, d.len() as int);
    if m > c {
        m
    } else {
        c
    }
}

proof fn lemma_runs_bounds(d: Seq<Option<int>>, n: int)
    requires
        1 <= n,
    ensures
        0 <= runs_after(d, n).0 <= n,
        1 <= runs_after(d, n).1 <= n,
    decreases n,
{
    if n > 1 {
        lemma_runs_bounds(d, n - 1);
    }
}

/// Each day of `d[a..=b]` (all read) is the day after the one before it.
pub open spec fn consecutive_block(d: Seq<Option<int>>, a: int, b: int) -> bool {
    &&& 0 <= a <= b < d.len()
    &&& forall|k: int| a <= k < b ==> #[trigger] d[k + 1] == Some(d[k]->0 + 1)
}

/// The state after reading `n` dates, all readable: the current run is the block that ends
/// at the last date read and cannot be extended to the left, every block that ends before it
/// is at most `m` long, and `m` is 0 or the length of such a block.
spec fn runs_invariant(d: Seq<Option<int>>, n: int, m: int, c: int) -> bool {
    &&& 1 <= c <= n
    &&& consecutive_block(d, n - c, n - 1)
    &&& (n - c > 0 ==> d[n - c] != Some(d[n - c - 1]->0 + 1))
    &&& forall|a: int, b: int| consecutive_block(d, a, b) && b < n - c ==> b - a + 1 <= m
    &&& (m == 0 || exists|a: int, b: int| consecutive_block(d, a, b) && b < n - c && b - a + 1 == m)
}

proof fn lemma_block_within(d: Seq<Option<int>>, a: int, b: int, n: int, c: int)
    requires
        consecutive_block(d, a, b),
        1 <= c <= n <= d.len(),
        n - c <= b < n,
        n - c > 0 ==> d[n - c] != Some(d[n - c - 1]->0 + 1),
    ensures
        b - a + 1 <= c,
{
    if a < n - c {
        let k = n - c - 1;
        assert(a <= k < b);
        assert(d[k + 1] == Some(d[k]->0 + 1));
    }
}

proof fn lemma_runs_invariant(d: Seq<Option<int>>, n: int)
    requires
        1 <= n <= d.len(),
        forall|i: int| 0 <= i < d.len() ==> (#[trigger] d[i]) is Some,
    ensures
        runs_invariant(d, n, runs_after(d, n).0, runs_after(d, n).1),
    decreases n,
{
    if n == 1 {
        assert(consecutive_block(d, 0, 0));
    } else {
        lemma_runs_invariant(d, n - 1);
        let (m, c) = runs_after(d, n - 1);
        let p = d[n - 2]->0;
        let q = d[n - 1]->0;
        assert(d[n - 2] is Some && d[n - 1] is Some);
        if q - p == 1 {
            assert(runs_after(d, n) == (m, c + 1));
            assert(consecutive_block(d, n - (c + 1), n - 1)) by {
                assert forall|k: int| n - (c + 1) <= k < n - 1 implies #[trigger] d[k + 1] == Some(d[k]->0 + 1) by {
                    if k < n - 2 {
                        assert(consecutive_block(d, n - 1 - c, n - 2));
                    }
                }
            }
        } else {
            let m2 = if m > c {
                m
            } else {
                c
            };
            assert(runs_after(d, n) == (m2, 1int));
            assert(consecutive_block(d, n - 1, n - 1));
            assert(d[n - 1] != Some(d[n - 2]->0 + 1));
            assert forall|a: int, b: int| consecutive_block(d, a, b) && b < n - 1 implies b - a + 1 <= m2 by {
                if b >= n - 1 - c {
                    lemma_block_within(d, a, b, n - 1, c);
                }
            }
            if m2 == c {
                assert(consecutive_block(d, n - 1 - c, n - 2) && n - 2 < n - 1 && (n - 2) - (n - 1 - c) + 1 == m2);
            }
        }
    }
}

/// With every date readable, the longest run is as long as every block of consecutive days in
/// the list (the last one included) and is the length of one of them.
pub proof fn lemma_longest_run(d: Seq<Option<int>>)
    requires
        d.len() >= 1,
        forall|i: int| 0 <= i < d.len() ==> (#[trigger] d[i]) is Some,
    ensures
        forall|a: int, b: int| #[trigger] consecutive_block(d, a, b) ==> b - a + 1 <= longest_run_spec(d),
        exists|a: int, b: int| #[trigger] consecutive_block(d, a, b) && b - a + 1 == longest_run_spec(d),
{
    let n = d.len() as int;
    lemma_runs_invariant(d, n);
    let (m, c) = runs_after(d, n);
    assert forall|a: int, b: int| #[trigger] consecutive_block(d, a, b) implies b - a + 1 <= longest_run_spec(d) by {
        if b >= n - c {
            lemma_block_within(d, a, b, n, c);
        }
    }
    if m > c {
        let (a, b) = choose|a: int, b: int| consecutive_block(d, a, b) && b < n - c && b - a + 1 == m;
        assert(consecutive_block(d, a, b));
    } else {
        assert(consecutive_block(d, n - c, n - 1));
    }
}

/// The most consecutive days worked among the active dates, in date order.
pub fn longest_consecutive_days(dates: &[String]) -> (r: i64)
    requires
        dates@.len() < i64::MAX,
    ensures
        r == longest_run_spec(day_numbers(dates@)),
{
    let ghost d = day_numbers(dates@);
    let mut max_run: i64 = 0;
    let mut current: i64 = 1;
    let mut prev: Option<i64> = if dates.len() > 0 {
        ymd_day_number(dates[0].as_str())
    } else {
        None
    };
    let mut i: usize = 1;
    proof {
        lemma_runs_bounds(d, 1);
    }
    while i < dates.len()
        invariant
            1 <= i,
            i <= dates@.len() || (dates@.len() == 0 && i == 1),
            dates@.len() < i64::MAX,
            d == day_numbers(dates@),
            (max_run as int, current as int) == runs_after(d, i as int),
            0 <= max_run <= i,
            1 <= current <= i,
            dates@.len() > 0 ==> match prev {
                Some(p) => d[i - 1] == Some(p as int),
                None => d[i - 1] is None,
            },
        decreases dates@.len() - i,
    {
        let cur = ymd_day_number(dates[i].as_str());
        if let (Some(p), Some(c)) = (prev, cur) {
            if (c as i128) - (p as i128) == 1 {
                current = current + 1;
            } else {
                if current > max_run {
                    max_run = current;
                }
                current = 1;
            }
        }
        prev = cur;
        i = i + 1;
    }
    if current > max_run {
        current
    } else {
        max_run
    }
}

/// `d / 3` rounded toward zero, as `i64` division does.
pub open spec fn third(d: int) -> int {
    if d >= 0 {
        d / 3
    } else {
        -((-d) / 3)
    }
}

/// The burnout warnings, in order: late nights on more than a third of the days, more than
/// two weekend days, the decline warning when the trend gave one, and more than ten days in a
/// row; a word of encouragement when there is none.
pub open spec fn burnout_warnings_spec(late_nights: i64, days: i64, weekend_days: i64, decline: Option<Seq<char>>, max_consecutive: i64) -> Seq<Seq<char>> {
    let w = (if late_nights > third(days as int) {
        seq!["Late night coding on "@ + signed_decimal(late_nights as int) + " of "@ + signed_decimal(days as int) + " days. Try to wrap up by 10 PM."@]
    } else {
        Seq::empty()
    }) + (if weekend_days > 2 {
        seq!["Worked "@ + signed_decimal(weekend_days as int) + " weekend days in the period. Consider taking weekends off."@]
    } else {
        Seq::empty()
    }) + (match decline {
        Some(t) => seq![t],
        None => Seq::empty(),
    }) + (if max_consecutive > 10 {
        seq![signed_decimal(max_consecutive as int) + " consecutive work days without a break. Rest is important!"@]
    } else {
        Seq::empty()
    });
    if w.len() == 0 {
        seq!["Your work pattern looks healthy. Keep it up!"@]
    } else {
        w
    }
}

/// The burnout check warns, in this order, of late nights on more than a third of the days,
/// of more than two weekend days, of declining activity (the warning given), and of more than
/// ten days in a row; only when none applies does it report a healthy pattern.
pub proof fn lemma_burnout_law(late_nights: i64, days: i64, weekend_days: i64, decline: Option<Seq<char>>, max_consecutive: i64)
    requires
        days >= 0,
    ensures
        ({
            let w = burnout_warnings_spec(late_nights, days, weekend_days, decline, max_consecutive);
            let late = 3 * late_nights > days;
            let weekend = weekend_days > 2;
            let streak = max_consecutive > 10;
            let k = (if late { 1int } else { 0 }) + (if weekend { 1int } else { 0 }) + (if decline is Some { 1int } else { 0 }) + (if streak { 1int } else { 0 });
            &&& w.len() == if k == 0 { 1 } else { k }
            &&& k == 0 ==> w[0] == "Your work pattern looks healthy. Keep it up!"@
            &&& late ==> w[0] == "Late night coding on "@ + signed_decimal(late_nights as int) + " of "@ + signed_decimal(days as int) + " days. Try to wrap up by 10 PM."@
            &&& weekend ==> w[if late { 1int } else { 0 }] == "Worked "@ + signed_decimal(weekend_days as int) + " weekend days in the period. Consider taking weekends off."@
            &&& (decline matches Some(t) ==> w[(if late { 1int } else { 0 }) + (if weekend { 1int } else { 0 })] == t)
            &&& streak ==> w[k - 1] == signed_decimal(max_consecutive as int) + " consecutive work days without a break. Rest is important!"@
        }),
{
    assert((late_nights > third(days as int)) == (3 * late_nights > days));
}

fn push_text(out: &mut Vec<String>, parts: Vec<char>)
    ensures
        final(out)@.len() == old(out)@.len() + 1,
        forall|i: int| 0 <= i < old(out)@.len() ==> final(out)@[i] == old(out)@[i],
        final(out)@[old(out)@.len() as int]@ == parts@,
{
    out.push(string_of(parts.as_slice()));
}


/// The burnout check's warnings; `decline` is the declining-activity warning the trend gave.
pub fn burnout_warnings(late_nights: i64, days: i64, weekend_days: i64, decline: Option<String>, max_consecutive: i64) -> (w: Vec<String>)
    ensures
        texts(w@) == burnout_warnings_spec(
            late_nights,
            days,
            weekend_days,
            opt_view(decline),
            max_consecutive,
        ),
{
    let mut out: Vec<String> = Vec::new();
    let ghost spec = burnout_warnings_spec(
        late_nights,
        days,
        weekend_days,
        opt_view(decline),
        max_consecutive,
    );
    let ghost mut acc: Seq<Seq<char>> = Seq::empty();
    if late_nights > days / 3 {
        let mut m: Vec<char> = Vec::new();
        push_str(&mut m, "Late night coding on ");
        push_signed_decimal(&mut m, late_nights);
        push_str(&mut m, " of ");
        push_signed_decimal(&mut m, days);
        push_str(&mut m, " days. Try to wrap up by 10 PM.");
        push_text(&mut out, m);
        proof {
            acc = acc.push(m@);
        }
    }
    assert(texts(out@) =~= acc);
    if weekend_days > 2 {
        let mut m: Vec<char> = Vec::new();
        push_str(&mut m, "Worked ");
        push_signed_decimal(&mut m, weekend_days);
        push_str(&mut m, " weekend days in the period. Consider taking weekends off.");
        push_text(&mut out, m);
        proof {
            acc = acc.push(m@);
        }
    }
    assert(texts(out@) =~= acc);
    match decline {
        Some(t) => {
            let ghost tv = t@;
            out.push(t);
            proof {
                acc = acc.push(tv);
            }
        },
        None => {},
    }
    assert(texts(out@) =~= acc);
    if max_consecutive > 10 {
        let mut m: Vec<char> = Vec::new();
        push_signed_decimal(&mut m, max_consecutive);
        push_str(&mut m, " consecutive work days without a break. Rest is important!");
        push_text(&mut out, m);
        proof {
            acc = acc.push(m@);
        }
    }
    assert(texts(out@) =~= acc);
    if out.len() == 0 {
        out.push("Your work pattern looks healthy. Keep it up!".to_string());
    }
    assert(texts(out@) =~= spec);
    out
}


/// Whether `a / d` exceeds `num / den` (`den > 0`) as the floating-point quotient does: a zero
/// `d` gives an infinite quotient for a positive `a` and none for zero.
pub open spec fn ratio_above(a: int, d: int, num: int, den: int) -> bool {
    if d > 0 {
        a * den > num * d
    } else if d < 0 {
        a * den < num * d
    } else {
        a > 0
    }
}

/// The weekly digest's tips: activity up or down by more than 20% from the week before
/// (`change`, the week-over-week change of tool uses in whole percent), short (under 5 tool
/// uses) or long (over 30) sessions on average, else a word of encouragement.
pub open spec fn digest_tips_spec(change: i64, week_tools: i64, week_sessions: i64) -> Seq<Seq<char>> {
    let a = if change > 20 {
        seq!["Your activity is up "@ + signed_decimal(change as int) + "% from last week. Great momentum!"@]
    } else if change < -20 {
        seq!["Activity dropped "@ + decimal((-change) as nat) + "% from last week. Consider setting daily coding goals."@]
    } else {
        Seq::empty()
    };
    let b = if week_sessions > 0 && week_tools < 5 * week_sessions {
        seq!["Your sessions are short. Try blocking longer focus periods."@]
    } else if week_sessions > 0 && week_tools > 30 * week_sessions {
        seq!["Long intense sessions detected. Remember to take breaks every 90 minutes."@]
    } else {
        Seq::empty()
    };
    if (a + b).len() == 0 {
        seq!["Keep up the consistent work! Steady progress is key."@]
    } else {
        a + b
    }
}

/// The digest's tips: activity up more than 20% is praised and down more than 20% flagged,
/// then sessions averaging under 5 tool uses are called short and over 30 intense; with
/// neither, the one tip is encouragement.
pub proof fn lemma_digest_law(change: i64, week_tools: i64, week_sessions: i64)
    ensures
        ({
            let w = digest_tips_spec(change, week_tools, week_sessions);
            let moved = change > 20 || change < -20;
            let short = week_sessions > 0 && week_tools < 5 * week_sessions;
            let long = week_sessions > 0 && week_tools > 30 * week_sessions;
            let k = (if moved { 1int } else { 0 }) + (if short || long { 1int } else { 0 });
            &&& w.len() == if k == 0 { 1 } else { k }
            &&& k == 0 ==> w[0] == "Keep up the consistent work! Steady progress is key."@
            &&& change > 20 ==> w[0] == "Your activity is up "@ + signed_decimal(change as int) + "% from last week. Great momentum!"@
            &&& change < -20 ==> w[0] == "Activity dropped "@ + decimal((-change) as nat) + "% from last week. Consider setting daily coding goals."@
            &&& short ==> w[k - 1] == "Your sessions are short. Try blocking longer focus periods."@
            &&& long ==> w[k - 1] == "Long intense sessions detected. Remember to take breaks every 90 minutes."@
            &&& !(short && long)
        }),
{
}

/// The tips of the weekly digest from the week-over-week change of tool uses (in whole
/// percent, as the caller rounds it) and this week's tool uses and sessions.
pub fn digest_tips(change: i64, week_tools: i64, week_sessions: i64) -> (tips: Vec<String>)
    requires
        change > i64::MIN,
    ensures
        texts(tips@) == digest_tips_spec(change, week_tools, week_sessions),
{
    let mut out: Vec<String> = Vec::new();
    let ghost mut acc: Seq<Seq<char>> = Seq::empty();
    if change > 20 {
        let mut m: Vec<char> = Vec::new();
        push_str(&mut m, "Your activity is up ");
        push_signed_decimal_wide(&mut m, change as i128);
        push_str(&mut m, "% from last week. Great momentum!");
        push_text(&mut out, m);
        proof {
            acc = acc.push(m@);
        }
    } else if change < -20 {
        let mut m: Vec<char> = Vec::new();
        push_str(&mut m, "Activity dropped ");
        push_decimal_wide(&mut m, (-change) as u128);
        push_str(&mut m, "% from last week. Consider setting daily coding goals.");
        push_text(&mut out, m);
        proof {
            acc = acc.push(m@);
        }
    }
    assert(texts(out@) =~= acc);
    if week_sessions > 0 && (week_tools as i128) < 5 * (week_sessions as i128) {
        out.push("Your sessions are short. Try blocking longer focus periods.".to_string());
        proof {
            acc = acc.push("Your sessions are short. Try blocking longer focus periods."@);
        }
    } else if week_sessions > 0 && (week_tools as i128) > 30 * (week_sessions as i128) {
        out.push("Long intense sessions detected. Remember to take breaks every 90 minutes.".to_string());
        proof {
            acc = acc.push("Long intense sessions detected. Remember to take breaks every 90 minutes."@);
        }
    }
    assert(texts(out@) =~= acc);
    if out.len() == 0 {
        out.push("Keep up the consistent work! Steady progress is key.".to_string());
    }
    assert(texts(out@) =~= digest_tips_spec(change, week_tools, week_sessions));
    out
}


/// The retrospective's talking points, (what went well, what to improve): activity on more
/// than 70% of the days, or else a nudge when there was any; the achievements earned; sessions
/// averaging over 15 tool uses; a word of encouragement when nothing went well.
pub open spec fn retro_points_spec(active_days: i64, days: i64, achievements: Seq<Seq<char>>, total_tools: i64, total_sessions: i64) -> (Seq<Seq<char>>, Seq<Seq<char>>) {
    let consistent = ratio_above(active_days as int, days as int, 7, 10);
    let steady = if consistent {
        seq!["Consistent activity: coded on "@ + signed_decimal(active_days as int) + " of "@ + signed_decimal(days as int) + " days"@]
    } else {
        Seq::empty()
    };
    let improve = if !consistent && active_days > 0 {
        seq!["Only active "@ + signed_decimal(active_days as int) + " of "@ + signed_decimal(days as int) + " days. Try to code more consistently."@]
    } else {
        Seq::empty()
    };
    let earned = if achievements.len() > 0 {
        seq!["Earned "@ + decimal(achievements.len()) + " new achievement(s): "@ + join(achievements, ", "@)]
    } else {
        Seq::empty()
    };
    let focus = if total_sessions > 0 && total_tools > 15 * total_sessions {
        seq!["Deep focus sessions averaging "@ + decimal(round_half_even(total_tools as int, total_sessions as int) as nat) + " tool uses each"@]
    } else {
        Seq::empty()
    };
    let well = steady + earned + focus;
    (if well.len() == 0 {
        seq!["Keep building momentum. Every session counts."@]
    } else {
        well
    }, improve)
}

/// The talking points of a sprint retrospective.
pub fn retro_points(active_days: i64, days: i64, achievements: &[String], total_tools: i64, total_sessions: i64) -> (r: (Vec<String>, Vec<String>))
    ensures
        (texts(r.0@), texts(r.1@)) == retro_points_spec(active_days, days, texts(achievements@), total_tools, total_sessions),
{
    let ghost spec = retro_points_spec(active_days, days, texts(achievements@), total_tools, total_sessions);
    let a = active_days as i128;
    let d = days as i128;
    let consistent = if d > 0 {
        a * 10 > 7 * d
    } else if d < 0 {
        a * 10 < 7 * d
    } else {
        a > 0
    };
    let mut well: Vec<String> = Vec::new();
    let mut improve: Vec<String> = Vec::new();
    let ghost mut acc: Seq<Seq<char>> = Seq::empty();
    if consistent {
        let mut m: Vec<char> = Vec::new();
        push_str(&mut m, "Consistent activity: coded on ");
        push_signed_decimal(&mut m, active_days);
        push_str(&mut m, " of ");
        push_signed_decimal(&mut m, days);
        push_str(&mut m, " days");
        push_text(&mut well, m);
        proof {
            acc = acc.push(m@);
        }
    } else if active_days > 0 {
        let mut m: Vec<char> = Vec::new();
        push_str(&mut m, "Only active ");
        push_signed_decimal(&mut m, active_days);
        push_str(&mut m, " of ");
        push_signed_decimal(&mut m, days);
        push_str(&mut m, " days. Try to code more consistently.");
        push_text(&mut improve, m);
        assert(texts(improve@) =~= spec.1);
    }
    assert(texts(improve@) =~= spec.1);
    assert(texts(well@) =~= acc);
    if achievements.len() > 0 {
        let mut m: Vec<char> = Vec::new();
        push_str(&mut m, "Earned ");
        push_decimal(&mut m, achievements.len() as u64);
        push_str(&mut m, " new achievement(s): ");
        push_joined(&mut m, achievements, ", ");
        push_text(&mut well, m);
        proof {
            acc = acc.push(m@);
        }
    }
    assert(texts(well@) =~= acc);
    if total_sessions > 0 && (total_tools as i128) > 15 * (total_sessions as i128) {
        let avg = div_round_even(total_tools as i128, total_sessions as i128);
        let mut m: Vec<char> = Vec::new();
        push_str(&mut m, "Deep focus sessions averaging ");
        push_decimal_wide(&mut m, avg as u128);
        push_str(&mut m, " tool uses each");
        push_text(&mut well, m);
        proof {
            acc = acc.push(m@);
        }
    }
    assert(texts(well@) =~= acc);
    if well.len() == 0 {
        well.push("Keep building momentum. Every session counts.".to_string());
    }
    assert(texts(well@) =~= spec.0);
    (well, improve)
}

/// The warning for activity that declined by more than 30%.
pub open spec fn decline_warning_spec(trend: int) -> Option<Seq<char>> {
    if trend < -30 {
        Some("Activity declining "@ + decimal((-trend) as nat) + "% \u{2014} this could indicate fatigue."@)
    } else {
        None
    }
}

/// The declining-activity warning of the burnout check, from the activity trend.
pub fn decline_warning(trend: i128) -> (r: Option<String>)
    requires
        trend > i128::MIN,
    ensures
        opt_view(r) == decline_warning_spec(trend as int),
{
    if trend < -30 {
        let mut m: Vec<char> = Vec::new();
        push_str(&mut m, "Activity declining ");
        push_decimal_wide(&mut m, (-trend) as u128);
        push_str(&mut m, "% \u{2014} this could indicate fatigue.");
        Some(string_of(m.as_slice()))
    } else {
        None
    }
}

} // verus!
