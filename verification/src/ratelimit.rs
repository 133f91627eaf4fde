//! Per-IP login attempt limiting over fixed windows.
use vstd::prelude::*;
use crate::text::{chars_eq, chars_of};

verus! {

/// Attempts recorded for one address: how many, and when the window opened.
pub struct RateEntry {
    ip: Vec<char>,
    count: u32,
    window_start: u64,
}

/// Counts login attempts per client address; an address may make at most
/// `max_attempts` attempts in a window of `window_secs` seconds.
pub struct LoginRateLimiter {
    entries: Vec<RateEntry>,
    max_attempts: u32,
    window_secs: u64,
}

/// The result of one attempt, given the address's recorded `(count, window_start)` (if any):
/// whether it is allowed (`Err` carries the seconds until the window resets), and what is
/// recorded afterwards.
pub open spec fn attempt_outcome(entry: Option<(u32, u64)>, now: u64, max_attempts: u32, window_secs: u64) -> (Result<(), u64>, (u32, u64)) {
    let e = match entry {
        Some(e) => e,
        None => (0u32, now),
    };
    let e2 = if now >= e.1 + window_secs {
        (0u32, now)
    } else {
        e
    };
    if e2.0 >= max_attempts {
        let until = e2.1 + window_secs - now;
        (Err((if until > 0 { until } else { 0 }) as u64), e2)
    } else {
        (Ok(()), ((e2.0 + 1) as u32, e2.1))
    }
}

/// How many of the attempts at `times` (in order) are allowed, starting from `entry`.
pub open spec fn allowed_count(entry: Option<(u32, u64)>, times: Seq<u64>, max_attempts: u32, window_secs: u64) -> nat
    decreases times.len(),
{
    if times.len() == 0 {
        0
    } else {
        let out = attempt_outcome(entry, times[0], max_attempts, window_secs);
        (if out.0 is Ok {
            1nat
        } else {
            0nat
        }) + allowed_count(Some(out.1), times.drop_first(), max_attempts, window_secs)
    }
}

pub open spec fn min_nat(a: nat, b: nat) -> nat {
    if a <= b {
        a
    } else {
        b
    }
}

proof fn lemma_allowed_in_open_window(c: u32, start: u64, times: Seq<u64>, max_attempts: u32, window_secs: u64)
    requires
        c <= max_attempts,
        forall|i: int| 0 <= i < times.len() ==> #[trigger] times[i] < start + window_secs,
    ensures
        allowed_count(Some((c, start)), times, max_attempts, window_secs) == min_nat(
            times.len(),
            (max_attempts - c) as nat,
        ),
    decreases times.len(),
{
    if times.len() > 0 {
        let rest = times.drop_first();
        assert forall|i: int| 0 <= i < rest.len() implies #[trigger] rest[i] < start + window_secs by {
            assert(rest[i] == times[i + 1]);
        }
        if c < max_attempts {
            lemma_allowed_in_open_window((c + 1) as u32, start, rest, max_attempts, window_secs);
        } else {
            lemma_allowed_in_open_window(c, start, rest, max_attempts, window_secs);
        }
    }
}

/// Within one window, an address with no recorded attempts is allowed exactly
/// `min(n, max_attempts)` of `n` attempts.
pub proof fn lemma_at_most_max_attempts_per_window(times: Seq<u64>, t0: u64, max_attempts: u32, window_secs: u64)
    requires
        forall|i: int| 0 <= i < times.len() ==> t0 <= #[trigger] times[i] < t0 + window_secs,
    ensures
        allowed_count(None, times, max_attempts, window_secs) == min_nat(
            times.len(),
            max_attempts as nat,
        ),
{
    if times.len() > 0 {
        let t = times[0];
        let rest = times.drop_first();
        assert forall|i: int| 0 <= i < rest.len() implies #[trigger] rest[i] < t + window_secs by {
            assert(rest[i] == times[i + 1]);
        }
        if 0 < max_attempts {
            lemma_allowed_in_open_window(1u32, t, rest, max_attempts, window_secs);
        } else {
            lemma_allowed_in_open_window(0u32, t, rest, max_attempts, window_secs);
        }
    }
}

/// The answers to attempts at `times` (in order), starting from `entry`.
pub open spec fn attempt_results(entry: Option<(u32, u64)>, times: Seq<u64>, max_attempts: u32, window_secs: u64) -> Seq<Result<(), u64>>
    decreases times.len(),
{
    if times.len() == 0 {
        Seq::empty()
    } else {
        let out = attempt_outcome(entry, times[0], max_attempts, window_secs);
        seq![out.0] + attempt_results(Some(out.1), times.drop_first(), max_attempts, window_secs)
    }
}

/// What is recorded after attempts at `times`, starting from `entry`.
pub open spec fn attempt_state(entry: Option<(u32, u64)>, times: Seq<u64>, max_attempts: u32, window_secs: u64) -> Option<(u32, u64)>
    decreases times.len(),
{
    if times.len() == 0 {
        entry
    } else {
        let out = attempt_outcome(entry, times[0], max_attempts, window_secs);
        attempt_state(Some(out.1), times.drop_first(), max_attempts, window_secs)
    }
}

proof fn lemma_results_in_open_window(c: u32, start: u64, times: Seq<u64>, max_attempts: u32, window_secs: u64)
    requires
        c <= max_attempts,
        forall|i: int| 0 <= i < times.len() ==> start <= #[trigger] times[i] < start + window_secs,
    ensures
        attempt_results(Some((c, start)), times, max_attempts, window_secs).len() == times.len(),
        forall|i: int|
            0 <= i < times.len() ==> #[trigger] attempt_results(Some((c, start)), times, max_attempts, window_secs)[i]
                == if c + i < max_attempts {
                Ok::<(), u64>(())
            } else {
                Err::<(), u64>((start + window_secs - times[i]) as u64)
            },
        attempt_state(Some((c, start)), times, max_attempts, window_secs) matches Some(e) && e.1 == start,
    decreases times.len(),
{
    if times.len() > 0 {
        let rest = times.drop_first();
        assert forall|i: int| 0 <= i < rest.len() implies start <= #[trigger] rest[i] < start + window_secs by {
            assert(rest[i] == times[i + 1]);
        }
        let c2: u32 = if c < max_attempts {
            (c + 1) as u32
        } else {
            c
        };
        lemma_results_in_open_window(c2, start, rest, max_attempts, window_secs);
        let r = attempt_results(Some((c, start)), times, max_attempts, window_secs);
        let rr = attempt_results(Some((c2, start)), rest, max_attempts, window_secs);
        assert forall|i: int| 0 <= i < times.len() implies #[trigger] r[i] == if c + i < max_attempts {
            Ok::<(), u64>(())
        } else {
            Err::<(), u64>((start + window_secs - times[i]) as u64)
        } by {
            if i > 0 {
                assert(r[i] == rr[i - 1]);
                assert(rest[i - 1] == times[i]);
            }
        }
    }
}

/// Attempts from one address, with none recorded before, all within `window_secs` of the
/// first: the first `max_attempts` are allowed, each later one is refused with the seconds
/// left until the window that the first opened resets; once that window has passed, the
/// next attempt is allowed again and opens a new window.
pub proof fn lemma_retry_after_law(times: Seq<u64>, max_attempts: u32, window_secs: u64, later: u64)
    requires
        times.len() > 0,
        window_secs > 0,
        forall|i: int| 0 <= i < times.len() ==> times[0] <= #[trigger] times[i] < times[0] + window_secs,
    ensures
        attempt_results(None, times, max_attempts, window_secs).len() == times.len(),
        forall|i: int|
            0 <= i < times.len() ==> #[trigger] attempt_results(None, times, max_attempts, window_secs)[i] == if i
                < max_attempts {
                Ok::<(), u64>(())
            } else {
                Err::<(), u64>((times[0] + window_secs - times[i]) as u64)
            },
        later >= times[0] + window_secs && max_attempts > 0 ==> attempt_outcome(
            attempt_state(None, times, max_attempts, window_secs),
            later,
            max_attempts,
            window_secs,
        ) == (Ok::<(), u64>(()), (1u32, later)),
{
    let t0 = times[0];
    let out = attempt_outcome(None, t0, max_attempts, window_secs);
    let rest = times.drop_first();
    assert forall|i: int| 0 <= i < rest.len() implies t0 <= #[trigger] rest[i] < t0 + window_secs by {
        assert(rest[i] == times[i + 1]);
    }
    let c1: u32 = if 0 < max_attempts {
        1u32
    } else {
        0u32
    };
    assert(out.1 == (c1, t0));
    lemma_results_in_open_window(c1, t0, rest, max_attempts, window_secs);
    let r = attempt_results(None, times, max_attempts, window_secs);
    let rr = attempt_results(Some((c1, t0)), rest, max_attempts, window_secs);
    assert forall|i: int| 0 <= i < times.len() implies #[trigger] r[i] == if i < max_attempts {
        Ok::<(), u64>(())
    } else {
        Err::<(), u64>((t0 + window_secs - times[i]) as u64)
    } by {
        if i > 0 {
            assert(r[i] == rr[i - 1]);
            assert(rest[i - 1] == times[i]);
        }
    }
}

/// The per-address record of a limiter, if any.
pub open spec fn entry_of(attempts: Map<Seq<char>, (u32, u64)>, ip: Seq<char>) -> Option<(u32, u64)> {
    if attempts.contains_key(ip) {
        Some(attempts[ip])
    } else {
        None
    }
}

/// One call `check_and_increment(ip, now)` that took the limiter from `before` to `after` and
/// answered `res`: what that function's `ensures` states.
pub open spec fn call_step(before: LoginRateLimiter, after: LoginRateLimiter, ip: Seq<char>, now: u64, res: Result<(), u64>) -> bool {
    let out = attempt_outcome(
        entry_of(before.attempts(), ip),
        now,
        before.max_attempts_spec(),
        before.window_secs_spec(),
    );
    &&& after.max_attempts_spec() == before.max_attempts_spec()
    &&& after.window_secs_spec() == before.window_secs_spec()
    &&& res == out.0
    &&& after.attempts() == before.attempts().insert(ip, out.1)
}

proof fn lemma_results_prefix(entry: Option<(u32, u64)>, times: Seq<u64>, max_attempts: u32, window_secs: u64, i: int)
    requires
        0 <= i < times.len(),
    ensures
        attempt_results(entry, times, max_attempts, window_secs).len() == times.len(),
        attempt_results(entry, times, max_attempts, window_secs)[i] == attempt_outcome(
            attempt_state(entry, times.take(i), max_attempts, window_secs),
            times[i],
            max_attempts,
            window_secs,
        ).0,
        attempt_state(entry, times.take(i + 1), max_attempts, window_secs) == Some(
            attempt_outcome(
                attempt_state(entry, times.take(i), max_attempts, window_secs),
                times[i],
                max_attempts,
                window_secs,
            ).1,
        ),
    decreases i,
{
    let out = attempt_outcome(entry, times[0], max_attempts, window_secs);
    let rest = times.drop_first();
    lemma_results_len(Some(out.1), rest, max_attempts, window_secs);
    if i == 0 {
        assert(times.take(1).drop_first() =~= Seq::<u64>::empty());
        assert(times.take(0) =~= Seq::<u64>::empty());
        assert(times.take(1)[0] == times[0]);
        assert(attempt_state(Some(out.1), Seq::<u64>::empty(), max_attempts, window_secs) == Some(out.1));
        assert(attempt_state(entry, times.take(1), max_attempts, window_secs) == attempt_state(
            Some(out.1),
            times.take(1).drop_first(),
            max_attempts,
            window_secs,
        ));
    } else {
        lemma_results_prefix(Some(out.1), rest, max_attempts, window_secs, i - 1);
        assert(times.take(i).drop_first() =~= rest.take(i - 1));
        assert(times.take(i + 1).drop_first() =~= rest.take(i));
        assert(times.take(i)[0] == times[0]);
        assert(times.take(i + 1)[0] == times[0]);
        assert(rest[i - 1] == times[i]);
    }
}

proof fn lemma_results_len(entry: Option<(u32, u64)>, times: Seq<u64>, max_attempts: u32, window_secs: u64)
    ensures
        attempt_results(entry, times, max_attempts, window_secs).len() == times.len(),
    decreases times.len(),
{
    if times.len() > 0 {
        let out = attempt_outcome(entry, times[0], max_attempts, window_secs);
        lemma_results_len(Some(out.1), times.drop_first(), max_attempts, window_secs);
    }
}

proof fn lemma_calls_follow_fold(
    states: Seq<LoginRateLimiter>,
    results: Seq<Result<(), u64>>,
    ip: Seq<char>,
    times: Seq<u64>,
    j: int,
)
    requires
        states.len() == times.len() + 1,
        results.len() == times.len(),
        0 <= j <= times.len(),
        forall|i: int| 0 <= i < times.len() ==> call_step(#[trigger] states[i], states[i + 1], ip, times[i], results[i]),
    ensures
        states[j].max_attempts_spec() == states[0].max_attempts_spec(),
        states[j].window_secs_spec() == states[0].window_secs_spec(),
        entry_of(states[j].attempts(), ip) == attempt_state(
            entry_of(states[0].attempts(), ip),
            times.take(j),
            states[0].max_attempts_spec(),
            states[0].window_secs_spec(),
        ),
        forall|k: Seq<char>| k != ip ==> #[trigger] entry_of(states[j].attempts(), k) == entry_of(states[0].attempts(), k),
        forall|i: int| 0 <= i < j ==> #[trigger] results[i] == attempt_results(
            entry_of(states[0].attempts(), ip),
            times,
            states[0].max_attempts_spec(),
            states[0].window_secs_spec(),
        )[i],
    decreases j,
{
    let e0 = entry_of(states[0].attempts(), ip);
    let m = states[0].max_attempts_spec();
    let w = states[0].window_secs_spec();
    if j == 0 {
        assert(times.take(0) =~= Seq::<u64>::empty());
    } else {
        lemma_calls_follow_fold(states, results, ip, times, j - 1);
        assert(call_step(states[j - 1], states[j], ip, times[j - 1], results[j - 1]));
        lemma_results_prefix(e0, times, m, w, j - 1);
        assert(entry_of(states[j].attempts(), ip) == Some(
            attempt_outcome(entry_of(states[j - 1].attempts(), ip), times[j - 1], m, w).1,
        ));
        assert forall|k: Seq<char>| k != ip implies #[trigger] entry_of(states[j].attempts(), k) == entry_of(
            states[0].attempts(),
            k,
        ) by {
            assert(entry_of(states[j].attempts(), k) == entry_of(states[j - 1].attempts(), k));
        }
    }
}

/// The rate limiter over a run of calls `check_and_increment(ip, times[i])`, the `i`-th taking
/// the limiter from `states[i]` to `states[i + 1]` and answering `results[i]`, from a limiter
/// with no record of `ip`, all within `window_secs` of the first call: the first
/// `max_attempts` calls are allowed and each later one is refused with the seconds left
/// until the window that the first call opened resets; a call once that window has passed
/// is allowed and opens a new window; the records of other addresses are untouched.
pub proof fn lemma_calls_within_window(
    states: Seq<LoginRateLimiter>,
    results: Seq<Result<(), u64>>,
    ip: Seq<char>,
    times: Seq<u64>,
    later: u64,
)
    requires
        times.len() > 0,
        states.len() == times.len() + 1,
        results.len() == times.len(),
        !states[0].attempts().contains_key(ip),
        states[0].window_secs_spec() > 0,
        forall|i: int| 0 <= i < times.len() ==> call_step(#[trigger] states[i], states[i + 1], ip, times[i], results[i]),
        forall|i: int| 0 <= i < times.len() ==> times[0] <= #[trigger] times[i] < times[0] + states[0].window_secs_spec(),
    ensures
        forall|i: int| 0 <= i < times.len() ==> #[trigger] results[i] == if i < states[0].max_attempts_spec() {
            Ok::<(), u64>(())
        } else {
            Err::<(), u64>((times[0] + states[0].window_secs_spec() - times[i]) as u64)
        },
        forall|k: Seq<char>|
            k != ip ==> #[trigger] entry_of(states[times.len() as int].attempts(), k) == entry_of(states[0].attempts(), k),
        later >= times[0] + states[0].window_secs_spec() && states[0].max_attempts_spec() > 0 ==> attempt_outcome(
            entry_of(states[times.len() as int].attempts(), ip),
            later,
            states[times.len() as int].max_attempts_spec(),
            states[times.len() as int].window_secs_spec(),
        ) == (Ok::<(), u64>(()), (1u32, later)),
{
    let n = times.len() as int;
    let m = states[0].max_attempts_spec();
    let w = states[0].window_secs_spec();
    lemma_calls_follow_fold(states, results, ip, times, n);
    assert(entry_of(states[0].attempts(), ip) is None);
    assert(times.take(n) =~= times);
    lemma_retry_after_law(times, m, w, later);
}

impl LoginRateLimiter {
    pub closed spec fn max_attempts_spec(&self) -> u32 {
        self.max_attempts
    }

    pub closed spec fn window_secs_spec(&self) -> u64 {
        self.window_secs
    }

    /// What is recorded for each address: `(attempts, window_start)`.
    pub closed spec fn attempts(&self) -> Map<Seq<char>, (u32, u64)> {
        Map::new(
            |k: Seq<char>| exists|i: int| 0 <= i < self.entries@.len() && self.entries@[i].ip@ == k,
            |k: Seq<char>|
                {
                    let i = choose|i: int| 0 <= i < self.entries@.len() && self.entries@[i].ip@ == k;
                    (self.entries@[i].count, self.entries@[i].window_start)
                },
        )
    }

    /// Each address is recorded once; no count exceeds the limit; no window end overflows.
    pub closed spec fn wf(&self) -> bool {
        &&& forall|i: int, j: int|
            0 <= i < j < self.entries@.len() ==> self.entries@[i].ip@ != self.entries@[j].ip@
        &&& forall|i: int|
            0 <= i < self.entries@.len() ==> #[trigger] self.entries@[i].count <= self.max_attempts
        &&& forall|i: int|
            0 <= i < self.entries@.len() ==> #[trigger] self.entries@[i].window_start
                + self.window_secs <= u64::MAX
    }

    proof fn lemma_attempts_at(&self, i: int)
        requires
            self.wf(),
            0 <= i < self.entries@.len(),
        ensures
            self.attempts().contains_key(self.entries@[i].ip@),
            self.attempts()[self.entries@[i].ip@] == (
                self.entries@[i].count,
                self.entries@[i].window_start,
            ),
    {
        let k = self.entries@[i].ip@;
        assert(self.attempts().dom().contains(k));
        let j = choose|j: int| 0 <= j < self.entries@.len() && self.entries@[j].ip@ == k;
        assert(j == i);
    }

    pub fn new(max_attempts: u32, window_secs: u64) -> (r: Self)
        ensures
            r.wf(),
            r.attempts() == Map::<Seq<char>, (u32, u64)>::empty(),
            r.max_attempts_spec() == max_attempts,
            r.window_secs_spec() == window_secs,
    {
        let r = LoginRateLimiter { entries: Vec::new(), max_attempts, window_secs };
        assert(r.attempts() =~= Map::<Seq<char>, (u32, u64)>::empty());
        r
    }

    fn find(&self, ip: &[char]) -> (r: Option<usize>)
        requires
            self.wf(),
        ensures
            match r {
                Some(i) => i < self.entries@.len() && self.entries@[i as int].ip@ == ip@,
                None => !self.attempts().contains_key(ip@),
            },
    {
        let mut i: usize = 0;
        while i < self.entries.len()
            invariant
                i <= self.entries@.len(),
                forall|j: int| 0 <= j < i ==> self.entries@[j].ip@ != ip@,
            decreases self.entries@.len() - i,
        {
            if chars_eq(self.entries[i].ip.as_slice(), ip) {
                return Some(i);
            }
            i = i + 1;
        }
        None
    }

    /// Records an attempt from `ip` at time `now`: `Ok` when it is allowed,
    /// `Err(seconds until the window resets)` when the address is over its limit.
    pub fn check_and_increment(&mut self, ip: &str, now: u64) -> (res: Result<(), u64>)
        requires
            old(self).wf(),
            now + old(self).window_secs_spec() <= u64::MAX,
        ensures
            final(self).wf(),
            final(self).max_attempts_spec() == old(self).max_attempts_spec(),
            final(self).window_secs_spec() == old(self).window_secs_spec(),
            ({
                let entry = if old(self).attempts().contains_key(ip@) {
                    Some(old(self).attempts()[ip@])
                } else {
                    None
                };
                let out = attempt_outcome(
                    entry,
                    now,
                    old(self).max_attempts_spec(),
                    old(self).window_secs_spec(),
                );
                &&& res == out.0
                &&& final(self).attempts() == old(self).attempts().insert(ip@, out.1)
            }),
            call_step(*old(self), *final(self), ip@, now, res),
    {
        let key = chars_of(ip);
        let ghost old_self = *self;
        let idx = match self.find(key.as_slice()) {
            Some(i) => {
                proof {
                    self.lemma_attempts_at(i as int);
                }
                i
            },
            None => {
                let fresh = RateEntry { ip: chars_of(ip), count: 0, window_start: now };
                self.entries.push(fresh);
                proof {
                    assert forall|k: Seq<char>| #[trigger] old_self.attempts().contains_key(k) implies
                        self.attempts().contains_key(k) && self.attempts()[k] == old_self.attempts()[k] by {
                        let j = choose|j: int| 0 <= j < old_self.entries@.len() && old_self.entries@[j].ip@ == k;
                        assert(self.entries@[j] == old_self.entries@[j]);
                        self.lemma_attempts_at(j);
                        old_self.lemma_attempts_at(j);
                    }
                }
                self.entries.len() - 1
            },
        };
        let ghost mid = *self;
        let count = self.entries[idx].count;
        let start = self.entries[idx].window_start;
        let (c, st) = if now >= start + self.window_secs {
            (0u32, now)
        } else {
            (count, start)
        };
        let res = if c >= self.max_attempts {
            let end = st + self.window_secs;
            let until = if end > now {
                end - now
            } else {
                0
            };
            self.entries.set(idx, RateEntry { ip: key, count: c, window_start: st });
            Err(until)
        } else {
            self.entries.set(idx, RateEntry { ip: key, count: c + 1, window_start: st });
            Ok(())
        };
        proof {
            assert forall|i: int, j: int| 0 <= i < j < self.entries@.len() implies self.entries@[i].ip@
                != self.entries@[j].ip@ by {
                assert(mid.entries@[i].ip@ == self.entries@[i].ip@);
                assert(mid.entries@[j].ip@ == self.entries@[j].ip@);
            }
            assert(self.wf());
            let entry = if old_self.attempts().contains_key(ip@) {
                Some(old_self.attempts()[ip@])
            } else {
                None
            };
            let out = attempt_outcome(entry, now, self.max_attempts, self.window_secs);
            self.lemma_attempts_at(idx as int);
            assert forall|k: Seq<char>| k != ip@ implies (#[trigger] self.attempts().contains_key(k)
                == old_self.attempts().contains_key(k)) by {
                if self.attempts().contains_key(k) {
                    let j = choose|j: int| 0 <= j < self.entries@.len() && self.entries@[j].ip@ == k;
                    assert(j != idx);
                    if j < old_self.entries@.len() {
                        assert(old_self.entries@[j].ip@ == k);
                    }
                }
                if old_self.attempts().contains_key(k) {
                    let j = choose|j: int| 0 <= j < old_self.entries@.len() && old_self.entries@[j].ip@ == k;
                    assert(self.entries@[j].ip@ == k);
                }
            }
            assert forall|k: Seq<char>| k != ip@ && #[trigger] old_self.attempts().contains_key(k) implies
                self.attempts()[k] == old_self.attempts()[k] by {
                let j = choose|j: int| 0 <= j < old_self.entries@.len() && old_self.entries@[j].ip@ == k;
                old_self.lemma_attempts_at(j);
                assert(j != idx);
                assert(self.entries@[j] == old_self.entries@[j]);
                self.lemma_attempts_at(j);
            }
            assert(self.attempts() =~= old_self.attempts().insert(ip@, out.1));
        }
        res
    }

    /// Forgets the attempts of `ip` (after a successful login).
    pub fn clear(&mut self, ip: &str)
        requires
            old(self).wf(),
        ensures
            final(self).wf(),
            final(self).max_attempts_spec() == old(self).max_attempts_spec(),
            final(self).window_secs_spec() == old(self).window_secs_spec(),
            final(self).attempts() == old(self).attempts().remove(ip@),
    {
        let key = chars_of(ip);
        let ghost old_self = *self;
        match self.find(key.as_slice()) {
            None => {
                assert(self.attempts() =~= old_self.attempts().remove(ip@));
            },
            Some(idx) => {
                self.entries.remove(idx);
                proof {
                    assert forall|i: int, j: int| 0 <= i < j < self.entries@.len() implies self.entries@[i].ip@
                        != self.entries@[j].ip@ by {
                        let oi = if i < idx { i } else { i + 1 };
                        let oj = if j < idx { j } else { j + 1 };
                        assert(self.entries@[i] == old_self.entries@[oi]);
                        assert(self.entries@[j] == old_self.entries@[oj]);
                    }
                    assert forall|i: int| 0 <= i < self.entries@.len() implies #[trigger] self.entries@[i].count <= self.max_attempts
                        && self.entries@[i].window_start + self.window_secs <= u64::MAX by {
                        let oi = if i < idx { i } else { i + 1 };
                        assert(self.entries@[i] == old_self.entries@[oi]);
                    }
                    assert forall|k: Seq<char>| k != ip@ implies (#[trigger] self.attempts().contains_key(k)
                        == old_self.attempts().contains_key(k)) by {
                        if self.attempts().contains_key(k) {
                            let j = choose|j: int| 0 <= j < self.entries@.len() && self.entries@[j].ip@ == k;
                            let oj = if j < idx { j } else { j + 1 };
                            assert(self.entries@[j] == old_self.entries@[oj]);
                        }
                        if old_self.attempts().contains_key(k) {
                            let j = choose|j: int| 0 <= j < old_self.entries@.len() && old_self.entries@[j].ip@ == k;
                            assert(j != idx);
                            let nj = if j < idx { j } else { j - 1 };
                            assert(self.entries@[nj] == old_self.entries@[j]);
                        }
                    }
                    assert(!self.attempts().contains_key(ip@)) by {
                        if self.attempts().contains_key(ip@) {
                            let j = choose|j: int| 0 <= j < self.entries@.len() && self.entries@[j].ip@ == ip@;
                            let oj = if j < idx { j } else { j + 1 };
                            assert(self.entries@[j] == old_self.entries@[oj]);
                        }
                    }
                    assert forall|k: Seq<char>| k != ip@ && #[trigger] old_self.attempts().contains_key(k) implies
                        self.attempts()[k] == old_self.attempts()[k] by {
                        let j = choose|j: int| 0 <= j < old_self.entries@.len() && old_self.entries@[j].ip@ == k;
                        old_self.lemma_attempts_at(j);
                        let nj = if j < idx { j } else { j - 1 };
                        assert(self.entries@[nj] == old_self.entries@[j]);
                        self.lemma_attempts_at(nj);
                    }
                    assert(self.attempts() =~= old_self.attempts().remove(ip@));
                }
            },
        }
    }
}

} // verus!
