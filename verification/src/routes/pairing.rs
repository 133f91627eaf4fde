//! Phone pairing tokens.
//!
//! The dashboard mints a short-lived token that a phone redeems once for a
//! credential. Only the SHA-256 of a token is stored, each token is usable
//! exactly once, and it dies `PAIRING_TTL_SECS` after it is minted.
use vstd::prelude::*;
use vstd::utf8::encode_utf8;
use crate::digest::{hex_encode, hex_lower, is_lower_hex_char, sha256, sha256_spec, uuid_simple};
use crate::ratelimit::LoginRateLimiter;
use crate::text::{chars_eq, chars_of, push_str, string_of, trim, trim_chars};
use crate::routes::account::local_admin_id;

verus! {

broadcast use vstd::string::group_string_axioms;

/// Seconds a pairing token stays redeemable.
pub const PAIRING_TTL_SECS: i64 = 120;

/// Redemption is public, so it has its own per-address limiter.
pub struct PairingRateLimiter(pub LoginRateLimiter);

impl PairingRateLimiter {
    pub fn new(max_attempts: u32, window_secs: u64) -> (r: Self)
        ensures
            r.0.wf(),
            r.0.attempts() == Map::<Seq<char>, (u32, u64)>::empty(),
            r.0.max_attempts_spec() == max_attempts,
            r.0.window_secs_spec() == window_secs,
    {
        PairingRateLimiter(LoginRateLimiter::new(max_attempts, window_secs))
    }
}

/// A freshly minted token as shown to the dashboard.
pub struct PairingToken {
    pub token: String,
    pub expires_at: String,
    pub expires_in_secs: i64,
}

/// A phone's redemption request.
pub struct RedeemRequest {
    pub token: String,
}

/// Why a token could not be redeemed.
#[derive(Debug, PartialEq, Eq, Structural)]
pub enum RedeemError {
    /// No token by that name was ever minted (or it was cleaned up).
    Unknown,
    /// Minted, but past its expiry.
    Expired,
    /// Minted and still fresh, but already redeemed.
    AlreadyUsed,
    /// The store refused the write.
    Storage,
}

/// One stored token: the hash of the token, its user, its expiry (unix seconds), and
/// whether it was redeemed.
pub struct PairingRecord {
    token_hash: Vec<char>,
    user_id: Option<String>,
    expires_at: i64,
    used: bool,
}

/// A record as the specification sees it.
pub type RecordView = (Seq<char>, Option<Seq<char>>, i64, bool);

/// The stored pairing tokens.
pub struct PairingStore {
    records: Vec<PairingRecord>,
}

pub open spec fn opt_view(o: Option<String>) -> Option<Seq<char>> {
    match o {
        Some(s) => Some(s@),
        None => None,
    }
}

pub closed spec fn record_view(r: PairingRecord) -> RecordView {
    (r.token_hash@, opt_view(r.user_id), r.expires_at, r.used)
}

/// The stored form of a token: hex SHA-256 of its UTF-8 bytes.
pub open spec fn hash_token_spec(token: Seq<char>) -> Seq<char> {
    hex_lower(sha256_spec(encode_utf8(token)))
}

/// Index of the first record with hash `h`, or -1.
pub open spec fn index_of_hash(s: Seq<RecordView>, h: Seq<char>) -> int
    decreases s.len(),
{
    if s.len() == 0 {
        -1
    } else if s[0].0 == h {
        0
    } else {
        let r = index_of_hash(s.drop_first(), h);
        if r < 0 {
            -1
        } else {
            r + 1
        }
    }
}

proof fn lemma_index_of_hash(s: Seq<RecordView>, h: Seq<char>, i: int)
    requires
        0 <= i <= s.len(),
        forall|j: int| 0 <= j < i ==> s[j].0 != h,
    ensures
        i < s.len() && s[i].0 == h ==> index_of_hash(s, h) == i,
        i == s.len() ==> index_of_hash(s, h) == -1,
    decreases i,
{
    if i > 0 {
        lemma_index_of_hash(s.drop_first(), h, i - 1);
    }
}

/// The tokens kept by the opportunistic cleanup: those that expired no more than an hour ago.
pub open spec fn keep_recent(s: Seq<RecordView>, now: i64) -> Seq<RecordView>
    decreases s.len(),
{
    if s.len() == 0 {
        s
    } else {
        let r = keep_recent(s.drop_last(), now);
        if s.last().2 < now - 3600 {
            r
        } else {
            r.push(s.last())
        }
    }
}

/// Redeeming the token with hash `h` at `now`: the outcome and the records afterwards.
pub open spec fn redeem_spec(s: Seq<RecordView>, h: Seq<char>, now: i64) -> (Result<Option<Seq<char>>, RedeemError>, Seq<RecordView>) {
    let i = index_of_hash(s, h);
    if i < 0 {
        (Err(RedeemError::Unknown), s)
    } else if s[i].2 <= now {
        (Err(RedeemError::Expired), s)
    } else if s[i].3 {
        (Err(RedeemError::AlreadyUsed), s)
    } else {
        (Ok(s[i].1), s.update(i, (s[i].0, s[i].1, s[i].2, true)))
    }
}

pub open spec fn redeem_result_view(r: Result<Option<String>, RedeemError>) -> Result<Option<Seq<char>>, RedeemError> {
    match r {
        Ok(u) => Ok(opt_view(u)),
        Err(e) => Err(e),
    }
}

/// A token: `hbp_` followed by 64 lowercase hexadecimal digits.
pub open spec fn well_formed_token(t: Seq<char>) -> bool {
    &&& t.len() == 68
    &&& t.take(4) == "hbp_"@
    &&& forall|i: int| 4 <= i < 68 ==> is_lower_hex_char(#[trigger] t[i])
}

/// Two random v4 UUIDs in simple form behind the `hbp_` prefix.
pub fn generate_token() -> (t: String)
    ensures
        well_formed_token(t@),
{
    let a = uuid_simple();
    let b = uuid_simple();
    let mut v: Vec<char> = Vec::new();
    push_str(&mut v, "hbp_");
    let ghost head = v@;
    push_str(&mut v, a.as_str());
    push_str(&mut v, b.as_str());
    proof {
        reveal_strlit("hbp_");
        assert(v@ =~= "hbp_"@ + a@ + b@);
        assert forall|i: int| 4 <= i < 68 implies is_lower_hex_char(#[trigger] v@[i]) by {
            if i < 36 {
                assert(v@[i] == a@[i - 4]);
            } else {
                assert(v@[i] == b@[i - 36]);
            }
        }
        assert(v@.take(4) =~= "hbp_"@);
    }
    string_of(v.as_slice())
}

/// Hex SHA-256 of the token.
pub fn hash_token(token: &str) -> (h: String)
    ensures
        h@ == hash_token_spec(token@),
{
    let d = sha256(token.as_bytes());
    hex_encode(d.as_slice())
}

impl PairingStore {
    pub closed spec fn view(&self) -> Seq<RecordView> {
        self.records@.map_values(|r: PairingRecord| record_view(r))
    }

    pub fn new() -> (s: Self)
        ensures
            s.view() == Seq::<RecordView>::empty(),
    {
        let s = PairingStore { records: Vec::new() };
        assert(s.view() =~= Seq::<RecordView>::empty());
        s
    }

    /// A store holding the given rows (token hash, user, expiry, redeemed), in order.
    pub fn from_records(rows: Vec<(String, Option<String>, i64, bool)>) -> (s: Self)
        ensures
            s.view().len() == rows@.len(),
            forall|i: int|
                0 <= i < rows@.len() ==> #[trigger] s.view()[i] == (
                    rows@[i].0@,
                    opt_view(rows@[i].1),
                    rows@[i].2,
                    rows@[i].3,
                ),
    {
        let mut records: Vec<PairingRecord> = Vec::new();
        let mut rest = rows;
        let ghost orig = rest@;
        let total = rest.len();
        let mut taken: usize = 0;
        while rest.len() > 0
            invariant
                taken + rest@.len() == orig.len(),
                orig.len() == total,
                records@.len() == taken,
                forall|j: int| 0 <= j < rest@.len() ==> #[trigger] rest@[j] == orig[taken + j],
                forall|j: int|
                    0 <= j < taken ==> #[trigger] record_view(records@[j]) == (
                        orig[j].0@,
                        opt_view(orig[j].1),
                        orig[j].2,
                        orig[j].3,
                    ),
            decreases rest@.len(),
        {
            let ghost before = rest@;
            let (h, u, e, used) = rest.remove(0);
            assert forall|j: int| 0 <= j < rest@.len() implies #[trigger] rest@[j] == orig[taken + 1 + j] by {
                assert(rest@[j] == before[j + 1]);
            }
            records.push(PairingRecord { token_hash: chars_of(h.as_str()), user_id: u, expires_at: e, used });
            taken = taken + 1;
        }
        PairingStore { records }
    }

    /// The stored hashes, in the order the tokens were minted.
    pub fn token_hashes(&self) -> (hs: Vec<String>)
        ensures
            hs@.len() == self.view().len(),
            forall|i: int| 0 <= i < hs@.len() ==> (#[trigger] hs@[i])@ == self.view()[i].0,
    {
        let mut hs: Vec<String> = Vec::new();
        let mut i: usize = 0;
        while i < self.records.len()
            invariant
                i <= self.records@.len(),
                hs@.len() == i,
                forall|j: int| 0 <= j < i ==> (#[trigger] hs@[j])@ == self.view()[j].0,
            decreases self.records@.len() - i,
        {
            hs.push(string_of(self.records[i].token_hash.as_slice()));
            i = i + 1;
        }
        hs
    }

    fn find(&self, h: &[char]) -> (r: Option<usize>)
        ensures
            match r {
                Some(i) => index_of_hash(self.view(), h@) == i && i < self.records@.len(),
                None => index_of_hash(self.view(), h@) == -1,
            },
    {
        let mut i: usize = 0;
        while i < self.records.len()
            invariant
                i <= self.records@.len(),
                forall|j: int| 0 <= j < i ==> self.view()[j].0 != h@,
            decreases self.records@.len() - i,
        {
            if chars_eq(self.records[i].token_hash.as_slice(), h) {
                proof {
                    lemma_index_of_hash(self.view(), h@, i as int);
                }
                return Some(i);
            }
            i = i + 1;
        }
        proof {
            lemma_index_of_hash(self.view(), h@, i as int);
        }
        None
    }

    fn remove_stale(&mut self, now: i64)
        ensures
            final(self).view() == keep_recent(old(self).view(), now),
    {
        let mut rest: Vec<PairingRecord> = Vec::new();
        std::mem::swap(&mut rest, &mut self.records);
        let ghost ov = rest@.map_values(|r: PairingRecord| record_view(r));
        let mut kept: Vec<PairingRecord> = Vec::new();
        let mut taken: usize = 0;
        let total = rest.len();
        while rest.len() > 0
            invariant
                taken + rest@.len() == ov.len(),
                ov.len() == total,
                forall|j: int| 0 <= j < rest@.len() ==> record_view(#[trigger] rest@[j]) == ov[taken + j],
                kept@.map_values(|r: PairingRecord| record_view(r)) == keep_recent(ov.take(taken as int), now),
            decreases rest@.len(),
        {
            let ghost before_rest = rest@;
            let r = rest.remove(0);
            proof {
                assert(record_view(r) == ov[taken as int]);
                assert(ov.take(taken + 1).drop_last() =~= ov.take(taken as int));
                assert forall|j: int| 0 <= j < rest@.len() implies record_view(#[trigger] rest@[j]) == ov[taken + 1 + j] by {
                    assert(rest@[j] == before_rest[j + 1]);
                }
            }
            if (r.expires_at as i128) < (now as i128) - 3600 {
            } else {
                let ghost before = kept@;
                kept.push(r);
                assert(kept@.map_values(|r: PairingRecord| record_view(r)) =~= before.map_values(|r: PairingRecord| record_view(r)).push(record_view(r)));
            }
            taken = taken + 1;
        }
        assert(ov.take(ov.len() as int) =~= ov);
        self.records = kept;
    }

    /// Stores the token `token` for `user_id`, unredeemed, expiring at `expires_at`; refused
    /// with `Storage` (and nothing changed) when a token with the same hash is stored already.
    pub fn insert_token(&mut self, token: &str, user_id: Option<&str>, expires_at: i64) -> (res: Result<(), RedeemError>)
        ensures
            res is Err <==> index_of_hash(old(self).view(), hash_token_spec(token@)) >= 0,
            res is Err ==> res == Err::<(), RedeemError>(RedeemError::Storage) && final(self).view() == old(
                self,
            ).view(),
            res is Ok ==> final(self).view() == old(self).view().push(
                (
                    hash_token_spec(token@),
                    match user_id {
                        Some(u) => Some(u@),
                        None => None,
                    },
                    expires_at,
                    false,
                ),
            ),
    {
        let h = hash_token(token);
        let hc = chars_of(h.as_str());
        if self.find(hc.as_slice()).is_some() {
            return Err(RedeemError::Storage);
        }
        let user: Option<String> = match user_id {
            Some(u) => Some(u.to_string()),
            None => None,
        };
        let ghost before = self.records@;
        self.records.push(PairingRecord { token_hash: hc, user_id: user, expires_at, used: false });
        assert(self.view() =~= before.map_values(|r: PairingRecord| record_view(r)).push(
            (
                hash_token_spec(token@),
                match user_id {
                    Some(u) => Some(u@),
                    None => None,
                },
                expires_at,
                false,
            ),
        ));
        Ok(())
    }

    /// Mints a token for `user_id` (`None` in single-user mode) that expires `ttl_secs`
    /// after `now`; expired tokens older than an hour are dropped first. Returns the
    /// plaintext token, which is never stored, and its expiry. It fails only when the fresh
    /// random token collides with a stored one.
    pub fn create_token(&mut self, user_id: Option<&str>, ttl_secs: i64, now: i64) -> (res: Result<(String, i64), RedeemError>)
        requires
            i64::MIN <= now + ttl_secs <= i64::MAX,
        ensures
            match res {
                Ok((t, e)) => {
                    &&& well_formed_token(t@)
                    &&& e == now + ttl_secs
                    &&& index_of_hash(keep_recent(old(self).view(), now), hash_token_spec(t@)) == -1
                    &&& final(self).view() == keep_recent(old(self).view(), now).push(
                        (
                            hash_token_spec(t@),
                            match user_id {
                                Some(u) => Some(u@),
                                None => None,
                            },
                            e,
                            false,
                        ),
                    )
                },
                Err(e) => {
                    &&& e == RedeemError::Storage
                    &&& final(self).view() == keep_recent(old(self).view(), now)
                    &&& exists|t: Seq<char>|
                        well_formed_token(t) && index_of_hash(keep_recent(old(self).view(), now), hash_token_spec(t))
                            >= 0
                },
            },
    {
        self.remove_stale(now);
        let token = generate_token();
        let expires_at = now + ttl_secs;
        match self.insert_token(token.as_str(), user_id, expires_at) {
            Ok(()) => Ok((token, expires_at)),
            Err(e) => {
                assert(well_formed_token(token@));
                Err(e)
            },
        }
    }

    /// Redeems `token` at `now`, burning it; returns the user it was minted for.
    pub fn consume_token(&mut self, token: &str, now: i64) -> (res: Result<Option<String>, RedeemError>)
        ensures
            redeem_result_view(res) == redeem_spec(old(self).view(), hash_token_spec(token@), now).0,
            final(self).view() == redeem_spec(old(self).view(), hash_token_spec(token@), now).1,
    {
        let h = hash_token(token);
        let hc = chars_of(h.as_str());
        let i = match self.find(hc.as_slice()) {
            Some(i) => i,
            None => return Err(RedeemError::Unknown),
        };
        if self.records[i].expires_at <= now {
            return Err(RedeemError::Expired);
        }
        if self.records[i].used {
            return Err(RedeemError::AlreadyUsed);
        }
        let user = self.records[i].user_id.clone();
        let ghost before = self.records@;
        self.records[i].used = true;
        proof {
            assert(self.view() =~= before.map_values(|r: PairingRecord| record_view(r)).update(
                i as int,
                (before[i as int].token_hash@, opt_view(before[i as int].user_id), before[i as int].expires_at, true),
            ));
        }
        Ok(user)
    }
}

/// How a phone's redemption request is answered.
pub enum RedeemAnswer {
    /// 429 with the seconds until the address may try again; the token is not looked at.
    RateLimited(u64),
    /// The token is refused (see `refusal_status`).
    Refused(RedeemError),
    /// The token was burned: a personal `hb_` token is issued to `owner`, reported in mode
    /// `workos` when the token was minted for a user and `legacy` in single-user mode.
    Issue { owner: String, multi_user: bool },
}

impl PairingStore {
    /// Answers a phone's redemption request: refused with the retry time when the address
    /// is over its limit (nothing changes); otherwise the trimmed token is redeemed, and a
    /// burned token leads to a credential for its user, or for the local admin when it was
    /// minted in single-user mode.
    pub fn redeem_pairing(&mut self, rate: Result<(), u64>, token: &str, now: i64) -> (answer: RedeemAnswer)
        ensures
            match rate {
                Err(wait) => answer == RedeemAnswer::RateLimited(wait) && final(self).view() == old(self).view(),
                Ok(()) => {
                    let (res, after) = redeem_spec(old(self).view(), hash_token_spec(trim(token@)), now);
                    &&& final(self).view() == after
                    &&& match res {
                        Err(e) => answer == RedeemAnswer::Refused(e),
                        Ok(u) => answer matches RedeemAnswer::Issue { owner, multi_user } && multi_user == u is Some
                            && owner@ == match u {
                            Some(x) => x,
                            None => local_admin_id(),
                        },
                    }
                },
            },
    {
        if let Err(wait) = rate {
            return RedeemAnswer::RateLimited(wait);
        }
        let trimmed = string_of(trim_chars(chars_of(token).as_slice()).as_slice());
        match self.consume_token(trimmed.as_str(), now) {
            Err(e) => RedeemAnswer::Refused(e),
            Ok(Some(uid)) => RedeemAnswer::Issue { owner: uid, multi_user: true },
            Ok(None) => {
                proof {
                    reveal_strlit("local-admin");
                }
                RedeemAnswer::Issue { owner: "local-admin".to_string(), multi_user: false }
            },
        }
    }
}

/// The status and `reason` of a refused redemption: 410 `expired`, 409 `already_used`,
/// 404 `unknown`, and 500 without a reason when the store failed.
pub fn refusal_status(e: &RedeemError) -> (r: (u16, Option<&'static str>))
    ensures
        r.0 == match *e {
            RedeemError::Expired => 410u16,
            RedeemError::AlreadyUsed => 409u16,
            RedeemError::Unknown => 404u16,
            RedeemError::Storage => 500u16,
        },
        match *e {
            RedeemError::Expired => r.1 matches Some(s) && s@ == "expired"@,
            RedeemError::AlreadyUsed => r.1 matches Some(s) && s@ == "already_used"@,
            RedeemError::Unknown => r.1 matches Some(s) && s@ == "unknown"@,
            RedeemError::Storage => r.1 is None,
        },
{
    match e {
        RedeemError::Expired => (410, Some("expired")),
        RedeemError::AlreadyUsed => (409, Some("already_used")),
        RedeemError::Unknown => (404, Some("unknown")),
        RedeemError::Storage => (500, None),
    }
}

/// A token just minted redeems, before its expiry, for the user it was minted for.
pub proof fn lemma_fresh_token_redeems(s: Seq<RecordView>, h: Seq<char>, user: Option<Seq<char>>, expires_at: i64, now: i64)
    requires
        index_of_hash(s, h) == -1,
        now < expires_at,
    ensures
        redeem_spec(s.push((h, user, expires_at, false)), h, now).0 == Ok::<Option<Seq<char>>, RedeemError>(user),
{
    let t = s.push((h, user, expires_at, false));
    assert forall|j: int| 0 <= j < s.len() implies t[j].0 != h by {
        lemma_first_match(s, h, j);
        assert(t[j] == s[j]);
    }
    lemma_index_of_hash(t, h, s.len() as int);
}

proof fn lemma_first_match(s: Seq<RecordView>, h: Seq<char>, k: int)
    requires
        index_of_hash(s, h) == -1,
        0 <= k < s.len(),
    ensures
        s[k].0 != h,
    decreases s.len(),
{
    if s[0].0 != h && k > 0 {
        lemma_first_match(s.drop_first(), h, k - 1);
    }
}

/// A token redeems at most once: after a successful redemption, redeeming it again fails,
/// with `AlreadyUsed` while the token is still fresh and `Expired` after.
pub proof fn lemma_single_use(s: Seq<RecordView>, h: Seq<char>, now: i64, later: i64)
    requires
        redeem_spec(s, h, now).0 is Ok,
    ensures
        redeem_spec(redeem_spec(s, h, now).1, h, later).0 == Err::<Option<Seq<char>>, RedeemError>(
            if s[index_of_hash(s, h)].2 <= later {
                RedeemError::Expired
            } else {
                RedeemError::AlreadyUsed
            },
        ),
{
    let i = index_of_hash(s, h);
    let t = redeem_spec(s, h, now).1;
    lemma_index_bounds(s, h);
    assert forall|j: int| 0 <= j < i implies t[j].0 != h by {
        assert(t[j] == s[j]);
    }
    lemma_index_of_hash(t, h, i);
}

proof fn lemma_index_bounds(s: Seq<RecordView>, h: Seq<char>)
    ensures
        -1 <= index_of_hash(s, h) < s.len(),
        index_of_hash(s, h) >= 0 ==> s[index_of_hash(s, h)].0 == h,
        forall|j: int| 0 <= j < index_of_hash(s, h) ==> s[j].0 != h,
    decreases s.len(),
{
    if s.len() > 0 && s[0].0 != h {
        lemma_index_bounds(s.drop_first(), h);
        assert forall|j: int| 0 <= j < index_of_hash(s, h) implies s[j].0 != h by {
            if j > 0 {
                assert(s[j] == s.drop_first()[j - 1]);
            }
        }
    }
}


proof fn lemma_index_of_pushed(s: Seq<RecordView>, x: RecordView)
    ensures
        index_of_hash(s.push(x), x.0) >= 0,
    decreases s.len(),
{
    if s.len() > 0 && s[0].0 != x.0 {
        assert(s.push(x).drop_first() =~= s.drop_first().push(x));
        lemma_index_of_pushed(s.drop_first(), x);
    }
}

/// Two tokens minted one after the other differ, as long as the first had not been cleaned
/// up (expired more than an hour before) when the second was minted: the second mint's
/// hash is absent from the store that holds the first's.
pub proof fn lemma_two_mints_differ(
    kept: Seq<RecordView>,
    t1: Seq<char>,
    user: Option<Seq<char>>,
    e1: i64,
    t2: Seq<char>,
    now2: i64,
)
    requires
        index_of_hash(keep_recent(kept.push((hash_token_spec(t1), user, e1, false)), now2), hash_token_spec(t2))
            == -1,
        now2 - 3600 <= e1,
    ensures
        t1 != t2,
{
    let x = (hash_token_spec(t1), user, e1, false);
    let s = kept.push(x);
    assert(s.drop_last() =~= kept);
    assert(keep_recent(s, now2) == keep_recent(kept, now2).push(x));
    lemma_index_of_pushed(keep_recent(kept, now2), x);
}

} // verus!
