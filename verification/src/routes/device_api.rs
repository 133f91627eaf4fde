//! The API devices call themselves.
use vstd::prelude::*;
use vstd::utf8::encode_utf8;
use crate::digest::{hex_encode, hex_lower, sha256, sha256_spec, uuid_bytes};
use crate::text::{chars_of, string_of, trim, trim_chars};

verus! {

broadcast use vstd::string::group_string_axioms;

pub struct RegisterRequest {
    pub hostname: String,
    pub mac_address: Option<String>,
    pub firmware_version: Option<String>,
    pub device_type: Option<String>,
}

pub struct RegisterResponse {
    pub device_id: String,
    pub device_token: String,
    pub claim_code: String,
    pub claimed: bool,
}

pub struct CommandsQuery {
    pub wait: Option<u64>,
}

pub struct ClaimRequest {
    pub claim_code: String,
    pub name: Option<String>,
}


/// The characters of a claim code: no `O`, `0`, `I`, `1` or `L`, which read alike.
pub open spec fn claim_charset() -> Seq<char> {
    "ABCDEFGHJKMNPQRSTUVWXYZ23456789"@
}

/// The claim code drawn from sixteen random bytes and the clock (`seed`, in nanoseconds):
/// character `i` is `charset[(bytes[i] ^ (seed >> 4i)) mod 31]`.
pub open spec fn claim_code_spec(bytes: Seq<u8>, seed: u128) -> Seq<char> {
    Seq::new(6, |i: int| claim_charset()[(((bytes[i] as u64) ^ ((seed >> ((4 * i) as u128)) as u64)) % 31) as int])
}

/// The claim code for the given random bytes and clock reading.
pub fn claim_code_from(bytes: &[u8; 16], seed: u128) -> (code: String)
    ensures
        code@ == claim_code_spec(bytes@, seed),
{
    let charset = chars_of("ABCDEFGHJKMNPQRSTUVWXYZ23456789");
    proof {
        reveal_strlit("ABCDEFGHJKMNPQRSTUVWXYZ23456789");
    }
    let mut v: Vec<char> = Vec::new();
    let mut i: usize = 0;
    while i < 6
        invariant
            i <= 6,
            charset@ == claim_charset(),
            charset@.len() == 31,
            bytes@.len() == 16,
            v@.len() == i,
            forall|j: int| 0 <= j < i ==> v@[j] == #[trigger] claim_code_spec(bytes@, seed)[j],
        decreases 6 - i,
    {
        let shift: u128 = (4 * i) as u128;
        let mixed: u64 = (bytes[i] as u64) ^ ((seed >> shift) as u64);
        let idx = (mixed % 31) as usize;
        v.push(charset[idx]);
        i = i + 1;
    }
    assert(v@ =~= claim_code_spec(bytes@, seed));
    string_of(v.as_slice())
}

/// A fresh claim code; `now_nanos` is the clock reading that seeds it.
pub fn generate_claim_code(now_nanos: u128) -> (code: String)
    ensures
        code@.len() == 6,
        forall|i: int| 0 <= i < 6 ==> claim_charset().contains(#[trigger] code@[i]),
{
    let bytes = uuid_bytes();
    let code = claim_code_from(&bytes, now_nanos);
    proof {
        assert forall|i: int| 0 <= i < 6 implies claim_charset().contains(#[trigger] code@[i]) by {
            let k = (((bytes@[i] as u64) ^ ((now_nanos >> ((4 * i) as u128)) as u64)) % 31) as int;
            reveal_strlit("ABCDEFGHJKMNPQRSTUVWXYZ23456789");
            assert(claim_charset()[k] == code@[i]);
        }
    }
    code
}

/// A device token's stored form: hex SHA-256 of its UTF-8 bytes.
pub fn hash_token(token: &str) -> (h: String)
    ensures
        h@ == hex_lower(sha256_spec(encode_utf8(token@))),
{
    let d = sha256(token.as_bytes());
    hex_encode(d.as_slice())
}

/// Why a device token is refused.
pub enum DeviceAuthError {
    /// 401 "Missing X-Device-Token header" (absent or not visible ASCII).
    MissingToken,
    /// 401 "Invalid device token".
    InvalidToken,
}

/// The hash to look a presented device token up by; `Err` when no readable token was sent.
pub fn device_token_hash(token: Option<&str>) -> (r: Result<String, DeviceAuthError>)
    ensures
        match token {
            Some(t) => r matches Ok(h) && h@ == hex_lower(sha256_spec(encode_utf8(t@))),
            None => r matches Err(DeviceAuthError::MissingToken),
        },
{
    match token {
        Some(t) => Ok(hash_token(t)),
        None => Err(DeviceAuthError::MissingToken),
    }
}

/// What registration does for a hostname, given the cloud device already registered under it
/// (its id, and its claim code while unclaimed).
pub enum RegisterPlan {
    /// A claimed device reconnects: it gets a new token and no claim code.
    Reconnect { device_id: String },
    /// An unclaimed device gets a new token and keeps its claim code.
    Refresh { device_id: String, claim_code: String },
    /// A new device is created.
    Create,
}

/// The registration plan for a device found by its hostname (if any).
pub fn register_plan(existing: Option<(String, Option<String>)>) -> (p: RegisterPlan)
    ensures
        match existing {
            None => p is Create,
            Some((id, None)) => p matches RegisterPlan::Reconnect { device_id } && device_id == id,
            Some((id, Some(code))) => p matches RegisterPlan::Refresh { device_id, claim_code } && device_id == id
                && claim_code == code,
        },
{
    match existing {
        None => RegisterPlan::Create,
        Some((id, None)) => RegisterPlan::Reconnect { device_id: id },
        Some((id, Some(code))) => RegisterPlan::Refresh { device_id: id, claim_code: code },
    }
}

/// The status row a heartbeat records: its state (`unknown` when absent), uptime and free heap
/// (zero when absent).
pub fn heartbeat_status(state: &Option<String>, uptime: Option<i64>, free_heap: Option<i64>) -> (r: (String, i64, i64))
    ensures
        r.0@ == match state {
            Some(s) => s@,
            None => "unknown"@,
        },
        r.1 == match uptime {
            Some(u) => u,
            None => 0,
        },
        r.2 == match free_heap {
            Some(h) => h,
            None => 0,
        },
{
    let s = match state {
        Some(s) => s.clone(),
        None => "unknown".to_string(),
    };
    let u = match uptime {
        Some(u) => u,
        None => 0,
    };
    let h = match free_heap {
        Some(h) => h,
        None => 0,
    };
    (s, u, h)
}

/// The heartbeat's answer from the device's stored claim code: claimed when it has none,
/// and the code to show while it is unclaimed.
pub fn heartbeat_reply(claim_code: Option<String>) -> (r: (bool, String))
    ensures
        r.0 == claim_code is None,
        r.1@ == match claim_code {
            Some(c) => c@,
            None => Seq::<char>::empty(),
        },
{
    match claim_code {
        Some(c) => (false, c),
        None => (true, String::new()),
    }
}

/// How long a command poll waits, in seconds: as asked, at most 30, none by default.
pub fn long_poll_secs(wait: Option<u64>) -> (secs: u64)
    ensures
        secs == match wait {
            Some(w) => if w < 30 {
                w
            } else {
                30
            },
            None => 0,
        },
{
    match wait {
        Some(w) => if w < 30 {
            w
        } else {
            30
        },
        None => 0,
    }
}

/// `str::to_uppercase`: the Unicode uppercase mapping of each character.
pub uninterp spec fn uppercase_spec(s: Seq<char>) -> Seq<char>;

/// `str::to_uppercase` (std): its result is named `uppercase_spec`; the Unicode case
/// tables it follows are not restated here.
#[verifier::external_body]
fn to_uppercase(s: &str) -> (r: String)
    ensures
        r@ == uppercase_spec(s@),
{
    s.to_uppercase()
}

/// Why a claim is refused before the code is looked up.
pub enum ClaimError {
    /// 401 "Authentication required": only a signed-in user can claim.
    NotSignedIn,
    /// 400 "Claim code must be 6 characters".
    BadLength,
}

/// The claim code as it is looked up: trimmed and uppercased, which must be 6 bytes long.
pub open spec fn normalized_claim_code(raw: Seq<char>) -> Seq<char> {
    uppercase_spec(trim(raw))
}

/// Checks a claim request: the user must be signed in and the code, trimmed and uppercased,
/// six bytes long.
pub fn claim_code_input(user_id: &Option<String>, raw: &str) -> (r: Result<String, ClaimError>)
    ensures
        match r {
            Ok(c) => user_id is Some && c@ == normalized_claim_code(raw@) && encode_utf8(c@).len() == 6,
            Err(ClaimError::NotSignedIn) => user_id is None,
            Err(ClaimError::BadLength) => user_id is Some && encode_utf8(normalized_claim_code(raw@)).len() != 6,
        },
{
    if user_id.is_none() {
        return Err(ClaimError::NotSignedIn);
    }
    let t = string_of(trim_chars(chars_of(raw).as_slice()).as_slice());
    let code = to_uppercase(t.as_str());
    if code.as_str().as_bytes().len() != 6 {
        return Err(ClaimError::BadLength);
    }
    Ok(code)
}

} // verus!
