//! Personal API tokens and account settings.
use vstd::prelude::*;
use vstd::utf8::encode_utf8;
use crate::digest::{is_lower_hex_char, uuid_simple};
use crate::text::{chars_of, copy_range, push_all, push_str, string_of, trim, trim_chars};

verus! {

broadcast use vstd::string::group_string_axioms;

pub struct ApiToken {
    pub id: String,
    pub name: String,
    pub token_preview: String,
    pub created_at: String,
    pub last_used_at: Option<String>,
}

pub struct CreateTokenRequest {
    pub name: String,
}

pub struct CreateTokenResponse {
    pub id: String,
    pub name: String,
    pub token: String,
}

pub struct UpdateAccountRequest {
    pub name: Option<String>,
}


/// The account that owns tokens in a single-admin deployment.
pub open spec fn local_admin_id() -> Seq<char> {
    "local-admin"@
}

/// The user a token request acts for: the signed-in user, else the local admin.
pub fn token_owner(user_id: Option<String>) -> (owner: String)
    ensures
        owner@ == match user_id {
            Some(u) => u@,
            None => local_admin_id(),
        },
{
    match user_id {
        Some(u) => u,
        None => "local-admin".to_string(),
    }
}

/// Whether `t` is a personal API token: `hb_` and 32 lowercase hexadecimal digits.
pub open spec fn is_api_token(t: Seq<char>) -> bool {
    &&& t.len() == 35
    &&& t.take(3) == "hb_"@
    &&& forall|i: int| 3 <= i < 35 ==> is_lower_hex_char(#[trigger] t[i])
}

/// What a token list shows of a token: `...` and its last eight characters.
pub open spec fn token_preview_spec(t: Seq<char>) -> Seq<char> {
    "..."@ + t.skip(t.len() - 8)
}

/// A fresh personal API token and its preview.
pub fn mint_api_token() -> (r: (String, String))
    ensures
        is_api_token(r.0@),
        r.1@ == token_preview_spec(r.0@),
{
    let hex = uuid_simple();
    let mut v: Vec<char> = Vec::new();
    push_str(&mut v, "hb_");
    push_str(&mut v, hex.as_str());
    proof {
        reveal_strlit("hb_");
        reveal_strlit("...");
        assert(v@.take(3) =~= "hb_"@);
        assert forall|i: int| 3 <= i < 35 implies is_lower_hex_char(#[trigger] v@[i]) by {
            assert(v@[i] == hex@[i - 3]);
        }
    }
    let tail = copy_range(v.as_slice(), 27, 35);
    let mut p: Vec<char> = Vec::new();
    push_str(&mut p, "...");
    push_all(&mut p, tail.as_slice());
    assert(tail@ =~= v@.skip(27));
    (string_of(v.as_slice()), string_of(p.as_slice()))
}

/// Why a token name is refused.
pub enum TokenNameError {
    /// 400 "Token name must be 1-64 characters".
    BadLength,
}

/// A token's name: the request's name trimmed, which must be 1 to 64 bytes long.
pub fn token_name(raw: &str) -> (r: Result<String, TokenNameError>)
    ensures
        match r {
            Ok(n) => n@ == trim(raw@) && 0 < encode_utf8(trim(raw@)).len() <= 64,
            Err(_) => trim(raw@).len() == 0 || encode_utf8(trim(raw@)).len() > 64,
        },
{
    let cs = chars_of(raw);
    let t = trim_chars(cs.as_slice());
    let name = string_of(t.as_slice());
    let byte_len = name.as_str().as_bytes().len();
    if t.len() == 0 || byte_len > 64 {
        Err(TokenNameError::BadLength)
    } else {
        proof {
            assert(encode_utf8(t@) == vstd::utf8::encode_scalar(t@[0] as u32) + encode_utf8(
                t@.drop_first(),
            ));
            assert(vstd::utf8::encode_scalar(t@[0] as u32).len() > 0);
        }
        Ok(name)
    }
}

/// Why an account update is refused.
pub enum AccountUpdateError {
    /// 401 "Multi-tenant auth required".
    NotMultiTenant,
    /// 400 "Name cannot be empty".
    EmptyName,
}

/// The name an account update sets (`None` when it sets none), for a signed-in user.
pub fn account_update_name(user_id: &Option<String>, body: &UpdateAccountRequest) -> (r: Result<Option<String>, AccountUpdateError>)
    ensures
        match r {
            Ok(None) => user_id is Some && body.name is None,
            Ok(Some(n)) => user_id is Some && (body.name matches Some(raw) && n@ == trim(raw@) && n@.len() > 0),
            Err(AccountUpdateError::NotMultiTenant) => user_id is None,
            Err(AccountUpdateError::EmptyName) => user_id is Some && (body.name matches Some(raw) && trim(raw@).len() == 0),
        },
{
    if user_id.is_none() {
        return Err(AccountUpdateError::NotMultiTenant);
    }
    match &body.name {
        None => Ok(None),
        Some(raw) => {
            let t = trim_chars(chars_of(raw.as_str()).as_slice());
            if t.len() == 0 {
                Err(AccountUpdateError::EmptyName)
            } else {
                Ok(Some(string_of(t.as_slice())))
            }
        },
    }
}

} // verus!
