//! Desk lights and Hue bridges.
use vstd::prelude::*;
use crate::crypto::{decrypt, decrypt_spec};
use crate::json::{as_str, get_opt, json_get, json_of, lemma_json_of_array, lemma_json_of_object, members, opt_get, opt_str, Json, JsonValue};
use crate::text::{chars_of, concat_all, concat_parts, decimal, push_decimal, str_eq, string_of, strip_char_end, trim, trim_char_end, trim_chars};

verus! {

broadcast use vstd::string::group_string_axioms;

pub struct DeviceQuery {
    pub device_id: Option<String>,
}


/// A character allowed in a bridge address: ASCII letters and digits, `.`, `-` and `:`.
pub open spec fn host_char(c: char) -> bool {
    ('a' <= c <= 'z') || ('A' <= c <= 'Z') || ('0' <= c <= '9') || c == '.' || c == '-' || c == ':'
}

/// The bridge address as it is used: trimmed and without trailing slashes; refused when it is
/// empty or holds anything but a bare host's characters (it becomes part of a URL).
pub open spec fn bridge_host_spec(raw: Seq<char>) -> Option<Seq<char>> {
    let h = trim_char_end(trim(raw), '/');
    if h.len() == 0 || !(forall|i: int| 0 <= i < h.len() ==> host_char(#[trigger] h[i])) {
        None
    } else {
        Some(h)
    }
}

/// Checks a bridge address; `None` answers 400 "Bridge address must be a bare hostname or IP".
pub fn bridge_host(raw: &str) -> (r: Option<String>)
    ensures
        match r {
            Some(h) => bridge_host_spec(raw@) == Some(h@),
            None => bridge_host_spec(raw@) is None,
        },
{
    let t = trim_chars(chars_of(raw).as_slice());
    let h = strip_char_end(t.as_slice(), '/');
    if h.len() == 0 {
        return None;
    }
    let mut i: usize = 0;
    while i < h.len()
        invariant
            i <= h@.len(),
            h@ == trim_char_end(trim(raw@), '/'),
            forall|j: int| 0 <= j < i ==> host_char(#[trigger] h@[j]),
        decreases h@.len() - i,
    {
        let c = h[i];
        let ok = ('a' <= c && c <= 'z') || ('A' <= c && c <= 'Z') || ('0' <= c && c <= '9') || c == '.'
            || c == '-' || c == ':';
        if !ok {
            assert(!host_char(h@[i as int]));
            return None;
        }
        i = i + 1;
    }
    Some(string_of(h.as_slice()))
}

/// The username a bridge issues once its link button was pressed: `[0].success.username`.
pub open spec fn hue_username_spec(parsed: Json) -> Option<Seq<char>> {
    match parsed {
        Json::Array(items) => if items.len() > 0 {
            opt_str(opt_get(json_get(items[0], "success"@), "username"@))
        } else {
            None
        },
        _ => None,
    }
}

/// The username in a bridge's answer to the pairing request, if it issued one.
pub fn hue_username(parsed: &JsonValue) -> (u: Option<String>)
    ensures
        match u {
            Some(s) => hue_username_spec(json_of(*parsed)) == Some(s@),
            None => hue_username_spec(json_of(*parsed)) is None,
        },
{
    match parsed {
        JsonValue::Array(items) => {
            proof {
                lemma_json_of_array(*items);
            }
            if items.len() > 0 {
                match as_str(get_opt(get_opt(Some(&items[0]), "success"), "username")) {
                    Some(s) => Some(s.to_string()),
                    None => None,
                }
            } else {
                None
            }
        },
        _ => None,
    }
}

/// Why a light action cannot be sent.
pub enum LightError {
    /// 400 "Provider '<p>' is not supported yet".
    UnsupportedProvider(String),
    /// 400 "This bridge is not paired yet. Run the pairing flow first."
    NotPaired,
    /// 500 "Stored credential unreadable: <reason>".
    Unreadable(String),
}

/// The bridge token for a stored light: only Hue is supported, the bridge must be paired, and
/// its stored credential must decrypt under the server's secret.
pub fn light_token(secret: &[u8; 32], provider: &str, enc_key: Option<&str>) -> (r: Result<String, LightError>)
    ensures
        provider@ != "hue"@ ==> (r matches Err(LightError::UnsupportedProvider(m)) && m@ == "Provider '"@ + provider@
            + "' is not supported yet"@),
        provider@ == "hue"@ ==> match enc_key {
            None => r matches Err(LightError::NotPaired),
            Some(k) => if k@.len() == 0 {
                r matches Err(LightError::NotPaired)
            } else {
                match decrypt_spec(secret@, k@) {
                    Ok(t) => r matches Ok(tok) && tok@ == t,
                    Err(e) => r matches Err(LightError::Unreadable(m)) && m@ == "Stored credential unreadable: "@ + e,
                }
            },
        },
{
    proof {
        reveal_with_fuel(concat_all, 4);
    }
    if !str_eq(provider, "hue") {
        return Err(LightError::UnsupportedProvider(string_of(concat_parts(&["Provider '", provider, "' is not supported yet"]).as_slice())));
    }
    let k = match enc_key {
        Some(k) => k,
        None => return Err(LightError::NotPaired),
    };
    if chars_of(k).len() == 0 {
        return Err(LightError::NotPaired);
    }
    match decrypt(secret, k) {
        Ok(t) => Ok(t),
        Err(e) => Err(LightError::Unreadable(string_of(concat_parts(&["Stored credential unreadable: ", e.as_str()]).as_slice()))),
    }
}

/// The state a light action asks of each light: on, the brightness clamped to 0..=254 when
/// given, and the hue and saturation of the color when it could be read.
pub open spec fn hue_body_spec(brightness: Option<i64>, hue_sat: Option<(u16, u8)>) -> Json {
    Json::Object(seq![("on"@, Json::Bool(true))] + match brightness {
        Some(b) => seq![("bri"@, Json::Number(decimal((if b < 0 {
            0
        } else if b > 254 {
            254
        } else {
            b
        }) as nat)))],
        None => Seq::empty(),
    } + match hue_sat {
        Some((h, s)) => seq![("hue"@, Json::Number(decimal(h as nat))), ("sat"@, Json::Number(decimal(s as nat)))],
        None => Seq::empty(),
    })
}

fn number_text(n: u64) -> (v: JsonValue)
    ensures
        json_of(v) == Json::Number(decimal(n as nat)),
{
    let mut d: Vec<char> = Vec::new();
    push_decimal(&mut d, n);
    JsonValue::Number(string_of(d.as_slice()))
}

/// The body sent to each light.
pub fn hue_state_body(brightness: Option<i64>, hue_sat: Option<(u16, u8)>) -> (v: JsonValue)
    ensures
        json_of(v) == hue_body_spec(brightness, hue_sat),
{
    let mut f: Vec<(String, JsonValue)> = Vec::new();
    f.push(("on".to_string(), JsonValue::Bool(true)));
    if let Some(b) = brightness {
        let c: u64 = if b < 0 {
            0
        } else if b > 254 {
            254
        } else {
            b as u64
        };
        f.push(("bri".to_string(), number_text(c)));
    }
    if let Some((h, s)) = hue_sat {
        f.push(("hue".to_string(), number_text(h as u64)));
        f.push(("sat".to_string(), number_text(s as u64)));
    }
    proof {
        lemma_json_of_object(f);
    }
    let ghost want = hue_body_spec(brightness, hue_sat);
    assert(Json::Object(members(f@)) == want) by {
        assert(members(f@) =~= want->Object_0);
    }
    JsonValue::Object(f)
}

/// The address of one light's state on the bridge, over `https` or plain `http`.
pub fn light_state_url(secure: bool, bridge_ip: &str, token: &str, light_id: &str) -> (u: String)
    ensures
        u@ == (if secure {
            "https://"@
        } else {
            "http://"@
        }) + bridge_ip@ + "/api/"@ + token@ + "/lights/"@ + light_id@ + "/state"@,
{
    proof {
        reveal_with_fuel(concat_all, 8);
    }
    let scheme: &str = if secure {
        "https://"
    } else {
        "http://"
    };
    string_of(concat_parts(&[scheme, bridge_ip, "/api/", token, "/lights/", light_id, "/state"]).as_slice())
}

} // verus!
