//! Over-the-air firmware updates: checks before a deployment and the follow-up of a job.
use vstd::prelude::*;
use crate::text::{push_signed_decimal, push_str, signed_decimal, str_eq, string_of, utf8_cut, utf8_prefix};

verus! {

broadcast use vstd::string::group_string_axioms;

/// Why a job fails when the server has no public address for the device to download from.
pub open spec fn no_public_url_text() -> Seq<char> {
    "PUBLIC_URL (or FRONTEND_URL) is not set, so the device cannot be told where to download the firmware"@
}

/// A deployment target: its id and the device type it reports, if any.
pub open spec fn targets_view(d: Seq<(String, Option<String>)>) -> Seq<(Seq<char>, Option<Seq<char>>)> {
    Seq::new(d.len(), |i: int| (d[i].0@, match d[i].1 {
        Some(t) => Some(t@),
        None => None,
    }))
}

/// Whether target `i` reports a device type other than the firmware's.
pub open spec fn mismatch_at(fw: Seq<char>, d: Seq<(Seq<char>, Option<Seq<char>>)>, i: int) -> bool {
    match d[i].1 {
        Some(t) => t != fw,
        None => false,
    }
}

/// The first target whose device type differs from the firmware's.
pub open spec fn first_mismatch(fw: Seq<char>, d: Seq<(Seq<char>, Option<Seq<char>>)>) -> Option<int> {
    if exists|i: int| 0 <= i < d.len() && #[trigger] mismatch_at(fw, d, i) {
        Some(choose|i: int| 0 <= i < d.len() && #[trigger] mismatch_at(fw, d, i) && forall|j: int| 0 <= j < i ==> !mismatch_at(fw, d, j))
    } else {
        None
    }
}

/// The refusal of a deployment to a device of another type, naming the device by the first
/// eight bytes of its id.
pub open spec fn mismatch_text(fw: Seq<char>, id: Seq<char>, dt: Seq<char>) -> Seq<char> {
    "Device type mismatch: firmware is for '"@ + fw + "' but device "@ + utf8_cut(id, 8).unwrap() + " is '"@ + dt + "'"@
}

/// The check of a deployment: firmware built for a device type goes only to devices that
/// report that type or none; firmware for no type goes anywhere.
pub open spec fn type_check_spec(fw_type: Option<Seq<char>>, d: Seq<(Seq<char>, Option<Seq<char>>)>) -> Result<(), Seq<char>> {
    match fw_type {
        None => Ok(()),
        Some(fw) => match first_mismatch(fw, d) {
            None => Ok(()),
            Some(i) => Err(mismatch_text(fw, d[i].0, d[i].1.unwrap())),
        },
    }
}

/// Whether the message for a refused target can be written: its id is cut at a character
/// boundary.
pub open spec fn mismatch_printable(fw_type: Option<Seq<char>>, d: Seq<(Seq<char>, Option<Seq<char>>)>) -> bool {
    match fw_type {
        None => true,
        Some(fw) => match first_mismatch(fw, d) {
            None => true,
            Some(i) => utf8_cut(d[i].0, 8) is Some,
        },
    }
}

/// Checks that every target of a deployment can run the firmware.
pub fn check_device_types(fw_type: Option<&str>, targets: &[(String, Option<String>)]) -> (r: Result<(), String>)
    requires
        mismatch_printable(
            match fw_type {
                Some(f) => Some(f@),
                None => None,
            },
            targets_view(targets@),
        ),
    ensures
        match (r, type_check_spec(
            match fw_type {
                Some(f) => Some(f@),
                None => None,
            },
            targets_view(targets@),
        )) {
            (Ok(()), Ok(())) => true,
            (Err(m), Err(t)) => m@ == t,
            _ => false,
        },
{
    let fw = match fw_type {
        None => return Ok(()),
        Some(f) => f,
    };
    let ghost d = targets_view(targets@);
    let mut i: usize = 0;
    while i < targets.len()
        invariant
            i <= targets@.len(),
            d == targets_view(targets@),
            fw_type == Some(fw),
            mismatch_printable(Some(fw@), d),
            forall|j: int| 0 <= j < i ==> !mismatch_at(fw@, d, j),
        decreases targets@.len() - i,
    {
        match &targets[i].1 {
            Some(dt) => {
                if !str_eq(dt.as_str(), fw) {
                    proof {
                        assert(mismatch_at(fw@, d, i as int));
                        let k = choose|k: int| 0 <= k < d.len() && #[trigger] mismatch_at(fw@, d, k) && forall|j: int| 0 <= j < k ==> !mismatch_at(fw@, d, j);
                        assert(k == i);
                        assert(first_mismatch(fw@, d) == Some(i as int));
                        assert(d[i as int].0 == targets@[i as int].0@);
                        assert(d[i as int].1 == Some(dt@));
                    }
                    let id = targets[i].0.as_str();
                    let short = match utf8_prefix(id, 8) {
                        Some(s) => s,
                        None => {
                            assert(false);
                            String::new()
                        },
                    };
                    let mut m: Vec<char> = Vec::new();
                    push_str(&mut m, "Device type mismatch: firmware is for '");
                    push_str(&mut m, fw);
                    push_str(&mut m, "' but device ");
                    push_str(&mut m, short.as_str());
                    push_str(&mut m, " is '");
                    push_str(&mut m, dt.as_str());
                    push_str(&mut m, "'");
                    return Err(string_of(m.as_slice()));
                }
            },
            None => {},
        }
        i = i + 1;
    }
    Ok(())
}

/// How a job reaches its device.
#[derive(PartialEq, Eq, Structural, Debug, Clone, Copy)]
pub enum OtaRoute {
    /// A cloud device: the command is queued for it to pull.
    Queue,
    /// A cloud device, but the server has no public address to hand out: the job fails.
    NoPublicUrl,
    /// A device on the local network: the server pushes the update.
    Push,
}

/// The route of a job from the device's connection mode and the server's public address.
pub open spec fn ota_route_spec(connection_mode: Seq<char>, has_public_url: bool) -> OtaRoute {
    if connection_mode == "cloud"@ {
        if has_public_url {
            OtaRoute::Queue
        } else {
            OtaRoute::NoPublicUrl
        }
    } else {
        OtaRoute::Push
    }
}

/// How a deployment reaches one device.
pub fn ota_route(connection_mode: &str, public_url: Option<&str>) -> (r: OtaRoute)
    ensures
        r == ota_route_spec(connection_mode@, public_url is Some),
{
    if str_eq(connection_mode, "cloud") {
        if public_url.is_some() {
            OtaRoute::Queue
        } else {
            OtaRoute::NoPublicUrl
        }
    } else {
        OtaRoute::Push
    }
}

/// Why a pushed update cannot start: the device has no address, or the server no public one.
pub open spec fn ota_start_spec(ip: Seq<char>, has_public_url: bool) -> Result<(), Seq<char>> {
    if ip.len() == 0 {
        Err("Device not found"@)
    } else if !has_public_url {
        Err(no_public_url_text())
    } else {
        Ok(())
    }
}

/// Whether a pushed update can start.
pub fn ota_start(ip: &str, public_url: Option<&str>) -> (r: Result<(), String>)
    ensures
        match (r, ota_start_spec(ip@, public_url is Some)) {
            (Ok(()), Ok(())) => true,
            (Err(m), Err(t)) => m@ == t,
            _ => false,
        },
{
    if ip.is_empty() {
        return Err("Device not found".to_string());
    }
    if public_url.is_none() {
        return Err("PUBLIC_URL (or FRONTEND_URL) is not set, so the device cannot be told where to download the firmware".to_string());
    }
    Ok(())
}

/// The address a device downloads a firmware image from, signed until `expires_at`.
pub open spec fn firmware_url_spec(base: Seq<char>, firmware_id: Seq<char>, expires_at: i64, sig: Seq<char>) -> Seq<char> {
    base + "/api/firmware/"@ + firmware_id + "/binary?exp="@ + signed_decimal(expires_at as int) + "&sig="@ + sig
}

/// The download address of a firmware image.
pub fn firmware_url(base: &str, firmware_id: &str, expires_at: i64, sig: &str) -> (u: String)
    ensures
        u@ == firmware_url_spec(base@, firmware_id@, expires_at, sig@),
{
    let mut m: Vec<char> = Vec::new();
    push_str(&mut m, base);
    push_str(&mut m, "/api/firmware/");
    push_str(&mut m, firmware_id);
    push_str(&mut m, "/binary?exp=");
    push_signed_decimal(&mut m, expires_at);
    push_str(&mut m, "&sig=");
    push_str(&mut m, sig);
    string_of(m.as_slice())
}

/// Where a pushed update stands after one look at the device.
pub enum OtaPoll {
    /// The device reports the version that was sent.
    Succeeded,
    /// Not yet; the version the device last reported.
    Waiting { last_seen: Option<String> },
    /// The time is up.
    Failed { detail: String },
}

/// The mathematical form of a poll's outcome.
pub enum OtaPollView {
    Succeeded,
    Waiting(Option<Seq<char>>),
    Failed(Seq<char>),
}

pub open spec fn ota_poll_view(p: OtaPoll) -> OtaPollView {
    match p {
        OtaPoll::Succeeded => OtaPollView::Succeeded,
        OtaPoll::Waiting { last_seen } => OtaPollView::Waiting(match last_seen {
            Some(s) => Some(s@),
            None => None,
        }),
        OtaPoll::Failed { detail } => OtaPollView::Failed(detail@),
    }
}

/// Why a job failed when the time ran out.
pub open spec fn timeout_detail(expected: Option<Seq<char>>, seen: Option<Seq<char>>, url: Seq<char>) -> Seq<char> {
    match (expected, seen) {
        (Some(want), Some(got)) => "Device is still reporting "@ + got + " after the update; expected "@ + want + ". It usually means the device could not download "@ + url,
        _ => "Device did not come back after the update"@,
    }
}

/// One step of following a pushed update: `reply` is the status the device answered with
/// (`None` when it did not answer), holding the version it reports, if any. The job succeeds
/// once that is the expected version; otherwise the last answer's version is kept, and the job
/// fails once the deadline has passed.
pub open spec fn ota_poll_spec(expected: Option<Seq<char>>, last_seen: Option<Seq<char>>, reply: Option<Option<Seq<char>>>, past_deadline: bool, url: Seq<char>) -> OtaPollView {
    let seen = match reply {
        Some(r) => r,
        None => last_seen,
    };
    if expected is Some && reply == Some(expected) {
        OtaPollView::Succeeded
    } else if past_deadline {
        OtaPollView::Failed(timeout_detail(expected, seen, url))
    } else {
        OtaPollView::Waiting(seen)
    }
}

fn opt_text(o: Option<&str>) -> (r: Option<String>)
    ensures
        match (r, o) {
            (Some(a), Some(b)) => a@ == b@,
            (None, None) => true,
            _ => false,
        },
{
    match o {
        Some(s) => Some(s.to_string()),
        None => None,
    }
}

/// Follows a pushed update one poll further.
pub fn ota_poll_step(expected: Option<&str>, last_seen: Option<String>, reply: Option<Option<String>>, past_deadline: bool, url: &str) -> (r: OtaPoll)
    ensures
        ota_poll_view(r) == ota_poll_spec(
            match expected {
                Some(e) => Some(e@),
                None => None,
            },
            match last_seen {
                Some(s) => Some(s@),
                None => None,
            },
            match reply {
                Some(Some(v)) => Some(Some(v@)),
                Some(None) => Some(None),
                None => None,
            },
            past_deadline,
            url@,
        ),
{
    let answered = reply.is_some();
    let seen: Option<String> = match reply {
        Some(r) => r,
        None => last_seen,
    };
    if answered {
        match (expected, &seen) {
            (Some(want), Some(got)) => {
                if str_eq(want, got.as_str()) {
                    return OtaPoll::Succeeded;
                }
            },
            _ => {},
        }
    }
    if past_deadline {
        match (expected, &seen) {
            (Some(want), Some(got)) => {
                let mut m: Vec<char> = Vec::new();
                push_str(&mut m, "Device is still reporting ");
                push_str(&mut m, got.as_str());
                push_str(&mut m, " after the update; expected ");
                push_str(&mut m, want);
                push_str(&mut m, ". It usually means the device could not download ");
                push_str(&mut m, url);
                OtaPoll::Failed { detail: string_of(m.as_slice()) }
            },
            _ => OtaPoll::Failed { detail: "Device did not come back after the update".to_string() },
        }
    } else {
        OtaPoll::Waiting { last_seen: seen }
    }
}

} // verus!
