//! The desktop companion's view of the server.
use vstd::prelude::*;
use crate::text::{chars_of, parse_u64, parse_u64_spec, push_decimal, push_str, decimal, strip_char_end, string_of, trim_char_end};

verus! {

broadcast use vstd::string::group_string_axioms;

pub struct DeviceStatus {
    pub id: String,
    pub name: String,
    pub hostname: String,
    pub ip_address: String,
    pub online: bool,
    pub device_type: Option<String>,
    pub latest_status: Option<StatusSnapshot>,
}

pub struct StatusSnapshot {
    pub state: String,
    pub uptime_ms: u64,
    pub free_heap: u64,
    pub recorded_at: String,
}

pub struct XpInfo {
    pub total_xp: u64,
    pub level: u32,
    pub title: String,
    pub current_streak: u32,
    pub xp_for_current_level: u64,
    pub xp_for_next_level: u64,
}


/// Where the desktop companion finds the server, and how often it asks.
pub struct ServerConfig {
    pub url: String,
    pub api_key: Option<String>,
    pub poll_interval_secs: u64,
}

/// The companion's settings from `HOOKBOT_URL`, `HOOKBOT_API_KEY` and `HOOKBOT_POLL_INTERVAL`:
/// a local server on port 3001, no key, and a five second poll unless set (an interval that is
/// not a number counts as unset).
pub fn server_config(url: Option<String>, api_key: Option<String>, poll_interval: Option<&str>) -> (c: ServerConfig)
    ensures
        c.url@ == match url {
            Some(u) => u@,
            None => "http://localhost:3001"@,
        },
        c.api_key == api_key,
        c.poll_interval_secs == match poll_interval {
            Some(p) => match parse_u64_spec(p@) {
                Some(n) => n,
                None => 5,
            },
            None => 5,
        },
{
    let poll = match poll_interval {
        Some(p) => {
            let cs = chars_of(p);
            match parse_u64(cs.as_slice()) {
                Some(n) => n,
                None => 5,
            }
        },
        None => 5,
    };
    ServerConfig {
        url: match url {
            Some(u) => u,
            None => "http://localhost:3001".to_string(),
        },
        api_key,
        poll_interval_secs: poll,
    }
}

/// A server address without trailing slashes, as the client keeps it.
pub fn client_base_url(url: &str) -> (b: String)
    ensures
        b@ == trim_char_end(url@, '/'),
{
    let cs = chars_of(url);
    let t = strip_char_end(cs.as_slice(), '/');
    string_of(t.as_slice())
}

/// The number of devices that are online.
pub open spec fn online_in(devices: Seq<DeviceStatus>) -> nat
    decreases devices.len(),
{
    if devices.len() == 0 {
        0
    } else {
        online_in(devices.drop_last()) + if devices.last().online {
            1nat
        } else {
            0nat
        }
    }
}

/// The online count is the number of devices whose `online` flag is set: all of them when
/// every device is online, none when no device is.
pub proof fn lemma_online_count(devices: Seq<DeviceStatus>)
    ensures
        online_in(devices) == devices.filter(|d: DeviceStatus| d.online).len(),
        online_in(devices) <= devices.len(),
        (forall|i: int| 0 <= i < devices.len() ==> (#[trigger] devices[i]).online) ==> online_in(devices)
            == devices.len(),
        (forall|i: int| 0 <= i < devices.len() ==> !(#[trigger] devices[i]).online) ==> online_in(devices) == 0,
    decreases devices.len(),
{
    reveal(Seq::filter);
    if devices.len() > 0 {
        let pre = devices.drop_last();
        lemma_online_count(pre);
        assert forall|i: int| 0 <= i < pre.len() implies #[trigger] pre[i] == devices[i] by {}
        if forall|i: int| 0 <= i < devices.len() ==> (#[trigger] devices[i]).online {
            assert forall|i: int| 0 <= i < pre.len() implies (#[trigger] pre[i]).online by {
                assert(pre[i] == devices[i]);
            }
            assert(devices[devices.len() - 1].online);
        }
        if forall|i: int| 0 <= i < devices.len() ==> !(#[trigger] devices[i]).online {
            assert forall|i: int| 0 <= i < pre.len() implies !(#[trigger] pre[i]).online by {
                assert(pre[i] == devices[i]);
            }
            assert(!devices[devices.len() - 1].online);
        }
    }
}

/// How many of the devices are online, and how many there are.
pub fn status_counts(devices: &[DeviceStatus]) -> (r: (usize, usize))
    ensures
        r.0 == online_in(devices@),
        r.1 == devices@.len(),
        r.0 <= r.1,
{
    let mut online: usize = 0;
    let mut i: usize = 0;
    while i < devices.len()
        invariant
            i <= devices@.len(),
            online == online_in(devices@.take(i as int)),
            online <= i,
        decreases devices@.len() - i,
    {
        assert(devices@.take(i + 1).drop_last() =~= devices@.take(i as int));
        if devices[i].online {
            online = online + 1;
        }
        i = i + 1;
    }
    assert(devices@.take(devices@.len() as int) =~= devices@);
    (online, devices.len())
}

/// The tray tooltip: how many devices are online out of all.
pub fn tray_tooltip(online: usize, total: usize) -> (t: String)
    ensures
        t@ == "Hookbot: "@ + decimal(online as nat) + "/"@ + decimal(total as nat) + " online"@,
{
    let mut m: Vec<char> = Vec::new();
    push_str(&mut m, "Hookbot: ");
    push_decimal(&mut m, online as u64);
    push_str(&mut m, "/");
    push_decimal(&mut m, total as u64);
    push_str(&mut m, " online");
    string_of(m.as_slice())
}

} // verus!
