//! Home Assistant integration.
use vstd::prelude::*;
use crate::text::{chars_of, push_str, string_of};

verus! {

broadcast use vstd::string::group_string_axioms;

pub struct DeviceQuery {
    pub device_id: Option<String>,
}

/// A device id with its hyphens turned into underscores.
pub open spec fn underscored(id: Seq<char>) -> Seq<char> {
    Seq::new(id.len(), |i: int| if id[i] == '-' {
        '_'
    } else {
        id[i]
    })
}

/// The Home Assistant entity id a device appears under.
pub fn entity_id(device_id: &str) -> (e: String)
    ensures
        e@ == "sensor.hookbot_"@ + underscored(device_id@),
{
    let cs = chars_of(device_id);
    let mut m: Vec<char> = Vec::new();
    push_str(&mut m, "sensor.hookbot_");
    let ghost start = m@;
    let mut i: usize = 0;
    while i < cs.len()
        invariant
            cs@ == device_id@,
            i <= cs@.len(),
            m@ == start + underscored(device_id@).take(i as int),
        decreases cs@.len() - i,
    {
        let c = if cs[i] == '-' {
            '_'
        } else {
            cs[i]
        };
        m.push(c);
        assert(underscored(device_id@).take(i + 1) =~= underscored(device_id@).take(i as int).push(c));
        i = i + 1;
    }
    assert(underscored(device_id@).take(cs@.len() as int) =~= underscored(device_id@));
    string_of(m.as_slice())
}

} // verus!
