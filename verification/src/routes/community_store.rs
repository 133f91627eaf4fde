//! The community plugin store: listing filters, publishing defaults and ratings.
use vstd::prelude::*;
use crate::json::{json_of, Json, JsonValue};
use crate::text::{contains_seq, lowercase_spec, str_contains, str_eq, to_lowercase};

verus! {

broadcast use vstd::string::group_string_axioms;

pub struct ListQuery {
    pub device_id: Option<String>,
    pub category: Option<String>,
    pub search: Option<String>,
    pub sort: Option<String>,
}

pub struct InstallRequest {
    pub device_id: Option<String>,
}

pub struct RateRequest {
    pub device_id: Option<String>,
    pub stars: i32,
}

pub struct PublishRequest {
    pub name: String,
    pub description: String,
    pub author: Option<String>,
    pub version: Option<String>,
    pub category: Option<String>,
    pub tags: Option<Vec<String>>,
    pub payload: Option<JsonValue>,
}

/// Whether a listed item passes a listing's filters: its kind is the one asked for (or the
/// filter is absent or `all`), and the search text, lowercased, occurs in its lowercased name,
/// description or author.
pub open spec fn listing_matches_spec(filter: Option<Seq<char>>, kind: Seq<char>, search: Option<Seq<char>>, name: Seq<char>, description: Seq<char>, author: Seq<char>) -> bool {
    &&& match filter {
        Some(f) => f == "all"@ || f == kind,
        None => true,
    }
    &&& match search {
        Some(s) => {
            let t = lowercase_spec(s);
            contains_seq(lowercase_spec(name), t) || contains_seq(lowercase_spec(description), t)
                || contains_seq(lowercase_spec(author), t)
        },
        None => true,
    }
}

/// Whether a plugin or asset is shown in a filtered listing.
pub fn listing_matches(filter: Option<&str>, kind: &str, search: Option<&str>, name: &str, description: &str, author: &str) -> (r: bool)
    ensures
        r == listing_matches_spec(
            match filter {
                Some(f) => Some(f@),
                None => None,
            },
            kind@,
            match search {
                Some(s) => Some(s@),
                None => None,
            },
            name@,
            description@,
            author@,
        ),
{
    match filter {
        Some(f) => {
            if !str_eq(f, "all") && !str_eq(f, kind) {
                return false;
            }
        },
        None => {},
    }
    match search {
        Some(s) => {
            let t = to_lowercase(s);
            let n = to_lowercase(name);
            if str_contains(n.as_str(), t.as_str()) {
                return true;
            }
            let d = to_lowercase(description);
            if str_contains(d.as_str(), t.as_str()) {
                return true;
            }
            let a = to_lowercase(author);
            str_contains(a.as_str(), t.as_str())
        },
        None => true,
    }
}

/// The SQL ordering of a plugin listing: by downloads, by average rating, verified first, or
/// newest first (the default).
pub open spec fn plugin_order_spec(sort: Option<Seq<char>>) -> Seq<char> {
    if sort == Some("popular"@) {
        "p.downloads DESC"@
    } else if sort == Some("rating"@) {
        "(CASE WHEN p.rating_count = 0 THEN 0 ELSE CAST(p.rating_sum AS REAL) / p.rating_count END) DESC"@
    } else if sort == Some("verified"@) {
        "verified DESC, p.created_at DESC"@
    } else {
        "p.created_at DESC"@
    }
}

/// The ordering clause of a plugin listing.
pub fn plugin_order(sort: Option<&str>) -> (r: &'static str)
    ensures
        r@ == plugin_order_spec(
            match sort {
                Some(s) => Some(s@),
                None => None,
            },
        ),
{
    match sort {
        Some(s) => {
            if str_eq(s, "popular") {
                "p.downloads DESC"
            } else if str_eq(s, "rating") {
                "(CASE WHEN p.rating_count = 0 THEN 0 ELSE CAST(p.rating_sum AS REAL) / p.rating_count END) DESC"
            } else if str_eq(s, "verified") {
                "verified DESC, p.created_at DESC"
            } else {
                "p.created_at DESC"
            }
        },
        None => "p.created_at DESC",
    }
}

/// What a publish request stores besides its name and description.
pub struct PluginDraft {
    pub author: String,
    pub version: String,
    pub category: String,
    pub tags: Vec<String>,
    pub payload: JsonValue,
}

/// The defaults of a published plugin: `anonymous`, `1.0.0`, `utility`, no tags and an empty
/// object as payload.
pub fn plugin_draft(input: PublishRequest) -> (d: PluginDraft)
    ensures
        d.author@ == match input.author {
            Some(a) => a@,
            None => "anonymous"@,
        },
        d.version@ == match input.version {
            Some(v) => v@,
            None => "1.0.0"@,
        },
        d.category@ == match input.category {
            Some(c) => c@,
            None => "utility"@,
        },
        d.tags@ == match input.tags {
            Some(t) => t@,
            None => Seq::<String>::empty(),
        },
        json_of(d.payload) == match input.payload {
            Some(p) => json_of(p),
            None => Json::Object(Seq::empty()),
        },
{
    let payload = match input.payload {
        Some(p) => p,
        None => JsonValue::Object(Vec::new()),
    };
    proof {
        if input.payload is None {
            match json_of(payload) {
                Json::Object(m) => assert(m =~= Seq::<(Seq<char>, Json)>::empty()),
                _ => {},
            }
        }
    }
    PluginDraft {
        author: match input.author {
            Some(a) => a,
            None => "anonymous".to_string(),
        },
        version: match input.version {
            Some(v) => v,
            None => "1.0.0".to_string(),
        },
        category: match input.category {
            Some(c) => c,
            None => "utility".to_string(),
        },
        tags: match input.tags {
            Some(t) => t,
            None => Vec::new(),
        },
        payload,
    }
}

/// The change a rating makes to an item's rating sum and count, given the stars the device
/// gave it before, if any: a first rating adds its stars and one to the count, a new rating by
/// the same device replaces its stars; stars outside 1 to 5 are refused.
pub open spec fn rating_change_spec(previous: Option<i32>, stars: i32) -> Result<(int, int), Seq<char>> {
    if stars < 1 || stars > 5 {
        Err("Stars must be 1-5"@)
    } else {
        match previous {
            Some(old) => Ok((stars - old, 0)),
            None => Ok((stars as int, 1)),
        }
    }
}

/// The (sum, count) change of a rating.
pub fn rating_change(previous: Option<i32>, stars: i32) -> (r: Result<(i64, i64), String>)
    ensures
        match (r, rating_change_spec(previous, stars)) {
            (Ok((ds, dc)), Ok((s, c))) => ds == s && dc == c,
            (Err(m), Err(t)) => m@ == t,
            _ => false,
        },
{
    if stars < 1 || stars > 5 {
        return Err("Stars must be 1-5".to_string());
    }
    match previous {
        Some(old) => Ok((stars as i64 - old as i64, 0)),
        None => Ok((stars as i64, 1)),
    }
}

/// The total of the stars in a list of (device, stars) ratings.
pub open spec fn stars_total(r: Seq<(Seq<char>, int)>) -> int
    decreases r.len(),
{
    if r.len() == 0 {
        0
    } else {
        stars_total(r.drop_last()) + r.last().1
    }
}

/// Where `device`'s rating is in a list of (device, stars) ratings (the last one, if the list
/// held several), or -1.
pub open spec fn rating_index(r: Seq<(Seq<char>, int)>, device: Seq<char>) -> int
    decreases r.len(),
{
    if r.len() == 0 {
        -1
    } else if r.last().0 == device {
        r.len() - 1
    } else {
        rating_index(r.drop_last(), device)
    }
}

/// The ratings after `device` rates `stars`: its earlier rating is replaced, or a new one added.
pub open spec fn rated(r: Seq<(Seq<char>, int)>, device: Seq<char>, stars: int) -> Seq<(Seq<char>, int)> {
    let i = rating_index(r, device);
    if i >= 0 {
        r.update(i, (device, stars))
    } else {
        r.push((device, stars))
    }
}

/// The stars `device` gave before, if any.
pub open spec fn previous_stars(r: Seq<(Seq<char>, int)>, device: Seq<char>) -> Option<int> {
    let i = rating_index(r, device);
    if i >= 0 {
        Some(r[i].1)
    } else {
        None
    }
}

proof fn lemma_rating_index(r: Seq<(Seq<char>, int)>, device: Seq<char>)
    ensures
        -1 <= rating_index(r, device) < r.len(),
    decreases r.len(),
{
    if r.len() > 0 {
        lemma_rating_index(r.drop_last(), device);
    }
}

proof fn lemma_total_update(r: Seq<(Seq<char>, int)>, i: int, e: (Seq<char>, int))
    requires
        0 <= i < r.len(),
    ensures
        stars_total(r.update(i, e)) == stars_total(r) - r[i].1 + e.1,
    decreases r.len(),
{
    if i < r.len() - 1 {
        assert(r.update(i, e).drop_last() =~= r.drop_last().update(i, e));
        lemma_total_update(r.drop_last(), i, e);
    } else {
        assert(r.update(i, e).drop_last() =~= r.drop_last());
    }
}

/// An item's stored rating sum and count stay the total and number of its ratings (each of 1
/// to 5 stars, one per device), whatever device rates it next: the change `rating_change` gives for that device's
/// earlier stars, added to the stored sum and count, is exactly what the new ratings hold.
pub proof fn lemma_rating_totals_track_ratings(r: Seq<(Seq<char>, int)>, sum: int, count: int, device: Seq<char>, stars: i32)
    requires
        sum == stars_total(r),
        count == r.len(),
        1 <= stars <= 5,
        forall|i: int| 0 <= i < r.len() ==> 1 <= #[trigger] r[i].1 <= 5,
    ensures
        ({
            let prev = match previous_stars(r, device) {
                Some(p) => Some(p as i32),
                None => None,
            };
            match rating_change_spec(prev, stars) {
                Ok((ds, dc)) => sum + ds == stars_total(rated(r, device, stars as int))
                    && count + dc == rated(r, device, stars as int).len(),
                Err(_) => false,
            }
        }),
{
    lemma_rating_index(r, device);
    let i = rating_index(r, device);
    if i >= 0 {
        lemma_total_update(r, i, (device, stars as int));
        assert(1 <= r[i].1 <= 5);
    } else {
        assert(r.push((device, stars as int)).drop_last() =~= r);
    }
}

} // verus!
