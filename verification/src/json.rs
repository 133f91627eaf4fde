//! A JSON document as the settings-file logic sees it.
use vstd::prelude::*;
use crate::text::{all_digits, chars_of, digits_value, parse_i64, parse_i64_spec, parse_u64, str_eq};

verus! {

/// A JSON value. Numbers are kept as their text; objects keep their members in order.
#[derive(Debug, PartialEq)]
pub enum JsonValue {
    Null,
    Bool(bool),
    Number(String),
    Str(String),
    Array(Vec<JsonValue>),
    Object(Vec<(String, JsonValue)>),
}

/// The mathematical form of a JSON value.
pub enum Json {
    Null,
    Bool(bool),
    Number(Seq<char>),
    Str(Seq<char>),
    Array(Seq<Json>),
    Object(Seq<(Seq<char>, Json)>),
}

pub open spec fn json_of(v: JsonValue) -> Json
    decreases v,
{
    match v {
        JsonValue::Null => Json::Null,
        JsonValue::Bool(b) => Json::Bool(b),
        JsonValue::Number(n) => Json::Number(n@),
        JsonValue::Str(s) => Json::Str(s@),
        JsonValue::Array(a) => Json::Array(
            Seq::new(
                a@.len(),
                |i: int|
                    if 0 <= i < a@.len() {
                        json_of(a@[i])
                    } else {
                        Json::Null
                    },
            ),
        ),
        JsonValue::Object(f) => Json::Object(
            Seq::new(
                f@.len(),
                |i: int|
                    if 0 <= i < f@.len() {
                        (f@[i].0@, json_of(f@[i].1))
                    } else {
                        (Seq::empty(), Json::Null)
                    },
            ),
        ),
    }
}


/// The values of a sequence of JSON values.
pub open spec fn jsons(v: Seq<JsonValue>) -> Seq<Json> {
    Seq::new(v.len(), |i: int| json_of(v[i]))
}

/// The members of an object, with their values.
pub open spec fn members(f: Seq<(String, JsonValue)>) -> Seq<(Seq<char>, Json)> {
    Seq::new(f.len(), |i: int| (f[i].0@, json_of(f[i].1)))
}

pub proof fn lemma_json_of_array(a: Vec<JsonValue>)
    ensures
        json_of(JsonValue::Array(a)) == Json::Array(jsons(a@)),
{
    match json_of(JsonValue::Array(a)) {
        Json::Array(s) => {
            assert(s.len() == a@.len());
            assert forall|i: int| 0 <= i < s.len() implies s[i] == jsons(a@)[i] by {}
            assert(s =~= jsons(a@));
        },
        _ => {},
    }
}

pub proof fn lemma_json_of_object(f: Vec<(String, JsonValue)>)
    ensures
        json_of(JsonValue::Object(f)) == Json::Object(members(f@)),
{
    match json_of(JsonValue::Object(f)) {
        Json::Object(s) => {
            assert(s.len() == f@.len());
            assert forall|i: int| 0 <= i < s.len() implies s[i] == members(f@)[i] by {}
            assert(s =~= members(f@));
        },
        _ => {},
    }
}

/// Index of the first member named `k`, or -1.
pub open spec fn key_index(f: Seq<(Seq<char>, Json)>, k: Seq<char>) -> int
    decreases f.len(),
{
    if f.len() == 0 {
        -1
    } else if f[0].0 == k {
        0
    } else {
        let r = key_index(f.drop_first(), k);
        if r < 0 {
            -1
        } else {
            r + 1
        }
    }
}

/// The value of member `k` (`Map::get`).
pub open spec fn get_field(f: Seq<(Seq<char>, Json)>, k: Seq<char>) -> Option<Json> {
    let i = key_index(f, k);
    if i < 0 {
        None
    } else {
        Some(f[i].1)
    }
}

/// `Map::insert`: replaces the value of member `k`, or adds the member.
pub open spec fn set_field(f: Seq<(Seq<char>, Json)>, k: Seq<char>, v: Json) -> Seq<(Seq<char>, Json)> {
    let i = key_index(f, k);
    if i < 0 {
        f.push((k, v))
    } else {
        f.update(i, (k, v))
    }
}

/// `Value::get` with a string index: the member of an object, `None` otherwise.
pub open spec fn json_get(j: Json, k: Seq<char>) -> Option<Json> {
    match j {
        Json::Object(f) => get_field(f, k),
        _ => None,
    }
}

pub proof fn lemma_key_index(f: Seq<(Seq<char>, Json)>, k: Seq<char>, i: int)
    requires
        0 <= i <= f.len(),
        forall|j: int| 0 <= j < i ==> f[j].0 != k,
    ensures
        i < f.len() && f[i].0 == k ==> key_index(f, k) == i,
        i == f.len() ==> key_index(f, k) == -1,
    decreases i,
{
    if i > 0 {
        lemma_key_index(f.drop_first(), k, i - 1);
    }
}

pub proof fn lemma_key_index_bounds(f: Seq<(Seq<char>, Json)>, k: Seq<char>)
    ensures
        -1 <= key_index(f, k) < f.len(),
        key_index(f, k) >= 0 ==> f[key_index(f, k)].0 == k,
        forall|j: int| 0 <= j < key_index(f, k) ==> f[j].0 != k,
        key_index(f, k) == -1 ==> forall|j: int| 0 <= j < f.len() ==> f[j].0 != k,
    decreases f.len(),
{
    if f.len() > 0 && f[0].0 != k {
        lemma_key_index_bounds(f.drop_first(), k);
        assert forall|j: int| 0 <= j < key_index(f, k) implies f[j].0 != k by {
            if j > 0 {
                assert(f[j] == f.drop_first()[j - 1]);
            }
        }
        if key_index(f, k) == -1 {
            assert forall|j: int| 0 <= j < f.len() implies f[j].0 != k by {
                if j > 0 {
                    assert(f[j] == f.drop_first()[j - 1]);
                }
            }
        }
    }
}

/// After `set_field`, member `k` holds `v` and every other member is as it was.
pub proof fn lemma_set_field(f: Seq<(Seq<char>, Json)>, k: Seq<char>, v: Json, k2: Seq<char>)
    ensures
        get_field(set_field(f, k, v), k) == Some(v),
        k2 != k ==> get_field(set_field(f, k, v), k2) == get_field(f, k2),
        key_index(f, k) >= 0 ==> key_index(set_field(f, k, v), k) == key_index(f, k),
{
    let g = set_field(f, k, v);
    lemma_key_index_bounds(f, k);
    lemma_key_index_bounds(f, k2);
    let i = key_index(f, k);
    if i < 0 {
        assert forall|j: int| 0 <= j < f.len() implies g[j].0 != k by {
            assert(g[j] == f[j]);
        }
        lemma_key_index(g, k, f.len() as int);
    } else {
        assert forall|j: int| 0 <= j < i implies g[j].0 != k by {
            assert(g[j] == f[j]);
        }
        lemma_key_index(g, k, i);
    }
    if k2 != k {
        let i2 = key_index(f, k2);
        if i2 < 0 {
            assert forall|j: int| 0 <= j < g.len() implies g[j].0 != k2 by {
                if j < f.len() {
                    if j != i {
                        assert(g[j] == f[j]);
                    }
                }
            }
            lemma_key_index(g, k2, g.len() as int);
        } else {
            assert forall|j: int| 0 <= j < i2 implies g[j].0 != k2 by {
                if j != i {
                    assert(g[j] == f[j]);
                }
            }
            assert(g[i2] == f[i2]);
            lemma_key_index(g, k2, i2);
        }
    }
}

/// Setting a member to the value it already has changes nothing.
pub proof fn lemma_set_field_same(f: Seq<(Seq<char>, Json)>, k: Seq<char>, v: Json)
    requires
        get_field(f, k) == Some(v),
    ensures
        set_field(f, k, v) == f,
{
    lemma_key_index_bounds(f, k);
    let i = key_index(f, k);
    assert(f.update(i, (k, v)) =~= f);
}

/// Index of member `key`, searched by name.
pub fn find_member(f: &Vec<(String, JsonValue)>, key: &str) -> (r: Option<usize>)
    ensures
        match r {
            Some(i) => i < f@.len() && key_index(members(f@), key@) == i,
            None => key_index(members(f@), key@) == -1,
        },
{
    let ghost m = members(f@);
    let mut i: usize = 0;
    while i < f.len()
        invariant
            i <= f@.len(),
            m == members(f@),
            forall|j: int| 0 <= j < i ==> m[j].0 != key@,
        decreases f@.len() - i,
    {
        if str_eq(f[i].0.as_str(), key) {
            proof {
                lemma_key_index(m, key@, i as int);
            }
            return Some(i);
        }
        i = i + 1;
    }
    proof {
        lemma_key_index(m, key@, i as int);
    }
    None
}

/// `Value::get` with a string index.
pub fn get<'a>(v: &'a JsonValue, key: &str) -> (r: Option<&'a JsonValue>)
    ensures
        match r {
            Some(x) => json_get(json_of(*v), key@) == Some(json_of(*x)),
            None => json_get(json_of(*v), key@) is None,
        },
{
    match v {
        JsonValue::Object(f) => {
            proof {
                lemma_json_of_object(*f);
            }
            match find_member(f, key) {
                Some(i) => Some(&f[i].1),
                None => None,
            }
        },
        _ => None,
    }
}

/// `Map::insert` on an object's members: replaces the member named `key` in place, or
/// appends it.
pub fn insert_member(f: &mut Vec<(String, JsonValue)>, key: String, v: JsonValue)
    ensures
        members(final(f)@) == set_field(members(old(f)@), key@, json_of(v)),
{
    let ghost k = key@;
    let ghost jv = json_of(v);
    match find_member(f, key.as_str()) {
        Some(i) => {
            f.set(i, (key, v));
            assert(members(f@) =~= members(old(f)@).update(i as int, (k, jv)));
        },
        None => {
            f.push((key, v));
            assert(members(f@) =~= members(old(f)@).push((k, jv)));
        },
    }
}


/// `Value::get` on an optional value.
pub open spec fn opt_get(j: Option<Json>, k: Seq<char>) -> Option<Json> {
    match j {
        Some(v) => json_get(v, k),
        None => None,
    }
}

/// `Value::as_str`.
pub open spec fn opt_str(j: Option<Json>) -> Option<Seq<char>> {
    match j {
        Some(Json::Str(s)) => Some(s),
        _ => None,
    }
}

/// `Value::as_bool`.
pub open spec fn opt_bool(j: Option<Json>) -> Option<bool> {
    match j {
        Some(Json::Bool(b)) => Some(b),
        _ => None,
    }
}

/// `Value::as_u64`: a number written as a nonnegative integer that fits.
pub open spec fn opt_u64(j: Option<Json>) -> Option<u64> {
    match j {
        Some(Json::Number(t)) => if t.len() > 0 && all_digits(t) && digits_value(t) <= u64::MAX {
            Some(digits_value(t) as u64)
        } else {
            None
        },
        _ => None,
    }
}

/// An optional text, or `d` when it is absent (`unwrap_or`).
pub open spec fn or_else(o: Option<Seq<char>>, d: Seq<char>) -> Seq<char> {
    match o {
        Some(s) => s,
        None => d,
    }
}

/// `body[a][k].as_str()`.
pub open spec fn str_at(b: Json, a: Seq<char>, k: Seq<char>) -> Option<Seq<char>> {
    opt_str(opt_get(json_get(b, a), k))
}

pub open spec fn opt_json(v: Option<&JsonValue>) -> Option<Json> {
    match v {
        Some(x) => Some(json_of(*x)),
        None => None,
    }
}

/// `Value::get` on an optional value.
pub fn get_opt<'a>(v: Option<&'a JsonValue>, key: &str) -> (r: Option<&'a JsonValue>)
    ensures
        opt_json(r) == opt_get(opt_json(v), key@),
{
    match v {
        Some(x) => get(x, key),
        None => None,
    }
}

/// `Value::as_str`.
pub fn as_str(v: Option<&JsonValue>) -> (r: Option<&str>)
    ensures
        match r {
            Some(s) => opt_str(opt_json(v)) == Some(s@),
            None => opt_str(opt_json(v)) is None,
        },
{
    match v {
        Some(JsonValue::Str(s)) => Some(s.as_str()),
        _ => None,
    }
}

/// `Value::as_bool`.
pub fn as_bool(v: Option<&JsonValue>) -> (r: Option<bool>)
    ensures
        r == opt_bool(opt_json(v)),
{
    match v {
        Some(JsonValue::Bool(b)) => Some(*b),
        _ => None,
    }
}

/// `Value::as_u64`.
pub fn as_u64(v: Option<&JsonValue>) -> (r: Option<u64>)
    ensures
        r == opt_u64(opt_json(v)),
{
    match v {
        Some(JsonValue::Number(t)) => {
            let cs = chars_of(t.as_str());
            if cs.len() > 0 && cs[0] == '+' {
                None
            } else {
                let r = parse_u64(cs.as_slice());
                proof {
                    if cs@.len() > 0 && all_digits(cs@) {
                        assert('0' <= cs@[0] <= '9');
                    }
                }
                r
            }
        },
        _ => None,
    }
}


/// `Value::as_i64`: a number written as an integer (no `+`) that fits.
pub open spec fn opt_i64(j: Option<Json>) -> Option<i64> {
    match j {
        Some(Json::Number(t)) => if t.len() > 0 && t[0] == '+' {
            None
        } else {
            parse_i64_spec(t)
        },
        _ => None,
    }
}

/// `Value::as_i64`.
pub fn as_i64(v: Option<&JsonValue>) -> (r: Option<i64>)
    ensures
        r == opt_i64(opt_json(v)),
{
    match v {
        Some(JsonValue::Number(t)) => {
            let cs = chars_of(t.as_str());
            if cs.len() > 0 && cs[0] == '+' {
                None
            } else {
                parse_i64(cs.as_slice())
            }
        },
        _ => None,
    }
}

/// `value[0]`: the first item of an array.
pub open spec fn opt_first(j: Option<Json>) -> Option<Json> {
    match j {
        Some(Json::Array(items)) => if items.len() > 0 {
            Some(items[0])
        } else {
            None
        },
        _ => None,
    }
}

/// `value[0]` on an optional value.
pub fn first_item<'a>(v: Option<&'a JsonValue>) -> (r: Option<&'a JsonValue>)
    ensures
        opt_json(r) == opt_first(opt_json(v)),
{
    match v {
        Some(JsonValue::Array(items)) => {
            proof {
                lemma_json_of_array(*items);
            }
            if items.len() > 0 {
                Some(&items[0])
            } else {
                None
            }
        },
        _ => None,
    }
}

} // verus!
