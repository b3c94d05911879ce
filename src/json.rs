use vstd::prelude::*;

use crate::text::{chars_eq, chars_of};

verus! {

/// A value parsed by `serde_json`, copied at once into `Json`.
#[verifier::external_type_specification]
#[verifier::external_body]
pub struct ExJsonValue(serde_json::Value);

/// A JSON value, as far as the tool's report is read: a number keeps its
/// value as a `u64` and as an `i64`, each when it is an integer that fits.
pub enum Json {
    Null,
    Bool(bool),
    Number(Option<u64>, Option<i64>),
    Str(String),
    Array(Vec<Json>),
    Object(Vec<(String, Json)>),
}

/// The value that a JSON text denotes, or `None` when the text is not JSON.
pub uninterp spec fn parsed_json(s: Seq<char>) -> Option<Json>;

/// Relies on the variants of `serde_json::Value` and on
/// `serde_json::Number::as_u64` and `as_i64`: copies a value into the library's own
/// model, member by member in the map's order.
#[verifier::external_body]
fn json_from_value(v: &serde_json::Value) -> Json {
    match v {
        serde_json::Value::Null => Json::Null,
        serde_json::Value::Bool(b) => Json::Bool(*b),
        serde_json::Value::Number(n) => Json::Number(n.as_u64(), n.as_i64()),
        serde_json::Value::String(s) => Json::Str(s.clone()),
        serde_json::Value::Array(a) => Json::Array(a.iter().map(json_from_value).collect()),
        serde_json::Value::Object(m) => Json::Object(
            m.iter().map(|(k, x)| (k.clone(), json_from_value(x))).collect(),
        ),
    }
}

/// Relies on `serde_json::from_str` into a `serde_json::Value`: the parse
/// depends on the text alone, and fails on text that is not JSON.
#[verifier::external_body]
pub(crate) fn parse_json(s: &str) -> (r: Option<Json>)
    ensures
        r == parsed_json(s@),
{
    serde_json::from_str::<serde_json::Value>(s).ok().map(|v| json_from_value(&v))
}

/// Value of the first entry named `key` among `entries`.
pub open spec fn entry_value(entries: Seq<(String, Json)>, key: Seq<char>) -> Option<Json>
    decreases entries.len(),
{
    if entries.len() == 0 {
        None
    } else if entries[0].0@ == key {
        Some(entries[0].1)
    } else {
        entry_value(entries.drop_first(), key)
    }
}

/// The integer that a JSON value holds, if it is an integer number.
pub open spec fn integer_of(j: Json) -> Option<int> {
    match j {
        Json::Number(Some(u), _) => Some(u as int),
        Json::Number(None, Some(i)) => Some(i as int),
        _ => None,
    }
}

/// Member `key` of an object; nothing for any other value.
pub open spec fn json_get(j: Json, key: Seq<char>) -> Option<Json> {
    match j {
        Json::Object(es) => entry_value(es@, key),
        _ => None,
    }
}

impl Json {
    /// Member `key` of this value when it is an object.
    pub fn get(&self, key: &str) -> (r: Option<&Json>)
        ensures
            match r {
                Some(v) => json_get(*self, key@) == Some(*v),
                None => json_get(*self, key@) is None,
            },
    {
        match self {
            Json::Object(es) => {
                let k = chars_of(key);
                let len = es.len();
                let mut i: usize = 0;
                proof {
                    assert(es@.subrange(0, len as int) =~= es@);
                }
                while i < len
                    invariant
                        i <= len,
                        len == es@.len(),
                        k@ == key@,
                        json_get(*self, key@) == entry_value(es@, key@),
                        entry_value(es@.subrange(i as int, len as int), key@) == entry_value(
                            es@,
                            key@,
                        ),
                    decreases len - i,
                {
                    let e = &es[i];
                    proof {
                        assert(es@.subrange(i as int, len as int).drop_first() =~= es@.subrange(
                            i + 1,
                            len as int,
                        ));
                    }
                    let name = chars_of(e.0.as_str());
                    if chars_eq(&name, &k) {
                        assert(es@.subrange(i as int, len as int)[0] == es@[i as int]);
                        return Some(&e.1);
                    }
                    i += 1;
                }
                None
            },
            _ => None,
        }
    }
}

} // verus!
