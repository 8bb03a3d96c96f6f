//! The JSON value model that the structured-data walker traverses. Every
//! `<script type="application/ld+json">` block is parsed by serde_json
//! behind a trusted wrapper and converted, variant for variant, into
//! [`Json`]; the recursive traversal itself is verified code over this
//! model.

use vstd::prelude::*;
use crate::text::str_eq;

verus! {

/// A parsed JSON value, as the structured-data walker reads it. Strings,
/// booleans and structure are kept; a number is kept only as a marker,
/// since no extraction rule reads a numeric value. Object members keep
/// the order in which the parser hands them out.
pub enum Json {
    Null,
    Bool(bool),
    Number,
    Text(String),
    Array(Vec<Json>),
    Object(Vec<(String, Json)>),
}

/// Whether serde_json parses the string as one JSON document.
pub uninterp spec fn json_parse_ok(s: Seq<char>) -> bool;

/// The JSON value that serde_json parses out of the string, in this
/// library's model (numbers blanked, object members in the parser's
/// order).
pub uninterp spec fn json_of(s: Seq<char>) -> Json;

#[verifier::external_type_specification]
#[verifier::external_body]
pub struct ExValue(serde_json::Value);

/// Converts a serde_json value into the library's model, one arm per
/// variant; the numeric payload is dropped.
#[verifier::external_body]
fn conv_json(v: &serde_json::Value) -> Json {
    match v {
        serde_json::Value::Null => Json::Null,
        serde_json::Value::Bool(b) => Json::Bool(*b),
        serde_json::Value::Number(_) => Json::Number,
        serde_json::Value::String(s) => Json::Text(s.clone()),
        serde_json::Value::Array(a) => Json::Array(a.iter().map(conv_json).collect()),
        serde_json::Value::Object(m) => Json::Object(
            m.iter().map(|(k, x)| (k.clone(), conv_json(x))).collect(),
        ),
    }
}

/// Relies on `serde_json::from_str`: parses one JSON document; a block
/// that is not valid JSON is refused, never fatal.
#[verifier::external_body]
pub fn parse_json(s: &str) -> (r: Option<Json>)
    ensures
        r is Some <==> json_parse_ok(s@),
        r matches Some(j) ==> j == json_of(s@),
{
    match serde_json::from_str::<serde_json::Value>(s) {
        Ok(v) => Some(conv_json(&v)),
        Err(_) => None,
    }
}

/// The value of the first member of an object with the given key, if
/// any; JSON objects out of serde_json have unique keys, so this is the
/// member lookup.
pub open spec fn obj_get(m: Seq<(String, Json)>, k: Seq<char>) -> Option<Json>
    decreases m.len(),
{
    if m.len() == 0 {
        None
    } else if m[0].0@ == k {
        Some(m[0].1)
    } else {
        obj_get(m.drop_first(), k)
    }
}

/// Looks a key up among an object's members.
pub fn json_get<'a>(m: &'a Vec<(String, Json)>, k: &str) -> (r: Option<&'a Json>)
    ensures
        match r {
            Some(j) => obj_get(m@, k@) == Some(*j),
            None => obj_get(m@, k@) is None,
        },
{
    let n = m.len();
    let mut i: usize = 0;
    proof {
        assert(m@.skip(0) =~= m@);
    }
    while i < n
        invariant
            i <= n,
            n == m@.len(),
            obj_get(m@, k@) == obj_get(m@.skip(i as int), k@),
        decreases n - i,
    {
        proof {
            let t = m@.skip(i as int);
            assert(t[0] == m@[i as int]);
            assert(t.drop_first() =~= m@.skip(i as int + 1));
        }
        if str_eq(m[i].0.as_str(), k) {
            return Some(&m[i].1);
        }
        i += 1;
    }
    None
}

/// Whether the value is the given text.
pub open spec fn json_text_is(j: Json, t: Seq<char>) -> bool {
    match j {
        Json::Text(s) => s@ == t,
        _ => false,
    }
}

/// Whether an object's `@type` member names the given type: either as the
/// type string itself or as one element of a type array.
pub open spec fn spec_is_type(m: Seq<(String, Json)>, t: Seq<char>) -> bool {
    match obj_get(m, "@type"@) {
        Some(Json::Text(s)) => s@ == t,
        Some(Json::Array(a)) => exists|i: int|
            0 <= i < a@.len() && json_text_is(#[trigger] a@[i], t),
        _ => false,
    }
}

/// Whether the value is a text that mentions `t` as a substring.
pub open spec fn json_text_mentions(j: Json, t: Seq<char>) -> bool {
    match j {
        Json::Text(s) => crate::strops::spec_contains(s@, t),
        _ => false,
    }
}

/// Whether an object's `@type` mentions the given type: as a substring
/// of the type string, or as a substring of one element of a type
/// array.
pub open spec fn spec_type_mentions(m: Seq<(String, Json)>, t: Seq<char>) -> bool {
    match obj_get(m, "@type"@) {
        Some(Json::Text(s)) => crate::strops::spec_contains(s@, t),
        Some(Json::Array(a)) => exists|i: int|
            0 <= i < a@.len() && json_text_mentions(#[trigger] a@[i], t),
        _ => false,
    }
}

/// Decides whether an object's `@type` mentions the given type.
pub fn type_mentions(m: &Vec<(String, Json)>, t: &str) -> (r: bool)
    ensures
        r == spec_type_mentions(m@, t@),
{
    let g = json_get(m, "@type");
    proof {
        if g is Some {
            assert(obj_get(m@, "@type"@) == Some(*g->Some_0));
        }
    }
    match g {
        Some(Json::Text(s)) => crate::strops::str_contains(s.as_str(), t),
        Some(Json::Array(a)) => {
            proof {
                assert(obj_get(m@, "@type"@) == Some(Json::Array(*a)));
            }
            let n = a.len();
            let mut i: usize = 0;
            while i < n
                invariant
                    i <= n,
                    n == a@.len(),
                    obj_get(m@, "@type"@) == Some(Json::Array(*a)),
                    forall|j: int| 0 <= j < i ==> !json_text_mentions(#[trigger] a@[j], t@),
                decreases n - i,
            {
                match &a[i] {
                    Json::Text(s) => {
                        if crate::strops::str_contains(s.as_str(), t) {
                            proof {
                                assert(json_text_mentions(a@[i as int], t@));
                                let oj = obj_get(m@, "@type"@);
                                let jv = oj->Some_0;
                                assert(jv->Array_0@ == a@);
                                assert(exists|k: int|
                                    0 <= k < jv->Array_0@.len() && json_text_mentions(
                                        #[trigger] jv->Array_0@[k],
                                        t@,
                                    ));
                                assert(spec_type_mentions(m@, t@));
                            }
                            return true;
                        }
                    },
                    _ => {},
                }
                i += 1;
            }
            false
        },
        _ => false,
    }
}

/// Decides whether an object's `@type` names the given type.
pub fn is_type(m: &Vec<(String, Json)>, t: &str) -> (r: bool)
    ensures
        r == spec_is_type(m@, t@),
{
    let g = json_get(m, "@type");
    proof {
        if g is Some {
            assert(obj_get(m@, "@type"@) == Some(*g->Some_0));
        }
    }
    match g {
        Some(Json::Text(s)) => str_eq(s.as_str(), t),
        Some(Json::Array(a)) => {
            proof {
                assert(obj_get(m@, "@type"@) == Some(Json::Array(*a)));
            }
            let n = a.len();
            let mut i: usize = 0;
            while i < n
                invariant
                    i <= n,
                    n == a@.len(),
                    obj_get(m@, "@type"@) == Some(Json::Array(*a)),
                    forall|j: int| 0 <= j < i ==> !json_text_is(#[trigger] a@[j], t@),
                decreases n - i,
            {
                match &a[i] {
                    Json::Text(s) => {
                        if str_eq(s.as_str(), t) {
                            proof {
                                assert(json_text_is(a@[i as int], t@));
                                let oj = obj_get(m@, "@type"@);
                                assert(oj is Some);
                                let jv = oj->Some_0;
                                assert(jv is Array);
                                assert(jv->Array_0 == *a);
                                assert(jv->Array_0@ == a@);
                                assert(exists|k: int|
                                    0 <= k < jv->Array_0@.len() && json_text_is(
                                        #[trigger] jv->Array_0@[k],
                                        t@,
                                    ));
                                assert(spec_is_type(m@, t@));
                            }
                            return true;
                        }
                    },
                    _ => {},
                }
                i += 1;
            }
            false
        },
        _ => false,
    }
}

} // verus!
