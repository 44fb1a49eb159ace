use vstd::prelude::*;

verus! {

/// A JSON document, modelled with plain values only.
///
/// Numbers are kept in two forms: `Int` carries a number that is exactly
/// an `i64`; `Float` carries any other JSON number as its decimal text,
/// so that no floating-point value enters the verified code. Objects are
/// ordered lists of key/value pairs with the keys as given by the parser.
#[derive(Debug, PartialEq)]
pub enum JsonValue {
    Null,
    Bool(bool),
    Int(i64),
    Float(String),
    Str(String),
    Arr(Vec<JsonValue>),
    Obj(Vec<(String, JsonValue)>),
}

#[verifier::external_type_specification]
#[verifier::external_body]
pub struct ExSerdeValue(serde_json::Value);

/// The JSON document denoted by a text, if the text is well-formed JSON.
pub uninterp spec fn json_doc_of(s: Seq<char>) -> Option<JsonValue>;

/// The i64 that a JSON number text yields when it is read as a double
/// and truncated toward zero, saturating at the i64 bounds.
pub uninterp spec fn f64_trunc_of(s: Seq<char>) -> i64;

/// Relies on serde_json::Number and the float-to-integer cast: reading a
/// number text as a double and truncating it toward zero depends on the
/// text alone.
#[verifier::external_body]
pub fn number_text_trunc_i64(t: &str) -> (r: i64)
    ensures
        r == f64_trunc_of(t@),
{
    t.parse::<serde_json::Number>().ok().and_then(|n| n.as_f64()).map(|x| x as i64).unwrap_or(0)
}

/// Relies on serde_json::from_str: parsing a text into a JSON document is
/// a pure function of the text; malformed input gives `None`.
#[verifier::external_body]
pub fn parse_json(s: &str) -> (r: Option<JsonValue>)
    ensures
        r == json_doc_of(s@),
{
    match serde_json::from_str::<serde_json::Value>(s) {
        Ok(v) => Some(from_serde(v)),
        Err(_) => None,
    }
}

/// Relies on serde_json::Value and serde_json::Number: maps each variant of
/// the parsed value one for one onto the library's own model; a number is
/// an `Int` exactly when serde_json holds it as an `i64`, and keeps its
/// decimal text otherwise.
#[verifier::external_body]
fn from_serde(v: serde_json::Value) -> JsonValue {
    match v {
        serde_json::Value::Null => JsonValue::Null,
        serde_json::Value::Bool(b) => JsonValue::Bool(b),
        serde_json::Value::Number(n) => match n.as_i64() {
            Some(i) => JsonValue::Int(i),
            None => JsonValue::Float(n.to_string()),
        },
        serde_json::Value::String(s) => JsonValue::Str(s),
        serde_json::Value::Array(a) => JsonValue::Arr(a.into_iter().map(from_serde).collect()),
        serde_json::Value::Object(o) => JsonValue::Obj(
            o.into_iter().map(|(k, w)| (k, from_serde(w))).collect(),
        ),
    }
}

/// The value under `key` in an object's pair list: the first pair whose
/// key reads as `key`, if any.
pub open spec fn spec_obj_get(pairs: Seq<(String, JsonValue)>, key: Seq<char>) -> Option<JsonValue>
    decreases pairs.len(),
{
    if pairs.len() == 0 {
        None
    } else if pairs[0].0@ == key {
        Some(pairs[0].1)
    } else {
        spec_obj_get(pairs.drop_first(), key)
    }
}

/// Looks a key up in an object's pair list.
pub fn obj_get<'a>(pairs: &'a Vec<(String, JsonValue)>, key: &str) -> (r: Option<&'a JsonValue>)
    ensures
        match r {
            Some(v) => spec_obj_get(pairs@, key@) == Some(*v),
            None => spec_obj_get(pairs@, key@) is None,
        },
{
    let k = key.to_owned();
    let n = pairs.len();
    proof {
        assert(pairs@.skip(0) =~= pairs@);
    }
    for i in 0..n
        invariant
            n == pairs@.len(),
            k@ == key@,
            spec_obj_get(pairs@, key@) == spec_obj_get(pairs@.skip(i as int), key@),
    {
        if pairs[i].0 == k {
            assert(pairs@.skip(i as int)[0] == pairs@[i as int]);
            return Some(&pairs[i].1);
        }
        proof {
            assert(pairs@.skip(i as int).drop_first() =~= pairs@.skip(i + 1));
            assert(pairs@.skip(i as int)[0] == pairs@[i as int]);
        }
    }
    proof {
        assert(pairs@.skip(n as int).len() == 0);
    }
    None
}

} // verus!
