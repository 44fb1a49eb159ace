use vstd::prelude::*;

use crate::json_value::{obj_get, spec_obj_get, JsonValue};
use crate::schema::spec_strings_of;
use crate::text::str_eq;

verus! {

/// A scalar taken from a JSON value: a text, an integer, another number
/// kept as its decimal text, or anything else.
#[derive(Debug)]
pub enum ScalarVal {
    S(String),
    I(i64),
    F(String),
    Other,
}

/// The mathematical content of a `ScalarVal`.
pub ghost enum ScalarValV {
    S(Seq<char>),
    I(i64),
    F(Seq<char>),
    Other,
}

impl View for ScalarVal {
    type V = ScalarValV;

    open spec fn view(&self) -> ScalarValV {
        match self {
            ScalarVal::S(s) => ScalarValV::S(s@),
            ScalarVal::I(i) => ScalarValV::I(*i),
            ScalarVal::F(t) => ScalarValV::F(t@),
            ScalarVal::Other => ScalarValV::Other,
        }
    }
}

/// The scalar content of a JSON value.
pub open spec fn spec_scalar_of(j: JsonValue) -> ScalarValV {
    match j {
        JsonValue::Str(s) => ScalarValV::S(s@),
        JsonValue::Int(i) => ScalarValV::I(i),
        JsonValue::Float(t) => ScalarValV::F(t@),
        _ => ScalarValV::Other,
    }
}

/// Reads the scalar content of a JSON value.
pub fn scalar_of(j: &JsonValue) -> (r: ScalarVal)
    ensures
        r@ == spec_scalar_of(*j),
{
    match j {
        JsonValue::Str(s) => ScalarVal::S(s.clone()),
        JsonValue::Int(i) => ScalarVal::I(*i),
        JsonValue::Float(t) => ScalarVal::F(t.clone()),
        _ => ScalarVal::Other,
    }
}

/// One query of the JSON query DSL, as a tagged union. Every variant
/// carries `limit` and `offset`; only the top-level query's pair is
/// consulted when a query runs.
#[derive(Debug)]
pub enum QueryDef {
    Text { query: String, fields: Vec<String>, limit: usize, offset: usize },
    Fuzzy { term: String, distance: u8, fields: Vec<String>, limit: usize, offset: usize },
    Phrase { phrase: String, fields: Vec<String>, limit: usize, offset: usize },
    Prefix { prefix: String, fields: Vec<String>, limit: usize, offset: usize },
    TermMatch { field: String, value: ScalarVal, limit: usize, offset: usize },
    RangeI64 { field: String, min: Option<i64>, max: Option<i64>, limit: usize, offset: usize },
    RangeF64 {
        field: String,
        min: Option<ScalarVal>,
        max: Option<ScalarVal>,
        limit: usize,
        offset: usize,
    },
    Bool {
        must: Vec<QueryDef>,
        should: Vec<QueryDef>,
        must_not: Vec<QueryDef>,
        limit: usize,
        offset: usize,
    },
    All { limit: usize, offset: usize },
}

/// The mathematical content of a `QueryDef`.
pub ghost enum QueryDefV {
    Text { query: Seq<char>, fields: Seq<Seq<char>>, limit: usize, offset: usize },
    Fuzzy {
        term: Seq<char>,
        distance: u8,
        fields: Seq<Seq<char>>,
        limit: usize,
        offset: usize,
    },
    Phrase { phrase: Seq<char>, fields: Seq<Seq<char>>, limit: usize, offset: usize },
    Prefix { prefix: Seq<char>, fields: Seq<Seq<char>>, limit: usize, offset: usize },
    TermMatch { field: Seq<char>, value: ScalarValV, limit: usize, offset: usize },
    RangeI64 {
        field: Seq<char>,
        min: Option<i64>,
        max: Option<i64>,
        limit: usize,
        offset: usize,
    },
    RangeF64 {
        field: Seq<char>,
        min: Option<ScalarValV>,
        max: Option<ScalarValV>,
        limit: usize,
        offset: usize,
    },
    Bool {
        must: Seq<QueryDefV>,
        should: Seq<QueryDefV>,
        must_not: Seq<QueryDefV>,
        limit: usize,
        offset: usize,
    },
    All { limit: usize, offset: usize },
}

/// The mathematical contents of a list of queries, in order.
pub open spec fn views_of(qs: Seq<QueryDef>) -> Seq<QueryDefV>
    decreases qs, 1int,
{
    if qs.len() == 0 {
        Seq::empty()
    } else {
        views_of(qs.drop_last()).push(qs.last()@)
    }
}

/// Appending a query appends its content.
pub proof fn lemma_views_of_push(qs: Seq<QueryDef>, q: QueryDef)
    ensures
        views_of(qs.push(q)) == views_of(qs).push(q@),
{
    assert(qs.push(q).drop_last() =~= qs);
    assert(qs.push(q).last() == q);
}

/// The content of a query list, element by element.
pub proof fn lemma_views_of_index(qs: Seq<QueryDef>)
    ensures
        views_of(qs).len() == qs.len(),
        forall|i: int| 0 <= i < qs.len() ==> views_of(qs)[i] == qs[i]@,
    decreases qs.len(),
{
    if qs.len() > 0 {
        lemma_views_of_index(qs.drop_last());
        assert(views_of(qs) == views_of(qs.drop_last()).push(qs.last()@));
        assert forall|i: int| 0 <= i < qs.len() implies views_of(qs)[i] == qs[i]@ by {
            if i < qs.len() - 1 {
                assert(views_of(qs)[i] == views_of(qs.drop_last())[i]);
                assert(qs.drop_last()[i] == qs[i]);
            } else {
                assert(views_of(qs)[i] == qs.last()@);
            }
        }
    }
}

impl View for QueryDef {
    type V = QueryDefV;

    open spec fn view(&self) -> QueryDefV
        decreases self, 0int,
    {
        match self {
            QueryDef::Text { query, fields, limit, offset } => QueryDefV::Text {
                query: query@,
                fields: fields@.map_values(|s: String| s@),
                limit: *limit,
                offset: *offset,
            },
            QueryDef::Fuzzy { term, distance, fields, limit, offset } => QueryDefV::Fuzzy {
                term: term@,
                distance: *distance,
                fields: fields@.map_values(|s: String| s@),
                limit: *limit,
                offset: *offset,
            },
            QueryDef::Phrase { phrase, fields, limit, offset } => QueryDefV::Phrase {
                phrase: phrase@,
                fields: fields@.map_values(|s: String| s@),
                limit: *limit,
                offset: *offset,
            },
            QueryDef::Prefix { prefix, fields, limit, offset } => QueryDefV::Prefix {
                prefix: prefix@,
                fields: fields@.map_values(|s: String| s@),
                limit: *limit,
                offset: *offset,
            },
            QueryDef::TermMatch { field, value, limit, offset } => QueryDefV::TermMatch {
                field: field@,
                value: value@,
                limit: *limit,
                offset: *offset,
            },
            QueryDef::RangeI64 { field, min, max, limit, offset } => QueryDefV::RangeI64 {
                field: field@,
                min: *min,
                max: *max,
                limit: *limit,
                offset: *offset,
            },
            QueryDef::RangeF64 { field, min, max, limit, offset } => QueryDefV::RangeF64 {
                field: field@,
                min: match min {
                    Some(v) => Some(v@),
                    None => None,
                },
                max: match max {
                    Some(v) => Some(v@),
                    None => None,
                },
                limit: *limit,
                offset: *offset,
            },
            QueryDef::Bool { must, should, must_not, limit, offset } => QueryDefV::Bool {
                must: views_of(must@),
                should: views_of(should@),
                must_not: views_of(must_not@),
                limit: *limit,
                offset: *offset,
            },
            QueryDef::All { limit, offset } => QueryDefV::All { limit: *limit, offset: *offset },
        }
    }
}

/// The pagination limit of a query, read at its top level.
pub open spec fn spec_limit(q: QueryDefV) -> usize {
    match q {
        QueryDefV::Text { limit, .. } => limit,
        QueryDefV::Fuzzy { limit, .. } => limit,
        QueryDefV::Phrase { limit, .. } => limit,
        QueryDefV::Prefix { limit, .. } => limit,
        QueryDefV::TermMatch { limit, .. } => limit,
        QueryDefV::RangeI64 { limit, .. } => limit,
        QueryDefV::RangeF64 { limit, .. } => limit,
        QueryDefV::Bool { limit, .. } => limit,
        QueryDefV::All { limit, .. } => limit,
    }
}

/// The pagination offset of a query, read at its top level.
pub open spec fn spec_offset(q: QueryDefV) -> usize {
    match q {
        QueryDefV::Text { offset, .. } => offset,
        QueryDefV::Fuzzy { offset, .. } => offset,
        QueryDefV::Phrase { offset, .. } => offset,
        QueryDefV::Prefix { offset, .. } => offset,
        QueryDefV::TermMatch { offset, .. } => offset,
        QueryDefV::RangeI64 { offset, .. } => offset,
        QueryDefV::RangeF64 { offset, .. } => offset,
        QueryDefV::Bool { offset, .. } => offset,
        QueryDefV::All { offset, .. } => offset,
    }
}

impl QueryDef {
    /// The pagination limit of this query.
    pub fn limit(&self) -> (r: usize)
        ensures
            r == spec_limit(self@),
    {
        match self {
            QueryDef::Text { limit, .. } => *limit,
            QueryDef::Fuzzy { limit, .. } => *limit,
            QueryDef::Phrase { limit, .. } => *limit,
            QueryDef::Prefix { limit, .. } => *limit,
            QueryDef::TermMatch { limit, .. } => *limit,
            QueryDef::RangeI64 { limit, .. } => *limit,
            QueryDef::RangeF64 { limit, .. } => *limit,
            QueryDef::Bool { limit, .. } => *limit,
            QueryDef::All { limit, .. } => *limit,
        }
    }

    /// The pagination offset of this query.
    pub fn offset(&self) -> (r: usize)
        ensures
            r == spec_offset(self@),
    {
        match self {
            QueryDef::Text { offset, .. } => *offset,
            QueryDef::Fuzzy { offset, .. } => *offset,
            QueryDef::Phrase { offset, .. } => *offset,
            QueryDef::Prefix { offset, .. } => *offset,
            QueryDef::TermMatch { offset, .. } => *offset,
            QueryDef::RangeI64 { offset, .. } => *offset,
            QueryDef::RangeF64 { offset, .. } => *offset,
            QueryDef::Bool { offset, .. } => *offset,
            QueryDef::All { offset, .. } => *offset,
        }
    }
}

/// The default pagination limit.
pub const DEFAULT_LIMIT: usize = 100;

/// The default fuzzy edit distance.
pub const DEFAULT_DISTANCE: u8 = 2;

/// The largest accepted pagination number: a machine limit, since the
/// top-k collector allocates per unit of limit; larger numbers are
/// rejected as malformed.
pub const MAX_PAGE: usize = 0x7fff_ffff;

/// A non-negative page number key: the default when absent, the value
/// when an integer within bounds, nothing otherwise.
pub open spec fn spec_opt_page(
    pairs: Seq<(String, JsonValue)>,
    key: Seq<char>,
    dflt: usize,
) -> Option<usize> {
    match spec_obj_get(pairs, key) {
        None => Some(dflt),
        Some(JsonValue::Int(i)) => if 0 <= i <= MAX_PAGE as i64 {
            Some(i as usize)
        } else {
            None
        },
        Some(_) => None,
    }
}

/// An edit-distance key: the default when absent, the value when a small
/// non-negative integer, nothing otherwise.
pub open spec fn spec_opt_dist(pairs: Seq<(String, JsonValue)>, dflt: u8) -> Option<u8> {
    match spec_obj_get(pairs, "distance"@) {
        None => Some(dflt),
        Some(JsonValue::Int(i)) => if 0 <= i <= 255 {
            Some(i as u8)
        } else {
            None
        },
        Some(_) => None,
    }
}

/// An optional integer bound key: absent or null means no bound.
pub open spec fn spec_opt_i64(pairs: Seq<(String, JsonValue)>, key: Seq<char>) -> Option<
    Option<i64>,
> {
    match spec_obj_get(pairs, key) {
        None => Some(None),
        Some(JsonValue::Null) => Some(None),
        Some(JsonValue::Int(i)) => Some(Some(i)),
        Some(_) => None,
    }
}

/// An optional numeric bound key: absent or null means no bound; the
/// bound may be an integer or another number.
pub open spec fn spec_opt_num(pairs: Seq<(String, JsonValue)>, key: Seq<char>) -> Option<
    Option<ScalarValV>,
> {
    match spec_obj_get(pairs, key) {
        None => Some(None),
        Some(JsonValue::Null) => Some(None),
        Some(JsonValue::Int(i)) => Some(Some(ScalarValV::I(i))),
        Some(JsonValue::Float(t)) => Some(Some(ScalarValV::F(t@))),
        Some(_) => None,
    }
}

/// The target-field list key: absent means the empty list, otherwise an
/// array of texts.
pub open spec fn spec_opt_fields(pairs: Seq<(String, JsonValue)>) -> Option<Seq<Seq<char>>> {
    match spec_obj_get(pairs, "fields"@) {
        None => Some(Seq::empty()),
        Some(JsonValue::Arr(a)) => spec_strings_of(a@),
        Some(_) => None,
    }
}

/// A required text key.
pub open spec fn spec_req_str(pairs: Seq<(String, JsonValue)>, key: Seq<char>) -> Option<
    Seq<char>,
> {
    match spec_obj_get(pairs, key) {
        Some(JsonValue::Str(s)) => Some(s@),
        _ => None,
    }
}

/// The value an object lookup returns is part of the object.
proof fn lemma_obj_get_smaller(pairs: Seq<(String, JsonValue)>, key: Seq<char>)
    ensures
        match spec_obj_get(pairs, key) {
            Some(v) => decreases_to!(pairs => v),
            None => true,
        },
    decreases pairs.len(),
{
    if pairs.len() > 0 {
        if pairs[0].0@ == key {
            assert(decreases_to!(pairs => pairs[0]));
            assert(decreases_to!(pairs[0] => pairs[0].1));
        } else {
            lemma_obj_get_smaller(pairs.drop_first(), key);
            assert(decreases_to!(pairs => pairs.drop_first()));
        }
    }
}

/// The query described by one JSON value, if well-formed: an object
/// whose `type` key names a variant of the query DSL and whose other
/// keys fill that variant, with defaults for those absent.
pub open spec fn spec_query_def_of(j: JsonValue) -> Option<QueryDefV>
    decreases j, 2int,
{
    match j {
        JsonValue::Obj(pairs) => match spec_req_str(pairs@, "type"@) {
            Some(tag) => spec_query_body_of(pairs@, tag),
            None => None,
        },
        _ => None,
    }
}

/// The body of a tagged query object.
pub open spec fn spec_query_body_of(
    pairs: Seq<(String, JsonValue)>,
    tag: Seq<char>,
) -> Option<QueryDefV>
    decreases pairs, 1int,
{
    match (spec_opt_page(pairs, "limit"@, DEFAULT_LIMIT), spec_opt_page(pairs, "offset"@, 0)) {
        (Some(limit), Some(offset)) => if tag == "text"@ {
            match (spec_req_str(pairs, "query"@), spec_opt_fields(pairs)) {
                (Some(q), Some(fs)) => Some(
                    QueryDefV::Text { query: q, fields: fs, limit, offset },
                ),
                _ => None,
            }
        } else if tag == "fuzzy"@ {
            match (
                spec_req_str(pairs, "term"@),
                spec_opt_dist(pairs, DEFAULT_DISTANCE),
                spec_opt_fields(pairs),
            ) {
                (Some(t), Some(d), Some(fs)) => Some(
                    QueryDefV::Fuzzy { term: t, distance: d, fields: fs, limit, offset },
                ),
                _ => None,
            }
        } else if tag == "phrase"@ {
            match (spec_req_str(pairs, "phrase"@), spec_opt_fields(pairs)) {
                (Some(p), Some(fs)) => Some(
                    QueryDefV::Phrase { phrase: p, fields: fs, limit, offset },
                ),
                _ => None,
            }
        } else if tag == "prefix"@ {
            match (spec_req_str(pairs, "prefix"@), spec_opt_fields(pairs)) {
                (Some(p), Some(fs)) => Some(
                    QueryDefV::Prefix { prefix: p, fields: fs, limit, offset },
                ),
                _ => None,
            }
        } else if tag == "term_match"@ {
            match (spec_req_str(pairs, "field"@), spec_obj_get(pairs, "value"@)) {
                (Some(f), Some(v)) => Some(
                    QueryDefV::TermMatch { field: f, value: spec_scalar_of(v), limit, offset },
                ),
                _ => None,
            }
        } else if tag == "range_i64"@ {
            match (
                spec_req_str(pairs, "field"@),
                spec_opt_i64(pairs, "min"@),
                spec_opt_i64(pairs, "max"@),
            ) {
                (Some(f), Some(mn), Some(mx)) => Some(
                    QueryDefV::RangeI64 { field: f, min: mn, max: mx, limit, offset },
                ),
                _ => None,
            }
        } else if tag == "range_f64"@ {
            match (
                spec_req_str(pairs, "field"@),
                spec_opt_num(pairs, "min"@),
                spec_opt_num(pairs, "max"@),
            ) {
                (Some(f), Some(mn), Some(mx)) => Some(
                    QueryDefV::RangeF64 { field: f, min: mn, max: mx, limit, offset },
                ),
                _ => None,
            }
        } else if tag == "bool"@ {
            match (
                spec_opt_qlist(pairs, "must"@),
                spec_opt_qlist(pairs, "should"@),
                spec_opt_qlist(pairs, "must_not"@),
            ) {
                (Some(m), Some(s), Some(n)) => Some(
                    QueryDefV::Bool { must: m, should: s, must_not: n, limit, offset },
                ),
                _ => None,
            }
        } else if tag == "all"@ {
            Some(QueryDefV::All { limit, offset })
        } else {
            None
        },
        _ => None,
    }
}

/// A sub-query list key of a boolean query: absent means no clauses, an
/// array is read as a list of queries, anything else is malformed.
pub open spec fn spec_opt_qlist(pairs: Seq<(String, JsonValue)>, key: Seq<char>) -> Option<
    Seq<QueryDefV>,
>
    decreases pairs, 0int,
    via spec_opt_qlist_decreases
{
    match spec_obj_get(pairs, key) {
        None => Some(Seq::empty()),
        Some(JsonValue::Arr(a)) => spec_qlist_of(a@),
        Some(_) => None,
    }
}

#[via_fn]
proof fn spec_opt_qlist_decreases(pairs: Seq<(String, JsonValue)>, key: Seq<char>) {
    lemma_obj_get_smaller(pairs, key);
    match spec_obj_get(pairs, key) {
        Some(v) => match v {
            JsonValue::Arr(a) => {
                assert(decreases_to!(v => v->Arr_0));
                assert(decreases_to!(v->Arr_0 => v->Arr_0@));
            },
            _ => {},
        },
        None => {},
    }
}

/// The queries described by a JSON array, if each element is
/// well-formed.
pub open spec fn spec_qlist_of(arr: Seq<JsonValue>) -> Option<Seq<QueryDefV>>
    decreases arr, 3int,
{
    if arr.len() == 0 {
        Some(Seq::empty())
    } else {
        match (spec_qlist_of(arr.drop_last()), spec_query_def_of(arr.last())) {
            (Some(qs), Some(q)) => Some(qs.push(q)),
            _ => None,
        }
    }
}

/// If a prefix of the array already fails to read as queries, the whole
/// array fails.
proof fn lemma_qlist_prefix_none(arr: Seq<JsonValue>, i: int)
    requires
        0 < i <= arr.len(),
        spec_qlist_of(arr.take(i)) is None,
    ensures
        spec_qlist_of(arr) is None,
    decreases arr.len() - i,
{
    if i < arr.len() {
        assert(arr.take(i + 1).drop_last() =~= arr.take(i));
        lemma_qlist_prefix_none(arr, i + 1);
    } else {
        assert(arr.take(i) =~= arr);
    }
}

fn get_opt_page(pairs: &Vec<(String, JsonValue)>, key: &str, dflt: usize) -> (r: Result<
    usize,
    (),
>)
    ensures
        match r {
            Ok(v) => spec_opt_page(pairs@, key@, dflt) == Some(v),
            Err(_) => spec_opt_page(pairs@, key@, dflt) is None,
        },
{
    match obj_get(pairs, key) {
        None => Ok(dflt),
        Some(JsonValue::Int(i)) => {
            if 0 <= *i && *i <= MAX_PAGE as i64 {
                Ok(*i as usize)
            } else {
                Err(())
            }
        },
        Some(_) => Err(()),
    }
}

fn get_opt_dist(pairs: &Vec<(String, JsonValue)>, dflt: u8) -> (r: Result<u8, ()>)
    ensures
        match r {
            Ok(v) => spec_opt_dist(pairs@, dflt) == Some(v),
            Err(_) => spec_opt_dist(pairs@, dflt) is None,
        },
{
    match obj_get(pairs, "distance") {
        None => Ok(dflt),
        Some(JsonValue::Int(i)) => {
            if 0 <= *i && *i <= 255 {
                Ok(*i as u8)
            } else {
                Err(())
            }
        },
        Some(_) => Err(()),
    }
}

fn get_opt_i64(pairs: &Vec<(String, JsonValue)>, key: &str) -> (r: Result<Option<i64>, ()>)
    ensures
        match r {
            Ok(v) => spec_opt_i64(pairs@, key@) == Some(v),
            Err(_) => spec_opt_i64(pairs@, key@) is None,
        },
{
    match obj_get(pairs, key) {
        None => Ok(None),
        Some(JsonValue::Null) => Ok(None),
        Some(JsonValue::Int(i)) => Ok(Some(*i)),
        Some(_) => Err(()),
    }
}

fn get_opt_num(pairs: &Vec<(String, JsonValue)>, key: &str) -> (r: Result<Option<ScalarVal>, ()>)
    ensures
        match r {
            Ok(v) => match v {
                Some(s) => spec_opt_num(pairs@, key@) == Some(Some(s@)),
                None => spec_opt_num(pairs@, key@) == Some(Option::<ScalarValV>::None),
            },
            Err(_) => spec_opt_num(pairs@, key@) is None,
        },
{
    match obj_get(pairs, key) {
        None => Ok(None),
        Some(JsonValue::Null) => Ok(None),
        Some(JsonValue::Int(i)) => Ok(Some(ScalarVal::I(*i))),
        Some(JsonValue::Float(t)) => Ok(Some(ScalarVal::F(t.clone()))),
        Some(_) => Err(()),
    }
}

#[verifier::loop_isolation(false)]
fn get_opt_fields(pairs: &Vec<(String, JsonValue)>) -> (r: Result<Vec<String>, ()>)
    ensures
        match r {
            Ok(v) => spec_opt_fields(pairs@) == Some(v@.map_values(|s: String| s@)),
            Err(_) => spec_opt_fields(pairs@) is None,
        },
{
    let mut out: Vec<String> = Vec::new();
    proof {
        assert(out@.map_values(|s: String| s@) =~= Seq::<Seq<char>>::empty());
    }
    match obj_get(pairs, "fields") {
        None => Ok(out),
        Some(JsonValue::Arr(a)) => {
            let m = a.len();
            proof {
                assert(a@.take(0) =~= Seq::<JsonValue>::empty());
            }
            for i in 0..m
                invariant
                    m == a@.len(),
                    spec_strings_of(a@.take(i as int)) == Some(
                        out@.map_values(|s: String| s@),
                    ),
            {
                proof {
                    assert(a@.take(i + 1).drop_last() =~= a@.take(i as int));
                    assert(a@.take(i + 1).last() == a@[i as int]);
                }
                let ghost old_out = out@.map_values(|s: String| s@);
                match &a[i] {
                    JsonValue::Str(s) => {
                        let ghost sv = s@;
                        out.push(s.clone());
                        proof {
                            assert(out@.map_values(|s: String| s@) =~= old_out.push(sv));
                        }
                    },
                    _ => {
                        proof {
                            crate::schema::lemma_strings_of_prefix_none(a@, i + 1);
                        }
                        return Err(());
                    },
                }
            }
            proof {
                assert(a@.take(m as int) =~= a@);
            }
            Ok(out)
        },
        Some(_) => Err(()),
    }
}

fn get_req_str(pairs: &Vec<(String, JsonValue)>, key: &str) -> (r: Result<String, ()>)
    ensures
        match r {
            Ok(s) => spec_req_str(pairs@, key@) == Some(s@),
            Err(_) => spec_req_str(pairs@, key@) is None,
        },
{
    match obj_get(pairs, key) {
        Some(JsonValue::Str(s)) => Ok(s.clone()),
        _ => Err(()),
    }
}

/// Reads one query of the DSL out of its JSON description.
#[verifier::loop_isolation(false)]
pub fn query_def_from_json(j: &JsonValue) -> (r: Result<QueryDef, String>)
    ensures
        match r {
            Ok(q) => spec_query_def_of(*j) == Some(q@),
            Err(_) => spec_query_def_of(*j) is None,
        },
    decreases *j, 4int,
{
    let pairs = match j {
        JsonValue::Obj(pairs) => pairs,
        _ => {
            return Err("query: not an object".to_owned());
        },
    };
    proof {
        assert(*j == JsonValue::Obj(*pairs));
        assert(decreases_to!(*j => *pairs));
    }
    let tag = match get_req_str(pairs, "type") {
        Ok(t) => t,
        Err(_) => {
            return Err("query: missing or malformed type".to_owned());
        },
    };
    let limit = match get_opt_page(pairs, "limit", DEFAULT_LIMIT) {
        Ok(v) => v,
        Err(_) => {
            return Err("query: malformed limit".to_owned());
        },
    };
    let offset = match get_opt_page(pairs, "offset", 0) {
        Ok(v) => v,
        Err(_) => {
            return Err("query: malformed offset".to_owned());
        },
    };
    if str_eq(tag.as_str(), "text") {
        let query = match get_req_str(pairs, "query") {
            Ok(s) => s,
            Err(_) => {
                return Err("query: missing query text".to_owned());
            },
        };
        let fields = match get_opt_fields(pairs) {
            Ok(f) => f,
            Err(_) => {
                return Err("query: malformed fields".to_owned());
            },
        };
        Ok(QueryDef::Text { query, fields, limit, offset })
    } else if str_eq(tag.as_str(), "fuzzy") {
        let term = match get_req_str(pairs, "term") {
            Ok(s) => s,
            Err(_) => {
                return Err("query: missing term".to_owned());
            },
        };
        let distance = match get_opt_dist(pairs, DEFAULT_DISTANCE) {
            Ok(d) => d,
            Err(_) => {
                return Err("query: malformed distance".to_owned());
            },
        };
        let fields = match get_opt_fields(pairs) {
            Ok(f) => f,
            Err(_) => {
                return Err("query: malformed fields".to_owned());
            },
        };
        Ok(QueryDef::Fuzzy { term, distance, fields, limit, offset })
    } else if str_eq(tag.as_str(), "phrase") {
        let phrase = match get_req_str(pairs, "phrase") {
            Ok(s) => s,
            Err(_) => {
                return Err("query: missing phrase".to_owned());
            },
        };
        let fields = match get_opt_fields(pairs) {
            Ok(f) => f,
            Err(_) => {
                return Err("query: malformed fields".to_owned());
            },
        };
        Ok(QueryDef::Phrase { phrase, fields, limit, offset })
    } else if str_eq(tag.as_str(), "prefix") {
        let prefix = match get_req_str(pairs, "prefix") {
            Ok(s) => s,
            Err(_) => {
                return Err("query: missing prefix".to_owned());
            },
        };
        let fields = match get_opt_fields(pairs) {
            Ok(f) => f,
            Err(_) => {
                return Err("query: malformed fields".to_owned());
            },
        };
        Ok(QueryDef::Prefix { prefix, fields, limit, offset })
    } else if str_eq(tag.as_str(), "term_match") {
        let field = match get_req_str(pairs, "field") {
            Ok(s) => s,
            Err(_) => {
                return Err("query: missing field".to_owned());
            },
        };
        let value = match obj_get(pairs, "value") {
            Some(v) => scalar_of(v),
            None => {
                return Err("query: missing value".to_owned());
            },
        };
        Ok(QueryDef::TermMatch { field, value, limit, offset })
    } else if str_eq(tag.as_str(), "range_i64") {
        let field = match get_req_str(pairs, "field") {
            Ok(s) => s,
            Err(_) => {
                return Err("query: missing field".to_owned());
            },
        };
        let min = match get_opt_i64(pairs, "min") {
            Ok(v) => v,
            Err(_) => {
                return Err("query: malformed min".to_owned());
            },
        };
        let max = match get_opt_i64(pairs, "max") {
            Ok(v) => v,
            Err(_) => {
                return Err("query: malformed max".to_owned());
            },
        };
        Ok(QueryDef::RangeI64 { field, min, max, limit, offset })
    } else if str_eq(tag.as_str(), "range_f64") {
        let field = match get_req_str(pairs, "field") {
            Ok(s) => s,
            Err(_) => {
                return Err("query: missing field".to_owned());
            },
        };
        let min = match get_opt_num(pairs, "min") {
            Ok(v) => v,
            Err(_) => {
                return Err("query: malformed min".to_owned());
            },
        };
        let max = match get_opt_num(pairs, "max") {
            Ok(v) => v,
            Err(_) => {
                return Err("query: malformed max".to_owned());
            },
        };
        Ok(QueryDef::RangeF64 { field, min, max, limit, offset })
    } else if str_eq(tag.as_str(), "bool") {
        let must = match opt_qlist_from_json(j, pairs, "must") {
            Ok(v) => v,
            Err(e) => {
                return Err(e);
            },
        };
        let should = match opt_qlist_from_json(j, pairs, "should") {
            Ok(v) => v,
            Err(e) => {
                return Err(e);
            },
        };
        let must_not = match opt_qlist_from_json(j, pairs, "must_not") {
            Ok(v) => v,
            Err(e) => {
                return Err(e);
            },
        };
        Ok(QueryDef::Bool { must, should, must_not, limit, offset })
    } else if str_eq(tag.as_str(), "all") {
        Ok(QueryDef::All { limit, offset })
    } else {
        Err("query: unknown query type".to_owned())
    }
}

/// Reads one sub-query list key of a boolean query.
fn opt_qlist_from_json(
    j: &JsonValue,
    pairs: &Vec<(String, JsonValue)>,
    key: &str,
) -> (r: Result<Vec<QueryDef>, String>)
    requires
        decreases_to!(*j => *pairs),
    ensures
        match r {
            Ok(qs) => spec_opt_qlist(pairs@, key@) == Some(views_of(qs@)),
            Err(_) => spec_opt_qlist(pairs@, key@) is None,
        },
    decreases *j, 3int,
{
    match obj_get(pairs, key) {
        None => {
            let out: Vec<QueryDef> = Vec::new();
            proof {
                assert(views_of(out@) =~= Seq::<QueryDefV>::empty());
            }
            Ok(out)
        },
        Some(v) => {
            proof {
                lemma_obj_get_smaller(pairs@, key@);
            }
            match v {
                JsonValue::Arr(a) => {
                    proof {
                        assert(decreases_to!(*pairs => pairs@));
                        assert(decreases_to!((*v) => (*v)->Arr_0));
                        assert(decreases_to!(*j => *a));
                    }
                    qlist_from_json(j, a, key)
                },
                _ => {
                    let mut m = "query: malformed ".to_owned();
                    m.append(key);
                    m.append(" list");
                    Err(m)
                },
            }
        },
    }
}

/// Reads a list of sub-queries out of a JSON array.
#[verifier::loop_isolation(false)]
fn qlist_from_json(j: &JsonValue, arr: &Vec<JsonValue>, key: &str) -> (r: Result<
    Vec<QueryDef>,
    String,
>)
    requires
        decreases_to!(*j => *arr),
    ensures
        match r {
            Ok(qs) => spec_qlist_of(arr@) == Some(views_of(qs@)),
            Err(_) => spec_qlist_of(arr@) is None,
        },
    decreases *j, 2int,
{
    let mut out: Vec<QueryDef> = Vec::new();
    let n = arr.len();
    proof {
        assert(arr@.take(0) =~= Seq::<JsonValue>::empty());
        assert(views_of(out@) =~= Seq::<QueryDefV>::empty());
    }
    for i in 0..n
        invariant
            n == arr@.len(),
            spec_qlist_of(arr@.take(i as int)) == Some(views_of(out@)),
    {
        proof {
            assert(arr@.take(i + 1).drop_last() =~= arr@.take(i as int));
            assert(arr@.take(i + 1).last() == arr@[i as int]);
            assert(decreases_to!(*arr => arr@[i as int]));
        }
        let ghost old_out = out@;
        match query_def_from_json(&arr[i]) {
            Ok(q) => {
                let ghost qval = q;
                out.push(q);
                proof {
                    assert(out@ =~= old_out.push(qval));
                    lemma_views_of_push(old_out, qval);
                }
            },
            Err(e) => {
                proof {
                    lemma_qlist_prefix_none(arr@, i + 1);
                }
                return Err(e);
            },
        }
    }
    proof {
        assert(arr@.take(n as int) =~= arr@);
    }
    Ok(out)
}

} // verus!
