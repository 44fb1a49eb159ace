use tantivy_json::compile::{compile_query, regex_escape, CompiledQuery, Occur};
use tantivy_json::json_value::{obj_get, parse_json, JsonValue};
use tantivy_json::query::{query_def_from_json, QueryDef, ScalarVal};
use tantivy_json::schema::{
    schema_def_from_json, Catalog, CatalogEntry, FieldDef, FieldKind, TokenizerKind,
};
use tantivy_json::text::{str_eq, tokenize_fuzzy};

fn chars(s: &str) -> Vec<char> {
    s.chars().collect()
}

fn field(name: &str, kind: FieldKind) -> FieldDef {
    FieldDef {
        name: name.to_string(),
        field_type: kind,
        stored: true,
        indexed: true,
        fast: false,
        tokenizer: TokenizerKind::Plain,
    }
}

fn catalog() -> Catalog {
    Catalog {
        entries: vec![
            CatalogEntry { field_id: 0, def: field("title", FieldKind::Text) },
            CatalogEntry { field_id: 1, def: field("views", FieldKind::I64) },
            CatalogEntry { field_id: 2, def: field("price", FieldKind::F64) },
        ],
    }
}

#[test]
fn parse_json_models_values() {
    let j = parse_json(r#"{"a": 1, "b": "x", "c": 2.5, "d": [true, null]}"#).unwrap();
    let pairs = match &j {
        JsonValue::Obj(p) => p,
        _ => panic!("expected object"),
    };
    assert_eq!(obj_get(pairs, "a"), Some(&JsonValue::Int(1)));
    assert_eq!(obj_get(pairs, "b"), Some(&JsonValue::Str("x".to_string())));
    assert_eq!(obj_get(pairs, "c"), Some(&JsonValue::Float("2.5".to_string())));
    assert_eq!(
        obj_get(pairs, "d"),
        Some(&JsonValue::Arr(vec![JsonValue::Bool(true), JsonValue::Null]))
    );
    assert_eq!(obj_get(pairs, "missing"), None);
    assert!(parse_json("{oops").is_none());
}

#[test]
fn str_eq_compares_characters() {
    assert!(str_eq("abc", "abc"));
    assert!(!str_eq("abc", "abd"));
    assert!(!str_eq("abc", "ab"));
    assert!(str_eq("", ""));
}

#[test]
fn tokenize_fuzzy_normalises() {
    let toks = tokenize_fuzzy("Hello, a WORLD!!");
    assert_eq!(toks, vec![chars("hello"), chars("world")]);
    let toks = tokenize_fuzzy("a b c");
    assert!(toks.is_empty());
    let toks = tokenize_fuzzy("  spaced   out  ");
    assert_eq!(toks, vec![chars("spaced"), chars("out")]);
}

#[test]
fn regex_escape_escapes_metacharacters() {
    assert_eq!(regex_escape(&chars("a.b*c")), chars("a\\.b\\*c"));
    assert_eq!(regex_escape(&chars("plain")), chars("plain"));
    assert_eq!(regex_escape(&chars("(x|y)?")), chars("\\(x\\|y\\)\\?"));
}

#[test]
fn query_defaults_are_applied() {
    let j = parse_json(r#"{"type": "all"}"#).unwrap();
    let qd = query_def_from_json(&j).unwrap();
    assert_eq!(qd.limit(), 100);
    assert_eq!(qd.offset(), 0);
    let j = parse_json(r#"{"type": "fuzzy", "term": "x", "limit": 7, "offset": 3}"#).unwrap();
    let qd = query_def_from_json(&j).unwrap();
    assert_eq!(qd.limit(), 7);
    assert_eq!(qd.offset(), 3);
    match qd {
        QueryDef::Fuzzy { distance, .. } => assert_eq!(distance, 2),
        _ => panic!("expected fuzzy"),
    }
}

#[test]
fn nested_bool_queries_parse() {
    let j = parse_json(
        r#"{
          "type": "bool",
          "must": [
            {"type": "bool", "should": [{"type": "all"}, {"type": "text", "query": "x"}]}
          ],
          "must_not": [{"type": "term_match", "field": "views", "value": 2}]
        }"#,
    )
    .unwrap();
    let qd = query_def_from_json(&j).unwrap();
    match qd {
        QueryDef::Bool { must, should, must_not, .. } => {
            assert_eq!(must.len(), 1);
            assert_eq!(should.len(), 0);
            assert_eq!(must_not.len(), 1);
            assert!(matches!(must[0], QueryDef::Bool { .. }));
        },
        _ => panic!("expected bool"),
    }
}

#[test]
fn compile_range_adds_one_to_upper_bound() {
    let cat = catalog();
    let df: Vec<u32> = vec![0];
    let j = parse_json(r#"{"type": "range_i64", "field": "views", "min": 5, "max": 10}"#)
        .unwrap();
    let qd = query_def_from_json(&j).unwrap();
    match compile_query(&qd, &cat, &df).unwrap() {
        CompiledQuery::RangeI64 { field, lo, hi_excl } => {
            assert_eq!(field, "views");
            assert_eq!(lo, 5);
            assert_eq!(hi_excl, Some(11));
        },
        other => panic!("unexpected plan: {:?}", other),
    }
    let j = parse_json(&format!(
        r#"{{"type": "range_i64", "field": "views", "max": {}}}"#,
        i64::MAX
    ))
    .unwrap();
    let qd = query_def_from_json(&j).unwrap();
    match compile_query(&qd, &cat, &df).unwrap() {
        CompiledQuery::RangeI64 { lo, hi_excl, .. } => {
            assert_eq!(lo, i64::MIN);
            assert_eq!(hi_excl, None);
        },
        other => panic!("unexpected plan: {:?}", other),
    }
}

#[test]
fn compile_fuzzy_adaptive_distance() {
    let cat = catalog();
    let df: Vec<u32> = vec![0];
    let j = parse_json(r#"{"type": "fuzzy", "term": "short muchlongertoken", "distance": 2}"#)
        .unwrap();
    let qd = query_def_from_json(&j).unwrap();
    match compile_query(&qd, &cat, &df).unwrap() {
        CompiledQuery::Boolean { clauses } => {
            assert_eq!(clauses.len(), 2);
            for (occur, _) in &clauses {
                assert_eq!(*occur, Occur::Must);
            }
            let dist_of = |c: &CompiledQuery| -> u8 {
                match c {
                    CompiledQuery::Boolean { clauses } => match &clauses[0] {
                        (Occur::Should, CompiledQuery::FuzzyTerm { distance, .. }) => *distance,
                        other => panic!("unexpected inner clause: {:?}", other),
                    },
                    other => panic!("unexpected clause: {:?}", other),
                }
            };
            // "short" has five characters: capped at distance 1
            assert_eq!(dist_of(&clauses[0].1), 1);
            // the long token keeps the asked distance
            assert_eq!(dist_of(&clauses[1].1), 2);
        },
        other => panic!("unexpected plan: {:?}", other),
    }
}

#[test]
fn compile_term_match_is_type_directed() {
    let cat = catalog();
    let df: Vec<u32> = vec![0];
    let j = parse_json(r#"{"type": "term_match", "field": "title", "value": "Rust"}"#).unwrap();
    let qd = query_def_from_json(&j).unwrap();
    match compile_query(&qd, &cat, &df).unwrap() {
        CompiledQuery::TermText { field_id, value } => {
            assert_eq!(field_id, 0);
            assert_eq!(value, "Rust");
        },
        other => panic!("unexpected plan: {:?}", other),
    }
    // a non-string value against a text field degrades to the empty term
    let j = parse_json(r#"{"type": "term_match", "field": "title", "value": 5}"#).unwrap();
    let qd = query_def_from_json(&j).unwrap();
    match compile_query(&qd, &cat, &df).unwrap() {
        CompiledQuery::TermText { value, .. } => assert_eq!(value, ""),
        other => panic!("unexpected plan: {:?}", other),
    }
    let j = parse_json(r#"{"type": "term_match", "field": "price", "value": 2.5}"#).unwrap();
    let qd = query_def_from_json(&j).unwrap();
    match compile_query(&qd, &cat, &df).unwrap() {
        CompiledQuery::TermF64 { field_id, value } => {
            assert_eq!(field_id, 2);
            assert!(matches!(value, ScalarVal::F(t) if t == "2.5"));
        },
        other => panic!("unexpected plan: {:?}", other),
    }
    let j = parse_json(r#"{"type": "term_match", "field": "ghost", "value": 1}"#).unwrap();
    let qd = query_def_from_json(&j).unwrap();
    assert!(compile_query(&qd, &cat, &df).is_err());
}

#[test]
fn compile_prefix_escapes_pattern() {
    let cat = catalog();
    let df: Vec<u32> = vec![0];
    let j = parse_json(r#"{"type": "prefix", "prefix": "A.b"}"#).unwrap();
    let qd = query_def_from_json(&j).unwrap();
    match compile_query(&qd, &cat, &df).unwrap() {
        CompiledQuery::Boolean { clauses } => {
            assert_eq!(clauses.len(), 1);
            match &clauses[0] {
                (Occur::Should, CompiledQuery::Regex { field_id, pattern }) => {
                    assert_eq!(*field_id, 0);
                    assert_eq!(*pattern, chars("a\\.b.*"));
                },
                other => panic!("unexpected clause: {:?}", other),
            }
        },
        other => panic!("unexpected plan: {:?}", other),
    }
}

#[test]
fn schema_def_reads_defaults() {
    let j = parse_json(r#"{"fields": [{"name": "a", "type": "text"}]}"#).unwrap();
    let sd = schema_def_from_json(&j).unwrap();
    assert_eq!(sd.fields.len(), 1);
    let f = &sd.fields[0];
    assert_eq!(f.name, "a");
    assert_eq!(f.field_type, FieldKind::Text);
    assert!(f.stored);
    assert!(f.indexed);
    assert!(!f.fast);
    assert_eq!(f.tokenizer, TokenizerKind::Plain);
    assert!(sd.search_fields.is_empty());
    // an unknown tokenizer name reads as the plain tokenizer
    let j = parse_json(r#"{"fields": [{"name": "a", "type": "text", "tokenizer": "odd"}]}"#)
        .unwrap();
    let sd = schema_def_from_json(&j).unwrap();
    assert_eq!(sd.fields[0].tokenizer, TokenizerKind::Plain);
    // a malformed flag is an error
    let j = parse_json(r#"{"fields": [{"name": "a", "type": "text", "stored": "yes"}]}"#)
        .unwrap();
    assert!(schema_def_from_json(&j).is_err());
}
