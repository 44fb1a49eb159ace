use tantivy_json::{JsonValue, TantivyIndex};

fn obj_field<'a>(v: &'a JsonValue, key: &str) -> Option<&'a JsonValue> {
    match v {
        JsonValue::Obj(pairs) => pairs.iter().find(|(k, _)| k == key).map(|(_, w)| w),
        _ => None,
    }
}

const SCHEMA: &str = r#"{
  "fields": [
    {"name": "title", "type": "text"},
    {"name": "id", "type": "i64"},
    {"name": "price", "type": "f64"}
  ]
}"#;

fn fresh(schema: &str) -> (tempfile::TempDir, TantivyIndex) {
    let dir = tempfile::tempdir().unwrap();
    let idx = TantivyIndex::create(dir.path().to_str().unwrap(), schema).unwrap();
    (dir, idx)
}

fn add(idx: &mut TantivyIndex, doc: &str) {
    idx.add_doc(doc).unwrap();
}

#[test]
fn create_then_open_rebuilds_catalog() {
    let dir = tempfile::tempdir().unwrap();
    let path = dir.path().to_str().unwrap().to_string();
    let schema = r#"{
      "fields": [
        {"name": "title", "type": "text", "tokenizer": "en_stem"},
        {"name": "tag", "type": "text", "tokenizer": "raw", "stored": false},
        {"name": "n", "type": "i64", "fast": true, "indexed": true},
        {"name": "x", "type": "f64", "stored": false}
      ],
      "search_fields": ["title"]
    }"#;
    let created = TantivyIndex::create(&path, schema).unwrap();
    let defs_before = created.field_defs();
    drop(created);
    let opened = TantivyIndex::open(&path).unwrap();
    let defs_after = opened.field_defs();
    assert_eq!(defs_before, defs_after);
    assert_eq!(defs_before.len(), 4);
}

#[test]
fn open_without_sidecar_fails() {
    let dir = tempfile::tempdir().unwrap();
    assert!(TantivyIndex::open(dir.path().to_str().unwrap()).is_err());
}

#[test]
fn num_docs_counts_only_committed() {
    let (_d, mut idx) = fresh(SCHEMA);
    add(&mut idx, r#"{"title": "one", "id": 1}"#);
    add(&mut idx, r#"{"title": "two", "id": 2}"#);
    assert_eq!(idx.num_docs(), 0);
    idx.commit().unwrap();
    assert_eq!(idx.num_docs(), 2);
    add(&mut idx, r#"{"title": "three", "id": 3}"#);
    assert_eq!(idx.num_docs(), 2);
    idx.commit().unwrap();
    assert_eq!(idx.num_docs(), 3);
}

#[test]
fn term_match_exact_singleton() {
    let (_d, mut idx) = fresh(SCHEMA);
    add(&mut idx, r#"{"title": "alpha", "id": 7}"#);
    add(&mut idx, r#"{"title": "beta", "id": 8}"#);
    idx.commit().unwrap();
    let res = idx.search(r#"{"type": "term_match", "field": "id", "value": 7}"#).unwrap();
    assert_eq!(res.total_count, 1);
    assert_eq!(res.count, 1);
    assert_eq!(obj_field(&res.results[0], "id"), Some(&JsonValue::Int(7)));
}

#[test]
fn term_match_unknown_field_errs() {
    let (_d, idx) = fresh(SCHEMA);
    assert!(idx.search(r#"{"type": "term_match", "field": "nope", "value": 1}"#).is_err());
}

#[test]
fn range_i64_is_inclusive() {
    let (_d, mut idx) = fresh(SCHEMA);
    for v in [4, 5, 7, 10, 11] {
        add(&mut idx, &format!(r#"{{"title": "t", "id": {}}}"#, v));
    }
    idx.commit().unwrap();
    let res = idx
        .search(r#"{"type": "range_i64", "field": "id", "min": 5, "max": 10}"#)
        .unwrap();
    assert_eq!(res.total_count, 3);
    let mut ids: Vec<i64> = res
        .results
        .iter()
        .map(|r| match obj_field(r, "id") {
            Some(JsonValue::Int(i)) => *i,
            _ => panic!("id missing"),
        })
        .collect();
    ids.sort();
    assert_eq!(ids, vec![5, 7, 10]);
}

#[test]
fn range_i64_half_open_sides() {
    let (_d, mut idx) = fresh(SCHEMA);
    for v in [1, 2, 3] {
        add(&mut idx, &format!(r#"{{"title": "t", "id": {}}}"#, v));
    }
    idx.commit().unwrap();
    let res = idx.search(r#"{"type": "range_i64", "field": "id", "min": 2}"#).unwrap();
    assert_eq!(res.total_count, 2);
    let res = idx.search(r#"{"type": "range_i64", "field": "id", "max": 2}"#).unwrap();
    assert_eq!(res.total_count, 2);
}

#[test]
fn range_f64_inclusive_bounds() {
    let (_d, mut idx) = fresh(SCHEMA);
    add(&mut idx, r#"{"title": "a", "price": 1.5}"#);
    add(&mut idx, r#"{"title": "b", "price": 9.99}"#);
    add(&mut idx, r#"{"title": "c", "price": 20.0}"#);
    idx.commit().unwrap();
    let res = idx
        .search(r#"{"type": "range_f64", "field": "price", "min": 1.6, "max": 10.0}"#)
        .unwrap();
    assert_eq!(res.total_count, 1);
    let res = idx
        .search(r#"{"type": "range_f64", "field": "price", "min": 1.5, "max": 9.99}"#)
        .unwrap();
    assert_eq!(res.total_count, 2);
}

#[test]
fn bool_must_not_excludes() {
    let (_d, mut idx) = fresh(SCHEMA);
    add(&mut idx, r#"{"title": "rust fast", "id": 1}"#);
    add(&mut idx, r#"{"title": "rust slow", "id": 2}"#);
    idx.commit().unwrap();
    let q = r#"{
      "type": "bool",
      "must": [{"type": "text", "query": "rust"}],
      "must_not": [{"type": "text", "query": "slow"}]
    }"#;
    let res = idx.search(q).unwrap();
    assert_eq!(res.total_count, 1);
    assert_eq!(obj_field(&res.results[0], "id"), Some(&JsonValue::Int(1)));
}

#[test]
fn pagination_visits_each_doc_once() {
    let (_d, mut idx) = fresh(SCHEMA);
    for v in 0..5 {
        add(&mut idx, &format!(r#"{{"title": "t", "id": {}}}"#, v));
    }
    idx.commit().unwrap();
    let mut seen: Vec<i64> = Vec::new();
    let mut offset = 0;
    loop {
        let q = format!(r#"{{"type": "all", "limit": 2, "offset": {}}}"#, offset);
        let res = idx.search(&q).unwrap();
        assert!(res.count <= res.limit);
        assert!(res.total_count >= res.count);
        assert_eq!(res.total_count, 5);
        for r in &res.results {
            match obj_field(r, "id") {
                Some(JsonValue::Int(i)) => seen.push(*i),
                _ => panic!("id missing"),
            }
        }
        offset += 2;
        if offset >= res.total_count {
            break;
        }
    }
    seen.sort();
    assert_eq!(seen, vec![0, 1, 2, 3, 4]);
}

#[test]
fn fuzzy_matches_with_typo() {
    let (_d, mut idx) = fresh(SCHEMA);
    add(&mut idx, r#"{"title": "hello world", "id": 1}"#);
    idx.commit().unwrap();
    let res = idx.search(r#"{"type": "fuzzy", "term": "helo"}"#).unwrap();
    assert_eq!(res.total_count, 1);
}

#[test]
fn fuzzy_drops_single_char_tokens() {
    let (_d, mut idx) = fresh(SCHEMA);
    add(&mut idx, r#"{"title": "hello world", "id": 1}"#);
    idx.commit().unwrap();
    // the "a" token contributes no clause and does not fail the query
    let res = idx.search(r#"{"type": "fuzzy", "term": "a helo"}"#).unwrap();
    assert_eq!(res.total_count, 1);
    // only single-char tokens: the query matches nothing, and is no error
    let res = idx.search(r#"{"type": "fuzzy", "term": "a"}"#).unwrap();
    assert_eq!(res.total_count, 0);
}

#[test]
fn fuzzy_lowercases_and_strips_punctuation() {
    let (_d, mut idx) = fresh(SCHEMA);
    add(&mut idx, r#"{"title": "hello world", "id": 1}"#);
    idx.commit().unwrap();
    // distance 0: only the normalised token matches exactly
    let res = idx.search(r#"{"type": "fuzzy", "term": "HELLO", "distance": 0}"#).unwrap();
    assert_eq!(res.total_count, 1);
    let res = idx.search(r#"{"type": "fuzzy", "term": "hello!", "distance": 0}"#).unwrap();
    assert_eq!(res.total_count, 1);
}

#[test]
fn phrase_requires_adjacency_in_order() {
    let (_d, mut idx) = fresh(SCHEMA);
    add(&mut idx, r#"{"title": "rust systems programming", "id": 1}"#);
    idx.commit().unwrap();
    let res = idx.search(r#"{"type": "phrase", "phrase": "systems programming"}"#).unwrap();
    assert_eq!(res.total_count, 1);
    let res = idx.search(r#"{"type": "phrase", "phrase": "programming systems"}"#).unwrap();
    assert_eq!(res.total_count, 0);
    // single word falls back to the free-text parser
    let res = idx.search(r#"{"type": "phrase", "phrase": "systems"}"#).unwrap();
    assert_eq!(res.total_count, 1);
}

#[test]
fn prefix_matches_lowercased_prefix() {
    let (_d, mut idx) = fresh(SCHEMA);
    add(&mut idx, r#"{"title": "rust", "id": 1}"#);
    add(&mut idx, r#"{"title": "ruby", "id": 2}"#);
    idx.commit().unwrap();
    let res = idx.search(r#"{"type": "prefix", "prefix": "Rus"}"#).unwrap();
    assert_eq!(res.total_count, 1);
    let res = idx.search(r#"{"type": "prefix", "prefix": "ru"}"#).unwrap();
    assert_eq!(res.total_count, 2);
}

#[test]
fn raw_field_is_exact_only_and_off_default_search() {
    let dir = tempfile::tempdir().unwrap();
    let schema = r#"{
      "fields": [
        {"name": "title", "type": "text"},
        {"name": "tag", "type": "text", "tokenizer": "raw"}
      ]
    }"#;
    let mut idx = TantivyIndex::create(dir.path().to_str().unwrap(), schema).unwrap();
    idx.add_doc(r#"{"title": "other words", "tag": "rust"}"#).unwrap();
    idx.commit().unwrap();
    // free text does not search the raw field
    let res = idx.search(r#"{"type": "text", "query": "rust"}"#).unwrap();
    assert_eq!(res.total_count, 0);
    // exact term match on the raw field still works
    let res = idx
        .search(r#"{"type": "term_match", "field": "tag", "value": "rust"}"#)
        .unwrap();
    assert_eq!(res.total_count, 1);
}

#[test]
fn roundtrip_stored_fields_and_score() {
    let dir = tempfile::tempdir().unwrap();
    let schema = r#"{
      "fields": [
        {"name": "title", "type": "text"},
        {"name": "views", "type": "i64"},
        {"name": "secret", "type": "text", "stored": false}
      ]
    }"#;
    let mut idx = TantivyIndex::create(dir.path().to_str().unwrap(), schema).unwrap();
    idx.add_doc(r#"{"title": "Rust Systems", "views": 42, "secret": "hidden"}"#).unwrap();
    idx.commit().unwrap();
    let res = idx.search(r#"{"type": "all"}"#).unwrap();
    assert_eq!(res.count, 1);
    let doc = &res.results[0];
    assert_eq!(
        obj_field(doc, "title"),
        Some(&JsonValue::Str("Rust Systems".to_string()))
    );
    assert_eq!(obj_field(doc, "views"), Some(&JsonValue::Int(42)));
    assert!(matches!(obj_field(doc, "_score"), Some(JsonValue::Float(_))));
    assert!(obj_field(doc, "secret").is_none());
}

#[test]
fn i64_field_truncates_float_values() {
    let (_d, mut idx) = fresh(SCHEMA);
    add(&mut idx, r#"{"title": "t", "id": 3.9}"#);
    idx.commit().unwrap();
    let res = idx.search(r#"{"type": "term_match", "field": "id", "value": 3}"#).unwrap();
    assert_eq!(res.total_count, 1);
}

#[test]
fn mismatched_field_types_are_dropped_not_errors() {
    let (_d, mut idx) = fresh(SCHEMA);
    // title wants a string, id wants a number: both wrong, both dropped
    idx.add_doc(r#"{"title": 9, "id": "x", "unknown_key": true}"#).unwrap();
    idx.commit().unwrap();
    assert_eq!(idx.num_docs(), 1);
    let res = idx.search(r#"{"type": "all"}"#).unwrap();
    assert_eq!(res.count, 1);
    assert!(obj_field(&res.results[0], "title").is_none());
    assert!(obj_field(&res.results[0], "id").is_none());
}

#[test]
fn malformed_inputs_err() {
    let (_d, mut idx) = fresh(SCHEMA);
    assert!(idx.add_doc("{not json").is_err());
    assert!(idx.add_doc(r#"[1, 2]"#).is_err());
    assert!(idx.search("{not json").is_err());
    assert!(idx.search(r#"{"type": "weird"}"#).is_err());
    assert!(idx.search(r#"{"type": "all", "limit": 0}"#).is_err());
    assert!(idx.search(r#"{"type": "all", "limit": -3}"#).is_err());
}

#[test]
fn schema_errors() {
    let dir = tempfile::tempdir().unwrap();
    let path = dir.path().to_str().unwrap();
    assert!(TantivyIndex::create(path, "{oops").is_err());
    assert!(TantivyIndex::create(path, r#"{"fields": 3}"#).is_err());
    assert!(
        TantivyIndex::create(path, r#"{"fields": [{"name": "a", "type": "blob"}]}"#).is_err()
    );
    assert!(TantivyIndex::create(
        path,
        r#"{"fields": [{"name": "a", "type": "text"}, {"name": "a", "type": "i64"}]}"#
    )
    .is_err());
}

#[test]
fn explicit_search_fields_scope_text_queries() {
    let dir = tempfile::tempdir().unwrap();
    let schema = r#"{
      "fields": [
        {"name": "title", "type": "text"},
        {"name": "body", "type": "text"}
      ],
      "search_fields": ["title"]
    }"#;
    let mut idx = TantivyIndex::create(dir.path().to_str().unwrap(), schema).unwrap();
    idx.add_doc(r#"{"title": "alpha", "body": "needle"}"#).unwrap();
    idx.commit().unwrap();
    let res = idx.search(r#"{"type": "text", "query": "needle"}"#).unwrap();
    assert_eq!(res.total_count, 0);
    let res = idx
        .search(r#"{"type": "text", "query": "needle", "fields": ["body"]}"#)
        .unwrap();
    assert_eq!(res.total_count, 1);
}
