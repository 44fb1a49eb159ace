use vstd::prelude::*;

use crate::compile::{cl_views, CompiledQuery, CompiledQueryV, Occur};
use crate::query::ScalarVal;
use tantivy::schema::Value;
use tantivy::Directory;

verus! {

#[verifier::external_type_specification]
#[verifier::external_body]
pub struct ExIndex(tantivy::Index);

#[verifier::external_type_specification]
#[verifier::external_body]
pub struct ExIndexReader(tantivy::IndexReader);

#[verifier::external_type_specification]
#[verifier::external_body]
pub struct ExSearcher(tantivy::Searcher);

#[verifier::external_type_specification]
#[verifier::external_body]
pub struct ExSchema(tantivy::schema::Schema);

#[verifier::external_type_specification]
#[verifier::external_body]
pub struct ExSchemaBuilder(tantivy::schema::SchemaBuilder);

#[verifier::external_type_specification]
#[verifier::external_body]
pub struct ExTextOptions(tantivy::schema::TextOptions);

#[verifier::external_type_specification]
#[verifier::external_body]
pub struct ExNumericOptions(tantivy::schema::NumericOptions);

#[verifier::external_type_specification]
#[verifier::external_body]
pub struct ExTantivyDocument(tantivy::TantivyDocument);

#[verifier::external_type_specification]
#[verifier::external_body]
pub struct ExDocAddress(tantivy::DocAddress);

/// The engine's writer, which buffers documents and commits them. Its
/// type is generic over an engine trait that Verus cannot declare, so
/// this one struct is opaque as a whole and only carries the writer.
#[verifier::external_body]
pub struct EngineWriter {
    w: tantivy::IndexWriter<tantivy::TantivyDocument>,
}

/// A compiled engine query, held as the engine's composable query trait
/// object. A trait object cannot be declared to Verus, so this one
/// struct is opaque as a whole and only carries the query through.
#[verifier::external_body]
pub struct EngineQuery {
    q: Box<dyn tantivy::query::Query>,
}

/// One value handed to an engine document: a field id and a typed
/// value. `F64Int` carries an integer given for a floating field;
/// `F64Text` carries the number's decimal text.
#[derive(Debug)]
pub enum DocValue {
    Text { field_id: u32, value: String },
    I64 { field_id: u32, value: i64 },
    F64Int { field_id: u32, value: i64 },
    F64Text { field_id: u32, text: String },
}

/// The mathematical content of a `DocValue`.
pub ghost enum DocValueV {
    Text { field_id: u32, value: Seq<char> },
    I64 { field_id: u32, value: i64 },
    F64Int { field_id: u32, value: i64 },
    F64Text { field_id: u32, text: Seq<char> },
}

impl View for DocValue {
    type V = DocValueV;

    open spec fn view(&self) -> DocValueV {
        match self {
            DocValue::Text { field_id, value } => DocValueV::Text {
                field_id: *field_id,
                value: value@,
            },
            DocValue::I64 { field_id, value } => DocValueV::I64 {
                field_id: *field_id,
                value: *value,
            },
            DocValue::F64Int { field_id, value } => DocValueV::F64Int {
                field_id: *field_id,
                value: *value,
            },
            DocValue::F64Text { field_id, text } => DocValueV::F64Text {
                field_id: *field_id,
                text: text@,
            },
        }
    }
}

/// The option values a text field is declared with: stored and fast
/// flags, and — when the field is indexed — the tokenizer's name with
/// whether term positions are recorded.
pub ghost struct TextOptsV {
    pub stored: bool,
    pub fast: bool,
    pub indexing: Option<(Seq<char>, bool)>,
}

/// The option values a numeric field is declared with.
pub ghost struct NumOptsV {
    pub stored: bool,
    pub indexed: bool,
    pub fast: bool,
}

/// The declaration one schema field carries: its value type together
/// with its option values.
pub ghost enum FieldOptsV {
    Text(TextOptsV),
    I64(NumOptsV),
    F64(NumOptsV),
}

/// The option values a TextOptions value holds.
pub uninterp spec fn text_options_of(o: tantivy::schema::TextOptions) -> TextOptsV;

/// The option values a NumericOptions value holds.
pub uninterp spec fn num_options_of(o: tantivy::schema::NumericOptions) -> NumOptsV;

/// The fields a schema builder holds so far: each name with its
/// declaration, in the order they were added.
pub uninterp spec fn builder_fields(sb: tantivy::schema::SchemaBuilder) -> Seq<
    (Seq<char>, FieldOptsV),
>;

/// The names of the fields a schema builder holds so far, in order.
pub open spec fn builder_field_names(sb: tantivy::schema::SchemaBuilder) -> Seq<Seq<char>> {
    builder_fields(sb).map_values(|p: (Seq<char>, FieldOptsV)| p.0)
}

/// The fields a built engine schema holds, in declaration order.
pub uninterp spec fn schema_fields_of(s: tantivy::schema::Schema) -> Seq<(Seq<char>, FieldOptsV)>;

/// The values an engine document holds, in the order they were added.
pub uninterp spec fn doc_values_of(d: tantivy::TantivyDocument) -> Seq<DocValueV>;

/// The documents an engine writer has buffered since it was made or
/// last committed, each as its values.
pub uninterp spec fn writer_buffered(w: EngineWriter) -> Seq<Seq<DocValueV>>;

/// The query plan an engine query object realises.
pub uninterp spec fn engine_query_plan(q: EngineQuery) -> CompiledQueryV;

/// The first stored text of a field in a fetched document, if any.
pub uninterp spec fn doc_first_text_of(d: tantivy::TantivyDocument, field_id: u32) -> Option<
    Seq<char>,
>;

/// The first stored integer of a field in a fetched document, if any.
pub uninterp spec fn doc_first_i64_of(d: tantivy::TantivyDocument, field_id: u32) -> Option<i64>;

/// The first stored double of a field in a fetched document, as its
/// decimal text, if any.
pub uninterp spec fn doc_first_f64_text_of(d: tantivy::TantivyDocument, field_id: u32) -> Option<
    Seq<char>,
>;

/// The plans a clause list of engine queries realises, in order.
pub open spec fn eq_plan_views(cls: Seq<(Occur, EngineQuery)>) -> Seq<(Occur, CompiledQueryV)>
    decreases cls.len(),
{
    if cls.len() == 0 {
        Seq::empty()
    } else {
        eq_plan_views(cls.drop_last()).push(
            (cls.last().0, engine_query_plan(cls.last().1)),
        )
    }
}

proof fn lemma_eq_plan_views_push(cls: Seq<(Occur, EngineQuery)>, o: Occur, e: EngineQuery)
    ensures
        eq_plan_views(cls.push((o, e))) == eq_plan_views(cls).push((o, engine_query_plan(e))),
{
    assert(cls.push((o, e)).drop_last() =~= cls);
    assert(cls.push((o, e)).last() == (o, e));
}

/// Relies on tantivy::schema::Schema::builder: a fresh builder holds no
/// fields.
#[verifier::external_body]
pub fn sb_new() -> (sb: tantivy::schema::SchemaBuilder)
    ensures
        builder_fields(sb) == Seq::<(Seq<char>, FieldOptsV)>::empty(),
{
    tantivy::schema::Schema::builder()
}

/// Relies on tantivy::schema::TextOptions::default: the empty option
/// set — not stored, not fast, not indexed.
#[verifier::external_body]
pub fn text_options_new() -> (o: tantivy::schema::TextOptions)
    ensures
        text_options_of(o) == (TextOptsV { stored: false, fast: false, indexing: None }),
{
    tantivy::schema::TextOptions::default()
}

/// Relies on TextOptions::set_stored: marks the field's values as
/// stored and changes nothing else.
#[verifier::external_body]
pub fn text_options_stored(o: tantivy::schema::TextOptions) -> (r: tantivy::schema::TextOptions)
    ensures
        text_options_of(r) == (TextOptsV { stored: true, ..text_options_of(o) }),
{
    o.set_stored()
}

/// Relies on TextOptions::set_fast: marks the field for fast access
/// and changes nothing else.
#[verifier::external_body]
pub fn text_options_fast(o: tantivy::schema::TextOptions) -> (r: tantivy::schema::TextOptions)
    ensures
        text_options_of(r) == (TextOptsV { fast: true, ..text_options_of(o) }),
{
    o.set_fast(None)
}

/// Relies on TextOptions::set_indexing_options with a TextFieldIndexing
/// that selects the named tokenizer, and records positions when asked
/// (positions enable phrase queries) and bare document presence
/// otherwise.
#[verifier::external_body]
pub fn text_options_indexing(
    o: tantivy::schema::TextOptions,
    tokenizer: &str,
    positions: bool,
) -> (r: tantivy::schema::TextOptions)
    ensures
        text_options_of(r) == (TextOptsV {
            indexing: Some((tokenizer@, positions)),
            ..text_options_of(o)
        }),
{
    let rec = if positions {
        tantivy::schema::IndexRecordOption::WithFreqsAndPositions
    } else {
        tantivy::schema::IndexRecordOption::Basic
    };
    o.set_indexing_options(
        tantivy::schema::TextFieldIndexing::default().set_tokenizer(tokenizer).set_index_option(
            rec,
        ),
    )
}

/// Relies on tantivy::schema::NumericOptions::default: the empty
/// option set — not stored, not indexed, not fast.
#[verifier::external_body]
pub fn num_options_new() -> (o: tantivy::schema::NumericOptions)
    ensures
        num_options_of(o) == (NumOptsV { stored: false, indexed: false, fast: false }),
{
    tantivy::schema::NumericOptions::default()
}

/// Relies on NumericOptions::set_stored: sets that flag alone.
#[verifier::external_body]
pub fn num_options_stored(o: tantivy::schema::NumericOptions) -> (r:
    tantivy::schema::NumericOptions)
    ensures
        num_options_of(r) == (NumOptsV { stored: true, ..num_options_of(o) }),
{
    o.set_stored()
}

/// Relies on NumericOptions::set_indexed: sets that flag alone.
#[verifier::external_body]
pub fn num_options_indexed(o: tantivy::schema::NumericOptions) -> (r:
    tantivy::schema::NumericOptions)
    ensures
        num_options_of(r) == (NumOptsV { indexed: true, ..num_options_of(o) }),
{
    o.set_indexed()
}

/// Relies on NumericOptions::set_fast: sets that flag alone.
#[verifier::external_body]
pub fn num_options_fast(o: tantivy::schema::NumericOptions) -> (r:
    tantivy::schema::NumericOptions)
    ensures
        num_options_of(r) == (NumOptsV { fast: true, ..num_options_of(o) }),
{
    o.set_fast()
}

/// Relies on SchemaBuilder::add_text_field, which panics on a duplicate
/// name — the caller keeps names unique — and assigns the next field id;
/// the id is returned as a number.
#[verifier::external_body]
pub fn sb_add_text_field(
    sb: &mut tantivy::schema::SchemaBuilder,
    name: &str,
    o: tantivy::schema::TextOptions,
) -> (id: u32)
    requires
        !builder_field_names(*old(sb)).contains(name@),
    ensures
        builder_fields(*final(sb)) == builder_fields(*old(sb)).push(
            (name@, FieldOptsV::Text(text_options_of(o))),
        ),
{
    sb.add_text_field(name, o).field_id()
}

/// Relies on SchemaBuilder::add_i64_field, as for the text fields.
#[verifier::external_body]
pub fn sb_add_i64_field(
    sb: &mut tantivy::schema::SchemaBuilder,
    name: &str,
    o: tantivy::schema::NumericOptions,
) -> (id: u32)
    requires
        !builder_field_names(*old(sb)).contains(name@),
    ensures
        builder_fields(*final(sb)) == builder_fields(*old(sb)).push(
            (name@, FieldOptsV::I64(num_options_of(o))),
        ),
{
    sb.add_i64_field(name, o).field_id()
}

/// Relies on SchemaBuilder::add_f64_field, as for the text fields.
#[verifier::external_body]
pub fn sb_add_f64_field(
    sb: &mut tantivy::schema::SchemaBuilder,
    name: &str,
    o: tantivy::schema::NumericOptions,
) -> (id: u32)
    requires
        !builder_field_names(*old(sb)).contains(name@),
    ensures
        builder_fields(*final(sb)) == builder_fields(*old(sb)).push(
            (name@, FieldOptsV::F64(num_options_of(o))),
        ),
{
    sb.add_f64_field(name, o).field_id()
}

/// Relies on SchemaBuilder::build: the built schema holds exactly the
/// builder's fields, in order.
#[verifier::external_body]
pub fn sb_build(sb: tantivy::schema::SchemaBuilder) -> (s: tantivy::schema::Schema)
    ensures
        schema_fields_of(s) == builder_fields(sb),
{
    sb.build()
}

/// Relies on tantivy::Index::create_in_dir: builds a fresh index under
/// an existing directory, failing on engine or filesystem errors.
#[verifier::external_body]
pub fn index_create_in_dir(path: &str, schema: &tantivy::schema::Schema) -> (r: Result<
    tantivy::Index,
    String,
>) {
    tantivy::Index::create_in_dir(std::path::Path::new(path), schema.clone()).map_err(|e| {
        e.to_string()
    })
}

/// Relies on tantivy::Index::open_in_dir.
#[verifier::external_body]
pub fn index_open_in_dir(path: &str) -> (r: Result<tantivy::Index, String>) {
    tantivy::Index::open_in_dir(std::path::Path::new(path)).map_err(|e| e.to_string())
}

/// Relies on MmapDirectory::open and Directory::atomic_write: writes a
/// whole file atomically inside the index directory.
#[verifier::external_body]
pub fn sidecar_write(dir: &str, file_name: &str, contents: &str) -> (r: Result<(), String>) {
    let d = tantivy::directory::MmapDirectory::open(std::path::Path::new(dir)).map_err(|e| {
        e.to_string()
    })?;
    d.atomic_write(std::path::Path::new(file_name), contents.as_bytes()).map_err(|e| {
        e.to_string()
    })
}

/// Relies on MmapDirectory::open and Directory::atomic_read: reads a
/// whole file from the index directory.
#[verifier::external_body]
pub fn sidecar_read(dir: &str, file_name: &str) -> (r: Result<String, String>) {
    let d = tantivy::directory::MmapDirectory::open(std::path::Path::new(dir)).map_err(|e| {
        e.to_string()
    })?;
    let bytes = d.atomic_read(std::path::Path::new(file_name)).map_err(|e| e.to_string())?;
    String::from_utf8(bytes).map_err(|e| e.to_string())
}

/// Relies on Index::reader_builder with the on-commit reload policy.
#[verifier::external_body]
pub fn index_reader(index: &tantivy::Index) -> (r: Result<tantivy::IndexReader, String>) {
    index.reader_builder().reload_policy(tantivy::ReloadPolicy::OnCommitWithDelay).try_into()
        .map_err(|e: tantivy::TantivyError| e.to_string())
}

/// Relies on Index::writer with the given memory budget; the engine
/// refuses budgets outside its accepted range with an error.
#[verifier::external_body]
pub fn index_writer(index: &tantivy::Index, mem: usize) -> (r: Result<EngineWriter, String>)
    ensures
        r matches Ok(w) ==> writer_buffered(w) == Seq::<Seq<DocValueV>>::empty(),
{
    index.writer(mem).map(|w| EngineWriter { w }).map_err(|e| e.to_string())
}

/// Relies on IndexWriter::add_document: buffers one document; it is not
/// durable until a commit. A document carrying a field id outside the
/// index's schema would blow up later in the indexing pipeline, so it
/// is refused here with an error instead.
#[verifier::external_body]
pub fn writer_add_document(w: &mut EngineWriter, doc: tantivy::TantivyDocument) -> (r: Result<
    (),
    String,
>)
    ensures
        r matches Ok(_) ==> writer_buffered(*final(w)) == writer_buffered(*old(w)).push(
            doc_values_of(doc),
        ),
{
    let n = w.w.index().schema().num_fields() as u32;
    if doc.field_values().iter().any(|fv| fv.field.field_id() >= n) {
        return Err("doc: field id outside the index schema".to_string());
    }
    w.w.add_document(doc).map(|_| ()).map_err(|e| e.to_string())
}

/// Relies on IndexWriter::commit: flushes every buffered write durably,
/// leaving the buffer empty.
#[verifier::external_body]
pub fn writer_commit(w: &mut EngineWriter) -> (r: Result<(), String>)
    ensures
        r matches Ok(_) ==> writer_buffered(*final(w)) == Seq::<Seq<DocValueV>>::empty(),
{
    w.w.commit().map(|_| ()).map_err(|e| e.to_string())
}

/// Relies on IndexReader::reload: the next searcher observes the last
/// commit.
#[verifier::external_body]
pub fn reader_reload(r: &tantivy::IndexReader) -> (res: Result<(), String>) {
    r.reload().map_err(|e| e.to_string())
}

/// Relies on IndexReader::searcher: a point-in-time snapshot.
#[verifier::external_body]
pub fn reader_searcher(r: &tantivy::IndexReader) -> (s: tantivy::Searcher) {
    r.searcher()
}

/// Relies on Searcher::num_docs: the documents visible in this snapshot.
#[verifier::external_body]
pub fn searcher_num_docs(s: &tantivy::Searcher) -> (n: u64) {
    s.num_docs()
}

/// Relies on TantivyDocument::new: an empty document.
#[verifier::external_body]
pub fn doc_new() -> (d: tantivy::TantivyDocument)
    ensures
        doc_values_of(d) == Seq::<DocValueV>::empty(),
{
    tantivy::TantivyDocument::new()
}

/// Relies on TantivyDocument::add_text: appends one text value.
#[verifier::external_body]
pub fn doc_add_text(d: &mut tantivy::TantivyDocument, field_id: u32, v: &str)
    ensures
        doc_values_of(*final(d)) == doc_values_of(*old(d)).push(
            DocValueV::Text { field_id, value: v@ },
        ),
{
    d.add_text(tantivy::schema::Field::from_field_id(field_id), v);
}

/// Relies on TantivyDocument::add_i64: appends one integer value.
#[verifier::external_body]
pub fn doc_add_i64(d: &mut tantivy::TantivyDocument, field_id: u32, v: i64)
    ensures
        doc_values_of(*final(d)) == doc_values_of(*old(d)).push(
            DocValueV::I64 { field_id, value: v },
        ),
{
    d.add_i64(tantivy::schema::Field::from_field_id(field_id), v);
}

/// Relies on TantivyDocument::add_f64, the double taken from an integer.
#[verifier::external_body]
pub fn doc_add_f64_int(d: &mut tantivy::TantivyDocument, field_id: u32, v: i64)
    ensures
        doc_values_of(*final(d)) == doc_values_of(*old(d)).push(
            DocValueV::F64Int { field_id, value: v },
        ),
{
    d.add_f64(
        tantivy::schema::Field::from_field_id(field_id),
        serde_json::Number::from(v).as_f64().unwrap_or_default(),
    );
}

/// Relies on TantivyDocument::add_f64, the double read from its decimal
/// text.
#[verifier::external_body]
pub fn doc_add_f64_text(d: &mut tantivy::TantivyDocument, field_id: u32, t: &str)
    ensures
        doc_values_of(*final(d)) == doc_values_of(*old(d)).push(
            DocValueV::F64Text { field_id, text: t@ },
        ),
{
    d.add_f64(tantivy::schema::Field::from_field_id(field_id), t.parse().unwrap_or_default());
}

/// Relies on QueryParser::for_index and parse_query: the engine's free
/// text mini-syntax over the given fields; fails on malformed syntax or
/// an empty default-field set. The parser reads the schema entry of
/// every given field unchecked, so a field id outside the index's
/// schema is refused here with an error instead.
#[verifier::external_body]
pub fn q_parse(index: &tantivy::Index, field_ids: &Vec<u32>, text: &str) -> (r: Result<
    EngineQuery,
    String,
>)
    ensures
        r matches Ok(q) ==> engine_query_plan(q) == (CompiledQueryV::Parse {
            field_ids: field_ids@,
            text: text@,
        }),
{
    let n = index.schema().num_fields() as u32;
    if field_ids.iter().any(|id| *id >= n) {
        return Err("query: field id outside the index schema".to_string());
    }
    let fs = field_ids.iter().map(|id| tantivy::schema::Field::from_field_id(*id)).collect();
    let qp = tantivy::query::QueryParser::for_index(index, fs);
    qp.parse_query(text).map(|q| EngineQuery { q }).map_err(|e| e.to_string())
}

/// Relies on FuzzyTermQuery::new with transposition cost one.
#[verifier::external_body]
pub fn q_fuzzy(field_id: u32, token: &Vec<char>, distance: u8) -> (r: EngineQuery)
    ensures
        engine_query_plan(r) == (CompiledQueryV::FuzzyTerm { field_id, token: token@, distance }),
{
    let w: String = token.iter().collect();
    let t = tantivy::Term::from_field_text(tantivy::schema::Field::from_field_id(field_id), &w);
    EngineQuery { q: Box::new(tantivy::query::FuzzyTermQuery::new(t, distance, true)) }
}

/// Relies on PhraseQuery::new, which asks for at least two terms.
#[verifier::external_body]
pub fn q_phrase(field_id: u32, words: &Vec<Vec<char>>) -> (r: EngineQuery)
    requires
        words@.len() >= 2,
    ensures
        engine_query_plan(r) == (CompiledQueryV::Phrase {
            field_id,
            words: words@.map_values(|w: Vec<char>| w@),
        }),
{
    let f = tantivy::schema::Field::from_field_id(field_id);
    let terms: Vec<tantivy::Term> = words.iter().map(|w| {
        tantivy::Term::from_field_text(f, &w.iter().collect::<String>())
    }).collect();
    EngineQuery { q: Box::new(tantivy::query::PhraseQuery::new(terms)) }
}

/// Relies on RegexQuery::from_pattern, which fails on a malformed
/// pattern.
#[verifier::external_body]
pub fn q_regex(field_id: u32, pattern: &Vec<char>) -> (r: Result<EngineQuery, String>)
    ensures
        r matches Ok(q) ==> engine_query_plan(q) == (CompiledQueryV::Regex {
            field_id,
            pattern: pattern@,
        }),
{
    let p: String = pattern.iter().collect();
    tantivy::query::RegexQuery::from_pattern(&p, tantivy::schema::Field::from_field_id(field_id))
        .map(|q| EngineQuery { q: Box::new(q) }).map_err(|e| e.to_string())
}

/// Relies on TermQuery::new over a text term.
#[verifier::external_body]
pub fn q_term_text(field_id: u32, v: &str) -> (r: EngineQuery)
    ensures
        engine_query_plan(r) == (CompiledQueryV::TermText { field_id, value: v@ }),
{
    let t = tantivy::Term::from_field_text(tantivy::schema::Field::from_field_id(field_id), v);
    EngineQuery {
        q: Box::new(tantivy::query::TermQuery::new(t, tantivy::schema::IndexRecordOption::Basic)),
    }
}

/// Relies on TermQuery::new over an integer term.
#[verifier::external_body]
pub fn q_term_i64(field_id: u32, v: i64) -> (r: EngineQuery)
    ensures
        engine_query_plan(r) == (CompiledQueryV::TermI64 { field_id, value: v }),
{
    let t = tantivy::Term::from_field_i64(tantivy::schema::Field::from_field_id(field_id), v);
    EngineQuery {
        q: Box::new(tantivy::query::TermQuery::new(t, tantivy::schema::IndexRecordOption::Basic)),
    }
}

/// Relies on TermQuery::new over a double term; the number is read from
/// the scalar, any non-number reading as zero.
#[verifier::external_body]
pub fn q_term_f64(field_id: u32, v: &ScalarVal) -> (r: EngineQuery)
    ensures
        engine_query_plan(r) == (CompiledQueryV::TermF64 { field_id, value: v@ }),
{
    let x = match v {
        ScalarVal::I(i) => serde_json::Number::from(*i).as_f64().unwrap_or_default(),
        ScalarVal::F(t) => t.parse().unwrap_or_default(),
        _ => Default::default(),
    };
    let t = tantivy::Term::from_field_f64(tantivy::schema::Field::from_field_id(field_id), x);
    EngineQuery {
        q: Box::new(tantivy::query::TermQuery::new(t, tantivy::schema::IndexRecordOption::Basic)),
    }
}

/// Relies on RangeQuery::new_i64_bounds: lower bound inclusive, upper
/// bound exclusive or unbounded.
#[verifier::external_body]
pub fn q_range_i64(field: &str, lo: i64, hi_excl: &Option<i64>) -> (r: EngineQuery)
    ensures
        engine_query_plan(r) == (CompiledQueryV::RangeI64 { field: field@, lo, hi_excl: *hi_excl }),
{
    let hi = match hi_excl {
        Some(h) => std::ops::Bound::Excluded(*h),
        None => std::ops::Bound::Unbounded,
    };
    let q = tantivy::query::RangeQuery::new_i64_bounds(
        field.to_string(),
        std::ops::Bound::Included(lo),
        hi,
    );
    EngineQuery { q: Box::new(q) }
}

/// Relies on RangeQuery::new_f64_bounds: both bounds inclusive where
/// given, the numbers read from the scalars.
#[verifier::external_body]
pub fn q_range_f64(field: &str, min: &Option<ScalarVal>, max: &Option<ScalarVal>) -> (r:
    EngineQuery)
    ensures
        engine_query_plan(r) == (CompiledQueryV::RangeF64 {
            field: field@,
            min: match min {
                Some(v) => Some(v@),
                None => None,
            },
            max: match max {
                Some(v) => Some(v@),
                None => None,
            },
        }),
{
    let lo = match min {
        Some(ScalarVal::I(i)) => std::ops::Bound::Included(serde_json::Number::from(*i).as_f64().unwrap_or_default()),
        Some(ScalarVal::F(t)) => std::ops::Bound::Included(t.parse().unwrap_or_default()),
        _ => std::ops::Bound::Unbounded,
    };
    let hi = match max {
        Some(ScalarVal::I(i)) => std::ops::Bound::Included(serde_json::Number::from(*i).as_f64().unwrap_or_default()),
        Some(ScalarVal::F(t)) => std::ops::Bound::Included(t.parse().unwrap_or_default()),
        _ => std::ops::Bound::Unbounded,
    };
    EngineQuery { q: Box::new(tantivy::query::RangeQuery::new_f64_bounds(field.to_string(), lo, hi)) }
}

/// Relies on BooleanQuery::new; each clause keeps its occurrence
/// constraint, converted one for one.
#[verifier::external_body]
pub fn q_bool(clauses: Vec<(Occur, EngineQuery)>) -> (r: EngineQuery)
    ensures
        engine_query_plan(r) == (CompiledQueryV::Boolean { clauses: eq_plan_views(clauses@) }),
{
    let cs: Vec<(tantivy::query::Occur, Box<dyn tantivy::query::Query>)> =
        clauses.into_iter().map(|(o, q)| {
            (match o {
                Occur::Must => tantivy::query::Occur::Must,
                Occur::Should => tantivy::query::Occur::Should,
                Occur::MustNot => tantivy::query::Occur::MustNot,
            }, q.q)
        }).collect();
    EngineQuery { q: Box::new(tantivy::query::BooleanQuery::new(cs)) }
}

/// Relies on AllQuery: every document matches.
#[verifier::external_body]
pub fn q_all() -> (r: EngineQuery)
    ensures
        engine_query_plan(r) == CompiledQueryV::MatchAll,
{
    EngineQuery { q: Box::new(tantivy::query::AllQuery) }
}

/// Relies on Searcher::search with a Count collector beside a top-k
/// collector with an offset: at most `limit` hits come back, ordered by
/// descending score, and the count tallies every match, so it is at
/// least the number of hits returned. Each hit's score is carried as
/// its decimal text beside the document address.
#[verifier::external_body]
pub fn searcher_search(
    s: &tantivy::Searcher,
    q: &EngineQuery,
    limit: usize,
    offset: usize,
) -> (r: Result<(usize, Vec<(String, tantivy::DocAddress)>), String>)
    requires
        limit >= 1,
    ensures
        match r {
            Ok(p) => p.1@.len() <= limit && p.0 >= p.1@.len(),
            Err(_) => true,
        },
{
    let collector = (
        tantivy::collector::Count,
        tantivy::collector::TopDocs::with_limit(limit).and_offset(offset),
    );
    match s.search(&q.q, &collector) {
        Ok((total, top)) => Ok(
            (total, top.into_iter().map(|(sc, a)| (format!("{}", sc), a)).collect()),
        ),
        Err(e) => Err(e.to_string()),
    }
}

/// Relies on Searcher::doc: fetches one stored document by address.
/// The fetch indexes the searcher's segment list unchecked, so an
/// address whose segment lies outside this searcher is refused here
/// with an error instead.
#[verifier::external_body]
pub fn searcher_doc(s: &tantivy::Searcher, a: &tantivy::DocAddress) -> (r: Result<
    tantivy::TantivyDocument,
    String,
>) {
    if a.segment_ord as usize >= s.segment_readers().len() {
        return Err("doc address outside this searcher".to_string());
    }
    s.doc::<tantivy::TantivyDocument>(*a).map_err(|e| e.to_string())
}

/// Relies on TantivyDocument::get_first and Value::as_str: the first
/// stored text of a field, if any.
#[verifier::external_body]
pub fn doc_first_text(d: &tantivy::TantivyDocument, field_id: u32) -> (r: Option<String>)
    ensures
        match r {
            Some(s) => doc_first_text_of(*d, field_id) == Some(s@),
            None => doc_first_text_of(*d, field_id) is None,
        },
{
    d.get_first(tantivy::schema::Field::from_field_id(field_id)).and_then(|v| v.as_str()).map(
        |s| s.to_string(),
    )
}

/// Relies on TantivyDocument::get_first and Value::as_i64.
#[verifier::external_body]
pub fn doc_first_i64(d: &tantivy::TantivyDocument, field_id: u32) -> (r: Option<i64>)
    ensures
        r == doc_first_i64_of(*d, field_id),
{
    d.get_first(tantivy::schema::Field::from_field_id(field_id)).and_then(|v| v.as_i64())
}

/// Relies on TantivyDocument::get_first and Value::as_f64; the double is
/// carried out as its decimal text.
#[verifier::external_body]
pub fn doc_first_f64_text(d: &tantivy::TantivyDocument, field_id: u32) -> (r: Option<String>)
    ensures
        match r {
            Some(t) => doc_first_f64_text_of(*d, field_id) == Some(t@),
            None => doc_first_f64_text_of(*d, field_id) is None,
        },
{
    d.get_first(tantivy::schema::Field::from_field_id(field_id)).and_then(|v| v.as_f64()).map(
        |x| format!("{}", x),
    )
}

/// Whether a plan node lowers without any engine say: everything but
/// free-text parsing, pattern compilation, and a phrase of fewer than
/// two words.
pub open spec fn lower_total(c: CompiledQueryV) -> bool
    decreases c, 0int,
{
    match c {
        CompiledQueryV::Parse { .. } => false,
        CompiledQueryV::Regex { .. } => false,
        CompiledQueryV::Phrase { words, .. } => words.len() >= 2,
        CompiledQueryV::Boolean { clauses } => lower_total_list(clauses),
        _ => true,
    }
}

/// Whether every clause of a list lowers without any engine say.
pub open spec fn lower_total_list(cls: Seq<(Occur, CompiledQueryV)>) -> bool
    decreases cls, 1int,
{
    cls.len() == 0 || (lower_total_list(cls.drop_last()) && lower_total(cls.last().1))
}

/// A totally-lowerable clause list has totally-lowerable clauses.
proof fn lemma_lower_total_list_index(cls: Seq<(Occur, CompiledQueryV)>, i: int)
    requires
        lower_total_list(cls),
        0 <= i < cls.len(),
    ensures
        lower_total(cls[i].1),
    decreases cls.len(),
{
    if i < cls.len() - 1 {
        lemma_lower_total_list_index(cls.drop_last(), i);
        assert(cls.drop_last()[i] == cls[i]);
    }
}

/// Lowers a compiled query plan onto the engine's query objects, one
/// constructor call per node: on success the engine query realises
/// exactly the given plan. Fails only where the engine refuses a
/// piece — a malformed pattern, a malformed free-text query, or a
/// phrase of fewer than two words; a plan free of those pieces (the
/// match-all query among them) always lowers.
#[verifier::loop_isolation(false)]
pub fn lower_query(cq: &CompiledQuery, index: &tantivy::Index) -> (r: Result<EngineQuery, String>)
    ensures
        r matches Ok(q) ==> engine_query_plan(q) == cq@,
        lower_total(cq@) ==> r is Ok,
    decreases *cq,
{
    match cq {
        CompiledQuery::Parse { field_ids, text } => q_parse(index, field_ids, text.as_str()),
        CompiledQuery::FuzzyTerm { field_id, token, distance } => Ok(
            q_fuzzy(*field_id, token, *distance),
        ),
        CompiledQuery::Phrase { field_id, words } => {
            if words.len() >= 2 {
                Ok(q_phrase(*field_id, words))
            } else {
                proof {
                    assert(!lower_total(cq@));
                }
                Err("phrase needs at least two words".to_owned())
            }
        },
        CompiledQuery::Regex { field_id, pattern } => q_regex(*field_id, pattern),
        CompiledQuery::TermText { field_id, value } => Ok(
            q_term_text(*field_id, value.as_str()),
        ),
        CompiledQuery::TermI64 { field_id, value } => Ok(q_term_i64(*field_id, *value)),
        CompiledQuery::TermF64 { field_id, value } => Ok(q_term_f64(*field_id, value)),
        CompiledQuery::RangeI64 { field, lo, hi_excl } => Ok(
            q_range_i64(field.as_str(), *lo, hi_excl),
        ),
        CompiledQuery::RangeF64 { field, min, max } => Ok(q_range_f64(field.as_str(), min, max)),
        CompiledQuery::Boolean { clauses } => {
            let mut ecs: Vec<(Occur, EngineQuery)> = Vec::new();
            let n = clauses.len();
            proof {
                crate::compile::lemma_cl_views_index(clauses@);
                assert(eq_plan_views(ecs@) =~= Seq::<(Occur, CompiledQueryV)>::empty());
                assert(cl_views(clauses@).take(0) =~= Seq::<(Occur, CompiledQueryV)>::empty());
            }
            for i in 0..n
                invariant
                    n == clauses@.len(),
                    eq_plan_views(ecs@) == cl_views(clauses@).take(i as int),
            {
                proof {
                    assert(decreases_to!(*cq => *clauses));
                    assert(decreases_to!(*clauses => clauses@[i as int]));
                    assert(decreases_to!(clauses@[i as int] => clauses@[i as int].1));
                }
                match lower_query(&clauses[i].1, index) {
                    Ok(e) => {
                        let ghost old_ecs = ecs@;
                        let ghost ev = e;
                        ecs.push((clauses[i].0, e));
                        proof {
                            assert(ecs@ =~= old_ecs.push((clauses@[i as int].0, ev)));
                            lemma_eq_plan_views_push(old_ecs, clauses@[i as int].0, ev);
                            assert(cl_views(clauses@)[i as int] == (
                                clauses@[i as int].0,
                                clauses@[i as int].1@,
                            ));
                            assert(cl_views(clauses@).take(i + 1) =~= cl_views(
                                clauses@,
                            ).take(i as int).push(cl_views(clauses@)[i as int]));
                        }
                    },
                    Err(e) => {
                        proof {
                            if lower_total(cq@) {
                                assert(cq@ == (CompiledQueryV::Boolean {
                                    clauses: cl_views(clauses@),
                                }));
                                lemma_lower_total_list_index(cl_views(clauses@), i as int);
                                assert(cl_views(clauses@)[i as int] == (
                                    clauses@[i as int].0,
                                    clauses@[i as int].1@,
                                ));
                                assert(lower_total(clauses@[i as int].1@));
                                assert(false);
                            }
                        }
                        return Err(e);
                    },
                }
            }
            proof {
                assert(cl_views(clauses@).take(n as int) =~= cl_views(clauses@));
            }
            Ok(q_bool(ecs))
        },
        CompiledQuery::MatchAll => Ok(q_all()),
    }
}

} // verus!
