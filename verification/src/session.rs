use vstd::prelude::*;

use crate::compile::compile_query;
use crate::engine::{
    doc_add_f64_int, doc_add_f64_text, doc_add_i64, doc_add_text, doc_first_f64_text,
    doc_first_i64, doc_first_text, doc_new, builder_field_names, index_create_in_dir,
    index_open_in_dir, index_reader, index_writer, lower_query, num_options_fast,
    num_options_indexed, num_options_new, num_options_stored, reader_reload, reader_searcher,
    builder_fields, doc_first_f64_text_of, doc_first_i64_of, doc_first_text_of, doc_values_of,
    num_options_of, sb_add_f64_field, sb_add_i64_field, sb_add_text_field, sb_build, sb_new,
    schema_fields_of, searcher_doc, searcher_num_docs, searcher_search, sidecar_read,
    sidecar_write, text_options_fast, text_options_indexing, text_options_new,
    text_options_of, text_options_stored, writer_add_document, writer_buffered, writer_commit,
    DocValue, DocValueV, EngineQuery, EngineWriter, FieldOptsV, NumOptsV, TextOptsV,
};
use crate::json_value::{json_doc_of, parse_json, f64_trunc_of, JsonValue};
use crate::query::{query_def_from_json, spec_limit, spec_offset, spec_query_def_of, QueryDefV};
use crate::schema::{
    default_search_ids, defs_of, lemma_catalog_get_none, resolve_ids, schema_def_from_json,
    spec_catalog_get, spec_catalog_wf, spec_schema_def_of, spec_schema_of_text, spec_search_ids,
    Catalog, CatalogEntry, CatalogEntryV, FieldDef, FieldKind, SchemaDef, TokenizerKind,
};

verus! {

/// The memory budget handed to the engine writer, in bytes.
pub const MEM_BUDGET: usize = 256_000_000;

/// The name of the schema sidecar file persisted inside the index
/// directory; the sole source of truth for the schema on reopen.
pub const SCHEMA_FILE: &'static str = "_schema.json";

/// The tokenizer name handed to the engine for a tokenizer kind.
pub open spec fn spec_tok_text(t: TokenizerKind) -> Seq<char> {
    match t {
        TokenizerKind::Raw => "raw"@,
        TokenizerKind::Stemmed => "en_stem"@,
        TokenizerKind::Plain => "default"@,
    }
}

/// The engine declaration one schema field compiles to: stored, indexed
/// and fast flags map directly; an indexed text field selects its
/// tokenizer by name and records positions exactly when it is not
/// raw-tokenized, so phrase queries work only on non-raw fields.
pub open spec fn spec_field_opts(fd: crate::schema::FieldDefV) -> FieldOptsV {
    match fd.field_type {
        FieldKind::Text => FieldOptsV::Text(
            TextOptsV {
                stored: fd.stored,
                fast: fd.fast,
                indexing: if fd.indexed {
                    Some((spec_tok_text(fd.tokenizer), fd.tokenizer != TokenizerKind::Raw))
                } else {
                    None
                },
            },
        ),
        FieldKind::I64 => FieldOptsV::I64(
            NumOptsV { stored: fd.stored, indexed: fd.indexed, fast: fd.fast },
        ),
        FieldKind::F64 => FieldOptsV::F64(
            NumOptsV { stored: fd.stored, indexed: fd.indexed, fast: fd.fast },
        ),
    }
}

/// The engine declarations of a whole field list, in order.
pub open spec fn spec_engine_fields(fields: Seq<crate::schema::FieldDefV>) -> Seq<
    (Seq<char>, FieldOptsV),
> {
    fields.map_values(|fd: crate::schema::FieldDefV| (fd.name, spec_field_opts(fd)))
}

/// What one document key/value pair contributes to the engine document:
/// nothing when the key misses the catalog or the value's type does not
/// fit the field; otherwise one typed value. An integer field accepts a
/// float by truncation toward zero.
pub open spec fn spec_doc_value_of(p: (String, JsonValue), cat: Seq<CatalogEntryV>) -> Seq<
    DocValueV,
> {
    match spec_catalog_get(cat, p.0@) {
        None => Seq::empty(),
        Some(e) => match e.def.field_type {
            FieldKind::Text => match p.1 {
                JsonValue::Str(s) => seq![
                    DocValueV::Text { field_id: e.field_id, value: s@ },
                ],
                _ => Seq::empty(),
            },
            FieldKind::I64 => match p.1 {
                JsonValue::Int(i) => seq![DocValueV::I64 { field_id: e.field_id, value: i }],
                JsonValue::Float(t) => seq![
                    DocValueV::I64 { field_id: e.field_id, value: f64_trunc_of(t@) },
                ],
                _ => Seq::empty(),
            },
            FieldKind::F64 => match p.1 {
                JsonValue::Int(i) => seq![DocValueV::F64Int { field_id: e.field_id, value: i }],
                JsonValue::Float(t) => seq![
                    DocValueV::F64Text { field_id: e.field_id, text: t@ },
                ],
                _ => Seq::empty(),
            },
        },
    }
}

/// What a whole document object contributes, pair by pair in order.
pub open spec fn spec_doc_values(
    pairs: Seq<(String, JsonValue)>,
    cat: Seq<CatalogEntryV>,
) -> Seq<DocValueV>
    decreases pairs.len(),
{
    if pairs.len() == 0 {
        Seq::empty()
    } else {
        spec_doc_values(pairs.drop_last(), cat) + spec_doc_value_of(pairs.last(), cat)
    }
}

/// The mathematical contents of a list of document values.
pub open spec fn dv_views(vs: Seq<DocValue>) -> Seq<DocValueV>
    decreases vs.len(),
{
    if vs.len() == 0 {
        Seq::empty()
    } else {
        dv_views(vs.drop_last()).push(vs.last()@)
    }
}

proof fn lemma_dv_views_push(vs: Seq<DocValue>, v: DocValue)
    ensures
        dv_views(vs.push(v)) == dv_views(vs).push(v@),
{
    assert(vs.push(v).drop_last() =~= vs);
    assert(vs.push(v).last() == v);
}

/// Maps a document object onto engine values by the catalog: unknown
/// keys and ill-typed values are dropped, never an error.
#[verifier::loop_isolation(false)]
pub fn map_document(pairs: &Vec<(String, JsonValue)>, cat: &Catalog) -> (r: Vec<DocValue>)
    ensures
        dv_views(r@) == spec_doc_values(pairs@, cat@),
{
    let mut out: Vec<DocValue> = Vec::new();
    let n = pairs.len();
    proof {
        assert(pairs@.take(0) =~= Seq::<(String, JsonValue)>::empty());
        assert(dv_views(out@) =~= Seq::<DocValueV>::empty());
    }
    for i in 0..n
        invariant
            n == pairs@.len(),
            dv_views(out@) == spec_doc_values(pairs@.take(i as int), cat@),
    {
        proof {
            assert(pairs@.take(i + 1).drop_last() =~= pairs@.take(i as int));
            assert(pairs@.take(i + 1).last() == pairs@[i as int]);
        }
        let ghost old_out = out@;
        let key = &pairs[i].0;
        let val = &pairs[i].1;
        match cat.get(key.as_str()) {
            None => {
                proof {
                    assert(dv_views(out@) =~= dv_views(old_out) + Seq::<DocValueV>::empty());
                }
            },
            Some(e) => {
                let id = e.field_id;
                let mut pushed = false;
                match e.def.field_type {
                    FieldKind::Text => match val {
                        JsonValue::Str(s) => {
                            out.push(DocValue::Text { field_id: id, value: s.clone() });
                            pushed = true;
                        },
                        _ => {},
                    },
                    FieldKind::I64 => match val {
                        JsonValue::Int(v) => {
                            out.push(DocValue::I64 { field_id: id, value: *v });
                            pushed = true;
                        },
                        JsonValue::Float(t) => {
                            let tv = crate::json_value::number_text_trunc_i64(t.as_str());
                            out.push(DocValue::I64 { field_id: id, value: tv });
                            pushed = true;
                        },
                        _ => {},
                    },
                    FieldKind::F64 => match val {
                        JsonValue::Int(v) => {
                            out.push(DocValue::F64Int { field_id: id, value: *v });
                            pushed = true;
                        },
                        JsonValue::Float(t) => {
                            out.push(DocValue::F64Text { field_id: id, text: t.clone() });
                            pushed = true;
                        },
                        _ => {},
                    },
                }
                proof {
                    if pushed {
                        assert(out@ =~= old_out.push(out@.last()));
                        lemma_dv_views_push(old_out, out@.last());
                        assert(dv_views(out@) =~= dv_views(old_out) + seq![out@.last()@]);
                    } else {
                        assert(dv_views(out@) =~= dv_views(old_out) + Seq::<DocValueV>::empty());
                    }
                }
            },
        }
    }
    proof {
        assert(pairs@.take(n as int) =~= pairs@);
    }
    out
}

/// The results envelope of one search: the shaped documents, how many
/// were returned, how many matched overall, and the pagination pair
/// they were collected under.
pub struct SearchResults {
    pub results: Vec<JsonValue>,
    pub count: usize,
    pub total_count: usize,
    pub limit: usize,
    pub offset: usize,
    /// The fetched engine documents the results were shaped from, one
    /// per result; specification data only.
    pub hit_docs: Ghost<Seq<tantivy::TantivyDocument>>,
    /// The score texts injected into the results, one per result;
    /// specification data only.
    pub hit_scores: Ghost<Seq<Seq<char>>>,
}

/// One value extracted from a stored document for the result object.
pub ghost enum OutValV {
    S(Seq<char>),
    I(i64),
    F(Seq<char>),
}

/// The content of one key/value pair of a result object.
pub open spec fn kv_view(p: (String, JsonValue)) -> (Seq<char>, OutValV) {
    (
        p.0@,
        match p.1 {
            JsonValue::Str(s) => OutValV::S(s@),
            JsonValue::Int(i) => OutValV::I(i),
            JsonValue::Float(t) => OutValV::F(t@),
            _ => OutValV::S(Seq::empty()),
        },
    )
}

/// The content of a result object's pair list.
pub open spec fn kv_views(pairs: Seq<(String, JsonValue)>) -> Seq<(Seq<char>, OutValV)> {
    pairs.map_values(|p: (String, JsonValue)| kv_view(p))
}

/// What a fetched document yields for a catalog, field by field in
/// catalog order: the first stored value of the expected type under the
/// field's name where present, nothing where the field is unstored or
/// absent — partial documents round-trip as partial objects.
pub open spec fn spec_extracted(
    entries: Seq<CatalogEntryV>,
    d: tantivy::TantivyDocument,
) -> Seq<(Seq<char>, OutValV)>
    decreases entries.len(),
{
    if entries.len() == 0 {
        Seq::empty()
    } else {
        let rest = spec_extracted(entries.drop_last(), d);
        let e = entries.last();
        match e.def.field_type {
            FieldKind::Text => match doc_first_text_of(d, e.field_id) {
                Some(s) => rest.push((e.def.name, OutValV::S(s))),
                None => rest,
            },
            FieldKind::I64 => match doc_first_i64_of(d, e.field_id) {
                Some(v) => rest.push((e.def.name, OutValV::I(v))),
                None => rest,
            },
            FieldKind::F64 => match doc_first_f64_text_of(d, e.field_id) {
                Some(t) => rest.push((e.def.name, OutValV::F(t))),
                None => rest,
            },
        }
    }
}

/// Whether a result entry is the shape of one fetched document: the
/// document's extraction by the catalog, with the relevance score
/// appended last under `_score`.
pub open spec fn spec_hit_shaped(
    v: JsonValue,
    entries: Seq<CatalogEntryV>,
    d: tantivy::TantivyDocument,
    score: Seq<char>,
) -> bool {
    match v {
        JsonValue::Obj(pairs) => kv_views(pairs@) == spec_extracted(entries, d).push(
            ("_score"@, OutValV::F(score)),
        ),
        _ => false,
    }
}

/// A shaped search hit: a JSON object whose last key is the injected
/// relevance score.
pub open spec fn spec_scored_obj(v: JsonValue) -> bool {
    match v {
        JsonValue::Obj(pairs) => pairs@.len() >= 1 && pairs@.last().0@ == "_score"@
            && pairs@.last().1 matches JsonValue::Float(_),
        _ => false,
    }
}

/// A shaped hit is a scored object.
proof fn lemma_shaped_scored(
    v: JsonValue,
    entries: Seq<CatalogEntryV>,
    d: tantivy::TantivyDocument,
    score: Seq<char>,
)
    requires
        spec_hit_shaped(v, entries, d, score),
    ensures
        spec_scored_obj(v),
{
    match v {
        JsonValue::Obj(pairs) => {
            let kv = kv_views(pairs@);
            assert(kv.len() == pairs@.len());
            assert(kv.last() == ("_score"@, OutValV::F(score)));
            assert(kv.last() == kv_view(pairs@.last()));
            match pairs@.last().1 {
                JsonValue::Float(_) => {},
                _ => {
                    assert(false);
                },
            }
        },
        _ => {},
    }
}

/// The query described by a query text: parsed as JSON, then read as a
/// query of the DSL.
pub open spec fn spec_query_of_text(t: Seq<char>) -> Option<QueryDefV> {
    match json_doc_of(t) {
        Some(j) => spec_query_def_of(j),
        None => None,
    }
}

/// Whether a list of field definitions carries pairwise distinct names.
pub open spec fn spec_names_unique(fields: Seq<crate::schema::FieldDefV>) -> bool {
    forall|i: int, k: int| 0 <= i < k < fields.len() ==> fields[i].name != fields[k].name
}

/// An open index session: the engine handles, the field catalog built
/// from the schema, and the default search-field set. The writer is
/// owned exclusively; adding and committing take the session by
/// exclusive reference, which serialises writers statically.
pub struct TantivyIndex {
    index: tantivy::Index,
    reader: tantivy::IndexReader,
    writer: EngineWriter,
    catalog: Catalog,
    search_fields: Vec<u32>,
}

impl TantivyIndex {
    /// The catalog's content.
    pub closed spec fn catalog_view(&self) -> Seq<CatalogEntryV> {
        self.catalog@
    }

    /// The default search-field set.
    pub closed spec fn search_fields_view(&self) -> Seq<u32> {
        self.search_fields@
    }

    /// The documents buffered in the writer since the last commit, each
    /// as the values it carries.
    pub closed spec fn buffered_docs(&self) -> Seq<Seq<DocValueV>> {
        writer_buffered(self.writer)
    }

    /// The session's invariant: catalog names are pairwise distinct.
    pub open spec fn wf(&self) -> bool {
        spec_catalog_wf(self.catalog_view())
    }

    /// The session's catalog and search fields are exactly those the
    /// schema text describes.
    pub open spec fn built_from(&self, t: Seq<char>) -> bool {
        match spec_schema_of_text(t) {
            Some(sd) => defs_of(self.catalog_view()) == sd.fields && self.search_fields_view()
                == spec_search_ids(sd, self.catalog_view()),
            None => false,
        }
    }

    /// The field definitions of the open session, in schema order.
    #[verifier::loop_isolation(false)]
    pub fn field_defs(&self) -> (r: Vec<FieldDef>)
        ensures
            r@.map_values(|f: FieldDef| f@) == defs_of(self.catalog_view()),
    {
        let mut out: Vec<FieldDef> = Vec::new();
        let n = self.catalog.entries.len();
        proof {
            assert(out@.map_values(|f: FieldDef| f@) =~= defs_of(self.catalog_view()).take(0));
        }
        for i in 0..n
            invariant
                n == self.catalog.entries@.len(),
                out@.map_values(|f: FieldDef| f@) == defs_of(self.catalog_view()).take(i as int),
        {
            let ghost old_out = out@.map_values(|f: FieldDef| f@);
            let fd = self.catalog.entries[i].def.duplicate();
            let ghost fdv = fd@;
            out.push(fd);
            proof {
                assert(out@.map_values(|f: FieldDef| f@) =~= old_out.push(fdv));
                assert(defs_of(self.catalog_view()).take(i + 1) =~= defs_of(
                    self.catalog_view(),
                ).take(i as int).push(defs_of(self.catalog_view())[i as int]));
            }
        }
        proof {
            assert(defs_of(self.catalog_view()).take(n as int) =~= defs_of(self.catalog_view()));
        }
        out
    }

    /// Builds the engine schema and the field catalog out of a schema
    /// definition; fails exactly when two fields share a name. The built
    /// schema declares, per field in order, exactly the engine options
    /// its definition asks for.
    #[verifier::loop_isolation(false)]
    #[verifier::rlimit(60)]
    fn build_catalog(sd: &SchemaDef) -> (r: Result<(tantivy::schema::Schema, Catalog), String>)
        ensures
            match r {
                Ok(p) => defs_of(p.1@) == sd@.fields && spec_catalog_wf(p.1@)
                    && schema_fields_of(p.0) == spec_engine_fields(sd@.fields),
                Err(_) => !spec_names_unique(sd@.fields),
            },
    {
        let mut sb = sb_new();
        let mut cat = Catalog { entries: Vec::new() };
        let n = sd.fields.len();
        proof {
            assert(defs_of(cat@) =~= sd@.fields.take(0));
            assert(builder_field_names(sb) =~= cat@.map_values(
                |e: CatalogEntryV| e.def.name,
            ));
            assert(builder_fields(sb) =~= spec_engine_fields(sd@.fields.take(0)));
        }
        for i in 0..n
            invariant
                n == sd.fields@.len(),
                defs_of(cat@) == sd@.fields.take(i as int),
                spec_catalog_wf(cat@),
                builder_field_names(sb) == cat@.map_values(|e: CatalogEntryV| e.def.name),
                builder_fields(sb) == spec_engine_fields(sd@.fields.take(i as int)),
        {
            let fd = &sd.fields[i];
            match cat.get(fd.name.as_str()) {
                Some(_) => {
                    proof {
                        lemma_catalog_get_none(cat@, fd.name@);
                        assert(exists|k: int|
                            0 <= k < cat@.len() && (#[trigger] cat@[k]).def.name == fd.name@);
                        let k = choose|k: int|
                            0 <= k < cat@.len() && (#[trigger] cat@[k]).def.name == fd.name@;
                        assert(defs_of(cat@)[k] == cat@[k].def);
                        assert(sd@.fields.take(i as int)[k] == sd@.fields[k]);
                        assert(fd.name@ == sd@.fields[i as int].name);
                        assert(sd@.fields[k].name == sd@.fields[i as int].name);
                        assert(!spec_names_unique(sd@.fields));
                    }
                    let mut m = "schema: duplicate field: ".to_owned();
                    m.append(fd.name.as_str());
                    return Err(m);
                },
                None => {},
            }
            proof {
                lemma_catalog_get_none(cat@, fd.name@);
                let names = cat@.map_values(|e: CatalogEntryV| e.def.name);
                if names.contains(fd.name@) {
                    let k = choose|k: int| 0 <= k < names.len() && names[k] == fd.name@;
                    assert(names[k] == cat@[k].def.name);
                    assert(false);
                }
                assert(!builder_field_names(sb).contains(fd.name@));
            }
            let ghost old_builder = builder_fields(sb);
            let id: u32 = match fd.field_type {
                FieldKind::Text => {
                    let tok: &str = match fd.tokenizer {
                        TokenizerKind::Raw => "raw",
                        TokenizerKind::Stemmed => "en_stem",
                        TokenizerKind::Plain => "default",
                    };
                    let positions = !matches!(fd.tokenizer, TokenizerKind::Raw);
                    proof {
                        assert(tok@ == spec_tok_text(fd@.tokenizer));
                    }
                    let mut o = text_options_new();
                    if fd.stored {
                        o = text_options_stored(o);
                    }
                    if fd.indexed {
                        o = text_options_indexing(o, tok, positions);
                    }
                    if fd.fast {
                        o = text_options_fast(o);
                    }
                    proof {
                        assert(FieldOptsV::Text(text_options_of(o)) == spec_field_opts(fd@));
                    }
                    sb_add_text_field(&mut sb, fd.name.as_str(), o)
                },
                FieldKind::I64 => {
                    let mut o = num_options_new();
                    if fd.stored {
                        o = num_options_stored(o);
                    }
                    if fd.indexed {
                        o = num_options_indexed(o);
                    }
                    if fd.fast {
                        o = num_options_fast(o);
                    }
                    proof {
                        assert(FieldOptsV::I64(num_options_of(o)) == spec_field_opts(fd@));
                    }
                    sb_add_i64_field(&mut sb, fd.name.as_str(), o)
                },
                FieldKind::F64 => {
                    let mut o = num_options_new();
                    if fd.stored {
                        o = num_options_stored(o);
                    }
                    if fd.indexed {
                        o = num_options_indexed(o);
                    }
                    if fd.fast {
                        o = num_options_fast(o);
                    }
                    proof {
                        assert(FieldOptsV::F64(num_options_of(o)) == spec_field_opts(fd@));
                    }
                    sb_add_f64_field(&mut sb, fd.name.as_str(), o)
                },
            };
            proof {
                assert(builder_fields(sb) == old_builder.push(
                    (fd@.name, spec_field_opts(fd@)),
                ));
                assert(spec_engine_fields(sd@.fields.take(i + 1)) =~= spec_engine_fields(
                    sd@.fields.take(i as int),
                ).push((fd@.name, spec_field_opts(fd@))));
                assert(builder_field_names(sb) =~= old_builder.map_values(
                    |p: (Seq<char>, FieldOptsV)| p.0,
                ).push(fd@.name));
            }
            let ghost old_cat = cat@;
            cat.entries.push(CatalogEntry { field_id: id, def: fd.duplicate() });
            proof {
                assert(cat@ =~= old_cat.push(cat@.last()));
                assert(defs_of(cat@) =~= defs_of(old_cat).push(cat@.last().def));
                assert(sd@.fields.take(i + 1) =~= sd@.fields.take(i as int).push(
                    sd@.fields[i as int],
                ));
                assert(sd@.fields[i as int] == sd.fields@[i as int]@);
                lemma_catalog_get_none(old_cat, fd.name@);
                assert forall|a: int, b: int|
                    0 <= a < b < cat@.len() implies cat@[a].def.name != cat@[b].def.name by {
                    if b < cat@.len() - 1 {
                        assert(cat@[a] == old_cat[a] && cat@[b] == old_cat[b]);
                    } else {
                        assert(cat@[a] == old_cat[a]);
                    }
                }
                assert(cat@.map_values(|e: CatalogEntryV| e.def.name) =~= old_cat.map_values(
                    |e: CatalogEntryV| e.def.name,
                ).push(fd.name@));
            }
        }
        proof {
            assert(sd@.fields.take(n as int) =~= sd@.fields);
        }
        Ok((sb_build(sb), cat))
    }

    /// Creates a fresh index under an existing, empty directory: the
    /// schema text is compiled into the catalog, persisted as the
    /// sidecar file, and the engine index, reader and writer are set
    /// up. Fails on malformed schema text, duplicate field names, or
    /// any engine refusal.
    pub fn create(path: &str, schema_json: &str) -> (r: Result<TantivyIndex, String>)
        ensures
            r matches Ok(s) ==> s.wf() && s.built_from(schema_json@),
            json_doc_of(schema_json@) is None ==> r is Err,
            (json_doc_of(schema_json@) matches Some(j) && spec_schema_def_of(j) is None)
                ==> r is Err,
            (spec_schema_of_text(schema_json@) matches Some(sd) && !spec_names_unique(sd.fields))
                ==> r is Err,
    {
        let j = match parse_json(schema_json) {
            Some(j) => j,
            None => {
                return Err("schema: malformed JSON".to_owned());
            },
        };
        let sd = match schema_def_from_json(&j) {
            Ok(sd) => sd,
            Err(e) => {
                return Err(e);
            },
        };
        let (schema, catalog) = match Self::build_catalog(&sd) {
            Ok(p) => p,
            Err(e) => {
                return Err(e);
            },
        };
        let index = match index_create_in_dir(path, &schema) {
            Ok(ix) => ix,
            Err(e) => {
                return Err(e);
            },
        };
        match sidecar_write(path, SCHEMA_FILE, schema_json) {
            Ok(_) => {},
            Err(e) => {
                return Err(e);
            },
        }
        proof {
            assert forall|a: int, b: int|
                0 <= a < b < sd@.fields.len() implies sd@.fields[a].name != sd@.fields[b].name by {
                assert(defs_of(catalog@)[a] == catalog@[a].def);
                assert(defs_of(catalog@)[b] == catalog@[b].def);
            }
            assert(spec_names_unique(sd@.fields));
        }
        Self::finish(index, catalog, &sd)
    }

    /// Reopens an existing index: the schema text persisted beside it
    /// is read back and compiled into the same catalog that creation
    /// built from that text — the catalog is a pure function of the
    /// schema text, so this holds whenever the sidecar file still reads
    /// as written, which is the filesystem's part to keep.
    pub fn open(path: &str) -> (r: Result<TantivyIndex, String>)
        ensures
            r matches Ok(s) ==> s.wf() && exists|t: Seq<char>| s.built_from(t),
    {
        let sj = match sidecar_read(path, SCHEMA_FILE) {
            Ok(s) => s,
            Err(e) => {
                return Err(e);
            },
        };
        let j = match parse_json(sj.as_str()) {
            Some(j) => j,
            None => {
                return Err("schema: malformed JSON".to_owned());
            },
        };
        let sd = match schema_def_from_json(&j) {
            Ok(sd) => sd,
            Err(e) => {
                return Err(e);
            },
        };
        let (_schema, catalog) = match Self::build_catalog(&sd) {
            Ok(p) => p,
            Err(e) => {
                return Err(e);
            },
        };
        let index = match index_open_in_dir(path) {
            Ok(ix) => ix,
            Err(e) => {
                return Err(e);
            },
        };
        let r = Self::finish(index, catalog, &sd);
        proof {
            match &r {
                Ok(s) => {
                    assert(s.built_from(sj@));
                },
                Err(_) => {},
            }
        }
        r
    }

    /// Sets up reader, writer and the default search-field set.
    fn finish(index: tantivy::Index, catalog: Catalog, sd: &SchemaDef) -> (r: Result<
        TantivyIndex,
        String,
    >)
        requires
            spec_catalog_wf(catalog@),
            defs_of(catalog@) == sd@.fields,
        ensures
            r matches Ok(s) ==> s.wf() && s.catalog_view() == catalog@
                && s.search_fields_view() == spec_search_ids(sd@, catalog@)
                && s.buffered_docs() == Seq::<Seq<DocValueV>>::empty(),
    {
        let reader = match index_reader(&index) {
            Ok(rd) => rd,
            Err(e) => {
                return Err(e);
            },
        };
        let writer = match index_writer(&index, MEM_BUDGET) {
            Ok(w) => w,
            Err(e) => {
                return Err(e);
            },
        };
        let search_fields: Vec<u32> = if sd.search_fields.len() > 0 {
            proof {
                assert(sd@.search_fields.len() > 0);
            }
            resolve_ids(&sd.search_fields, &catalog)
        } else {
            proof {
                assert(sd@.search_fields.len() == 0);
            }
            default_search_ids(&catalog)
        };
        Ok(TantivyIndex { index, reader, writer, catalog, search_fields })
    }

    /// Buffers one JSON document: each key that names a catalog field
    /// and holds a value of the right shape is mapped onto the engine
    /// document; everything else is dropped silently. Not durable until
    /// a commit. Fails on malformed JSON, on a non-object document, or
    /// on an engine refusal.
    pub fn add_doc(&mut self, doc_json: &str) -> (r: Result<(), String>)
        ensures
            final(self).catalog_view() == old(self).catalog_view(),
            final(self).search_fields_view() == old(self).search_fields_view(),
            json_doc_of(doc_json@) is None ==> r is Err,
            (json_doc_of(doc_json@) matches Some(j) && !(j matches JsonValue::Obj(_)))
                ==> r is Err,
            r matches Ok(_) ==> (json_doc_of(doc_json@) matches Some(j)
                && j matches JsonValue::Obj(pairs) && final(self).buffered_docs() == old(
                self,
            ).buffered_docs().push(spec_doc_values(pairs@, old(self).catalog_view()))),
    {
        let j = match parse_json(doc_json) {
            Some(j) => j,
            None => {
                return Err("doc: malformed JSON".to_owned());
            },
        };
        let pairs = match &j {
            JsonValue::Obj(pairs) => pairs,
            _ => {
                return Err("doc: not an object".to_owned());
            },
        };
        let values = map_document(pairs, &self.catalog);
        let mut d = doc_new();
        let n = values.len();
        proof {
            assert(doc_values_of(d) =~= dv_views(values@.take(0)));
        }
        for i in 0..n
            invariant
                n == values@.len(),
                doc_values_of(d) == dv_views(values@.take(i as int)),
        {
            proof {
                assert(values@.take(i + 1).drop_last() =~= values@.take(i as int));
                assert(values@.take(i + 1).last() == values@[i as int]);
            }
            match &values[i] {
                DocValue::Text { field_id, value } => doc_add_text(&mut d, *field_id, value.as_str()),
                DocValue::I64 { field_id, value } => doc_add_i64(&mut d, *field_id, *value),
                DocValue::F64Int { field_id, value } => doc_add_f64_int(&mut d, *field_id, *value),
                DocValue::F64Text { field_id, text } => doc_add_f64_text(
                    &mut d,
                    *field_id,
                    text.as_str(),
                ),
            }
        }
        proof {
            assert(values@.take(n as int) =~= values@);
        }
        writer_add_document(&mut self.writer, d)
    }

    /// Flushes buffered writes durably, then reloads the reader so that
    /// later reads observe the new state.
    pub fn commit(&mut self) -> (r: Result<(), String>)
        ensures
            final(self).catalog_view() == old(self).catalog_view(),
            final(self).search_fields_view() == old(self).search_fields_view(),
            r matches Ok(_) ==> final(self).buffered_docs() == Seq::<Seq<DocValueV>>::empty(),
    {
        match writer_commit(&mut self.writer) {
            Ok(_) => {},
            Err(e) => {
                return Err(e);
            },
        }
        reader_reload(&self.reader)
    }

    /// The number of documents visible in the current reader snapshot.
    pub fn num_docs(&self) -> u64 {
        let s = reader_searcher(&self.reader);
        searcher_num_docs(&s)
    }

    /// Compiles and runs one query of the JSON DSL. On success the
    /// envelope carries the query's own limit and offset, at most
    /// `limit` results, and a total matching count that is never below
    /// the returned count. Fails on malformed query JSON, an unknown
    /// query type, an unknown field in a term match, a limit of zero,
    /// or an engine refusal.
    pub fn search(&self, query_json: &str) -> (r: Result<SearchResults, String>)
        ensures
            r matches Ok(res) ==> (spec_query_of_text(query_json@) matches Some(qv)
                && res.limit == spec_limit(qv) && res.offset == spec_offset(qv) && res.limit >= 1
                && res.count == res.results@.len() && res.count <= res.limit
                && res.total_count >= res.count && (forall|k: int|
                    0 <= k < res.results@.len() ==> spec_scored_obj(
                        #[trigger] res.results@[k],
                    )) && res.hit_docs@.len() == res.results@.len()
                && res.hit_scores@.len() == res.results@.len() && (forall|k: int|
                    0 <= k < res.results@.len() ==> spec_hit_shaped(
                        #[trigger] res.results@[k],
                        self.catalog_view(),
                        res.hit_docs@[k],
                        res.hit_scores@[k],
                    ))),
            spec_query_of_text(query_json@) is None ==> r is Err,
            (spec_query_of_text(query_json@) matches Some(qv) && spec_limit(qv) == 0)
                ==> r is Err,
            (spec_query_of_text(query_json@) matches Some(qv) && crate::compile::spec_compile(
                qv,
                self.catalog_view(),
                self.search_fields_view(),
            ) is None) ==> r is Err,
    {
        let j = match parse_json(query_json) {
            Some(j) => j,
            None => {
                return Err("query: malformed JSON".to_owned());
            },
        };
        let qd = match query_def_from_json(&j) {
            Ok(qd) => qd,
            Err(e) => {
                return Err(e);
            },
        };
        let limit = qd.limit();
        let offset = qd.offset();
        if limit == 0 {
            return Err("query: limit must be at least 1".to_owned());
        }
        let cq = match compile_query(&qd, &self.catalog, &self.search_fields) {
            Ok(cq) => cq,
            Err(e) => {
                return Err(e);
            },
        };
        let eq = match lower_query(&cq, &self.index) {
            Ok(eq) => eq,
            Err(e) => {
                return Err(e);
            },
        };
        self.exec_search(&eq, limit, offset)
    }

    /// Shapes one fetched document: for every catalog field whose first
    /// stored value is present with the expected type, that value keyed
    /// by the field's name, in catalog order, and the relevance score
    /// appended last under `_score`.
    #[verifier::loop_isolation(false)]
    pub fn shape_hit(cat: &Catalog, doc: &tantivy::TantivyDocument, score_text: String) -> (r: Vec<
        (String, JsonValue),
    >)
        ensures
            kv_views(r@) == spec_extracted(cat@, *doc).push(
                ("_score"@, OutValV::F(score_text@)),
            ),
    {
        let mut obj: Vec<(String, JsonValue)> = Vec::new();
        let m = cat.entries.len();
        proof {
            assert(kv_views(obj@) =~= spec_extracted(cat@.take(0), *doc));
        }
        for k in 0..m
            invariant
                m == cat.entries@.len(),
                kv_views(obj@) == spec_extracted(cat@.take(k as int), *doc),
        {
            proof {
                assert(cat@.take(k + 1).drop_last() =~= cat@.take(k as int));
                assert(cat@.take(k + 1).last() == cat@[k as int]);
            }
            let ghost old_obj = obj@;
            let e = &cat.entries[k];
            let mut pushed = false;
            match e.def.field_type {
                FieldKind::Text => match doc_first_text(doc, e.field_id) {
                    Some(s) => {
                        obj.push((e.def.name.clone(), JsonValue::Str(s)));
                        pushed = true;
                    },
                    None => {},
                },
                FieldKind::I64 => match doc_first_i64(doc, e.field_id) {
                    Some(v) => {
                        obj.push((e.def.name.clone(), JsonValue::Int(v)));
                        pushed = true;
                    },
                    None => {},
                },
                FieldKind::F64 => match doc_first_f64_text(doc, e.field_id) {
                    Some(t) => {
                        obj.push((e.def.name.clone(), JsonValue::Float(t)));
                        pushed = true;
                    },
                    None => {},
                },
            }
            proof {
                if pushed {
                    assert(obj@ =~= old_obj.push(obj@.last()));
                    assert(kv_views(obj@) =~= kv_views(old_obj).push(kv_view(obj@.last())));
                } else {
                    assert(obj@ =~= old_obj);
                }
            }
        }
        proof {
            assert(cat@.take(m as int) =~= cat@);
        }
        let ghost before = obj@;
        obj.push(("_score".to_owned(), JsonValue::Float(score_text)));
        proof {
            assert(obj@ =~= before.push(obj@.last()));
            assert(kv_views(obj@) =~= kv_views(before).push(kv_view(obj@.last())));
        }
        obj
    }

    /// Runs a lowered query with top-k collection and a total counter,
    /// and shapes each hit back into a JSON object by the catalog.
    #[verifier::loop_isolation(false)]
    fn exec_search(&self, eq: &EngineQuery, limit: usize, offset: usize) -> (r: Result<
        SearchResults,
        String,
    >)
        requires
            limit >= 1,
        ensures
            r matches Ok(res) ==> (res.limit == limit && res.offset == offset && res.count
                == res.results@.len() && res.count <= limit && res.total_count >= res.count
                && (forall|k: int|
                    0 <= k < res.results@.len() ==> spec_scored_obj(#[trigger] res.results@[k]))
                && res.hit_docs@.len() == res.results@.len()
                && res.hit_scores@.len() == res.results@.len() && (forall|k: int|
                    0 <= k < res.results@.len() ==> spec_hit_shaped(
                        #[trigger] res.results@[k],
                        self.catalog_view(),
                        res.hit_docs@[k],
                        res.hit_scores@[k],
                    ))),
    {
        let searcher = reader_searcher(&self.reader);
        let (total_count, hits) = match searcher_search(&searcher, eq, limit, offset) {
            Ok(p) => p,
            Err(e) => {
                return Err(e);
            },
        };
        let mut results: Vec<JsonValue> = Vec::new();
        let ghost mut docs: Seq<tantivy::TantivyDocument> = Seq::empty();
        let ghost mut scores: Seq<Seq<char>> = Seq::empty();
        let n = hits.len();
        for i in 0..n
            invariant
                n == hits@.len(),
                results@.len() == i,
                docs.len() == i,
                scores.len() == i,
                forall|k: int| 0 <= k < i ==> spec_scored_obj(#[trigger] results@[k]),
                forall|k: int|
                    0 <= k < i ==> spec_hit_shaped(
                        #[trigger] results@[k],
                        self.catalog_view(),
                        docs[k],
                        scores[k],
                    ),
        {
            let doc = match searcher_doc(&searcher, &hits[i].1) {
                Ok(d) => d,
                Err(e) => {
                    return Err(e);
                },
            };
            let ghost dg = doc;
            let score = hits[i].0.clone();
            let ghost scv = score@;
            let obj = Self::shape_hit(&self.catalog, &doc, score);
            results.push(JsonValue::Obj(obj));
            proof {
                docs = docs.push(dg);
                scores = scores.push(scv);
                assert(results@.last() == JsonValue::Obj(results@.last()->Obj_0));
                assert(spec_hit_shaped(results@[i as int], self.catalog_view(), dg, scv));
                lemma_shaped_scored(results@[i as int], self.catalog_view(), dg, scv);
            }
        }
        let ghost resv = results@;
        let count = results.len();
        let res = SearchResults {
            results,
            count,
            total_count,
            limit,
            offset,
            hit_docs: Ghost(docs),
            hit_scores: Ghost(scores),
        };
        proof {
            assert(res.results@ == resv);
            assert forall|k: int|
                0 <= k < res.results@.len() implies spec_scored_obj(
                #[trigger] res.results@[k],
            ) by {
                assert(res.results@[k] == resv[k]);
                assert(spec_scored_obj(resv[k]));
            }
            assert forall|k: int|
                0 <= k < res.results@.len() implies spec_hit_shaped(
                #[trigger] res.results@[k],
                self.catalog_view(),
                res.hit_docs@[k],
                res.hit_scores@[k],
            ) by {
                assert(res.results@[k] == resv[k]);
                assert(spec_hit_shaped(resv[k], self.catalog_view(), docs[k], scores[k]));
            }
        }
        Ok(res)
    }
}

} // verus!
