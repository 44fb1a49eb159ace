use vstd::prelude::*;

use crate::json_value::{json_doc_of, obj_get, spec_obj_get, JsonValue};
use crate::text::str_eq;

verus! {

/// The declared type of a schema field.
#[derive(Clone, Copy, Debug, PartialEq, Eq, Structural)]
pub enum FieldKind {
    Text,
    I64,
    F64,
}

/// The analysis pipeline selected for a text field. `Plain` is the
/// engine's simple tokenizer, `Raw` indexes the value as one exact term,
/// `Stemmed` is the English stemming pipeline. Any tokenizer name other
/// than the two special ones reads as `Plain`.
#[derive(Clone, Copy, Debug, PartialEq, Eq, Structural)]
pub enum TokenizerKind {
    Plain,
    Raw,
    Stemmed,
}

/// One field of a schema: its name, declared type and storage flags.
#[derive(Debug, Clone, PartialEq)]
pub struct FieldDef {
    pub name: String,
    pub field_type: FieldKind,
    pub stored: bool,
    pub indexed: bool,
    pub fast: bool,
    pub tokenizer: TokenizerKind,
}

/// The mathematical content of a `FieldDef`.
pub ghost struct FieldDefV {
    pub name: Seq<char>,
    pub field_type: FieldKind,
    pub stored: bool,
    pub indexed: bool,
    pub fast: bool,
    pub tokenizer: TokenizerKind,
}

impl View for FieldDef {
    type V = FieldDefV;

    open spec fn view(&self) -> FieldDefV {
        FieldDefV {
            name: self.name@,
            field_type: self.field_type,
            stored: self.stored,
            indexed: self.indexed,
            fast: self.fast,
            tokenizer: self.tokenizer,
        }
    }
}

impl FieldDef {
    /// An owned copy with the same content.
    pub fn duplicate(&self) -> (r: FieldDef)
        ensures
            r@ == self@,
    {
        FieldDef {
            name: self.name.clone(),
            field_type: self.field_type,
            stored: self.stored,
            indexed: self.indexed,
            fast: self.fast,
            tokenizer: self.tokenizer,
        }
    }
}

/// A whole schema: its fields in order, and the names of the fields that
/// free-text queries search by default (empty means: derive the set).
#[derive(Debug)]
pub struct SchemaDef {
    pub fields: Vec<FieldDef>,
    pub search_fields: Vec<String>,
}

/// The mathematical content of a `SchemaDef`.
pub ghost struct SchemaDefV {
    pub fields: Seq<FieldDefV>,
    pub search_fields: Seq<Seq<char>>,
}

impl View for SchemaDef {
    type V = SchemaDefV;

    open spec fn view(&self) -> SchemaDefV {
        SchemaDefV {
            fields: self.fields@.map_values(|f: FieldDef| f@),
            search_fields: self.search_fields@.map_values(|s: String| s@),
        }
    }
}

/// The field kind named by a type text, if any.
pub open spec fn spec_kind_of(s: Seq<char>) -> Option<FieldKind> {
    if s == "text"@ {
        Some(FieldKind::Text)
    } else if s == "i64"@ {
        Some(FieldKind::I64)
    } else if s == "f64"@ {
        Some(FieldKind::F64)
    } else {
        None
    }
}

/// The tokenizer named by a tokenizer text; unknown names read as `Plain`.
pub open spec fn spec_tok_of(s: Seq<char>) -> TokenizerKind {
    if s == "raw"@ {
        TokenizerKind::Raw
    } else if s == "en_stem"@ {
        TokenizerKind::Stemmed
    } else {
        TokenizerKind::Plain
    }
}

/// A boolean key of an object: the default when absent, the value when a
/// boolean, and nothing (a malformed schema) otherwise.
pub open spec fn spec_opt_bool(
    pairs: Seq<(String, JsonValue)>,
    key: Seq<char>,
    dflt: bool,
) -> Option<bool> {
    match spec_obj_get(pairs, key) {
        None => Some(dflt),
        Some(JsonValue::Bool(b)) => Some(b),
        Some(_) => None,
    }
}

/// The tokenizer key of a field object, `Plain` when absent.
pub open spec fn spec_opt_tok(pairs: Seq<(String, JsonValue)>) -> Option<TokenizerKind> {
    match spec_obj_get(pairs, "tokenizer"@) {
        None => Some(TokenizerKind::Plain),
        Some(JsonValue::Str(s)) => Some(spec_tok_of(s@)),
        Some(_) => None,
    }
}

/// The field definition described by one JSON value, if well-formed:
/// an object with a `name` text, a `type` text naming a known kind, and
/// optional `stored`/`indexed`/`fast`/`tokenizer` keys.
pub open spec fn spec_field_def_of(j: JsonValue) -> Option<FieldDefV> {
    match j {
        JsonValue::Obj(pairs) => match (
            spec_obj_get(pairs@, "name"@),
            spec_obj_get(pairs@, "type"@),
        ) {
            (Some(JsonValue::Str(n)), Some(JsonValue::Str(t))) => match spec_kind_of(t@) {
                Some(k) => match (
                    spec_opt_bool(pairs@, "stored"@, true),
                    spec_opt_bool(pairs@, "indexed"@, true),
                    spec_opt_bool(pairs@, "fast"@, false),
                    spec_opt_tok(pairs@),
                ) {
                    (Some(st), Some(ix), Some(fa), Some(tk)) => Some(
                        FieldDefV {
                            name: n@,
                            field_type: k,
                            stored: st,
                            indexed: ix,
                            fast: fa,
                            tokenizer: tk,
                        },
                    ),
                    _ => None,
                },
                None => None,
            },
            _ => None,
        },
        _ => None,
    }
}

/// The field definitions of a JSON array, if each element is well-formed.
pub open spec fn spec_fields_of(arr: Seq<JsonValue>) -> Option<Seq<FieldDefV>>
    decreases arr.len(),
{
    if arr.len() == 0 {
        Some(Seq::empty())
    } else {
        match (spec_fields_of(arr.drop_last()), spec_field_def_of(arr.last())) {
            (Some(fs), Some(fd)) => Some(fs.push(fd)),
            _ => None,
        }
    }
}

/// The texts of a JSON array, if every element is a text.
pub open spec fn spec_strings_of(arr: Seq<JsonValue>) -> Option<Seq<Seq<char>>>
    decreases arr.len(),
{
    if arr.len() == 0 {
        Some(Seq::empty())
    } else {
        match (spec_strings_of(arr.drop_last()), arr.last()) {
            (Some(ss), JsonValue::Str(s)) => Some(ss.push(s@)),
            _ => None,
        }
    }
}

/// The schema described by one JSON value, if well-formed: an object
/// with a `fields` array of field objects and an optional `search_fields`
/// array of texts.
pub open spec fn spec_schema_def_of(j: JsonValue) -> Option<SchemaDefV> {
    match j {
        JsonValue::Obj(pairs) => match spec_obj_get(pairs@, "fields"@) {
            Some(JsonValue::Arr(a)) => match spec_fields_of(a@) {
                Some(fs) => match spec_obj_get(pairs@, "search_fields"@) {
                    None => Some(SchemaDefV { fields: fs, search_fields: Seq::empty() }),
                    Some(JsonValue::Arr(sa)) => match spec_strings_of(sa@) {
                        Some(ss) => Some(SchemaDefV { fields: fs, search_fields: ss }),
                        None => None,
                    },
                    Some(_) => None,
                },
                None => None,
            },
            _ => None,
        },
        _ => None,
    }
}

/// The schema described by a schema text: the text parsed as JSON, then
/// read as a schema definition.
pub open spec fn spec_schema_of_text(s: Seq<char>) -> Option<SchemaDefV> {
    match json_doc_of(s) {
        Some(j) => spec_schema_def_of(j),
        None => None,
    }
}

/// Reads the field kind named by a type text.
pub fn kind_of(t: &str) -> (r: Option<FieldKind>)
    ensures
        r == spec_kind_of(t@),
{
    if str_eq(t, "text") {
        Some(FieldKind::Text)
    } else if str_eq(t, "i64") {
        Some(FieldKind::I64)
    } else if str_eq(t, "f64") {
        Some(FieldKind::F64)
    } else {
        None
    }
}

/// Reads the tokenizer named by a tokenizer text.
pub fn tok_of(t: &str) -> (r: TokenizerKind)
    ensures
        r == spec_tok_of(t@),
{
    if str_eq(t, "raw") {
        TokenizerKind::Raw
    } else if str_eq(t, "en_stem") {
        TokenizerKind::Stemmed
    } else {
        TokenizerKind::Plain
    }
}

fn get_opt_bool(pairs: &Vec<(String, JsonValue)>, key: &str, dflt: bool) -> (r: Result<bool, ()>)
    ensures
        match r {
            Ok(b) => spec_opt_bool(pairs@, key@, dflt) == Some(b),
            Err(_) => spec_opt_bool(pairs@, key@, dflt) is None,
        },
{
    match obj_get(pairs, key) {
        None => Ok(dflt),
        Some(JsonValue::Bool(b)) => Ok(*b),
        Some(_) => Err(()),
    }
}

/// Reads one field definition out of its JSON description.
pub fn field_def_from_json(j: &JsonValue) -> (r: Result<FieldDef, String>)
    ensures
        match r {
            Ok(fd) => spec_field_def_of(*j) == Some(fd@),
            Err(_) => spec_field_def_of(*j) is None,
        },
{
    let pairs = match j {
        JsonValue::Obj(pairs) => pairs,
        _ => {
            return Err("schema: field is not an object".to_owned());
        },
    };
    let name = match obj_get(pairs, "name") {
        Some(JsonValue::Str(n)) => n.clone(),
        _ => {
            return Err("schema: field has no name".to_owned());
        },
    };
    let ty = match obj_get(pairs, "type") {
        Some(JsonValue::Str(t)) => t,
        _ => {
            return Err("schema: field has no type".to_owned());
        },
    };
    let kind = match kind_of(ty.as_str()) {
        Some(k) => k,
        None => {
            let mut m = "schema: unknown field type: ".to_owned();
            m.append(ty.as_str());
            return Err(m);
        },
    };
    let stored = match get_opt_bool(pairs, "stored", true) {
        Ok(b) => b,
        Err(_) => {
            return Err("schema: stored must be a boolean".to_owned());
        },
    };
    let indexed = match get_opt_bool(pairs, "indexed", true) {
        Ok(b) => b,
        Err(_) => {
            return Err("schema: indexed must be a boolean".to_owned());
        },
    };
    let fast = match get_opt_bool(pairs, "fast", false) {
        Ok(b) => b,
        Err(_) => {
            return Err("schema: fast must be a boolean".to_owned());
        },
    };
    let tokenizer = match obj_get(pairs, "tokenizer") {
        None => TokenizerKind::Plain,
        Some(JsonValue::Str(s)) => tok_of(s.as_str()),
        Some(_) => {
            return Err("schema: tokenizer must be a text".to_owned());
        },
    };
    Ok(FieldDef { name, field_type: kind, stored, indexed, fast, tokenizer })
}

/// Reads a whole schema definition out of its JSON description.
#[verifier::loop_isolation(false)]
pub fn schema_def_from_json(j: &JsonValue) -> (r: Result<SchemaDef, String>)
    ensures
        match r {
            Ok(sd) => spec_schema_def_of(*j) == Some(sd@),
            Err(_) => spec_schema_def_of(*j) is None,
        },
{
    let pairs = match j {
        JsonValue::Obj(pairs) => pairs,
        _ => {
            return Err("schema: not an object".to_owned());
        },
    };
    proof {
        assert(*j == JsonValue::Obj(*pairs));
    }
    let arr = match obj_get(pairs, "fields") {
        Some(JsonValue::Arr(a)) => a,
        _ => {
            return Err("schema: fields must be an array".to_owned());
        },
    };
    proof {
        assert(spec_obj_get(pairs@, "fields"@) == Some(JsonValue::Arr(*arr)));
    }
    let mut fields: Vec<FieldDef> = Vec::new();
    let n = arr.len();
    proof {
        assert(arr@.take(0) =~= Seq::<JsonValue>::empty());
        assert(fields@.map_values(|f: FieldDef| f@) =~= Seq::<FieldDefV>::empty());
    }
    for i in 0..n
        invariant
            n == arr@.len(),
            spec_fields_of(arr@.take(i as int)) == Some(fields@.map_values(|f: FieldDef| f@)),
    {
        proof {
            assert(arr@.take(i + 1).drop_last() =~= arr@.take(i as int));
            assert(arr@.take(i + 1).last() == arr@[i as int]);
        }
        let ghost old_fields = fields@.map_values(|f: FieldDef| f@);
        match field_def_from_json(&arr[i]) {
            Ok(fd) => {
                let ghost fdv = fd@;
                fields.push(fd);
                proof {
                    assert(fields@.map_values(|f: FieldDef| f@) =~= old_fields.push(fdv));
                }
            },
            Err(e) => {
                proof {
                    assert(spec_fields_of(arr@.take(i + 1)) is None);
                    lemma_fields_of_prefix_none(arr@, i + 1);
                    assert(spec_fields_of(arr@) is None);
                    assert(spec_schema_def_of(*j) is None);
                }
                return Err(e);
            },
        }
    }
    proof {
        assert(arr@.take(n as int) =~= arr@);
    }
    let mut search_fields: Vec<String> = Vec::new();
    match obj_get(pairs, "search_fields") {
        None => {
            proof {
                assert(search_fields@.map_values(|s: String| s@) =~= Seq::<Seq<char>>::empty());
            }
        },
        Some(JsonValue::Arr(sa)) => {
            let m = sa.len();
            proof {
                assert(sa@.take(0) =~= Seq::<JsonValue>::empty());
                assert(search_fields@.map_values(|s: String| s@) =~= Seq::<Seq<char>>::empty());
            }
            for i in 0..m
                invariant
                    m == sa@.len(),
                    spec_strings_of(sa@.take(i as int)) == Some(
                        search_fields@.map_values(|s: String| s@),
                    ),
            {
                proof {
                    assert(sa@.take(i + 1).drop_last() =~= sa@.take(i as int));
                    assert(sa@.take(i + 1).last() == sa@[i as int]);
                }
                let ghost old_sf = search_fields@.map_values(|s: String| s@);
                match &sa[i] {
                    JsonValue::Str(s) => {
                        let ghost sv = s@;
                        search_fields.push(s.clone());
                        proof {
                            assert(search_fields@.map_values(|s: String| s@) =~= old_sf.push(sv));
                        }
                    },
                    _ => {
                        proof {
                            assert(spec_strings_of(sa@.take(i + 1)) is None);
                            lemma_strings_of_prefix_none(sa@, i + 1);
                            assert(spec_strings_of(sa@) is None);
                            assert(spec_schema_def_of(*j) is None);
                        }
                        return Err("schema: search_fields must be texts".to_owned());
                    },
                }
            }
            proof {
                assert(sa@.take(m as int) =~= sa@);
            }
        },
        Some(_) => {
            return Err("schema: search_fields must be an array".to_owned());
        },
    }
    Ok(SchemaDef { fields, search_fields })
}

/// If a prefix of the array already fails to read as field definitions,
/// the whole array fails.
proof fn lemma_fields_of_prefix_none(arr: Seq<JsonValue>, i: int)
    requires
        0 < i <= arr.len(),
        spec_fields_of(arr.take(i)) is None,
    ensures
        spec_fields_of(arr) is None,
    decreases arr.len() - i,
{
    if i < arr.len() {
        assert(arr.take(i + 1).drop_last() =~= arr.take(i));
        lemma_fields_of_prefix_none(arr, i + 1);
    } else {
        assert(arr.take(i) =~= arr);
    }
}

/// If a prefix of the array already fails to read as texts, the whole
/// array fails.
pub proof fn lemma_strings_of_prefix_none(arr: Seq<JsonValue>, i: int)
    requires
        0 < i <= arr.len(),
        spec_strings_of(arr.take(i)) is None,
    ensures
        spec_strings_of(arr) is None,
    decreases arr.len() - i,
{
    if i < arr.len() {
        assert(arr.take(i + 1).drop_last() =~= arr.take(i));
        lemma_strings_of_prefix_none(arr, i + 1);
    } else {
        assert(arr.take(i) =~= arr);
    }
}

/// One entry of the field catalog: the engine's field handle (as its
/// numeric id) together with the field's definition.
#[derive(Debug)]
pub struct CatalogEntry {
    pub field_id: u32,
    pub def: FieldDef,
}

/// The mathematical content of a catalog entry.
pub ghost struct CatalogEntryV {
    pub field_id: u32,
    pub def: FieldDefV,
}

impl View for CatalogEntry {
    type V = CatalogEntryV;

    open spec fn view(&self) -> CatalogEntryV {
        CatalogEntryV { field_id: self.field_id, def: self.def@ }
    }
}

/// The field catalog: one entry per schema field, in schema order, with
/// pairwise distinct names.
#[derive(Debug)]
pub struct Catalog {
    pub entries: Vec<CatalogEntry>,
}

impl View for Catalog {
    type V = Seq<CatalogEntryV>;

    open spec fn view(&self) -> Seq<CatalogEntryV> {
        self.entries@.map_values(|e: CatalogEntry| e@)
    }
}

/// The entry under a field name: the first entry whose name reads as the
/// given name, if any.
pub open spec fn spec_catalog_get(entries: Seq<CatalogEntryV>, name: Seq<char>) -> Option<
    CatalogEntryV,
>
    decreases entries.len(),
{
    if entries.len() == 0 {
        None
    } else if entries[0].def.name == name {
        Some(entries[0])
    } else {
        spec_catalog_get(entries.drop_first(), name)
    }
}

/// Pairwise distinct field names.
pub open spec fn spec_catalog_wf(entries: Seq<CatalogEntryV>) -> bool {
    forall|i: int, k: int|
        0 <= i < k < entries.len() ==> entries[i].def.name != entries[k].def.name
}

impl Catalog {
    /// Looks a field name up in the catalog.
    pub fn get(&self, name: &str) -> (r: Option<&CatalogEntry>)
        ensures
            match r {
                Some(e) => spec_catalog_get(self@, name@) == Some(e@),
                None => spec_catalog_get(self@, name@) is None,
            },
    {
        let n = self.entries.len();
        proof {
            assert(self@.skip(0) =~= self@);
        }
        for i in 0..n
            invariant
                n == self.entries@.len(),
                spec_catalog_get(self@, name@) == spec_catalog_get(
                    self@.skip(i as int),
                    name@,
                ),
        {
            proof {
                assert(self@.skip(i as int)[0] == self@[i as int]);
                assert(self@.skip(i as int).drop_first() =~= self@.skip(i + 1));
            }
            if str_eq(self.entries[i].def.name.as_str(), name) {
                return Some(&self.entries[i]);
            }
        }
        None
    }
}

/// The engine field ids that a list of field names resolves to: names
/// that the catalog does not know are skipped.
pub open spec fn spec_resolve_ids(names: Seq<Seq<char>>, entries: Seq<CatalogEntryV>) -> Seq<u32>
    decreases names.len(),
{
    if names.len() == 0 {
        Seq::empty()
    } else {
        let rest = spec_resolve_ids(names.drop_last(), entries);
        match spec_catalog_get(entries, names.last()) {
            Some(e) => rest.push(e.field_id),
            None => rest,
        }
    }
}

/// The derived default search-field set: every text field that is
/// indexed and not raw-tokenized, in catalog order.
pub open spec fn spec_default_search_ids(entries: Seq<CatalogEntryV>) -> Seq<u32>
    decreases entries.len(),
{
    if entries.len() == 0 {
        Seq::empty()
    } else {
        let rest = spec_default_search_ids(entries.drop_last());
        let e = entries.last();
        if e.def.field_type == FieldKind::Text && e.def.indexed && e.def.tokenizer
            != TokenizerKind::Raw {
            rest.push(e.field_id)
        } else {
            rest
        }
    }
}

/// The session's default search-field set for a schema: the explicit
/// `search_fields` list resolved by the catalog when it is non-empty,
/// and the derived set otherwise.
pub open spec fn spec_search_ids(sd: SchemaDefV, entries: Seq<CatalogEntryV>) -> Seq<u32> {
    if sd.search_fields.len() > 0 {
        spec_resolve_ids(sd.search_fields, entries)
    } else {
        spec_default_search_ids(entries)
    }
}

/// Resolves a list of field names to engine field ids by the catalog.
pub fn resolve_ids(names: &Vec<String>, cat: &Catalog) -> (r: Vec<u32>)
    ensures
        r@ == spec_resolve_ids(names@.map_values(|s: String| s@), cat@),
{
    let ghost nv = names@.map_values(|s: String| s@);
    let mut out: Vec<u32> = Vec::new();
    let n = names.len();
    proof {
        assert(nv.take(0) =~= Seq::<Seq<char>>::empty());
    }
    for i in 0..n
        invariant
            n == names@.len(),
            nv == names@.map_values(|s: String| s@),
            out@ == spec_resolve_ids(nv.take(i as int), cat@),
    {
        proof {
            assert(nv.take(i + 1).drop_last() =~= nv.take(i as int));
            assert(nv.take(i + 1).last() == nv[i as int]);
        }
        match cat.get(names[i].as_str()) {
            Some(e) => {
                out.push(e.field_id);
            },
            None => {},
        }
    }
    proof {
        assert(nv.take(n as int) =~= nv);
    }
    out
}

/// Computes the derived default search-field set of a catalog.
pub fn default_search_ids(cat: &Catalog) -> (r: Vec<u32>)
    ensures
        r@ == spec_default_search_ids(cat@),
{
    let mut out: Vec<u32> = Vec::new();
    let n = cat.entries.len();
    proof {
        assert(cat@.take(0) =~= Seq::<CatalogEntryV>::empty());
    }
    for i in 0..n
        invariant
            n == cat.entries@.len(),
            out@ == spec_default_search_ids(cat@.take(i as int)),
    {
        proof {
            assert(cat@.take(i + 1).drop_last() =~= cat@.take(i as int));
            assert(cat@.take(i + 1).last() == cat@[i as int]);
        }
        let e = &cat.entries[i];
        if matches!(e.def.field_type, FieldKind::Text) && e.def.indexed && !matches!(
            e.def.tokenizer,
            TokenizerKind::Raw,
        ) {
            out.push(e.field_id);
        }
    }
    proof {
        assert(cat@.take(n as int) =~= cat@);
    }
    out
}


/// The definitions a catalog holds, in order.
pub open spec fn defs_of(entries: Seq<CatalogEntryV>) -> Seq<FieldDefV> {
    entries.map_values(|e: CatalogEntryV| e.def)
}

/// A name misses the catalog exactly when no entry carries it.
pub proof fn lemma_catalog_get_none(entries: Seq<CatalogEntryV>, name: Seq<char>)
    ensures
        (spec_catalog_get(entries, name) is None) <==> (forall|i: int|
            0 <= i < entries.len() ==> (#[trigger] entries[i]).def.name != name),
    decreases entries.len(),
{
    if entries.len() > 0 {
        if entries[0].def.name == name {
        } else {
            lemma_catalog_get_none(entries.drop_first(), name);
            assert forall|i: int|
                0 <= i < entries.drop_first().len() implies #[trigger] entries.drop_first()[i]
                == entries[i + 1] by {}
            if spec_catalog_get(entries, name) is None {
                assert forall|i: int|
                    0 <= i < entries.len() implies (#[trigger] entries[i]).def.name != name by {
                    if i > 0 {
                        assert(entries[i] == entries.drop_first()[i - 1]);
                    }
                }
            } else {
                let k = choose|k: int|
                    0 <= k < entries.drop_first().len() && (#[trigger] entries.drop_first()[
                        k
                    ]).def.name == name;
                assert(entries[k + 1].def.name == name);
            }
        }
    }
}

/// Law: the field catalog is a pure function of the schema text. If the
/// schema text persisted beside an index still reads as the text the
/// index was created with, then reopening derives field definitions and
/// default search fields equal to those derived at creation.
pub proof fn lemma_open_reconstructs_catalog(s: Seq<char>, d1: SchemaDefV, d2: SchemaDefV)
    requires
        spec_schema_of_text(s) == Some(d1),
        spec_schema_of_text(s) == Some(d2),
    ensures
        d1.fields =~= d2.fields,
        d1.search_fields =~= d2.search_fields,
{
}

} // verus!
