use vstd::prelude::*;

use crate::query::{QueryDefV, ScalarVal, ScalarValV};
use crate::schema::{
    spec_catalog_get, spec_resolve_ids, Catalog, CatalogEntryV, FieldKind,
};
use crate::text::{
    fuzzy_tokens, lower_of, lowercase_chars, split_ws, split_whitespace_chars, str_chars,
    tokenize_fuzzy,
};

verus! {

/// The occurrence constraint a clause enters a boolean query under.
#[derive(Clone, Copy, Debug, PartialEq, Eq, Structural)]
pub enum Occur {
    Must,
    Should,
    MustNot,
}

/// A compiled query: the executable plan that the engine primitives are
/// driven by. Field targets are engine field ids out of the catalog;
/// range field targets are addressed by name, as the engine's range
/// primitive asks for.
#[derive(Debug)]
pub enum CompiledQuery {
    /// Free text, handed to the engine's query parser over these fields.
    Parse { field_ids: Vec<u32>, text: String },
    /// One fuzzy (edit-distance) term match on one field.
    FuzzyTerm { field_id: u32, token: Vec<char>, distance: u8 },
    /// An ordered-adjacency phrase match on one field.
    Phrase { field_id: u32, words: Vec<Vec<char>> },
    /// A pattern match on one field.
    Regex { field_id: u32, pattern: Vec<char> },
    /// An exact text term match.
    TermText { field_id: u32, value: String },
    /// An exact integer term match.
    TermI64 { field_id: u32, value: i64 },
    /// An exact floating term match; the number is carried as its text.
    TermF64 { field_id: u32, value: ScalarVal },
    /// A half-open integer range: lo inclusive, hi exclusive, an absent
    /// hi meaning unbounded.
    RangeI64 { field: String, lo: i64, hi_excl: Option<i64> },
    /// An inclusive floating range; bounds carried as number scalars.
    RangeF64 { field: String, min: Option<ScalarVal>, max: Option<ScalarVal> },
    /// A boolean composition of clauses.
    Boolean { clauses: Vec<(Occur, CompiledQuery)> },
    /// Every document.
    MatchAll,
}

/// The mathematical content of a `CompiledQuery`.
pub ghost enum CompiledQueryV {
    Parse { field_ids: Seq<u32>, text: Seq<char> },
    FuzzyTerm { field_id: u32, token: Seq<char>, distance: u8 },
    Phrase { field_id: u32, words: Seq<Seq<char>> },
    Regex { field_id: u32, pattern: Seq<char> },
    TermText { field_id: u32, value: Seq<char> },
    TermI64 { field_id: u32, value: i64 },
    TermF64 { field_id: u32, value: ScalarValV },
    RangeI64 { field: Seq<char>, lo: i64, hi_excl: Option<i64> },
    RangeF64 { field: Seq<char>, min: Option<ScalarValV>, max: Option<ScalarValV> },
    Boolean { clauses: Seq<(Occur, CompiledQueryV)> },
    MatchAll,
}

/// The mathematical contents of a clause list, in order.
pub open spec fn cl_views(cls: Seq<(Occur, CompiledQuery)>) -> Seq<(Occur, CompiledQueryV)>
    decreases cls, 1int,
{
    if cls.len() == 0 {
        Seq::empty()
    } else {
        cl_views(cls.drop_last()).push((cls.last().0, cls.last().1@))
    }
}

/// Appending a clause appends its content.
pub proof fn lemma_cl_views_push(cls: Seq<(Occur, CompiledQuery)>, o: Occur, c: CompiledQuery)
    ensures
        cl_views(cls.push((o, c))) == cl_views(cls).push((o, c@)),
{
    assert(cls.push((o, c)).drop_last() =~= cls);
    assert(cls.push((o, c)).last() == (o, c));
}

/// The content of a clause list, element by element.
pub proof fn lemma_cl_views_index(cls: Seq<(Occur, CompiledQuery)>)
    ensures
        cl_views(cls).len() == cls.len(),
        forall|i: int| 0 <= i < cls.len() ==> cl_views(cls)[i] == (cls[i].0, cls[i].1@),
    decreases cls.len(),
{
    if cls.len() > 0 {
        lemma_cl_views_index(cls.drop_last());
        assert(cl_views(cls) == cl_views(cls.drop_last()).push(
            (cls.last().0, cls.last().1@),
        ));
        assert forall|i: int| 0 <= i < cls.len() implies cl_views(cls)[i] == (
            cls[i].0,
            cls[i].1@,
        ) by {
            if i < cls.len() - 1 {
                assert(cl_views(cls)[i] == cl_views(cls.drop_last())[i]);
                assert(cls.drop_last()[i] == cls[i]);
            } else {
                assert(cls[i] == cls.last());
            }
        }
    }
}

impl View for CompiledQuery {
    type V = CompiledQueryV;

    open spec fn view(&self) -> CompiledQueryV
        decreases self, 0int,
    {
        match self {
            CompiledQuery::Parse { field_ids, text } => CompiledQueryV::Parse {
                field_ids: field_ids@,
                text: text@,
            },
            CompiledQuery::FuzzyTerm { field_id, token, distance } => CompiledQueryV::FuzzyTerm {
                field_id: *field_id,
                token: token@,
                distance: *distance,
            },
            CompiledQuery::Phrase { field_id, words } => CompiledQueryV::Phrase {
                field_id: *field_id,
                words: words@.map_values(|w: Vec<char>| w@),
            },
            CompiledQuery::Regex { field_id, pattern } => CompiledQueryV::Regex {
                field_id: *field_id,
                pattern: pattern@,
            },
            CompiledQuery::TermText { field_id, value } => CompiledQueryV::TermText {
                field_id: *field_id,
                value: value@,
            },
            CompiledQuery::TermI64 { field_id, value } => CompiledQueryV::TermI64 {
                field_id: *field_id,
                value: *value,
            },
            CompiledQuery::TermF64 { field_id, value } => CompiledQueryV::TermF64 {
                field_id: *field_id,
                value: value@,
            },
            CompiledQuery::RangeI64 { field, lo, hi_excl } => CompiledQueryV::RangeI64 {
                field: field@,
                lo: *lo,
                hi_excl: *hi_excl,
            },
            CompiledQuery::RangeF64 { field, min, max } => CompiledQueryV::RangeF64 {
                field: field@,
                min: match min {
                    Some(v) => Some(v@),
                    None => None,
                },
                max: match max {
                    Some(v) => Some(v@),
                    None => None,
                },
            },
            CompiledQuery::Boolean { clauses } => CompiledQueryV::Boolean {
                clauses: cl_views(clauses@),
            },
            CompiledQuery::MatchAll => CompiledQueryV::MatchAll,
        }
    }
}

/// Whether a character has a meaning of its own in the engine's pattern
/// syntax and must be escaped.
pub open spec fn is_regex_special(c: char) -> bool {
    c == '\\' || c == '.' || c == '*' || c == '+' || c == '?' || c == '(' || c == ')' || c == '['
        || c == ']' || c == '{' || c == '}' || c == '^' || c == '$' || c == '|'
}

/// A text with every pattern metacharacter escaped by a backslash.
pub open spec fn spec_regex_escape(s: Seq<char>) -> Seq<char>
    decreases s.len(),
{
    if s.len() == 0 {
        Seq::empty()
    } else {
        let rest = spec_regex_escape(s.drop_last());
        if is_regex_special(s.last()) {
            rest.push('\\').push(s.last())
        } else {
            rest.push(s.last())
        }
    }
}

/// Escapes every pattern metacharacter of a text by a backslash.
pub fn regex_escape(s: &Vec<char>) -> (r: Vec<char>)
    ensures
        r@ == spec_regex_escape(s@),
{
    let mut out: Vec<char> = Vec::new();
    let n = s.len();
    proof {
        assert(s@.take(0) =~= Seq::<char>::empty());
        assert(out@ =~= Seq::<char>::empty());
    }
    for i in 0..n
        invariant
            n == s@.len(),
            out@ == spec_regex_escape(s@.take(i as int)),
    {
        proof {
            assert(s@.take(i + 1).drop_last() =~= s@.take(i as int));
            assert(s@.take(i + 1).last() == s@[i as int]);
        }
        let c = s[i];
        if c == '\\' || c == '.' || c == '*' || c == '+' || c == '?' || c == '(' || c == ')' || c
            == '[' || c == ']' || c == '{' || c == '}' || c == '^' || c == '$' || c == '|' {
            out.push('\\');
        }
        out.push(c);
    }
    proof {
        assert(s@.take(n as int) =~= s@);
    }
    out
}

/// The effective edit distance for one token: tokens of up to five
/// characters are capped at distance one to avoid over-matching on
/// short words; longer tokens use the asked distance unchanged.
pub open spec fn spec_eff_dist(token: Seq<char>, d: u8) -> u8 {
    if token.len() <= 5 {
        if d < 1 {
            d
        } else {
            1
        }
    } else {
        d
    }
}

/// The fields a query targets: an explicit non-empty list resolved by
/// the catalog, else the session's default search fields.
pub open spec fn spec_use_fields(
    fields: Seq<Seq<char>>,
    cat: Seq<CatalogEntryV>,
    df: Seq<u32>,
) -> Seq<u32> {
    if fields.len() == 0 {
        df
    } else {
        spec_resolve_ids(fields, cat)
    }
}

/// The per-field fuzzy fan-out of one token: a Should clause per target
/// field.
pub open spec fn spec_fuzzy_fan(ids: Seq<u32>, token: Seq<char>, d: u8) -> Seq<
    (Occur, CompiledQueryV),
>
    decreases ids.len(),
{
    if ids.len() == 0 {
        Seq::empty()
    } else {
        spec_fuzzy_fan(ids.drop_last(), token, d).push(
            (
                Occur::Should,
                CompiledQueryV::FuzzyTerm {
                    field_id: ids.last(),
                    token: token,
                    distance: spec_eff_dist(token, d),
                },
            ),
        )
    }
}

/// The fuzzy clause list: a Must clause per surviving token, each a
/// Should fan-out over the target fields.
pub open spec fn spec_fuzzy_clauses(tokens: Seq<Seq<char>>, ids: Seq<u32>, d: u8) -> Seq<
    (Occur, CompiledQueryV),
>
    decreases tokens.len(),
{
    if tokens.len() == 0 {
        Seq::empty()
    } else {
        spec_fuzzy_clauses(tokens.drop_last(), ids, d).push(
            (
                Occur::Must,
                CompiledQueryV::Boolean { clauses: spec_fuzzy_fan(ids, tokens.last(), d) },
            ),
        )
    }
}

/// The words of a phrase, each lower-cased.
pub open spec fn spec_lower_words(words: Seq<Seq<char>>) -> Seq<Seq<char>>
    decreases words.len(),
{
    if words.len() == 0 {
        Seq::empty()
    } else {
        spec_lower_words(words.drop_last()).push(lower_of(words.last()))
    }
}

/// The per-field phrase fan-out: a Should clause per target field.
pub open spec fn spec_phrase_fan(ids: Seq<u32>, words: Seq<Seq<char>>) -> Seq<
    (Occur, CompiledQueryV),
>
    decreases ids.len(),
{
    if ids.len() == 0 {
        Seq::empty()
    } else {
        spec_phrase_fan(ids.drop_last(), words).push(
            (Occur::Should, CompiledQueryV::Phrase { field_id: ids.last(), words: words }),
        )
    }
}

/// The per-field pattern fan-out: a Should clause per target field.
pub open spec fn spec_regex_fan(ids: Seq<u32>, pattern: Seq<char>) -> Seq<
    (Occur, CompiledQueryV),
>
    decreases ids.len(),
{
    if ids.len() == 0 {
        Seq::empty()
    } else {
        spec_regex_fan(ids.drop_last(), pattern).push(
            (Occur::Should, CompiledQueryV::Regex { field_id: ids.last(), pattern: pattern }),
        )
    }
}

/// A clause list that places each compiled sub-query under one
/// occurrence constraint, in order.
pub open spec fn spec_tag_clauses(qs: Seq<CompiledQueryV>, o: Occur) -> Seq<
    (Occur, CompiledQueryV),
>
    decreases qs.len(),
{
    if qs.len() == 0 {
        Seq::empty()
    } else {
        spec_tag_clauses(qs.drop_last(), o).push((o, qs.last()))
    }
}

/// The pattern a prefix query compiles to: the prefix lower-cased, its
/// metacharacters escaped, and a trailing wildcard.
pub open spec fn spec_prefix_pattern(prefix: Seq<char>) -> Seq<char> {
    spec_regex_escape(lower_of(prefix)) + seq!['.', '*']
}

/// What one query of the DSL compiles to against a catalog and a
/// default search-field set; nothing when the query names an unknown
/// field in a term match or a sub-query fails. A term-match value whose
/// type does not fit the field is not an error: it degrades to the
/// empty text or zero, in line with the lenient coercion policy — only
/// an unknown field name rejects the query.
pub open spec fn spec_compile(
    q: QueryDefV,
    cat: Seq<CatalogEntryV>,
    df: Seq<u32>,
) -> Option<CompiledQueryV>
    decreases q, 1int,
{
    match q {
        QueryDefV::Text { query, fields, .. } => Some(
            CompiledQueryV::Parse { field_ids: spec_use_fields(fields, cat, df), text: query },
        ),
        QueryDefV::Fuzzy { term, distance, fields, .. } => Some(
            CompiledQueryV::Boolean {
                clauses: spec_fuzzy_clauses(
                    fuzzy_tokens(term),
                    spec_use_fields(fields, cat, df),
                    distance,
                ),
            },
        ),
        QueryDefV::Phrase { phrase, fields, .. } => {
            let words = split_ws(phrase);
            if words.len() < 2 {
                Some(
                    CompiledQueryV::Parse {
                        field_ids: spec_use_fields(fields, cat, df),
                        text: phrase,
                    },
                )
            } else {
                Some(
                    CompiledQueryV::Boolean {
                        clauses: spec_phrase_fan(
                            spec_use_fields(fields, cat, df),
                            spec_lower_words(words),
                        ),
                    },
                )
            }
        },
        QueryDefV::Prefix { prefix, fields, .. } => Some(
            CompiledQueryV::Boolean {
                clauses: spec_regex_fan(
                    spec_use_fields(fields, cat, df),
                    spec_prefix_pattern(prefix),
                ),
            },
        ),
        QueryDefV::TermMatch { field, value, .. } => match spec_catalog_get(cat, field) {
            None => None,
            Some(e) => match e.def.field_type {
                FieldKind::Text => Some(
                    CompiledQueryV::TermText {
                        field_id: e.field_id,
                        value: match value {
                            ScalarValV::S(s) => s,
                            _ => Seq::empty(),
                        },
                    },
                ),
                FieldKind::I64 => Some(
                    CompiledQueryV::TermI64 {
                        field_id: e.field_id,
                        value: match value {
                            ScalarValV::I(i) => i,
                            _ => 0,
                        },
                    },
                ),
                FieldKind::F64 => Some(
                    CompiledQueryV::TermF64 { field_id: e.field_id, value: value },
                ),
            },
        },
        QueryDefV::RangeI64 { field, min, max, .. } => Some(
            CompiledQueryV::RangeI64 {
                field: field,
                lo: match min {
                    Some(v) => v,
                    None => i64::MIN,
                },
                hi_excl: match max {
                    None => None,
                    Some(v) => if v == i64::MAX {
                        None
                    } else {
                        Some((v + 1) as i64)
                    },
                },
            },
        ),
        QueryDefV::RangeF64 { field, min, max, .. } => Some(
            CompiledQueryV::RangeF64 { field: field, min: min, max: max },
        ),
        QueryDefV::Bool { must, should, must_not, .. } => match (
            spec_compile_list(must, cat, df),
            spec_compile_list(should, cat, df),
            spec_compile_list(must_not, cat, df),
        ) {
            (Some(m), Some(s), Some(n)) => Some(
                CompiledQueryV::Boolean {
                    clauses: spec_tag_clauses(m, Occur::Must) + spec_tag_clauses(s, Occur::Should)
                        + spec_tag_clauses(n, Occur::MustNot),
                },
            ),
            _ => None,
        },
        QueryDefV::All { .. } => Some(CompiledQueryV::MatchAll),
    }
}

/// What a list of sub-queries compiles to, each in turn.
pub open spec fn spec_compile_list(
    qs: Seq<QueryDefV>,
    cat: Seq<CatalogEntryV>,
    df: Seq<u32>,
) -> Option<Seq<CompiledQueryV>>
    decreases qs, 2int,
{
    if qs.len() == 0 {
        Some(Seq::empty())
    } else {
        match (spec_compile_list(qs.drop_last(), cat, df), spec_compile(qs.last(), cat, df)) {
            (Some(cs), Some(c)) => Some(cs.push(c)),
            _ => None,
        }
    }
}

/// If a prefix of the list already fails to compile, the whole list
/// fails.
proof fn lemma_compile_list_prefix_none(
    qs: Seq<QueryDefV>,
    cat: Seq<CatalogEntryV>,
    df: Seq<u32>,
    i: int,
)
    requires
        0 < i <= qs.len(),
        spec_compile_list(qs.take(i), cat, df) is None,
    ensures
        spec_compile_list(qs, cat, df) is None,
    decreases qs.len() - i,
{
    if i < qs.len() {
        assert(qs.take(i + 1).drop_last() =~= qs.take(i));
        lemma_compile_list_prefix_none(qs, cat, df, i + 1);
    } else {
        assert(qs.take(i) =~= qs);
    }
}

/// An owned copy of a list of field ids.
fn copy_ids(v: &Vec<u32>) -> (r: Vec<u32>)
    ensures
        r@ == v@,
{
    let mut out: Vec<u32> = Vec::new();
    let n = v.len();
    for i in 0..n
        invariant
            n == v@.len(),
            out@ == v@.take(i as int),
    {
        out.push(v[i]);
        proof {
            assert(v@.take(i + 1) =~= v@.take(i as int).push(v@[i as int]));
        }
    }
    proof {
        assert(v@.take(n as int) =~= v@);
    }
    out
}

/// An owned copy of a character list.
fn copy_chars(v: &Vec<char>) -> (r: Vec<char>)
    ensures
        r@ == v@,
{
    let mut out: Vec<char> = Vec::new();
    let n = v.len();
    for i in 0..n
        invariant
            n == v@.len(),
            out@ == v@.take(i as int),
    {
        out.push(v[i]);
        proof {
            assert(v@.take(i + 1) =~= v@.take(i as int).push(v@[i as int]));
        }
    }
    proof {
        assert(v@.take(n as int) =~= v@);
    }
    out
}

/// An owned copy of a word list.
#[verifier::loop_isolation(false)]
fn copy_words(v: &Vec<Vec<char>>) -> (r: Vec<Vec<char>>)
    ensures
        r@.map_values(|w: Vec<char>| w@) == v@.map_values(|w: Vec<char>| w@),
{
    let mut out: Vec<Vec<char>> = Vec::new();
    let n = v.len();
    for i in 0..n
        invariant
            n == v@.len(),
            out@.map_values(|w: Vec<char>| w@) == v@.map_values(|w: Vec<char>| w@).take(
                i as int,
            ),
    {
        let ghost old_out = out@.map_values(|w: Vec<char>| w@);
        let w = copy_chars(&v[i]);
        let ghost wv = w@;
        out.push(w);
        proof {
            assert(out@.map_values(|w: Vec<char>| w@) =~= old_out.push(wv));
            assert(v@.map_values(|w: Vec<char>| w@).take(i + 1) =~= v@.map_values(
                |w: Vec<char>| w@,
            ).take(i as int).push(v@[i as int]@));
        }
    }
    proof {
        assert(v@.map_values(|w: Vec<char>| w@).take(n as int) =~= v@.map_values(
            |w: Vec<char>| w@,
        ));
    }
    out
}

impl ScalarVal {
    /// An owned copy with the same content.
    pub fn duplicate(&self) -> (r: ScalarVal)
        ensures
            r@ == self@,
    {
        match self {
            ScalarVal::S(s) => ScalarVal::S(s.clone()),
            ScalarVal::I(i) => ScalarVal::I(*i),
            ScalarVal::F(t) => ScalarVal::F(t.clone()),
            ScalarVal::Other => ScalarVal::Other,
        }
    }
}

/// Resolves the fields a query targets.
pub fn use_fields(fields: &Vec<String>, cat: &Catalog, df: &Vec<u32>) -> (r: Vec<u32>)
    ensures
        r@ == spec_use_fields(fields@.map_values(|s: String| s@), cat@, df@),
{
    if fields.len() == 0 {
        proof {
            assert(fields@.map_values(|s: String| s@).len() == 0);
        }
        copy_ids(df)
    } else {
        crate::schema::resolve_ids(fields, cat)
    }
}


/// Compiles a fuzzy query over already-resolved target fields: one Must
/// clause per surviving token, each a Should fan-out of fuzzy term
/// matches with the adaptive edit distance.
#[verifier::loop_isolation(false)]
#[verifier::rlimit(60)]
#[verifier::spinoff_prover]
fn compile_fuzzy(term: &String, d: u8, ids: Vec<u32>) -> (r: CompiledQuery)
    ensures
        r@ == (CompiledQueryV::Boolean {
            clauses: spec_fuzzy_clauses(fuzzy_tokens(term@), ids@, d),
        }),
{
    let tokens = tokenize_fuzzy(term.as_str());
    let ghost tokv = tokens@.map_values(|w: Vec<char>| w@);
    let mut clauses: Vec<(Occur, CompiledQuery)> = Vec::new();
    let n = tokens.len();
    proof {
        assert(tokv.take(0) =~= Seq::<Seq<char>>::empty());
        assert(cl_views(clauses@) =~= Seq::<(Occur, CompiledQueryV)>::empty());
    }
    for i in 0..n
        invariant
            n == tokens@.len(),
            cl_views(clauses@) == spec_fuzzy_clauses(tokv.take(i as int), ids@, d),
    {
        let tok = &tokens[i];
        let ed: u8 = if tok.len() <= 5 {
            if d < 1 {
                d
            } else {
                1
            }
        } else {
            d
        };
        proof {
            assert(tokv[i as int] == tokens@[i as int]@);
            assert(ed == spec_eff_dist(tokv[i as int], d));
        }
        let mut fan: Vec<(Occur, CompiledQuery)> = Vec::new();
        let m = ids.len();
        proof {
            assert(ids@.take(0) =~= Seq::<u32>::empty());
            assert(cl_views(fan@) =~= Seq::<(Occur, CompiledQueryV)>::empty());
        }
        for k in 0..m
            invariant
                m == ids@.len(),
                cl_views(fan@) == spec_fuzzy_fan(ids@.take(k as int), tokv[i as int], d),
        {
            let tc = copy_chars(tok);
            let ghost old_fan = fan@;
            let cq = CompiledQuery::FuzzyTerm { field_id: ids[k], token: tc, distance: ed };
            fan.push((Occur::Should, cq));
            proof {
                lemma_cl_views_push(old_fan, Occur::Should, fan@.last().1);
                assert(fan@ =~= old_fan.push(fan@.last()));
                assert(ids@.take(k + 1).drop_last() =~= ids@.take(k as int));
                assert(ids@.take(k + 1).last() == ids@[k as int]);
            }
        }
        proof {
            assert(ids@.take(m as int) =~= ids@);
        }
        let ghost old_clauses = clauses@;
        let bq = CompiledQuery::Boolean { clauses: fan };
        clauses.push((Occur::Must, bq));
        proof {
            lemma_cl_views_push(old_clauses, Occur::Must, clauses@.last().1);
            assert(clauses@ =~= old_clauses.push(clauses@.last()));
            assert(tokv.take(i + 1).drop_last() =~= tokv.take(i as int));
            assert(tokv.take(i + 1).last() == tokv[i as int]);
        }
    }
    proof {
        assert(tokv.take(n as int) =~= tokv);
    }
    CompiledQuery::Boolean { clauses }
}

/// Compiles a phrase query over already-resolved target fields: a
/// single word falls back to the free-text parser; two or more words
/// become an ordered phrase match per field, combined with Should.
#[verifier::loop_isolation(false)]
#[verifier::rlimit(60)]
#[verifier::spinoff_prover]
fn compile_phrase(phrase: &String, ids: Vec<u32>) -> (r: CompiledQuery)
    ensures
        r@ == ({
            let words = split_ws(phrase@);
            if words.len() < 2 {
                CompiledQueryV::Parse { field_ids: ids@, text: phrase@ }
            } else {
                CompiledQueryV::Boolean {
                    clauses: spec_phrase_fan(ids@, spec_lower_words(words)),
                }
            }
        }),
{
    let cs = str_chars(phrase.as_str());
    let words = split_whitespace_chars(&cs);
    let ghost wv = words@.map_values(|w: Vec<char>| w@);
    if words.len() < 2 {
        CompiledQuery::Parse { field_ids: ids, text: phrase.clone() }
    } else {
        let mut lwords: Vec<Vec<char>> = Vec::new();
        let n = words.len();
        proof {
            assert(wv.take(0) =~= Seq::<Seq<char>>::empty());
            assert(lwords@.map_values(|w: Vec<char>| w@) =~= Seq::<Seq<char>>::empty());
        }
        for i in 0..n
            invariant
                n == words@.len(),
                lwords@.map_values(|w: Vec<char>| w@) == spec_lower_words(wv.take(i as int)),
        {
            let ghost old_l = lwords@.map_values(|w: Vec<char>| w@);
            let lw = lowercase_chars(&words[i]);
            let ghost lwv = lw@;
            lwords.push(lw);
            proof {
                assert(lwords@.map_values(|w: Vec<char>| w@) =~= old_l.push(lwv));
                assert(wv.take(i + 1).drop_last() =~= wv.take(i as int));
                assert(wv.take(i + 1).last() == wv[i as int]);
                assert(wv[i as int] == words@[i as int]@);
            }
        }
        proof {
            assert(wv.take(n as int) =~= wv);
        }
        let ghost lwv_all = spec_lower_words(wv);
        let mut fan: Vec<(Occur, CompiledQuery)> = Vec::new();
        let m = ids.len();
        proof {
            assert(ids@.take(0) =~= Seq::<u32>::empty());
            assert(cl_views(fan@) =~= Seq::<(Occur, CompiledQueryV)>::empty());
        }
        for k in 0..m
            invariant
                m == ids@.len(),
                lwords@.map_values(|w: Vec<char>| w@) == lwv_all,
                cl_views(fan@) == spec_phrase_fan(ids@.take(k as int), lwv_all),
        {
            let wc = copy_words(&lwords);
            let ghost old_fan = fan@;
            fan.push((Occur::Should, CompiledQuery::Phrase { field_id: ids[k], words: wc }));
            proof {
                lemma_cl_views_push(old_fan, Occur::Should, fan@.last().1);
                assert(fan@ =~= old_fan.push(fan@.last()));
                assert(ids@.take(k + 1).drop_last() =~= ids@.take(k as int));
                assert(ids@.take(k + 1).last() == ids@[k as int]);
            }
        }
        proof {
            assert(ids@.take(m as int) =~= ids@);
        }
        CompiledQuery::Boolean { clauses: fan }
    }
}

/// Compiles a prefix query over already-resolved target fields: the
/// prefix is lower-cased and escaped, a wildcard is appended, and the
/// pattern is matched per field, combined with Should.
#[verifier::loop_isolation(false)]
#[verifier::rlimit(60)]
#[verifier::spinoff_prover]
fn compile_prefix(prefix: &String, ids: Vec<u32>) -> (r: CompiledQuery)
    ensures
        r@ == (CompiledQueryV::Boolean {
            clauses: spec_regex_fan(ids@, spec_prefix_pattern(prefix@)),
        }),
{
    let cs = str_chars(prefix.as_str());
    let low = lowercase_chars(&cs);
    let mut pat = regex_escape(&low);
    pat.push('.');
    pat.push('*');
    proof {
        assert(pat@ =~= spec_prefix_pattern(prefix@));
    }
    let ghost patv = pat@;
    let mut fan: Vec<(Occur, CompiledQuery)> = Vec::new();
    let m = ids.len();
    proof {
        assert(ids@.take(0) =~= Seq::<u32>::empty());
        assert(cl_views(fan@) =~= Seq::<(Occur, CompiledQueryV)>::empty());
    }
    for k in 0..m
        invariant
            m == ids@.len(),
            pat@ == patv,
            cl_views(fan@) == spec_regex_fan(ids@.take(k as int), patv),
    {
        let pc = copy_chars(&pat);
        let ghost old_fan = fan@;
        fan.push((Occur::Should, CompiledQuery::Regex { field_id: ids[k], pattern: pc }));
        proof {
            lemma_cl_views_push(old_fan, Occur::Should, fan@.last().1);
            assert(fan@ =~= old_fan.push(fan@.last()));
            assert(ids@.take(k + 1).drop_last() =~= ids@.take(k as int));
            assert(ids@.take(k + 1).last() == ids@[k as int]);
        }
    }
    proof {
        assert(ids@.take(m as int) =~= ids@);
    }
    CompiledQuery::Boolean { clauses: fan }
}

/// Compiles one query of the DSL into its executable plan, against a
/// catalog and a default search-field set. Fails exactly on the inputs
/// the compilation function rejects: an unknown field in a term match,
/// or a failing sub-query.
#[verifier::loop_isolation(false)]
#[verifier::rlimit(100)]
#[verifier::spinoff_prover]
pub fn compile_query(qd: &crate::query::QueryDef, cat: &Catalog, df: &Vec<u32>) -> (r: Result<
    CompiledQuery,
    String,
>)
    ensures
        match r {
            Ok(c) => spec_compile(qd@, cat@, df@) == Some(c@),
            Err(_) => spec_compile(qd@, cat@, df@) is None,
        },
    decreases *qd, 1int,
{
    match qd {
        crate::query::QueryDef::Text { query, fields, .. } => {
            let ids = use_fields(fields, cat, df);
            Ok(CompiledQuery::Parse { field_ids: ids, text: query.clone() })
        },
        crate::query::QueryDef::Fuzzy { term, distance, fields, .. } => {
            let ids = use_fields(fields, cat, df);
            Ok(compile_fuzzy(term, *distance, ids))
        },
        crate::query::QueryDef::Phrase { phrase, fields, .. } => {
            let ids = use_fields(fields, cat, df);
            Ok(compile_phrase(phrase, ids))
        },
        crate::query::QueryDef::Prefix { prefix, fields, .. } => {
            let ids = use_fields(fields, cat, df);
            Ok(compile_prefix(prefix, ids))
        },
        crate::query::QueryDef::TermMatch { field, value, .. } => {
            match cat.get(field.as_str()) {
                None => {
                    let mut msg = "unknown field: ".to_owned();
                    msg.append(field.as_str());
                    Err(msg)
                },
                Some(e) => match e.def.field_type {
                    FieldKind::Text => {
                        let v: String = match value {
                            ScalarVal::S(s) => s.clone(),
                            _ => String::new(),
                        };
                        Ok(CompiledQuery::TermText { field_id: e.field_id, value: v })
                    },
                    FieldKind::I64 => {
                        let v: i64 = match value {
                            ScalarVal::I(i) => *i,
                            _ => 0,
                        };
                        Ok(CompiledQuery::TermI64 { field_id: e.field_id, value: v })
                    },
                    FieldKind::F64 => Ok(
                        CompiledQuery::TermF64 { field_id: e.field_id, value: value.duplicate() },
                    ),
                },
            }
        },
        crate::query::QueryDef::RangeI64 { field, min, max, .. } => {
            let lo: i64 = match min {
                Some(v) => *v,
                None => i64::MIN,
            };
            let hi_excl: Option<i64> = match max {
                None => None,
                Some(v) => if *v == i64::MAX {
                    None
                } else {
                    Some(*v + 1)
                },
            };
            Ok(CompiledQuery::RangeI64 { field: field.clone(), lo, hi_excl })
        },
        crate::query::QueryDef::RangeF64 { field, min, max, .. } => {
            let mn: Option<ScalarVal> = match min {
                Some(v) => Some(v.duplicate()),
                None => None,
            };
            let mx: Option<ScalarVal> = match max {
                Some(v) => Some(v.duplicate()),
                None => None,
            };
            Ok(CompiledQuery::RangeF64 { field: field.clone(), min: mn, max: mx })
        },
        crate::query::QueryDef::Bool { must, should, must_not, .. } => {
            proof {
                assert(decreases_to!(*qd => *must));
                assert(decreases_to!(*qd => *should));
                assert(decreases_to!(*qd => *must_not));
            }
            let mut clauses: Vec<(Occur, CompiledQuery)> = Vec::new();
            proof {
                assert(cl_views(clauses@) =~= Seq::<(Occur, CompiledQueryV)>::empty());
            }
            match compile_clauses(must, Occur::Must, cat, df, &mut clauses) {
                Ok(_) => {},
                Err(e) => {
                    return Err(e);
                },
            }
            match compile_clauses(should, Occur::Should, cat, df, &mut clauses) {
                Ok(_) => {},
                Err(e) => {
                    return Err(e);
                },
            }
            match compile_clauses(must_not, Occur::MustNot, cat, df, &mut clauses) {
                Ok(_) => {},
                Err(e) => {
                    return Err(e);
                },
            }
            Ok(CompiledQuery::Boolean { clauses })
        },
        crate::query::QueryDef::All { .. } => Ok(CompiledQuery::MatchAll),
    }
}

/// Compiles one sub-query list of a boolean query and appends its
/// clauses, each under the given occurrence constraint.
#[verifier::loop_isolation(false)]
fn compile_clauses(
    qs: &Vec<crate::query::QueryDef>,
    o: Occur,
    cat: &Catalog,
    df: &Vec<u32>,
    out: &mut Vec<(Occur, CompiledQuery)>,
) -> (r: Result<(), String>)
    ensures
        match r {
            Ok(_) => spec_compile_list(crate::query::views_of(qs@), cat@, df@) is Some
                && cl_views(final(out)@) == cl_views(old(out)@) + spec_tag_clauses(
                spec_compile_list(crate::query::views_of(qs@), cat@, df@).unwrap(),
                o,
            ),
            Err(_) => spec_compile_list(crate::query::views_of(qs@), cat@, df@) is None,
        },
    decreases *qs, 0int,
{
    let ghost qv = crate::query::views_of(qs@);
    proof {
        crate::query::lemma_views_of_index(qs@);
    }
    let n = qs.len();
    proof {
        assert(qv.take(0) =~= Seq::<QueryDefV>::empty());
        assert(cl_views(out@) =~= cl_views(old(out)@) + spec_tag_clauses(
            spec_compile_list(qv.take(0), cat@, df@).unwrap(),
            o,
        ));
    }
    for i in 0..n
        invariant
            n == qs@.len(),
            spec_compile_list(qv.take(i as int), cat@, df@) is Some,
            cl_views(out@) == cl_views(old(out)@) + spec_tag_clauses(
                spec_compile_list(qv.take(i as int), cat@, df@).unwrap(),
                o,
            ),
    {
        proof {
            assert(qv.take(i + 1).drop_last() =~= qv.take(i as int));
            assert(qv.take(i + 1).last() == qv[i as int]);
            assert(qv[i as int] == qs@[i as int]@);
            assert(decreases_to!(*qs => qs@[i as int]));
        }
        match compile_query(&qs[i], cat, df) {
            Ok(c) => {
                let ghost old_outv = out@;
                let ghost cs_prev = spec_compile_list(qv.take(i as int), cat@, df@).unwrap();
                out.push((o, c));
                proof {
                    lemma_cl_views_push(old_outv, o, out@.last().1);
                    assert(out@ =~= old_outv.push(out@.last()));
                    let cs_next = spec_compile_list(qv.take(i + 1), cat@, df@).unwrap();
                    assert(cs_next == cs_prev.push(out@.last().1@));
                    assert(cs_next.drop_last() =~= cs_prev);
                    assert(spec_tag_clauses(cs_next, o) == spec_tag_clauses(cs_prev, o).push(
                        (o, out@.last().1@),
                    ));
                }
            },
            Err(e) => {
                proof {
                    lemma_compile_list_prefix_none(qv, cat@, df@, i + 1);
                }
                return Err(e);
            },
        }
    }
    proof {
        assert(qv.take(n as int) =~= qv);
    }
    Ok(())
}

/// Whether an integer value lies inside a compiled half-open range.
pub open spec fn spec_range_i64_admits(lo: i64, hi_excl: Option<i64>, v: i64) -> bool {
    lo <= v && match hi_excl {
        None => true,
        Some(h) => v < h,
    }
}

/// Law: an integer range query compiles to bounds that admit exactly
/// the values between `min` and `max`, both inclusive, a missing side
/// meaning unbounded. In particular with `min = 5` and `max = 10` the
/// compiled range admits 5 and 10 and excludes 4 and 11.
pub proof fn lemma_range_i64_inclusive(
    field: Seq<char>,
    min: Option<i64>,
    max: Option<i64>,
    limit: usize,
    offset: usize,
    cat: Seq<CatalogEntryV>,
    df: Seq<u32>,
    v: i64,
)
    ensures
        ({
            let r = spec_compile(
                QueryDefV::RangeI64 { field, min, max, limit, offset },
                cat,
                df,
            );
            &&& r matches Some(CompiledQueryV::RangeI64 { field: f, lo, hi_excl })
            &&& f == field
            &&& (spec_range_i64_admits(lo, hi_excl, v) <==> ((match min {
                Some(mn) => mn <= v,
                None => true,
            }) && (match max {
                Some(mx) => v <= mx,
                None => true,
            })))
        }),
{
}

/// Law: a fuzzy query always compiles, whatever the catalog holds; its
/// plan carries one Must clause per surviving token, every surviving
/// token has at least two characters, and each clause fans out over the
/// target fields with the adaptive edit distance — capped at one for
/// tokens of up to five characters.
pub proof fn lemma_fuzzy_compiles(
    term: Seq<char>,
    distance: u8,
    fields: Seq<Seq<char>>,
    limit: usize,
    offset: usize,
    cat: Seq<CatalogEntryV>,
    df: Seq<u32>,
)
    ensures
        ({
            let r = spec_compile(
                QueryDefV::Fuzzy { term, distance, fields, limit, offset },
                cat,
                df,
            );
            let toks = fuzzy_tokens(term);
            let ids = spec_use_fields(fields, cat, df);
            &&& r matches Some(CompiledQueryV::Boolean { clauses })
            &&& clauses.len() == toks.len()
            &&& forall|i: int|
                0 <= i < toks.len() ==> #[trigger] toks[i].len() >= 2
            &&& forall|i: int|
                0 <= i < clauses.len() ==> (#[trigger] clauses[i]).0 == Occur::Must
                    && clauses[i].1 == (CompiledQueryV::Boolean {
                    clauses: spec_fuzzy_fan(ids, toks[i], distance),
                })
            &&& forall|i: int, k: int|
                0 <= i < toks.len() && 0 <= k < ids.len() ==> #[trigger] spec_fuzzy_fan(
                    ids,
                    toks[i],
                    distance,
                )[k] == (
                    Occur::Should,
                    CompiledQueryV::FuzzyTerm {
                        field_id: ids[k],
                        token: toks[i],
                        distance: spec_eff_dist(toks[i], distance),
                    },
                )
        }),
{
    let toks = fuzzy_tokens(term);
    let ids = spec_use_fields(fields, cat, df);
    crate::text::lemma_fuzzy_tokens_min_len(term);
    lemma_fuzzy_clauses_index(toks, ids, distance);
    assert forall|i: int, k: int|
        0 <= i < toks.len() && 0 <= k < ids.len() implies #[trigger] spec_fuzzy_fan(
        ids,
        toks[i],
        distance,
    )[k] == (
        Occur::Should,
        CompiledQueryV::FuzzyTerm {
            field_id: ids[k],
            token: toks[i],
            distance: spec_eff_dist(toks[i], distance),
        },
    ) by {
        lemma_fuzzy_fan_index(ids, toks[i], distance);
    }
}

/// The shape of the fuzzy clause list, element by element.
proof fn lemma_fuzzy_clauses_index(tokens: Seq<Seq<char>>, ids: Seq<u32>, d: u8)
    ensures
        spec_fuzzy_clauses(tokens, ids, d).len() == tokens.len(),
        forall|i: int|
            0 <= i < tokens.len() ==> #[trigger] spec_fuzzy_clauses(tokens, ids, d)[i] == (
                Occur::Must,
                CompiledQueryV::Boolean { clauses: spec_fuzzy_fan(ids, tokens[i], d) },
            ),
    decreases tokens.len(),
{
    if tokens.len() > 0 {
        lemma_fuzzy_clauses_index(tokens.drop_last(), ids, d);
        assert forall|i: int|
            0 <= i < tokens.len() implies #[trigger] spec_fuzzy_clauses(tokens, ids, d)[i] == (
            Occur::Must,
            CompiledQueryV::Boolean { clauses: spec_fuzzy_fan(ids, tokens[i], d) },
        ) by {
            if i < tokens.len() - 1 {
                assert(spec_fuzzy_clauses(tokens, ids, d)[i] == spec_fuzzy_clauses(
                    tokens.drop_last(),
                    ids,
                    d,
                )[i]);
                assert(tokens.drop_last()[i] == tokens[i]);
            }
        }
    }
}

/// The shape of one fuzzy fan-out, element by element.
proof fn lemma_fuzzy_fan_index(ids: Seq<u32>, token: Seq<char>, d: u8)
    ensures
        spec_fuzzy_fan(ids, token, d).len() == ids.len(),
        forall|k: int|
            0 <= k < ids.len() ==> #[trigger] spec_fuzzy_fan(ids, token, d)[k] == (
                Occur::Should,
                CompiledQueryV::FuzzyTerm {
                    field_id: ids[k],
                    token: token,
                    distance: spec_eff_dist(token, d),
                },
            ),
    decreases ids.len(),
{
    if ids.len() > 0 {
        lemma_fuzzy_fan_index(ids.drop_last(), token, d);
        assert forall|k: int|
            0 <= k < ids.len() implies #[trigger] spec_fuzzy_fan(ids, token, d)[k] == (
            Occur::Should,
            CompiledQueryV::FuzzyTerm {
                field_id: ids[k],
                token: token,
                distance: spec_eff_dist(token, d),
            },
        ) by {
            if k < ids.len() - 1 {
                assert(spec_fuzzy_fan(ids, token, d)[k] == spec_fuzzy_fan(
                    ids.drop_last(),
                    token,
                    d,
                )[k]);
                assert(ids.drop_last()[k] == ids[k]);
            }
        }
    }
}

/// The shape of a tagged clause list, element by element.
pub proof fn lemma_tag_clauses_index(qs: Seq<CompiledQueryV>, o: Occur)
    ensures
        spec_tag_clauses(qs, o).len() == qs.len(),
        forall|i: int|
            0 <= i < qs.len() ==> #[trigger] spec_tag_clauses(qs, o)[i] == (o, qs[i]),
    decreases qs.len(),
{
    if qs.len() > 0 {
        lemma_tag_clauses_index(qs.drop_last(), o);
        assert forall|i: int|
            0 <= i < qs.len() implies #[trigger] spec_tag_clauses(qs, o)[i] == (o, qs[i]) by {
            if i < qs.len() - 1 {
                assert(spec_tag_clauses(qs, o)[i] == spec_tag_clauses(qs.drop_last(), o)[i]);
                assert(qs.drop_last()[i] == qs[i]);
            }
        }
    }
}

/// Law: a boolean query's plan keeps its sub-queries apart by their
/// occurrence constraint, in order: first every `must` clause under
/// Must, then every `should` clause under Should, then every `must_not`
/// clause under MustNot — a sub-query listed under `must_not` is never
/// placed under Must or Should.
pub proof fn lemma_bool_occurs(
    must: Seq<QueryDefV>,
    should: Seq<QueryDefV>,
    must_not: Seq<QueryDefV>,
    limit: usize,
    offset: usize,
    cat: Seq<CatalogEntryV>,
    df: Seq<u32>,
)
    requires
        spec_compile(QueryDefV::Bool { must, should, must_not, limit, offset }, cat, df)
            is Some,
    ensures
        ({
            let r = spec_compile(
                QueryDefV::Bool { must, should, must_not, limit, offset },
                cat,
                df,
            );
            let m = spec_compile_list(must, cat, df).unwrap();
            let s = spec_compile_list(should, cat, df).unwrap();
            let n = spec_compile_list(must_not, cat, df).unwrap();
            &&& r matches Some(CompiledQueryV::Boolean { clauses })
            &&& clauses.len() == m.len() + s.len() + n.len()
            &&& forall|i: int|
                0 <= i < m.len() ==> (#[trigger] clauses[i]) == (Occur::Must, m[i])
            &&& forall|i: int|
                m.len() <= i < m.len() + s.len() ==> (#[trigger] clauses[i]) == (
                    Occur::Should,
                    s[i - m.len()],
                )
            &&& forall|i: int|
                m.len() + s.len() <= i < clauses.len() ==> (#[trigger] clauses[i]) == (
                    Occur::MustNot,
                    n[i - m.len() - s.len()],
                )
        }),
{
    let m = spec_compile_list(must, cat, df).unwrap();
    let s = spec_compile_list(should, cat, df).unwrap();
    let n = spec_compile_list(must_not, cat, df).unwrap();
    lemma_tag_clauses_index(m, Occur::Must);
    lemma_tag_clauses_index(s, Occur::Should);
    lemma_tag_clauses_index(n, Occur::MustNot);
}

} // verus!
