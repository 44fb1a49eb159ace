use vstd::prelude::*;
use vstd::std_specs::iter::IteratorSpec;

verus! {

/// What str::to_lowercase returns on a text: a pure function of the
/// characters alone.
pub uninterp spec fn lower_of(s: Seq<char>) -> Seq<char>;

/// Whether char::is_alphanumeric holds of a character.
pub uninterp spec fn is_alnum_char(c: char) -> bool;

/// Whether char::is_whitespace holds of a character.
pub uninterp spec fn is_ws_char(c: char) -> bool;

/// Relies on str::to_lowercase: the result depends on the characters of
/// the input alone.
#[verifier::external_body]
pub fn lowercase_chars(w: &Vec<char>) -> (r: Vec<char>)
    ensures
        r@ == lower_of(w@),
{
    let s: String = w.iter().collect();
    s.to_lowercase().chars().collect()
}

/// Relies on char::is_alphanumeric: a pure test on one character.
#[verifier::external_body]
pub fn char_is_alnum(c: char) -> (r: bool)
    ensures
        r == is_alnum_char(c),
{
    c.is_alphanumeric()
}

/// Relies on char::is_whitespace: a pure test on one character.
#[verifier::external_body]
pub fn char_is_ws(c: char) -> (r: bool)
    ensures
        r == is_ws_char(c),
{
    c.is_whitespace()
}

/// The characters of a text, in order: a str's view is that character
/// sequence.
pub fn str_chars(s: &str) -> (r: Vec<char>)
    ensures
        r@ == s@,
{
    broadcast use vstd::string::group_string_axioms;
    broadcast use vstd::string::next_postcondition;

    let mut it = s.chars();
    let mut out: Vec<char> = Vec::new();
    loop
        invariant
            it.obeys_prophetic_iter_laws(),
            it.decrease() is Some,
            out@ + it.remaining() == s@,
        ensures
            out@ == s@,
        decreases it.decrease()->0,
    {
        match it.next() {
            Some(c) => out.push(c),
            None => {
                proof {
                    assert(out@ =~= s@);
                }
                break;
            },
        }
    }
    out
}

/// Whether two texts hold the same characters.
pub fn str_eq(a: &str, b: &str) -> (r: bool)
    ensures
        r == (a@ == b@),
{
    let ca = str_chars(a);
    let cb = str_chars(b);
    if ca.len() != cb.len() {
        return false;
    }
    let n = ca.len();
    for i in 0..n
        invariant
            n == ca@.len(),
            n == cb@.len(),
            ca@ == a@,
            cb@ == b@,
            forall|k: int| 0 <= k < i ==> ca@[k] == cb@[k],
    {
        if ca[i] != cb[i] {
            return false;
        }
    }
    proof {
        assert(a@ =~= b@);
    }
    true
}

/// The words of a text: maximal runs of non-whitespace characters, the
/// run in progress and the runs already complete carried as accumulators.
pub open spec fn split_ws_acc(s: Seq<char>, cur: Seq<char>, acc: Seq<Seq<char>>) -> Seq<Seq<char>>
    decreases s.len(),
{
    if s.len() == 0 {
        if cur.len() > 0 {
            acc.push(cur)
        } else {
            acc
        }
    } else if is_ws_char(s[0]) {
        if cur.len() > 0 {
            split_ws_acc(s.drop_first(), Seq::empty(), acc.push(cur))
        } else {
            split_ws_acc(s.drop_first(), Seq::empty(), acc)
        }
    } else {
        split_ws_acc(s.drop_first(), cur.push(s[0]), acc)
    }
}

/// The whitespace-separated words of a text.
pub open spec fn split_ws(s: Seq<char>) -> Seq<Seq<char>> {
    split_ws_acc(s, Seq::empty(), Seq::empty())
}

/// Splits a character sequence into its whitespace-separated words.
pub fn split_whitespace_chars(s: &Vec<char>) -> (r: Vec<Vec<char>>)
    ensures
        r@.map_values(|w: Vec<char>| w@) == split_ws(s@),
{
    let mut words: Vec<Vec<char>> = Vec::new();
    let mut cur: Vec<char> = Vec::new();
    let n = s.len();
    proof {
        assert(s@.skip(0) =~= s@);
        assert(words@.map_values(|w: Vec<char>| w@) =~= Seq::<Seq<char>>::empty());
        assert(cur@ =~= Seq::<char>::empty());
    }
    for i in 0..n
        invariant
            n == s@.len(),
            split_ws(s@) == split_ws_acc(
                s@.skip(i as int),
                cur@,
                words@.map_values(|w: Vec<char>| w@),
            ),
    {
        let ghost old_words = words@.map_values(|w: Vec<char>| w@);
        let ghost old_cur = cur@;
        proof {
            assert(s@.skip(i as int)[0] == s@[i as int]);
            assert(s@.skip(i as int).drop_first() =~= s@.skip(i + 1));
        }
        if char_is_ws(s[i]) {
            if cur.len() > 0 {
                words.push(cur);
                cur = Vec::new();
                proof {
                    assert(words@.map_values(|w: Vec<char>| w@) =~= old_words.push(old_cur));
                    assert(cur@ =~= Seq::<char>::empty());
                }
            } else {
                proof {
                    assert(old_cur =~= Seq::<char>::empty());
                }
            }
        } else {
            cur.push(s[i]);
        }
    }
    if cur.len() > 0 {
        let ghost old_words = words@;
        let ghost old_cur = cur@;
        words.push(cur);
        proof {
            assert(words@.map_values(|w: Vec<char>| w@) =~= old_words.map_values(
                |w: Vec<char>| w@,
            ).push(old_cur));
            assert(s@.skip(n as int).len() == 0);
        }
    } else {
        proof {
            assert(s@.skip(n as int).len() == 0);
        }
    }
    words
}

/// The alphanumeric characters of a sequence, in order.
pub open spec fn filter_alnum(s: Seq<char>) -> Seq<char>
    decreases s.len(),
{
    if s.len() == 0 {
        Seq::empty()
    } else {
        let rest = filter_alnum(s.drop_last());
        if is_alnum_char(s.last()) {
            rest.push(s.last())
        } else {
            rest
        }
    }
}

/// Keeps only the alphanumeric characters of a word.
pub fn filter_alnum_chars(w: &Vec<char>) -> (r: Vec<char>)
    ensures
        r@ == filter_alnum(w@),
{
    let mut out: Vec<char> = Vec::new();
    let n = w.len();
    for i in 0..n
        invariant
            n == w@.len(),
            out@ == filter_alnum(w@.take(i as int)),
    {
        proof {
            assert(w@.take(i + 1).drop_last() =~= w@.take(i as int));
            assert(w@.take(i + 1).last() == w@[i as int]);
        }
        if char_is_alnum(w[i]) {
            out.push(w[i]);
        }
    }
    proof {
        assert(w@.take(n as int) =~= w@);
    }
    out
}

/// The normal form of one word for fuzzy matching: lower-cased, with only
/// its alphanumeric characters kept.
pub open spec fn norm_token(w: Seq<char>) -> Seq<char> {
    filter_alnum(lower_of(w))
}

/// The fuzzy tokens of a list of words: each word normalised, words whose
/// normal form has fewer than two characters discarded.
pub open spec fn fuzzy_tokens_of(words: Seq<Seq<char>>) -> Seq<Seq<char>>
    decreases words.len(),
{
    if words.len() == 0 {
        Seq::empty()
    } else {
        let rest = fuzzy_tokens_of(words.drop_last());
        let n = norm_token(words.last());
        if n.len() >= 2 {
            rest.push(n)
        } else {
            rest
        }
    }
}

/// The fuzzy tokens of a whole term text.
pub open spec fn fuzzy_tokens(s: Seq<char>) -> Seq<Seq<char>> {
    fuzzy_tokens_of(split_ws(s))
}

/// Tokenizes a fuzzy search term: split on whitespace, lower-case each
/// word, strip non-alphanumeric characters, drop tokens shorter than two
/// characters.
pub fn tokenize_fuzzy(term: &str) -> (r: Vec<Vec<char>>)
    ensures
        r@.map_values(|w: Vec<char>| w@) == fuzzy_tokens(term@),
{
    let cs = str_chars(term);
    let words = split_whitespace_chars(&cs);
    let mut out: Vec<Vec<char>> = Vec::new();
    let n = words.len();
    let ghost wviews = words@.map_values(|w: Vec<char>| w@);
    for i in 0..n
        invariant
            n == words@.len(),
            wviews == words@.map_values(|w: Vec<char>| w@),
            wviews == split_ws(cs@),
            cs@ == term@,
            out@.map_values(|w: Vec<char>| w@) == fuzzy_tokens_of(wviews.take(i as int)),
    {
        proof {
            assert(wviews.take(i + 1).drop_last() =~= wviews.take(i as int));
            assert(wviews.take(i + 1).last() == wviews[i as int]);
            assert(wviews[i as int] == words@[i as int]@);
        }
        let low = lowercase_chars(&words[i]);
        let norm = filter_alnum_chars(&low);
        if norm.len() >= 2 {
            let ghost old_out = out@;
            let ghost normv = norm@;
            out.push(norm);
            proof {
                assert(out@.map_values(|w: Vec<char>| w@) =~= old_out.map_values(
                    |w: Vec<char>| w@,
                ).push(normv));
            }
        }
    }
    proof {
        assert(wviews.take(n as int) =~= wviews);
    }
    out
}

/// All fuzzy tokens have at least two characters.
pub proof fn lemma_fuzzy_tokens_min_len(s: Seq<char>)
    ensures
        forall|i: int|
            0 <= i < fuzzy_tokens(s).len() ==> #[trigger] fuzzy_tokens(s)[i].len() >= 2,
{
    lemma_fuzzy_tokens_of_min_len(split_ws(s));
}

proof fn lemma_fuzzy_tokens_of_min_len(words: Seq<Seq<char>>)
    ensures
        forall|i: int|
            0 <= i < fuzzy_tokens_of(words).len() ==> #[trigger] fuzzy_tokens_of(words)[i].len()
                >= 2,
    decreases words.len(),
{
    if words.len() > 0 {
        lemma_fuzzy_tokens_of_min_len(words.drop_last());
        let rest = fuzzy_tokens_of(words.drop_last());
        let nt = norm_token(words.last());
        if nt.len() >= 2 {
            assert(fuzzy_tokens_of(words) == rest.push(nt));
            assert forall|i: int|
                0 <= i < fuzzy_tokens_of(words).len() implies #[trigger] fuzzy_tokens_of(
                words,
            )[i].len() >= 2 by {
                if i < rest.len() {
                    assert(fuzzy_tokens_of(words)[i] == rest[i]);
                } else {
                    assert(fuzzy_tokens_of(words)[i] == nt);
                }
            }
        }
    }
}

} // verus!
