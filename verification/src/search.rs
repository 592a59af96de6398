//! The in-memory full-text search over articles: a tokenizer that yields
//! words and the 2- to 4-character pieces of a text (so that Chinese text is
//! found at any position), an inverted index per feed, and the candidate
//! selection of a search (all terms, else any term, else a plain substring
//! match).
use vstd::prelude::*;
use crate::text::{chars_eq, chars_of, is_whitespace, is_ws, slice_chars, string_of};
use crate::content::{spec_lowercase, to_lowercase};
use crate::models::{keep, sort_by_date, sorted_by_date, Article};
use crate::text::{append_str, find_chars, spec_contains, spec_trim, trim_str};

verus! {

// ---------------------------------------------------------------------------
// Characters
// ---------------------------------------------------------------------------

/// Chinese characters: the CJK unified ideographs, extension A, CJK symbols
/// and punctuation, and the half- and full-width forms.
pub open spec fn spec_is_chinese_char(c: char) -> bool {
    ||| ('\u{4e00}' <= c && c <= '\u{9fff}')
    ||| ('\u{3400}' <= c && c <= '\u{4dbf}')
    ||| ('\u{3000}' <= c && c <= '\u{303f}')
    ||| ('\u{ff00}' <= c && c <= '\u{ffef}')
}

/// Whether a character is Chinese (ideograph, CJK punctuation or a
/// full-width form).
pub fn is_chinese_char(c: char) -> (r: bool)
    ensures
        r == spec_is_chinese_char(c),
{
    ('\u{4e00}' <= c && c <= '\u{9fff}') || ('\u{3400}' <= c && c <= '\u{4dbf}') || ('\u{3000}' <= c
        && c <= '\u{303f}') || ('\u{ff00}' <= c && c <= '\u{ffef}')
}

/// What `char::is_alphanumeric` says of a character.
pub uninterp spec fn spec_is_alphanumeric(c: char) -> bool;

pub open spec fn is_ascii_alnum(c: char) -> bool {
    ('a' <= c && c <= 'z') || ('A' <= c && c <= 'Z') || ('0' <= c && c <= '9')
}

/// `char::is_alphanumeric`: alphabetic or numeric in Unicode; among ASCII
/// characters exactly the letters and digits.
#[verifier::external_body]
fn is_alphanumeric(c: char) -> (r: bool)
    ensures
        r == spec_is_alphanumeric(c),
        c <= '\u{7f}' ==> (r == is_ascii_alnum(c)),
{
    c.is_alphanumeric()
}

/// The number of bytes of a character in UTF-8.
pub open spec fn utf8_width(c: char) -> nat {
    if c <= '\u{7f}' {
        1
    } else if c <= '\u{7ff}' {
        2
    } else if c <= '\u{ffff}' {
        3
    } else {
        4
    }
}

/// The number of bytes of a text in UTF-8 (`str::len`).
pub open spec fn utf8_len(s: Seq<char>) -> nat
    decreases s.len(),
{
    if s.len() == 0 {
        0
    } else {
        utf8_len(s.drop_last()) + utf8_width(s.last())
    }
}

proof fn lemma_utf8_len_front(s: Seq<char>)
    requires
        s.len() > 0,
    ensures
        utf8_len(s) == utf8_width(s[0]) + utf8_len(s.drop_first()),
    decreases s.len(),
{
    if s.len() == 1 {
        assert(s.drop_first() =~= Seq::<char>::empty());
        assert(s.drop_last() =~= Seq::<char>::empty());
    } else {
        lemma_utf8_len_front(s.drop_last());
        assert(s.drop_first().drop_last() =~= s.drop_last().drop_first());
        assert(s.drop_first().last() == s.last());
        assert(s.drop_last()[0] == s[0]);
    }
}

proof fn lemma_encode_len(s: Seq<char>)
    ensures
        vstd::utf8::encode_utf8(s).len() == utf8_len(s),
    decreases s.len(),
{
    if s.len() > 0 {
        lemma_encode_len(s.drop_first());
        lemma_utf8_len_front(s);
        lemma_scalar_width(s[0]);
    }
}

proof fn lemma_scalar_width(c: char)
    ensures
        vstd::utf8::encode_scalar(c as u32).len() == utf8_width(c),
{
    vstd::utf8::char_is_scalar(c);
    let v = c as u32;
    assert(v as int == c as int);
    if v <= 0x7F {
        assert(vstd::utf8::has_width_1_encoding(v));
    } else if v <= 0x7FF {
        assert(vstd::utf8::has_width_2_encoding(v));
    } else if v <= 0xFFFF {
        assert(vstd::utf8::has_width_3_encoding(v));
    } else {
        assert(vstd::utf8::has_width_4_encoding(v));
    }
}

/// `str::len`: the length of a text in bytes, which is its UTF-8 length.
pub(crate) fn byte_len(s: &str) -> (n: usize)
    ensures
        n == utf8_len(s@),
{
    let b = s.as_bytes();
    proof {
        lemma_encode_len(s@);
    }
    b.len()
}

// ---------------------------------------------------------------------------
// Tokenizing
// ---------------------------------------------------------------------------

/// How many characters of a text count for meaning: Chinese or
/// alphanumeric ones.
pub open spec fn meaningful_count(s: Seq<char>) -> nat
    decreases s.len(),
{
    if s.len() == 0 {
        0
    } else {
        meaningful_count(s.drop_last()) + if spec_is_chinese_char(s.last()) || spec_is_alphanumeric(
            s.last(),
        ) {
            1nat
        } else {
            0nat
        }
    }
}

/// A term has meaning when it has at least two bytes and at least half as
/// many meaningful characters as it has bytes.
pub open spec fn spec_is_meaningful_term(t: Seq<char>) -> bool {
    utf8_len(t) >= 2 && meaningful_count(t) >= utf8_len(t) / 2
}

/// Whether a term is worth indexing.
pub fn is_meaningful_term(term: &str) -> (r: bool)
    ensures
        r == spec_is_meaningful_term(term@),
{
    let n = byte_len(term);
    if n < 2 {
        return false;
    }
    let cs = chars_of(term);
    let mut count: usize = 0;
    let mut i: usize = 0;
    while i < cs.len()
        invariant
            i <= cs@.len(),
            cs@ == term@,
            count == meaningful_count(cs@.take(i as int)),
            count <= i,
        decreases cs@.len() - i,
    {
        proof {
            assert(cs@.take(i + 1).drop_last() =~= cs@.take(i as int));
        }
        if is_chinese_char(cs[i]) || is_alphanumeric(cs[i]) {
            count = count + 1;
        }
        i = i + 1;
    }
    assert(cs@.take(cs@.len() as int) =~= cs@);
    count >= n / 2
}

/// The state of word splitting: the words so far and the current word.
pub open spec fn words_step(st: (Seq<Seq<char>>, Seq<char>), c: char) -> (Seq<Seq<char>>, Seq<char>) {
    if is_ws(c) {
        if st.1.len() > 0 {
            (st.0.push(st.1), Seq::empty())
        } else {
            st
        }
    } else {
        (st.0, st.1.push(c))
    }
}

pub open spec fn words_run(s: Seq<char>) -> (Seq<Seq<char>>, Seq<char>)
    decreases s.len(),
{
    if s.len() == 0 {
        (Seq::empty(), Seq::empty())
    } else {
        words_step(words_run(s.drop_last()), s.last())
    }
}

/// The words of a text: the maximal runs without white space
/// (`str::split_whitespace`).
pub open spec fn spec_words(s: Seq<char>) -> Seq<Seq<char>> {
    let st = words_run(s);
    if st.1.len() > 0 {
        st.0.push(st.1)
    } else {
        st.0
    }
}

/// The pieces of `n` consecutive characters of a text that have meaning,
/// from left to right.
pub open spec fn ngrams(s: Seq<char>, n: nat) -> Seq<Seq<char>> {
    let count: nat = if s.len() >= n {
        (s.len() - n + 1) as nat
    } else {
        0
    };
    keep(
        Seq::new(count, |i: int| s.subrange(i, i + n)),
        |t: Seq<char>| spec_is_meaningful_term(t),
    )
}

/// The terms before duplicates are removed: the words of at least two bytes,
/// then the meaningful pieces of two, three and four characters.
pub open spec fn raw_terms(s: Seq<char>) -> Seq<Seq<char>> {
    keep(spec_words(s), |w: Seq<char>| utf8_len(w) >= 2) + ngrams(s, 2) + ngrams(s, 3) + ngrams(s, 4)
}

/// A list with later repetitions removed.
pub open spec fn dedup(s: Seq<Seq<char>>) -> Seq<Seq<char>>
    decreases s.len(),
{
    if s.len() == 0 {
        Seq::empty()
    } else {
        let d = dedup(s.drop_last());
        if d.contains(s.last()) {
            d
        } else {
            d.push(s.last())
        }
    }
}

/// The search terms of a text, lower-cased first.
pub open spec fn spec_tokenize(text: Seq<char>) -> Seq<Seq<char>> {
    dedup(raw_terms(spec_lowercase(text)))
}

pub open spec fn strings_view(v: Seq<String>) -> Seq<Seq<char>> {
    v.map_values(|s: String| s@)
}

pub open spec fn chars_view(v: Seq<Vec<char>>) -> Seq<Seq<char>> {
    v.map_values(|s: Vec<char>| s@)
}

/// The words of a text.
fn words_of(s: &[char]) -> (r: Vec<Vec<char>>)
    ensures
        chars_view(r@) == spec_words(s@),
{
    let mut done: Vec<Vec<char>> = Vec::new();
    let mut cur: Vec<char> = Vec::new();
    let mut i: usize = 0;
    while i < s.len()
        invariant
            i <= s@.len(),
            words_run(s@.take(i as int)) == (chars_view(done@), cur@),
        decreases s@.len() - i,
    {
        proof {
            assert(s@.take(i + 1).drop_last() =~= s@.take(i as int));
        }
        if is_whitespace(s[i]) {
            if cur.len() > 0 {
                let ghost before = done@;
                let w = cur;
                done.push(w);
                cur = Vec::new();
                proof {
                    assert(chars_view(done@) =~= chars_view(before).push(w@));
                }
            }
        } else {
            cur.push(s[i]);
        }
        i = i + 1;
    }
    assert(s@.take(s@.len() as int) =~= s@);
    if cur.len() > 0 {
        let ghost before = done@;
        let w = cur;
        done.push(w);
        proof {
            assert(chars_view(done@) =~= chars_view(before).push(w@));
        }
    }
    done
}

/// Whether a list of terms holds a term.
fn holds_term(v: &Vec<Vec<char>>, t: &[char]) -> (r: bool)
    ensures
        r == chars_view(v@).contains(t@),
{
    let mut i: usize = 0;
    while i < v.len()
        invariant
            i <= v@.len(),
            forall|k: int| 0 <= k < i ==> v@[k]@ != t@,
        decreases v@.len() - i,
    {
        if chars_eq(v[i].as_slice(), t) {
            assert(chars_view(v@)[i as int] == t@);
            return true;
        }
        i = i + 1;
    }
    proof {
        if chars_view(v@).contains(t@) {
            let k = choose|k: int| 0 <= k < chars_view(v@).len() && chars_view(v@)[k] == t@;
            assert(v@[k]@ == t@);
        }
    }
    false
}

/// Appends a term unless the list already holds it.
fn push_unique(out: &mut Vec<Vec<char>>, t: Vec<char>)
    ensures
        chars_view(final(out)@) == if chars_view(old(out)@).contains(t@) {
            chars_view(old(out)@)
        } else {
            chars_view(old(out)@).push(t@)
        },
{
    if !holds_term(out, t.as_slice()) {
        let ghost before = out@;
        out.push(t);
        proof {
            assert(chars_view(out@) =~= chars_view(before).push(t@));
        }
    }
}

/// Appends the meaningful pieces of `n` characters.
fn push_ngrams(out: &mut Vec<Vec<char>>, s: &[char], n: usize, Ghost(prefix): Ghost<Seq<Seq<char>>>)
    requires
        2 <= n <= 4,
        chars_view(old(out)@) == dedup(prefix),
    ensures
        chars_view(final(out)@) == dedup(prefix + ngrams(s@, n as nat)),
{
    let ghost all = ngrams(s@, n as nat);
    let ghost count: nat = if s@.len() >= n {
        (s@.len() - n + 1) as nat
    } else {
        0
    };
    let ghost pieces = Seq::new(count, |i: int| s@.subrange(i, i + n));
    let limit: usize = if s.len() >= n {
        s.len() - n + 1
    } else {
        0
    };
    let mut i: usize = 0;
    while i < limit
        invariant
            2 <= n <= 4,
            limit == count,
            pieces == Seq::new(count, |i: int| s@.subrange(i, i + n)),
            all == keep(pieces, |t: Seq<char>| spec_is_meaningful_term(t)),
            count <= s@.len() + 1,
            s@.len() >= n ==> count == s@.len() - n + 1,
            s@.len() < n ==> count == 0,
            i <= limit,
            chars_view(out@) == dedup(prefix + keep(pieces.take(i as int), |t: Seq<char>| spec_is_meaningful_term(t))),
        decreases limit - i,
    {
        proof {
            assert(pieces.take(i + 1).drop_last() =~= pieces.take(i as int));
            assert(pieces.take(i + 1).last() == pieces[i as int]);
        }
        let ghost k0 = keep(pieces.take(i as int), |t: Seq<char>| spec_is_meaningful_term(t));
        assert(i + n <= s@.len() && s@.len() == s.len());
        let piece = slice_chars(s, i, i + n);
        assert(piece@ == pieces[i as int]);
        let term = string_of(piece.as_slice());
        if is_meaningful_term(term.as_str()) {
            proof {
                assert(keep(pieces.take(i + 1), |t: Seq<char>| spec_is_meaningful_term(t)) == k0.push(piece@));
                assert(prefix + k0.push(piece@) =~= (prefix + k0).push(piece@));
                assert((prefix + k0).push(piece@).drop_last() =~= prefix + k0);
            }
            push_unique(out, piece);
        } else {
            assert(keep(pieces.take(i + 1), |t: Seq<char>| spec_is_meaningful_term(t)) == k0);
        }
        i = i + 1;
    }
    assert(pieces.take(limit as int) =~= pieces);
}

/// Appends the words of at least two bytes.
fn push_words(out: &mut Vec<Vec<char>>, s: &[char])
    requires
        old(out)@.len() == 0,
    ensures
        chars_view(final(out)@) == dedup(keep(spec_words(s@), |w: Seq<char>| utf8_len(w) >= 2)),
{
    let ws = words_of(s);
    let ghost all = spec_words(s@);
    assert(chars_view(out@) =~= dedup(Seq::<Seq<char>>::empty()));
    let mut i: usize = 0;
    while i < ws.len()
        invariant
            chars_view(ws@) == all,
            i <= ws@.len(),
            chars_view(out@) == dedup(keep(all.take(i as int), |w: Seq<char>| utf8_len(w) >= 2)),
        decreases ws@.len() - i,
    {
        proof {
            assert(all.take(i + 1).drop_last() =~= all.take(i as int));
            assert(all[i as int] == ws@[i as int]@);
            assert(all.take(i + 1).last() == all[i as int]);
        }
        let ghost k0 = keep(all.take(i as int), |w: Seq<char>| utf8_len(w) >= 2);
        let w = string_of(ws[i].as_slice());
        if byte_len(w.as_str()) >= 2 {
            let piece = slice_chars(ws[i].as_slice(), 0, ws[i].len());
            assert(piece@ =~= ws@[i as int]@);
            proof {
                assert(keep(all.take(i + 1), |w: Seq<char>| utf8_len(w) >= 2) == k0.push(piece@));
                assert(k0.push(piece@).drop_last() =~= k0);
            }
            push_unique(out, piece);
        } else {
            assert(keep(all.take(i + 1), |w: Seq<char>| utf8_len(w) >= 2) == k0);
        }
        i = i + 1;
    }
    assert(all.take(ws@.len() as int) =~= all);
}

/// The search terms of a lower-cased text, as characters.
fn terms_of_lowered(s: &[char]) -> (r: Vec<Vec<char>>)
    ensures
        chars_view(r@) == dedup(raw_terms(s@)),
{
    let mut out: Vec<Vec<char>> = Vec::new();
    push_words(&mut out, s);
    let ghost w = keep(spec_words(s@), |w: Seq<char>| utf8_len(w) >= 2);
    push_ngrams(&mut out, s, 2, Ghost(w));
    push_ngrams(&mut out, s, 3, Ghost(w + ngrams(s@, 2)));
    push_ngrams(&mut out, s, 4, Ghost(w + ngrams(s@, 2) + ngrams(s@, 3)));
    out
}

/// The search terms of a text, as characters.
pub fn tokenize_chars(text: &str) -> (r: Vec<Vec<char>>)
    ensures
        chars_view(r@) == spec_tokenize(text@),
{
    let lower = to_lowercase(text);
    let cs = chars_of(lower.as_str());
    terms_of_lowered(cs.as_slice())
}

/// The search terms of a text: its lower-cased words of at least two bytes
/// and its meaningful pieces of two to four characters, each once, in order
/// of first appearance.
pub fn tokenize(text: &str) -> (r: Vec<String>)
    ensures
        strings_view(r@) == spec_tokenize(text@),
{
    let ts = tokenize_chars(text);
    let mut out: Vec<String> = Vec::new();
    let mut i: usize = 0;
    while i < ts.len()
        invariant
            i <= ts@.len(),
            strings_view(out@) == chars_view(ts@).take(i as int),
        decreases ts@.len() - i,
    {
        let s = string_of(ts[i].as_slice());
        let ghost before = out@;
        out.push(s);
        proof {
            assert(strings_view(out@) =~= strings_view(before).push(ts@[i as int]@));
            assert(chars_view(ts@).take(i + 1) =~= chars_view(ts@).take(i as int).push(ts@[i as int]@));
        }
        i = i + 1;
    }
    assert(chars_view(ts@).take(ts@.len() as int) =~= chars_view(ts@));
    out
}

// ---------------------------------------------------------------------------
// The index of one feed
// ---------------------------------------------------------------------------

/// The posting lists of an index: each term with the ids of the articles
/// that hold it.
pub type Postings = Seq<(Seq<char>, Seq<i64>)>;

/// The position of a term's posting list.
pub open spec fn term_pos_from(p: Postings, t: Seq<char>, k: int) -> Option<int>
    decreases p.len() - k,
{
    if k < 0 || k >= p.len() {
        None
    } else if p[k].0 == t {
        Some(k)
    } else {
        term_pos_from(p, t, k + 1)
    }
}

pub open spec fn term_pos(p: Postings, t: Seq<char>) -> Option<int> {
    term_pos_from(p, t, 0)
}

/// The ids recorded for a term.
pub open spec fn posting_set(p: Postings, t: Seq<char>) -> Set<i64> {
    match term_pos(p, t) {
        Some(k) => p[k].1.to_set(),
        None => Set::empty(),
    }
}

/// Records that article `id` holds term `t`.
pub open spec fn add_posting(p: Postings, t: Seq<char>, id: i64) -> Postings {
    match term_pos(p, t) {
        Some(k) => if p[k].1.contains(id) {
            p
        } else {
            p.update(k, (t, p[k].1.push(id)))
        },
        None => p.push((t, seq![id])),
    }
}

/// Records that article `id` holds each of the terms.
pub open spec fn add_postings(p: Postings, terms: Seq<Seq<char>>, id: i64) -> Postings
    decreases terms.len(),
{
    if terms.len() == 0 {
        p
    } else {
        add_posting(add_postings(p, terms.drop_last(), id), terms.last(), id)
    }
}

/// The ids of a posting list other than `id`.
pub open spec fn without_id(ids: Seq<i64>, id: i64) -> Seq<i64> {
    keep(ids, |x: i64| x != id)
}

/// Article `id` removed from every posting list; lists left empty are
/// dropped.
pub open spec fn remove_postings(p: Postings, id: i64) -> Postings
    decreases p.len(),
{
    if p.len() == 0 {
        Seq::empty()
    } else {
        let r = remove_postings(p.drop_last(), id);
        let ids = without_id(p.last().1, id);
        if ids.len() > 0 {
            r.push((p.last().0, ids))
        } else {
            r
        }
    }
}

/// The articles that hold every term (none when there are no terms).
pub open spec fn all_terms(p: Postings, terms: Seq<Seq<char>>) -> Set<i64>
    decreases terms.len(),
{
    if terms.len() == 0 {
        Set::empty()
    } else if terms.len() == 1 {
        posting_set(p, terms[0])
    } else {
        all_terms(p, terms.drop_last()).intersect(posting_set(p, terms.last()))
    }
}

/// The articles that hold some term.
pub open spec fn any_terms(p: Postings, terms: Seq<Seq<char>>) -> Set<i64>
    decreases terms.len(),
{
    if terms.len() == 0 {
        Set::empty()
    } else {
        any_terms(p, terms.drop_last()).union(posting_set(p, terms.last()))
    }
}

/// The position of an article.
pub open spec fn id_pos_from(a: Seq<Article>, id: i64, k: int) -> Option<int>
    decreases a.len() - k,
{
    if k < 0 || k >= a.len() {
        None
    } else if a[k].id == id {
        Some(k)
    } else {
        id_pos_from(a, id, k + 1)
    }
}

pub open spec fn id_pos(a: Seq<Article>, id: i64) -> Option<int> {
    id_pos_from(a, id, 0)
}

/// The text an article is matched against by substring: title, content,
/// summary and author separated by spaces, lower-cased.
pub open spec fn full_text(a: Article) -> Seq<char> {
    spec_lowercase(a.title@ + seq![' '] + a.content@ + seq![' '] + a.summary@ + seq![' '] + a.author@)
}

/// The terms an article is indexed under: those of its title, content,
/// summary and author run together.
pub open spec fn article_terms(a: Article) -> Seq<Seq<char>> {
    spec_tokenize(spec_lowercase(a.title@ + a.content@ + a.summary@ + a.author@))
}

/// The articles whose text holds `q`, in index order.
pub open spec fn substring_hits(a: Seq<Article>, texts: Seq<Seq<char>>, q: Seq<char>, n: int) -> Seq<Article>
    decreases n,
{
    if n <= 0 {
        Seq::empty()
    } else {
        let r = substring_hits(a, texts, q, n - 1);
        if spec_contains(texts[n - 1], q) {
            r.push(a[n - 1])
        } else {
            r
        }
    }
}

/// A term's posting list.
pub struct Posting {
    pub term: Vec<char>,
    pub ids: Vec<i64>,
}

/// The search index of one feed: posting lists, and the indexed articles
/// with the text each is matched against.
pub struct PerFeedIndex {
    postings: Vec<Posting>,
    articles: Vec<Article>,
    full_texts: Vec<Vec<char>>,
}

/// What a search of one feed found.
#[derive(Debug)]
pub enum SearchOutcome {
    /// The query has no search terms.
    Empty,
    /// No indexed term matched: the articles whose text holds the lower-cased
    /// query, newest first.
    Substring(Vec<Article>),
    /// The articles to rank by relevance: those holding all the terms, or
    /// when there are none those holding any term, in index order.
    Ranked { terms: Vec<String>, query: String, exact: Vec<i64>, candidates: Vec<Article> },
}

fn copy_chars(v: &[char]) -> (r: Vec<char>)
    ensures
        r@ == v@,
{
    let r = slice_chars(v, 0, v.len());
    assert(r@ =~= v@);
    r
}

fn copy_ids(v: &Vec<i64>) -> (r: Vec<i64>)
    ensures
        r@ == v@,
{
    let mut r: Vec<i64> = Vec::new();
    let mut i: usize = 0;
    while i < v.len()
        invariant
            i <= v@.len(),
            r@ == v@.take(i as int),
        decreases v@.len() - i,
    {
        r.push(v[i]);
        assert(v@.take(i + 1) =~= v@.take(i as int).push(v@[i as int]));
        i = i + 1;
    }
    assert(v@.take(v@.len() as int) =~= v@);
    r
}

fn holds_id(v: &Vec<i64>, id: i64) -> (r: bool)
    ensures
        r == v@.contains(id),
{
    let mut i: usize = 0;
    while i < v.len()
        invariant
            i <= v@.len(),
            forall|k: int| 0 <= k < i ==> v@[k] != id,
        decreases v@.len() - i,
    {
        if v[i] == id {
            assert(v@[i as int] == id);
            return true;
        }
        i = i + 1;
    }
    false
}

impl PerFeedIndex {
    pub closed spec fn posting_view(&self) -> Postings {
        self.postings@.map_values(|p: Posting| (p.term@, p.ids@))
    }

    pub closed spec fn article_view(&self) -> Seq<Article> {
        self.articles@
    }

    pub closed spec fn text_view(&self) -> Seq<Seq<char>> {
        self.full_texts@.map_values(|t: Vec<char>| t@)
    }

    /// Every article has its text.
    pub closed spec fn wf(&self) -> bool {
        self.articles@.len() == self.full_texts@.len()
    }

    /// An empty index.
    pub fn new() -> (r: Self)
        ensures
            r.wf(),
            r.posting_view().len() == 0,
            r.article_view().len() == 0,
    {
        PerFeedIndex { postings: Vec::new(), articles: Vec::new(), full_texts: Vec::new() }
    }

    /// The number of indexed articles.
    pub fn article_count(&self) -> (n: usize)
        ensures
            n == self.article_view().len(),
    {
        self.articles.len()
    }

    fn term_pos_exec(&self, t: &[char]) -> (r: Option<usize>)
        ensures
            match r {
                Some(k) => term_pos(self.posting_view(), t@) == Some(k as int) && k < self.posting_view().len(),
                None => term_pos(self.posting_view(), t@) is None,
            },
    {
        let ghost p = self.posting_view();
        let mut k: usize = 0;
        while k < self.postings.len()
            invariant
                p == self.posting_view(),
                k <= p.len(),
                term_pos(p, t@) == term_pos_from(p, t@, k as int),
            decreases p.len() - k,
        {
            if chars_eq(self.postings[k].term.as_slice(), t) {
                return Some(k);
            }
            k = k + 1;
        }
        None
    }

    fn id_pos_exec(&self, id: i64) -> (r: Option<usize>)
        ensures
            match r {
                Some(k) => id_pos(self.articles@, id) == Some(k as int) && k < self.articles@.len(),
                None => id_pos(self.articles@, id) is None,
            },
    {
        let mut k: usize = 0;
        while k < self.articles.len()
            invariant
                k <= self.articles@.len(),
                id_pos(self.articles@, id) == id_pos_from(self.articles@, id, k as int),
            decreases self.articles@.len() - k,
        {
            if self.articles[k].id == id {
                return Some(k);
            }
            k = k + 1;
        }
        None
    }

    fn add_posting_exec(&mut self, t: &[char], id: i64)
        ensures
            final(self).posting_view() == add_posting(old(self).posting_view(), t@, id),
            final(self).articles == old(self).articles,
            final(self).full_texts == old(self).full_texts,
    {
        let ghost p = self.posting_view();
        match self.term_pos_exec(t) {
            Some(k) => {
                proof {
                    lemma_term_pos_found(p, t@, 0);
                }
                assert(term_pos(p, t@) == Some(k as int));
                assert(p[k as int].1 == self.postings@[k as int].ids@);
                if !holds_id(&self.postings[k].ids, id) {
                    let mut ids = copy_ids(&self.postings[k].ids);
                    ids.push(id);
                    let term = copy_chars(t);
                    self.postings[k] = Posting { term, ids };
                    proof {
                        assert(self.posting_view() =~= p.update(k as int, (t@, p[k as int].1.push(id))));
                    }
                    assert(self.posting_view() == add_posting(p, t@, id));
                } else {
                    assert(self.posting_view() == add_posting(p, t@, id));
                }
            },
            None => {
                let term = copy_chars(t);
                let mut ids: Vec<i64> = Vec::new();
                ids.push(id);
                self.postings.push(Posting { term, ids });
                proof {
                    assert(self.posting_view() =~= p.push((t@, seq![id])));
                }
                assert(self.posting_view() == add_posting(p, t@, id));
            },
        }
    }

    /// Adds an article, or replaces the article with the same id; the
    /// postings of a replaced version are dropped and its terms are added to
    /// the posting lists.
    pub fn add_article(&mut self, article: Article)
        requires
            old(self).wf(),
        ensures
            final(self).wf(),
            match id_pos(old(self).article_view(), article.id) {
                Some(k) => {
                    &&& final(self).article_view() == old(self).article_view().update(k, article)
                    &&& final(self).text_view() == old(self).text_view().update(k, full_text(article))
                },
                None => {
                    &&& final(self).article_view() == old(self).article_view().push(article)
                    &&& final(self).text_view() == old(self).text_view().push(full_text(article))
                },
            },
            final(self).posting_view() == add_postings(
                cleared_postings(old(self).posting_view(), old(self).article_view(), article.id),
                article_terms(article),
                article.id,
            ),
            final(self).model() == indexed(old(self).model(), article),
    {
        if self.id_pos_exec(article.id).is_some() {
            self.drop_postings(article.id);
        }
        let mut spaced: Vec<char> = Vec::new();
        append_str(&mut spaced, article.title.as_str());
        spaced.push(' ');
        append_str(&mut spaced, article.content.as_str());
        spaced.push(' ');
        append_str(&mut spaced, article.summary.as_str());
        spaced.push(' ');
        append_str(&mut spaced, article.author.as_str());
        let spaced_s = string_of(spaced.as_slice());
        let lowered = to_lowercase(spaced_s.as_str());
        let ft = chars_of(lowered.as_str());
        assert(spaced@ =~= article.title@ + seq![' '] + article.content@ + seq![' '] + article.summary@ + seq![' '] + article.author@);
        let mut joined: Vec<char> = Vec::new();
        append_str(&mut joined, article.title.as_str());
        append_str(&mut joined, article.content.as_str());
        append_str(&mut joined, article.summary.as_str());
        append_str(&mut joined, article.author.as_str());
        let joined_s = string_of(joined.as_slice());
        let joined_lower = to_lowercase(joined_s.as_str());
        let terms = tokenize_chars(joined_lower.as_str());
        assert(joined@ =~= article.title@ + article.content@ + article.summary@ + article.author@);
        let ghost p0 = self.posting_view();
        let ghost all = chars_view(terms@);
        let mut i: usize = 0;
        while i < terms.len()
            invariant
                all == chars_view(terms@),
                i <= terms@.len(),
                self.posting_view() == add_postings(p0, all.take(i as int), article.id),
                self.articles == old(self).articles,
                self.full_texts == old(self).full_texts,
            decreases terms@.len() - i,
        {
            proof {
                assert(all.take(i + 1).drop_last() =~= all.take(i as int));
            }
            self.add_posting_exec(terms[i].as_slice(), article.id);
            i = i + 1;
        }
        assert(all.take(terms@.len() as int) =~= all);
        let ghost tv = self.text_view();
        match self.id_pos_exec(article.id) {
            Some(k) => {
                proof {
                    lemma_id_pos_found(self.articles@, article.id, 0);
                }
                assert(ft@ == full_text(article));
                self.full_texts[k] = ft;
                self.articles[k] = article;
                proof {
                    assert(self.text_view() =~= tv.update(k as int, full_text(article)));
                    assert(self.article_view() == old(self).article_view().update(k as int, article));
                }
            },
            None => {
                assert(ft@ == full_text(article));
                self.full_texts.push(ft);
                self.articles.push(article);
                proof {
                    assert(self.text_view() =~= tv.push(full_text(article)));
                    assert(self.article_view() == old(self).article_view().push(article));
                }
            },
        }
    }
}

proof fn lemma_term_pos_found(p: Postings, t: Seq<char>, k: int)
    requires
        0 <= k,
    ensures
        term_pos_from(p, t, k) matches Some(i) ==> k <= i < p.len() && p[i].0 == t,
    decreases p.len() - k,
{
    if k < p.len() && p[k].0 != t {
        lemma_term_pos_found(p, t, k + 1);
    }
}

proof fn lemma_id_pos_found(a: Seq<Article>, id: i64, k: int)
    requires
        0 <= k,
    ensures
        id_pos_from(a, id, k) matches Some(i) ==> k <= i < a.len() && a[i].id == id,
    decreases a.len() - k,
{
    if k < a.len() && a[k].id != id {
        lemma_id_pos_found(a, id, k + 1);
    }
}

fn without_id_exec(v: &Vec<i64>, id: i64) -> (r: Vec<i64>)
    ensures
        r@ == without_id(v@, id),
{
    let mut r: Vec<i64> = Vec::new();
    let mut i: usize = 0;
    while i < v.len()
        invariant
            i <= v@.len(),
            r@ == without_id(v@.take(i as int), id),
        decreases v@.len() - i,
    {
        proof {
            assert(v@.take(i + 1).drop_last() =~= v@.take(i as int));
        }
        if v[i] != id {
            r.push(v[i]);
        }
        i = i + 1;
    }
    assert(v@.take(v@.len() as int) =~= v@);
    r
}

/// The ids of `a` that are also in `b`.
fn retain_in(a: &Vec<i64>, b: &Vec<i64>) -> (r: Vec<i64>)
    ensures
        r@.to_set() == a@.to_set().intersect(b@.to_set()),
{
    let mut r: Vec<i64> = Vec::new();
    let mut i: usize = 0;
    while i < a.len()
        invariant
            i <= a@.len(),
            r@.to_set() == a@.take(i as int).to_set().intersect(b@.to_set()),
        decreases a@.len() - i,
    {
        let ghost r0 = r@;
        proof {
            lemma_take_push_set(a@, i as int);
        }
        if holds_id(b, a[i]) {
            r.push(a[i]);
            proof {
                lemma_push_set(r0, a@[i as int]);
            }
        }
        i = i + 1;
    }
    assert(a@.take(a@.len() as int) =~= a@);
    r
}

/// Adds the ids of `b` that `a` lacks.
fn union_into(a: &mut Vec<i64>, b: &Vec<i64>)
    ensures
        final(a)@.to_set() == old(a)@.to_set().union(b@.to_set()),
{
    let ghost a0 = a@;
    let mut i: usize = 0;
    while i < b.len()
        invariant
            i <= b@.len(),
            a@.to_set() == a0.to_set().union(b@.take(i as int).to_set()),
        decreases b@.len() - i,
    {
        let ghost r0 = a@;
        proof {
            lemma_take_push_set(b@, i as int);
        }
        if !holds_id(a, b[i]) {
            a.push(b[i]);
            proof {
                lemma_push_set(r0, b@[i as int]);
            }
        } else {
            assert(r0.to_set().contains(b@[i as int]));
            assert(r0.to_set().insert(b@[i as int]) =~= r0.to_set());
        }
        i = i + 1;
    }
    assert(b@.take(b@.len() as int) =~= b@);
}

proof fn lemma_push_set(s: Seq<i64>, x: i64)
    ensures
        s.push(x).to_set() == s.to_set().insert(x),
{
    assert forall|y: i64| s.push(x).to_set().contains(y) <==> s.to_set().insert(x).contains(y) by {
        if s.push(x).contains(y) {
            let k = choose|k: int| 0 <= k < s.push(x).len() && s.push(x)[k] == y;
            if k < s.len() {
                assert(s[k] == y);
            }
        }
        if s.contains(y) {
            let k = choose|k: int| 0 <= k < s.len() && s[k] == y;
            assert(s.push(x)[k] == y);
        }
        if y == x {
            assert(s.push(x)[s.len() as int] == x);
        }
    }
    assert(s.push(x).to_set() =~= s.to_set().insert(x));
}

proof fn lemma_take_push_set(s: Seq<i64>, i: int)
    requires
        0 <= i < s.len(),
    ensures
        s.take(i + 1).to_set() == s.take(i).to_set().insert(s[i]),
{
    assert(s.take(i + 1) =~= s.take(i).push(s[i]));
    lemma_push_set(s.take(i), s[i]);
}

impl PerFeedIndex {
    fn posting_ids(&self, t: &[char]) -> (r: Vec<i64>)
        ensures
            r@.to_set() == posting_set(self.posting_view(), t@),
    {
        match self.term_pos_exec(t) {
            Some(k) => {
                assert(self.posting_view()[k as int].1 == self.postings@[k as int].ids@);
                copy_ids(&self.postings[k].ids)
            },
            None => {
                let r: Vec<i64> = Vec::new();
                assert(r@.to_set() =~= Set::<i64>::empty());
                r
            },
        }
    }

    /// The ids of the articles that hold every term (none for no terms).
    pub fn find_articles_with_all_terms(&self, terms: &Vec<Vec<char>>) -> (r: Vec<i64>)
        ensures
            r@.to_set() == all_terms(self.posting_view(), chars_view(terms@)),
    {
        let ghost ts = chars_view(terms@);
        if terms.len() == 0 {
            let r: Vec<i64> = Vec::new();
            assert(r@.to_set() =~= Set::<i64>::empty());
            return r;
        }
        let mut acc = self.posting_ids(terms[0].as_slice());
        assert(ts.take(1) =~= seq![ts[0]]);
        let mut j: usize = 1;
        while j < terms.len()
            invariant
                ts == chars_view(terms@),
                1 <= j <= terms@.len(),
                acc@.to_set() == all_terms(self.posting_view(), ts.take(j as int)),
            decreases terms@.len() - j,
        {
            proof {
                assert(ts.take(j + 1).drop_last() =~= ts.take(j as int));
            }
            let ids = self.posting_ids(terms[j].as_slice());
            acc = retain_in(&acc, &ids);
            j = j + 1;
        }
        assert(ts.take(terms@.len() as int) =~= ts);
        acc
    }

    /// The ids of the articles that hold some term.
    pub fn find_articles_with_any_terms(&self, terms: &Vec<Vec<char>>) -> (r: Vec<i64>)
        ensures
            r@.to_set() == any_terms(self.posting_view(), chars_view(terms@)),
    {
        let ghost ts = chars_view(terms@);
        let mut acc: Vec<i64> = Vec::new();
        assert(acc@.to_set() =~= Set::<i64>::empty());
        let mut j: usize = 0;
        while j < terms.len()
            invariant
                ts == chars_view(terms@),
                j <= terms@.len(),
                acc@.to_set() == any_terms(self.posting_view(), ts.take(j as int)),
            decreases terms@.len() - j,
        {
            proof {
                assert(ts.take(j + 1).drop_last() =~= ts.take(j as int));
            }
            let ids = self.posting_ids(terms[j].as_slice());
            union_into(&mut acc, &ids);
            j = j + 1;
        }
        assert(ts.take(terms@.len() as int) =~= ts);
        acc
    }

    /// The number of articles holding a term, at least one.
    pub fn count_docs_with_term(&self, term: &str) -> (n: usize)
        ensures
            n == match term_pos(self.posting_view(), term@) {
                Some(k) => if self.posting_view()[k].1.len() > 1 {
                    self.posting_view()[k].1.len()
                } else {
                    1
                },
                None => 1,
            },
    {
        let t = chars_of(term);
        match self.term_pos_exec(t.as_slice()) {
            Some(k) => {
                assert(self.posting_view()[k as int].1 == self.postings@[k as int].ids@);
                let n = self.postings[k].ids.len();
                if n > 1 {
                    n
                } else {
                    1
                }
            },
            None => 1,
        }
    }

    /// The text an indexed article is matched against.
    pub fn full_text_of(&self, id: i64) -> (r: Option<String>)
        requires
            self.wf(),
        ensures
            match id_pos(self.article_view(), id) {
                Some(k) => r matches Some(s) && s@ == self.text_view()[k],
                None => r is None,
            },
    {
        match self.id_pos_exec(id) {
            Some(k) => Some(string_of(self.full_texts[k].as_slice())),
            None => None,
        }
    }

    /// Removes an article and its id from every posting list; posting lists
    /// left empty are dropped. Nothing changes when the article is absent.
    pub fn remove_article(&mut self, article_id: i64)
        requires
            old(self).wf(),
        ensures
            final(self).wf(),
            match id_pos(old(self).article_view(), article_id) {
                Some(k) => {
                    &&& final(self).article_view() == old(self).article_view().remove(k)
                    &&& final(self).text_view() == old(self).text_view().remove(k)
                    &&& final(self).posting_view() == remove_postings(old(self).posting_view(), article_id)
                },
                None => {
                    &&& final(self).article_view() == old(self).article_view()
                    &&& final(self).text_view() == old(self).text_view()
                    &&& final(self).posting_view() == old(self).posting_view()
                },
            },
            final(self).model() == unindexed(old(self).model(), article_id),
    {
        match self.id_pos_exec(article_id) {
            None => {},
            Some(k) => {
                let ghost tv = self.text_view();
                self.articles.remove(k);
                self.full_texts.remove(k);
                assert(self.text_view() =~= tv.remove(k as int));
                self.drop_postings(article_id);
            },
        }
    }

    /// Removes an article's id from every posting list, dropping lists left
    /// empty; the articles stay.
    fn drop_postings(&mut self, article_id: i64)
        ensures
            final(self).posting_view() == remove_postings(old(self).posting_view(), article_id),
            final(self).articles == old(self).articles,
            final(self).full_texts == old(self).full_texts,
    {
        let ghost p = self.posting_view();
        let mut kept: Vec<Posting> = Vec::new();
        let mut i: usize = 0;
        while i < self.postings.len()
            invariant
                p == self.posting_view(),
                i <= p.len(),
                kept@.map_values(|q: Posting| (q.term@, q.ids@)) == remove_postings(p.take(i as int), article_id),
            decreases p.len() - i,
        {
            proof {
                assert(p.take(i + 1).drop_last() =~= p.take(i as int));
                assert(p.take(i + 1).last() == (self.postings@[i as int].term@, self.postings@[i as int].ids@));
            }
            let ids = without_id_exec(&self.postings[i].ids, article_id);
            if ids.len() > 0 {
                let term = copy_chars(self.postings[i].term.as_slice());
                let ghost k0 = kept@;
                kept.push(Posting { term, ids });
                proof {
                    assert(kept@.map_values(|q: Posting| (q.term@, q.ids@)) =~= k0.map_values(|q: Posting| (q.term@, q.ids@)).push((term@, ids@)));
                }
            }
            i = i + 1;
        }
        assert(p.take(p.len() as int) =~= p);
        self.postings = kept;
    }

    /// The indexed articles whose text holds `q`, newest first.
    pub fn fuzzy_search(&self, q: &[char]) -> (r: Vec<Article>)
        requires
            self.wf(),
        ensures
            sorted_by_date(
                substring_hits(self.article_view(), self.text_view(), q@, self.article_view().len() as int),
                r@,
                true,
            ),
    {
        let mut hits: Vec<Article> = Vec::new();
        let mut i: usize = 0;
        while i < self.articles.len()
            invariant
                self.wf(),
                i <= self.articles@.len(),
                hits@ == substring_hits(self.article_view(), self.text_view(), q@, i as int),
            decreases self.articles@.len() - i,
        {
            assert(self.text_view()[i as int] == self.full_texts@[i as int]@);
            if crate::text::contains_chars(self.full_texts[i].as_slice(), q) {
                hits.push(self.articles[i].clone());
            }
            i = i + 1;
        }
        sort_by_date(hits.as_slice(), true)
    }
}

// ---------------------------------------------------------------------------
// Models and searching
// ---------------------------------------------------------------------------

/// What the index of one feed holds: posting lists, articles, and the text
/// each article is matched against.
pub struct FeedModel {
    pub postings: Postings,
    pub articles: Seq<Article>,
    pub texts: Seq<Seq<char>>,
}

pub open spec fn empty_model() -> FeedModel {
    FeedModel { postings: Seq::empty(), articles: Seq::empty(), texts: Seq::empty() }
}

/// The posting lists before an article is indexed: when an article with its
/// id is indexed already, that id leaves every list.
pub open spec fn cleared_postings(p: Postings, articles: Seq<Article>, id: i64) -> Postings {
    if id_pos(articles, id) is Some {
        remove_postings(p, id)
    } else {
        p
    }
}

/// An index after adding (or replacing) an article: it takes the place of an
/// article with the same id, whose postings are dropped, and its terms join
/// the posting lists.
pub open spec fn indexed(m: FeedModel, a: Article) -> FeedModel {
    FeedModel {
        postings: add_postings(cleared_postings(m.postings, m.articles, a.id), article_terms(a), a.id),
        articles: match id_pos(m.articles, a.id) {
            Some(k) => m.articles.update(k, a),
            None => m.articles.push(a),
        },
        texts: match id_pos(m.articles, a.id) {
            Some(k) => m.texts.update(k, full_text(a)),
            None => m.texts.push(full_text(a)),
        },
    }
}

/// An index after removing an article.
pub open spec fn unindexed(m: FeedModel, id: i64) -> FeedModel {
    match id_pos(m.articles, id) {
        Some(k) => FeedModel {
            postings: remove_postings(m.postings, id),
            articles: m.articles.remove(k),
            texts: m.texts.remove(k),
        },
        None => m,
    }
}

/// The candidate ids of a search for some terms: those holding all terms,
/// else those holding any.
pub open spec fn candidate_ids(p: Postings, terms: Seq<Seq<char>>) -> Set<i64> {
    if all_terms(p, terms) == Set::<i64>::empty() {
        any_terms(p, terms)
    } else {
        all_terms(p, terms)
    }
}

/// What a search of one feed finds for a query.
pub open spec fn search_outcome_ok(m: FeedModel, query: Seq<char>, r: SearchOutcome) -> bool {
    let q = spec_trim(query);
    let ql = spec_lowercase(q);
    let terms = spec_tokenize(ql);
    if q.len() == 0 || terms.len() == 0 {
        r is Empty
    } else if candidate_ids(m.postings, terms) == Set::<i64>::empty() {
        r matches SearchOutcome::Substring(v) && sorted_by_date(
            substring_hits(m.articles, m.texts, ql, m.articles.len() as int),
            v@,
            true,
        )
    } else {
        r matches SearchOutcome::Ranked { terms: ts, query: qq, exact: ex, candidates: c } && {
            &&& strings_view(ts@) == terms
            &&& qq@ == ql
            &&& ex@.to_set() == all_terms(m.postings, terms)
            &&& c@ == keep(m.articles, |a: Article| candidate_ids(m.postings, terms).contains(a.id))
        }
    }
}

proof fn lemma_empty_to_set(s: Seq<i64>)
    ensures
        (s.len() == 0) == (s.to_set() == Set::<i64>::empty()),
{
    if s.len() > 0 {
        assert(s.to_set().contains(s[0]));
    } else {
        assert(s.to_set() =~= Set::<i64>::empty());
    }
}

impl PerFeedIndex {
    pub closed spec fn model(&self) -> FeedModel {
        FeedModel { postings: self.posting_view(), articles: self.article_view(), texts: self.text_view() }
    }

    pub proof fn lemma_model(&self)
        ensures
            self.model().postings == self.posting_view(),
            self.model().articles == self.article_view(),
            self.model().texts == self.text_view(),
    {
    }

    pub proof fn lemma_new_model(&self)
        requires
            self.posting_view().len() == 0,
            self.article_view().len() == 0,
            self.wf(),
        ensures
            self.model() == empty_model(),
    {
        assert(self.posting_view() =~= Seq::<(Seq<char>, Seq<i64>)>::empty());
        assert(self.article_view() =~= Seq::<Article>::empty());
        assert(self.text_view() =~= Seq::<Seq<char>>::empty());
    }

    /// The candidates of a search in this feed, before ranking.
    pub fn search_candidates(&self, query: &str) -> (r: SearchOutcome)
        requires
            self.wf(),
        ensures
            search_outcome_ok(self.model(), query@, r),
    {
        let q = trim_str(query);
        let qc = chars_of(q.as_str());
        if qc.len() == 0 {
            return SearchOutcome::Empty;
        }
        let ql = to_lowercase(q.as_str());
        let terms = tokenize_chars(ql.as_str());
        if terms.len() == 0 {
            return SearchOutcome::Empty;
        }
        let ghost ts = chars_view(terms@);
        let exact = self.find_articles_with_all_terms(&terms);
        proof {
            lemma_empty_to_set(exact@);
        }
        let partial = if exact.len() == 0 {
            self.find_articles_with_any_terms(&terms)
        } else {
            copy_ids(&exact)
        };
        proof {
            lemma_empty_to_set(partial@);
        }
        assert(partial@.to_set() == candidate_ids(self.posting_view(), ts));
        let qlc = chars_of(ql.as_str());
        if partial.len() == 0 {
            let v = self.fuzzy_search(qlc.as_slice());
            return SearchOutcome::Substring(v);
        }
        let mut cands: Vec<Article> = Vec::new();
        let mut i: usize = 0;
        while i < self.articles.len()
            invariant
                i <= self.articles@.len(),
                partial@.to_set() == candidate_ids(self.posting_view(), ts),
                cands@ == keep(
                    self.articles@.take(i as int),
                    |a: Article| candidate_ids(self.posting_view(), ts).contains(a.id),
                ),
            decreases self.articles@.len() - i,
        {
            proof {
                assert(self.articles@.take(i + 1).drop_last() =~= self.articles@.take(i as int));
                assert(self.articles@.take(i + 1).last() == self.articles@[i as int]);
            }
            if holds_id(&partial, self.articles[i].id) {
                cands.push(self.articles[i].clone());
            }
            i = i + 1;
        }
        assert(self.articles@.take(self.articles@.len() as int) =~= self.articles@);
        let mut names: Vec<String> = Vec::new();
        let mut j: usize = 0;
        while j < terms.len()
            invariant
                j <= terms@.len(),
                strings_view(names@) == chars_view(terms@).take(j as int),
            decreases terms@.len() - j,
        {
            let ghost before = names@;
            names.push(string_of(terms[j].as_slice()));
            proof {
                assert(strings_view(names@) =~= strings_view(before).push(terms@[j as int]@));
                assert(chars_view(terms@).take(j + 1) =~= chars_view(terms@).take(j as int).push(terms@[j as int]@));
            }
            j = j + 1;
        }
        assert(chars_view(terms@).take(terms@.len() as int) =~= chars_view(terms@));
        SearchOutcome::Ranked { terms: names, query: ql, exact, candidates: cands }
    }
}

// ---------------------------------------------------------------------------
// The index of all feeds
// ---------------------------------------------------------------------------

/// The index of one feed with the feed's id.
pub struct FeedIndex {
    pub feed_id: i64,
    pub index: PerFeedIndex,
}

/// The search index of all feeds, one per-feed index each.
pub struct ArticleIndex {
    feeds: Vec<FeedIndex>,
}

/// The position of a feed's index.
pub open spec fn feed_pos_from(v: Seq<(i64, FeedModel)>, fid: i64, k: int) -> Option<int>
    decreases v.len() - k,
{
    if k < 0 || k >= v.len() {
        None
    } else if v[k].0 == fid {
        Some(k)
    } else {
        feed_pos_from(v, fid, k + 1)
    }
}

pub open spec fn feed_pos(v: Seq<(i64, FeedModel)>, fid: i64) -> Option<int> {
    feed_pos_from(v, fid, 0)
}

/// The index after adding an article to its feed's index (created when the
/// feed has none).
pub open spec fn with_article(v: Seq<(i64, FeedModel)>, a: Article) -> Seq<(i64, FeedModel)> {
    match feed_pos(v, a.feed_id) {
        Some(k) => v.update(k, (a.feed_id, indexed(v[k].1, a))),
        None => v.push((a.feed_id, indexed(empty_model(), a))),
    }
}

pub open spec fn with_articles(v: Seq<(i64, FeedModel)>, a: Seq<Article>) -> Seq<(i64, FeedModel)>
    decreases a.len(),
{
    if a.len() == 0 {
        v
    } else {
        with_article(with_articles(v, a.drop_last()), a.last())
    }
}

/// The number of articles in all feeds.
pub open spec fn total_articles(v: Seq<(i64, FeedModel)>) -> nat
    decreases v.len(),
{
    if v.len() == 0 {
        0
    } else {
        total_articles(v.drop_last()) + v.last().1.articles.len()
    }
}

impl ArticleIndex {
    pub closed spec fn view_feeds(&self) -> Seq<(i64, FeedModel)> {
        self.feeds@.map_values(|f: FeedIndex| (f.feed_id, f.index.model()))
    }

    pub closed spec fn wf(&self) -> bool {
        forall|k: int| 0 <= k < self.feeds@.len() ==> #[trigger] self.feeds@[k].index.wf()
    }

    /// An empty index.
    pub fn new() -> (r: Self)
        ensures
            r.wf(),
            r.view_feeds().len() == 0,
    {
        ArticleIndex { feeds: Vec::new() }
    }

    /// An empty index.
    pub fn default() -> (r: Self)
        ensures
            r.wf(),
            r.view_feeds().len() == 0,
    {
        Self::new()
    }

    fn feed_pos_exec(&self, fid: i64) -> (r: Option<usize>)
        ensures
            match r {
                Some(k) => feed_pos(self.view_feeds(), fid) == Some(k as int) && k < self.feeds@.len(),
                None => feed_pos(self.view_feeds(), fid) is None,
            },
    {
        let mut k: usize = 0;
        while k < self.feeds.len()
            invariant
                k <= self.feeds@.len(),
                feed_pos(self.view_feeds(), fid) == feed_pos_from(self.view_feeds(), fid, k as int),
            decreases self.feeds@.len() - k,
        {
            if self.feeds[k].feed_id == fid {
                return Some(k);
            }
            k = k + 1;
        }
        None
    }

    /// Adds (or replaces) an article in its feed's index.
    pub fn add_article(&mut self, article: Article)
        requires
            old(self).wf(),
        ensures
            final(self).wf(),
            final(self).view_feeds() == with_article(old(self).view_feeds(), article),
    {
        let ghost v = self.view_feeds();
        let fid = article.feed_id;
        let ghost a = article;
        match self.feed_pos_exec(fid) {
            Some(k) => {
                assert(self.feeds@[k as int].index.wf());
                let mut entry = self.feeds.remove(k);
                assert(entry.index.wf());
                proof {
                    lemma_feed_pos_found(v, fid, 0);
                    assert(v[k as int] == (entry.feed_id, entry.index.model()));
                }
                entry.index.add_article(article);
                proof {
                    entry.index.lemma_model();
                }
                self.feeds.insert(k, entry);
                proof {
                    assert(self.feeds@ =~= old(self).feeds@.update(k as int, entry));
                    assert forall|j: int| 0 <= j < self.feeds@.len() implies #[trigger] self.feeds@[j].index.wf() by {
                        if j != k {
                            assert(self.feeds@[j] == old(self).feeds@[j]);
                            assert(old(self).feeds@[j].index.wf());
                        }
                    }
                    assert(self.view_feeds() =~= v.update(k as int, (fid, indexed(v[k as int].1, a))));
                }
            },
            None => {
                let mut ix = PerFeedIndex::new();
                proof {
                    ix.lemma_new_model();
                }
                ix.add_article(article);
                let entry = FeedIndex { feed_id: fid, index: ix };
                self.feeds.push(entry);
                proof {
                    assert forall|j: int| 0 <= j < self.feeds@.len() implies #[trigger] self.feeds@[j].index.wf() by {
                        if j < old(self).feeds@.len() {
                            assert(self.feeds@[j] == old(self).feeds@[j]);
                            assert(old(self).feeds@[j].index.wf());
                        }
                    }
                    assert(self.view_feeds() =~= v.push((fid, indexed(empty_model(), a))));
                }
            },
        }
    }

    /// Adds articles one after the other.
    pub fn add_articles(&mut self, articles: Vec<Article>)
        requires
            old(self).wf(),
        ensures
            final(self).wf(),
            final(self).view_feeds() == with_articles(old(self).view_feeds(), articles@),
    {
        let ghost v = self.view_feeds();
        let ghost all = articles@;
        let mut rest = articles;
        let mut done: Vec<Article> = Vec::new();
        let mut i: usize = 0;
        let n = rest.len();
        while i < n
            invariant
                self.wf(),
                n == all.len(),
                i <= n,
                self.view_feeds() == with_articles(v, all.take(i as int)),
                rest@ == all,
            decreases n - i,
        {
            proof {
                assert(all.take(i + 1).drop_last() =~= all.take(i as int));
            }
            let a = rest[i].clone();
            self.add_article(a);
            i = i + 1;
        }
        assert(all.take(n as int) =~= all);
    }

    /// Removes an article from a feed's index; nothing changes when the feed
    /// has no index.
    pub fn remove_article(&mut self, article_id: i64, feed_id: i64)
        requires
            old(self).wf(),
        ensures
            final(self).wf(),
            final(self).view_feeds() == match feed_pos(old(self).view_feeds(), feed_id) {
                Some(k) => old(self).view_feeds().update(k, (feed_id, unindexed(old(self).view_feeds()[k].1, article_id))),
                None => old(self).view_feeds(),
            },
    {
        let ghost v = self.view_feeds();
        match self.feed_pos_exec(feed_id) {
            Some(k) => {
                assert(self.feeds@[k as int].index.wf());
                let mut entry = self.feeds.remove(k);
                assert(entry.index.wf());
                proof {
                    lemma_feed_pos_found(v, feed_id, 0);
                    assert(v[k as int] == (entry.feed_id, entry.index.model()));
                }
                entry.index.remove_article(article_id);
                proof {
                    entry.index.lemma_model();
                }
                self.feeds.insert(k, entry);
                proof {
                    assert(self.feeds@ =~= old(self).feeds@.update(k as int, entry));
                    assert forall|j: int| 0 <= j < self.feeds@.len() implies #[trigger] self.feeds@[j].index.wf() by {
                        if j != k {
                            assert(self.feeds@[j] == old(self).feeds@[j]);
                            assert(old(self).feeds@[j].index.wf());
                        }
                    }
                    assert(self.view_feeds() =~= v.update(k as int, (feed_id, unindexed(v[k as int].1, article_id))));
                }
            },
            None => {},
        }
    }

    /// Drops a feed's whole index.
    pub fn remove_articles_by_feed(&mut self, feed_id: i64)
        requires
            old(self).wf(),
        ensures
            final(self).wf(),
            final(self).view_feeds() == match feed_pos(old(self).view_feeds(), feed_id) {
                Some(k) => old(self).view_feeds().remove(k),
                None => old(self).view_feeds(),
            },
    {
        let ghost v = self.view_feeds();
        match self.feed_pos_exec(feed_id) {
            Some(k) => {
                self.feeds.remove(k);
                proof {
                    assert forall|j: int| 0 <= j < self.feeds@.len() implies #[trigger] self.feeds@[j].index.wf() by {
                        if j < k {
                            assert(self.feeds@[j] == old(self).feeds@[j]);
                            assert(old(self).feeds@[j].index.wf());
                        } else {
                            assert(self.feeds@[j] == old(self).feeds@[j + 1]);
                            assert(old(self).feeds@[j + 1].index.wf());
                        }
                    }
                    assert(self.view_feeds() =~= v.remove(k as int));
                }
            },
            None => {},
        }
    }

    /// Empties the index.
    pub fn clear(&mut self)
        ensures
            final(self).wf(),
            final(self).view_feeds().len() == 0,
    {
        self.feeds = Vec::new();
    }

    /// The number of indexed articles over all feeds.
    pub fn len(&self) -> (n: usize)
        requires
            total_articles(self.view_feeds()) <= usize::MAX,
        ensures
            n == total_articles(self.view_feeds()),
    {
        let ghost v = self.view_feeds();
        let mut total: usize = 0;
        let mut k: usize = 0;
        while k < self.feeds.len()
            invariant
                v == self.view_feeds(),
                k <= v.len(),
                total == total_articles(v.take(k as int)),
                total_articles(v) <= usize::MAX,
            decreases v.len() - k,
        {
            proof {
                assert(v.take(k + 1).drop_last() =~= v.take(k as int));
                lemma_total_prefix(v, k + 1);
                self.feeds@[k as int].index.lemma_model();
            }
            total = total + self.feeds[k].index.article_count();
            k = k + 1;
        }
        assert(v.take(v.len() as int) =~= v);
        total
    }

    /// Whether no feed's index holds an article.
    pub fn is_empty(&self) -> (r: bool)
        ensures
            r == (self.view_feeds().len() == 0 || forall|k: int|
                0 <= k < self.view_feeds().len() ==> #[trigger] self.view_feeds()[k].1.articles.len() == 0),
    {
        let ghost v = self.view_feeds();
        if self.feeds.len() == 0 {
            return true;
        }
        let mut k: usize = 0;
        while k < self.feeds.len()
            invariant
                v == self.view_feeds(),
                k <= v.len(),
                forall|j: int| 0 <= j < k ==> #[trigger] v[j].1.articles.len() == 0,
            decreases v.len() - k,
        {
            proof {
                self.feeds@[k as int].index.lemma_model();
            }
            if self.feeds[k].index.article_count() != 0 {
                assert(v[k as int].1.articles.len() != 0);
                return false;
            }
            k = k + 1;
        }
        true
    }

    /// The index of each feed, in index order.
    pub fn feed_indexes(&self) -> (r: &Vec<FeedIndex>)
        requires
            self.wf(),
        ensures
            r@.len() == self.view_feeds().len(),
            forall|k: int| 0 <= k < r@.len() ==> {
                &&& (#[trigger] r@[k]).feed_id == self.view_feeds()[k].0
                &&& r@[k].index.model() == self.view_feeds()[k].1
                &&& r@[k].index.wf()
            },
    {
        &self.feeds
    }

    /// The search candidates of each feed searched: all feeds in index order
    /// for feed `-1`, otherwise that feed's (none when it has no index or the
    /// query is blank).
    pub fn search_candidates(&self, query: &str, feed_id: i64) -> (r: Vec<SearchOutcome>)
        requires
            self.wf(),
        ensures

            spec_trim(query@).len() == 0 ==> r@.len() == 0,
            spec_trim(query@).len() > 0 && feed_id == -1 ==> {
                &&& r@.len() == self.view_feeds().len()
                &&& forall|k: int| 0 <= k < r@.len() ==> search_outcome_ok(self.view_feeds()[k].1, query@, #[trigger] r@[k])
            },
            spec_trim(query@).len() > 0 && feed_id != -1 ==> match feed_pos(self.view_feeds(), feed_id) {
                Some(k) => r@.len() == 1 && search_outcome_ok(self.view_feeds()[k].1, query@, r@[0]),
                None => r@.len() == 0,
            },
    {
        let mut out: Vec<SearchOutcome> = Vec::new();
        let q = trim_str(query);
        let qc = chars_of(q.as_str());
        if qc.len() == 0 {
            return out;
        }
        if feed_id == -1 {
            let mut k: usize = 0;
            while k < self.feeds.len()
                invariant
                    self.wf(),
                    k <= self.feeds@.len(),
                    out@.len() == k,
                    forall|j: int| 0 <= j < k ==> search_outcome_ok(self.view_feeds()[j].1, query@, #[trigger] out@[j]),
                decreases self.feeds@.len() - k,
            {
                let o = self.feeds[k].index.search_candidates(query);
                out.push(o);
                k = k + 1;
            }
        } else {
            match self.feed_pos_exec(feed_id) {
                Some(k) => {
                    let o = self.feeds[k].index.search_candidates(query);
                    out.push(o);
                },
                None => {},
            }
        }
        out
    }
}

proof fn lemma_feed_pos_found(v: Seq<(i64, FeedModel)>, fid: i64, k: int)
    requires
        0 <= k,
    ensures
        feed_pos_from(v, fid, k) matches Some(i) ==> k <= i < v.len() && v[i].0 == fid,
    decreases v.len() - k,
{
    if k < v.len() && v[k].0 != fid {
        lemma_feed_pos_found(v, fid, k + 1);
    }
}

proof fn lemma_total_prefix(v: Seq<(i64, FeedModel)>, k: int)
    requires
        0 < k <= v.len(),
    ensures
        total_articles(v.take(k)) <= total_articles(v),
        total_articles(v.take(k)) == total_articles(v.take(k - 1)) + v[k - 1].1.articles.len(),
    decreases v.len() - k,
{
    assert(v.take(k).drop_last() =~= v.take(k - 1));
    if k < v.len() {
        lemma_total_prefix(v, k + 1);
    } else {
        assert(v.take(k) =~= v);
    }
}

} // verus!
