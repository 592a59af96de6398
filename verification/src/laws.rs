//! Properties that relate several operations of the library.
use vstd::prelude::*;
use crate::ai_client::{
    fit_count, kept_tokens, spec_trim_history, starts_with_system, suffix_tokens, trim_by_count,
    trim_by_tokens, AIMessage, MAX_TOKENS, lemma_fit_count_bound,
};
use crate::cache_manager::{entry_at, is_expired, CacheEntry};
use crate::markup::{escape_char, spec_escape, xml_escape_char, Escaping};
use crate::notify::spec_truncate;
use crate::config::{current_key_ok, index_with_id, AppConfig};
use crate::crypto::{spec_is_sealed, spec_unseal, CryptoError, CryptoManager, Unsealed};
use crate::text::split_on;
use crate::search::{
    add_posting, add_postings, all_terms, any_terms, article_terms, candidate_ids, cleared_postings, dedup, id_pos, indexed, posting_set, remove_postings, spec_tokenize,
    term_pos, term_pos_from, unindexed, without_id, FeedModel, Postings,
};
use crate::search_cache::{
    cache_stored, keep_fresh, last_key_pos, lookup_cached, SearchCacheView, SEARCH_CACHE_LIMIT,
};
use crate::updates::{cache_added, url_pos, url_pos_from, CacheView, MAX_CACHED_FEEDS};
use crate::models::{keep, Article};
use crate::opml_import::{fresh_entries, OpmlEntryView};
use crate::ui_state::{first_id, next_search_results, ViewModel};
use crate::syndication::{item_article_ok, RssItemView};
use crate::markup::{spec_sanitize_feed_content, spec_sanitize_html, spec_strip_tags, spec_collapse_whitespace, collapse_state, collapse_step};
use crate::models::{passes_filters, sorted_by_date, sorted_by_title, date_keys, Feed};
use crate::order::is_permutation;
use crate::content::spec_lowercase;
use crate::search::{search_outcome_ok, SearchOutcome};
use crate::text::{spec_contains, spec_trim, trim_left, trim_right, is_ws, spec_find, find_from, matches_at};

verus! {

/// Toggling the selection of an article twice leaves the selection as it
/// was.
pub proof fn law_toggle_twice(selected: Set<i64>, id: i64)
    ensures
        ({
            let once = if selected.contains(id) { selected.remove(id) } else { selected.insert(id) };
            let twice = if once.contains(id) { once.remove(id) } else { once.insert(id) };
            twice == selected
        }),
{
    let once = if selected.contains(id) { selected.remove(id) } else { selected.insert(id) };
    let twice = if once.contains(id) { once.remove(id) } else { once.insert(id) };
    assert(twice =~= selected);
}

/// Content written to the cache at `now` is read back until its lifetime
/// has passed (and forever with a zero lifetime).
pub proof fn law_cache_read_after_write(
    m: Map<Seq<char>, CacheEntry>,
    key: Seq<char>,
    content: String,
    now: u64,
    ttl: u64,
    later: u64,
)
    requires
        ttl == 0 || later <= now + ttl,
    ensures
        m.insert(key, entry_at(content, now, ttl)).contains_key(key),
        !is_expired(m.insert(key, entry_at(content, now, ttl))[key], later),
        m.insert(key, entry_at(content, now, ttl))[key].content == content,
{
}

/// A trimmed history never holds more messages than the limit.
pub proof fn law_trim_history_bounded(msgs: Seq<AIMessage>, max: nat)
    requires
        max > 0 || !starts_with_system(msgs),
    ensures
        spec_trim_history(msgs, max).len() <= max,
        spec_trim_history(msgs, max).len() <= msgs.len(),
{
    let c = trim_by_count(msgs, max);
    assert(c.len() <= max && c.len() <= msgs.len());
    lemma_trim_by_tokens_shape(c);
}

/// Trimming keeps the system message at the front.
pub proof fn law_trim_history_keeps_system(msgs: Seq<AIMessage>, max: nat)
    requires
        starts_with_system(msgs),
        max > 0,
    ensures
        spec_trim_history(msgs, max).len() >= 1,
        spec_trim_history(msgs, max)[0] == msgs[0],
{
    let c = trim_by_count(msgs, max);
    assert(c[0] == msgs[0]);
    lemma_trim_by_tokens_shape(c);
}

/// Trimming keeps the newest messages: apart from the system message, what
/// remains is the end of the history (for histories whose only system
/// message, if any, comes first).
pub proof fn law_trim_history_keeps_newest(msgs: Seq<AIMessage>, max: nat)
    requires
        max > 0 || !starts_with_system(msgs),
        forall|i: int| 1 <= i < msgs.len() ==> (#[trigger] msgs[i]).role@ != crate::ai_client::system_role(),
    ensures
        ({
            let t = spec_trim_history(msgs, max);
            let s: int = if starts_with_system(msgs) { 1 } else { 0 };
            &&& t.len() >= s
            &&& t.subrange(s, t.len() as int) == msgs.subrange(msgs.len() - (t.len() - s), msgs.len() as int)
        }),
{
    let c = trim_by_count(msgs, max);
    lemma_trim_by_tokens_shape(c);
    let t = trim_by_tokens(c);
    let s: int = if starts_with_system(msgs) { 1 } else { 0 };
    if starts_with_system(msgs) {
        assert(starts_with_system(c));
    } else {
        if c.len() > 0 {
            assert(c[0] == msgs[msgs.len() - c.len()]) by {
                if msgs.len() > max {
                } else {
                }
            }
        }
        assert(!starts_with_system(c));
    }
    assert(t.subrange(s, t.len() as int) =~= msgs.subrange(msgs.len() - (t.len() - s), msgs.len() as int));
}

/// The shape of a history trimmed by tokens: the system message (if any)
/// and the newest messages that fit.
proof fn lemma_trim_by_tokens_shape(c: Seq<AIMessage>)
    ensures
        starts_with_system(c) ==> {
            let k = fit_count(c.drop_first(), kept_tokens(c[0]) as int);
            &&& k <= c.len() - 1
            &&& trim_by_tokens(c) == seq![c[0]] + c.subrange(c.len() - k, c.len() as int)
        },
        !starts_with_system(c) ==> {
            let k = fit_count(c, 0);
            &&& k <= c.len()
            &&& trim_by_tokens(c) == c.subrange(c.len() - k, c.len() as int)
        },
        trim_by_tokens(c).len() <= c.len(),
{
    if starts_with_system(c) {
        let rest = c.drop_first();
        lemma_fit_count_bound(rest, kept_tokens(c[0]) as int);
        let k = fit_count(rest, kept_tokens(c[0]) as int);
        assert(rest.subrange(rest.len() - k, rest.len() as int) =~= c.subrange(c.len() - k, c.len() as int));
    } else {
        lemma_fit_count_bound(c, 0);
    }
}

/// All messages fit when their total fits.
proof fn lemma_fit_all(rest: Seq<AIMessage>, used: int)
    requires
        used + suffix_tokens(rest, rest.len()) <= MAX_TOKENS,
    ensures
        fit_count(rest, used) == rest.len(),
    decreases rest.len(),
{
    if rest.len() > 0 {
        assert(suffix_tokens(rest, rest.len()) == kept_tokens(rest.last()) + suffix_tokens(rest.drop_last(), (rest.len() - 1) as nat));
        assert(rest.drop_last().len() == rest.len() - 1);
        lemma_fit_all(rest.drop_last(), used + kept_tokens(rest.last()));
    }
}

/// The tokens of the newest `k` messages are those of the last `k`.
proof fn lemma_suffix_tokens_tail(rest: Seq<AIMessage>, k: nat)
    requires
        k <= rest.len(),
    ensures
        suffix_tokens(rest, k) == suffix_tokens(rest.subrange(rest.len() - k, rest.len() as int), k),
    decreases k,
{
    if k > 0 {
        let tail = rest.subrange(rest.len() - k, rest.len() as int);
        assert(tail.last() == rest.last());
        assert(tail.drop_last() =~= rest.drop_last().subrange(rest.drop_last().len() - (k - 1), rest.drop_last().len() as int));
        lemma_suffix_tokens_tail(rest.drop_last(), (k - 1) as nat);
    }
}

/// The tokens of a whole history are those of its first message and of the
/// others.
proof fn lemma_suffix_tokens_first(t: Seq<AIMessage>)
    requires
        t.len() >= 1,
    ensures
        suffix_tokens(t, t.len()) == kept_tokens(t[0]) + suffix_tokens(t.drop_first(), (t.len() - 1) as nat),
    decreases t.len(),
{
    if t.len() > 1 {
        lemma_suffix_tokens_first(t.drop_last());
        assert(t.drop_last().drop_first() =~= t.drop_first().drop_last());
        assert(t.drop_first().last() == t.last());
        assert(t.drop_last()[0] == t[0]);
    } else {
        assert(suffix_tokens(t.drop_first(), 0) == 0);
        assert(suffix_tokens(t.drop_last(), 0) == 0);
    }
}

/// Trimming a trimmed history changes nothing.
pub proof fn law_trim_history_idempotent(msgs: Seq<AIMessage>, max: nat)
    requires
        max > 0 || !starts_with_system(msgs),
    ensures
        spec_trim_history(spec_trim_history(msgs, max), max) == spec_trim_history(msgs, max),
{
    let c = trim_by_count(msgs, max);
    let t = trim_by_tokens(c);
    law_trim_history_bounded(msgs, max);
    lemma_trim_by_tokens_shape(c);
    assert(trim_by_count(t, max) == t);
    if starts_with_system(c) {
        let rest = c.drop_first();
        let used = kept_tokens(c[0]) as int;
        let k = fit_count(rest, used);
        lemma_fit_count_bound(rest, used);
        let tail = rest.subrange(rest.len() - k, rest.len() as int);
        assert(tail =~= c.subrange(c.len() - k, c.len() as int));
        assert(t.drop_first() =~= tail);
        assert(t[0] == c[0]);
        if k > 0 {
            lemma_suffix_tokens_tail(rest, k);
            assert(tail.len() == k);
            lemma_fit_all(tail, used);
        }
        assert(tail.subrange(tail.len() - k, tail.len() as int) =~= tail);
        assert(seq![t[0]] + t.drop_first() =~= t);
        assert(trim_by_tokens(t) =~= t);
    } else {
        let k = fit_count(c, 0);
        lemma_fit_count_bound(c, 0);
        assert(t =~= c.subrange(c.len() - k, c.len() as int));
        if k > 0 {
            lemma_suffix_tokens_tail(c, k);
            assert(t.len() == k);
            assert(suffix_tokens(t, t.len()) <= MAX_TOKENS);
            if starts_with_system(t) {
                lemma_suffix_tokens_first(t);
                lemma_fit_all(t.drop_first(), kept_tokens(t[0]) as int);
                assert(t.drop_first().subrange(0, t.drop_first().len() as int) =~= t.drop_first());
                assert(seq![t[0]] + t.drop_first() =~= t);
            } else {
                lemma_fit_all(t, 0);
                assert(t.subrange(0, t.len() as int) =~= t);
            }
        } else {
            assert(t.len() == 0);
        }
        assert(trim_by_tokens(t) =~= t);
    }
}

// ---------------------------------------------------------------------------
// Search
// ---------------------------------------------------------------------------

proof fn lemma_dedup_distinct(s: Seq<Seq<char>>)
    ensures
        dedup(s).no_duplicates(),
    decreases s.len(),
{
    if s.len() > 0 {
        lemma_dedup_distinct(s.drop_last());
    }
}

/// The terms of a text are distinct.
pub proof fn law_tokens_distinct(text: Seq<char>)
    ensures
        spec_tokenize(text).no_duplicates(),
{
    lemma_dedup_distinct(crate::search::raw_terms(crate::content::spec_lowercase(text)));
}

proof fn lemma_term_pos_found(p: Postings, t: Seq<char>, k: int)
    requires
        0 <= k,
    ensures
        term_pos_from(p, t, k) matches Some(i) ==> k <= i < p.len() && p[i].0 == t,
        term_pos_from(p, t, k) is None ==> forall|j: int| k <= j < p.len() ==> p[j].0 != t,
    decreases p.len() - k,
{
    if k < p.len() && p[k].0 != t {
        lemma_term_pos_found(p, t, k + 1);
    }
}

proof fn lemma_term_pos_same_terms(p: Postings, q: Postings, t: Seq<char>, k: int)
    requires
        0 <= k,
        q.len() >= p.len(),
        forall|j: int| 0 <= j < p.len() ==> (#[trigger] q[j]).0 == p[j].0,
        forall|j: int| p.len() <= j < q.len() ==> (#[trigger] q[j]).0 != t,
    ensures
        term_pos_from(q, t, k) == term_pos_from(p, t, k),
    decreases q.len() - k,
{
    if k < q.len() {
        if k < p.len() {
            if p[k].0 != t {
                lemma_term_pos_same_terms(p, q, t, k + 1);
            }
        } else {
            lemma_term_pos_same_terms(p, q, t, k + 1);
        }
    }
}

/// Recording that an article holds a term adds its id to that term's
/// articles and changes no other term's.
pub proof fn law_add_posting(p: Postings, t: Seq<char>, id: i64, u: Seq<char>)
    ensures
        posting_set(add_posting(p, t, id), u) == if u == t {
            posting_set(p, u).insert(id)
        } else {
            posting_set(p, u)
        },
{
    lemma_term_pos_found(p, t, 0);
    lemma_term_pos_found(p, u, 0);
    let q = add_posting(p, t, id);
    match term_pos(p, t) {
        Some(k) => {
            if p[k].1.contains(id) {
                if u == t {
                    assert(posting_set(p, u).insert(id) =~= posting_set(p, u));
                }
            } else {
                lemma_term_pos_same_terms(p, q, u, 0);
                if u == t {
                    assert(p[k].1.push(id).to_set() =~= p[k].1.to_set().insert(id)) by {
                        assert forall|x: i64| p[k].1.push(id).contains(x) <==> (p[k].1.contains(x) || x == id) by {
                            if p[k].1.push(id).contains(x) {
                                let j = choose|j: int| 0 <= j < p[k].1.push(id).len() && p[k].1.push(id)[j] == x;
                                if j < p[k].1.len() {
                                    assert(p[k].1[j] == x);
                                }
                            }
                            if p[k].1.contains(x) {
                                let j = choose|j: int| 0 <= j < p[k].1.len() && p[k].1[j] == x;
                                assert(p[k].1.push(id)[j] == x);
                            }
                            if x == id {
                                assert(p[k].1.push(id)[p[k].1.len() as int] == id);
                            }
                        }
                    }
                }
            }
        },
        None => {
            if u == t {
                assert(term_pos_from(q, u, 0) == Some(p.len() as int)) by {
                    lemma_term_pos_prefix_none(p, q, u, 0);
                }
                assert(seq![id].to_set() =~= Set::<i64>::empty().insert(id)) by {
                    assert(seq![id][0] == id);
                }
            } else {
                lemma_term_pos_same_terms(p, q, u, 0);
            }
        },
    }
}

proof fn lemma_term_pos_prefix_none(p: Postings, q: Postings, t: Seq<char>, k: int)
    requires
        0 <= k <= p.len(),
        q.len() == p.len() + 1,
        forall|j: int| 0 <= j < p.len() ==> (#[trigger] q[j]).0 == p[j].0 && p[j].0 != t,
        q[p.len() as int].0 == t,
    ensures
        term_pos_from(q, t, k) == Some(p.len() as int),
    decreases p.len() - k,
{
    if k < p.len() {
        lemma_term_pos_prefix_none(p, q, t, k + 1);
    }
}

/// After an article is indexed, every one of its terms leads to it and every
/// term leads to the other articles it led to before; when the article
/// replaced one with its id, a term that the new version lacks no longer
/// leads to it.
pub proof fn law_indexed_article_found(m: FeedModel, a: Article, t: Seq<char>)
    ensures
        posting_set(m.postings, t).remove(a.id).subset_of(posting_set(indexed(m, a).postings, t)),
        id_pos(m.articles, a.id) is None ==> posting_set(m.postings, t).subset_of(posting_set(indexed(m, a).postings, t)),
        article_terms(a).contains(t) ==> posting_set(indexed(m, a).postings, t).contains(a.id),
        id_pos(m.articles, a.id) is Some && !article_terms(a).contains(t) ==> !posting_set(indexed(m, a).postings, t).contains(a.id),
{
    let base = cleared_postings(m.postings, m.articles, a.id);
    lemma_add_postings(base, article_terms(a), a.id, t);
    if id_pos(m.articles, a.id) is Some {
        assert forall|x: i64| #[trigger] posting_set(m.postings, t).remove(a.id).contains(x) implies posting_set(base, t).contains(x) by {
            lemma_remove_keeps_others(m.postings, a.id, t, x);
        }
        if !article_terms(a).contains(t) {
            lemma_add_postings_other(base, article_terms(a), a.id, t);
            lemma_removed_entries(m.postings, a.id);
            lemma_term_pos_found(base, t, 0);
        }
    }
}

proof fn lemma_add_postings_other(p: Postings, terms: Seq<Seq<char>>, id: i64, t: Seq<char>)
    requires
        !terms.contains(t),
    ensures
        posting_set(add_postings(p, terms, id), t) == posting_set(p, t),
    decreases terms.len(),
{
    if terms.len() > 0 {
        assert(!terms.drop_last().contains(t)) by {
            if terms.drop_last().contains(t) {
                let j = choose|j: int| 0 <= j < terms.drop_last().len() && terms.drop_last()[j] == t;
                assert(terms[j] == t);
            }
        }
        assert(terms.last() != t) by {
            assert(terms[terms.len() - 1] == terms.last());
        }
        lemma_add_postings_other(p, terms.drop_last(), id, t);
        law_add_posting(add_postings(p, terms.drop_last(), id), terms.last(), id, t);
    }
}

proof fn lemma_term_pos_push_some(q: Postings, e: (Seq<char>, Seq<i64>), t: Seq<char>, k: int)
    requires
        0 <= k,
        term_pos_from(q, t, k) is Some,
    ensures
        term_pos_from(q.push(e), t, k) == term_pos_from(q, t, k),
    decreases q.len() - k,
{
    if k < q.len() {
        assert(q.push(e)[k] == q[k]);
        if q[k].0 != t {
            lemma_term_pos_push_some(q, e, t, k + 1);
        }
    }
}

proof fn lemma_removed_terms_absent(p: Postings, id: i64, t: Seq<char>)
    requires
        forall|j: int| 0 <= j < p.len() ==> (#[trigger] p[j]).0 != t,
    ensures
        forall|k: int| 0 <= k < remove_postings(p, id).len() ==> (#[trigger] remove_postings(p, id)[k]).0 != t,
    decreases p.len(),
{
    if p.len() > 0 {
        let q = p.drop_last();
        assert forall|j: int| 0 <= j < q.len() implies (#[trigger] q[j]).0 != t by {
            assert(q[j] == p[j]);
        }
        lemma_removed_terms_absent(q, id, t);
        let r = remove_postings(q, id);
        let ids = without_id(p.last().1, id);
        assert(p[p.len() - 1] == p.last());
        if ids.len() > 0 {
            assert forall|k: int| 0 <= k < r.push((p.last().0, ids)).len() implies (#[trigger] r.push((p.last().0, ids))[k]).0 != t by {
                if k < r.len() {
                    assert(r.push((p.last().0, ids))[k] == r[k]);
                }
            }
        }
    }
}

proof fn lemma_without_id_keeps(ids: Seq<i64>, id: i64, x: i64)
    requires
        x != id,
        ids.contains(x),
    ensures
        without_id(ids, id).contains(x),
    decreases ids.len(),
{
    if ids.len() > 0 {
        let r = without_id(ids.drop_last(), id);
        if ids.last() == x {
            assert(r.push(ids.last())[r.len() as int] == x);
        } else {
            let j = choose|j: int| 0 <= j < ids.len() && ids[j] == x;
            assert(ids.drop_last()[j] == x);
            lemma_without_id_keeps(ids.drop_last(), id, x);
            if ids.last() != id {
                let i = choose|i: int| 0 <= i < r.len() && r[i] == x;
                assert(r.push(ids.last())[i] == x);
            }
        }
    }
}

/// Removing an article's id from the posting lists keeps every other id of
/// a term.
proof fn lemma_remove_keeps_others(p: Postings, id: i64, t: Seq<char>, x: i64)
    requires
        x != id,
        posting_set(p, t).contains(x),
    ensures
        posting_set(remove_postings(p, id), t).contains(x),
    decreases p.len(),
{
    lemma_term_pos_found(p, t, 0);
    let q = p.drop_last();
    let r = remove_postings(q, id);
    let ids = without_id(p.last().1, id);
    let k = term_pos(p, t)->0;
    if k < q.len() {
        assert forall|j: int| 0 <= j < q.len() implies (#[trigger] p[j]) == q[j] by {
            assert(q[j] == p[j]);
        }
        lemma_term_pos_prefix_agree(q, p, t, 0);
        assert(q[k] == p[k]);
        lemma_remove_keeps_others(q, id, t, x);
        lemma_term_pos_found(r, t, 0);
        if ids.len() > 0 {
            lemma_term_pos_push_some(r, (p.last().0, ids), t, 0);
        }
    } else {
        assert(p[k] == p.last());
        lemma_term_pos_first(p, t, 0);
        assert forall|j: int| 0 <= j < q.len() implies (#[trigger] q[j]).0 != t by {
            assert(q[j] == p[j]);
        }
        lemma_removed_terms_absent(q, id, t);
        assert(p.last().1.to_set().contains(x));
        lemma_without_id_keeps(p.last().1, id, x);
        let rr = r.push((p.last().0, ids));
        assert forall|j: int| 0 <= j < r.len() implies (#[trigger] rr[j]).0 == r[j].0 && r[j].0 != t by {
            assert(rr[j] == r[j]);
        }
        lemma_term_pos_prefix_none(r, rr, t, 0);
        assert(ids.to_set().contains(x));
    }
}

proof fn lemma_term_pos_first(p: Postings, t: Seq<char>, k: int)
    requires
        0 <= k,
    ensures
        term_pos_from(p, t, k) matches Some(i) ==> forall|j: int| k <= j < i ==> (#[trigger] p[j]).0 != t,
    decreases p.len() - k,
{
    if k < p.len() && p[k].0 != t {
        lemma_term_pos_first(p, t, k + 1);
    }
}

/// A prefix of the posting lists that holds the term finds it where the whole
/// lists do.
proof fn lemma_term_pos_prefix_agree(q: Postings, p: Postings, t: Seq<char>, k: int)
    requires
        0 <= k,
        q.len() <= p.len(),
        forall|j: int| 0 <= j < q.len() ==> (#[trigger] p[j]) == q[j],
        term_pos_from(p, t, k) matches Some(i) && i < q.len(),
    ensures
        term_pos_from(q, t, k) == term_pos_from(p, t, k),
    decreases q.len() - k,
{
    lemma_term_pos_found(p, t, k);
    if k < q.len() {
        assert(p[k] == q[k]);
        if q[k].0 != t {
            lemma_term_pos_prefix_agree(q, p, t, k + 1);
        }
    }
}

proof fn lemma_add_postings(p: Postings, terms: Seq<Seq<char>>, id: i64, t: Seq<char>)
    ensures
        posting_set(p, t).subset_of(posting_set(add_postings(p, terms, id), t)),
        terms.contains(t) ==> posting_set(add_postings(p, terms, id), t).contains(id),
    decreases terms.len(),
{
    if terms.len() > 0 {
        lemma_add_postings(p, terms.drop_last(), id, t);
        law_add_posting(add_postings(p, terms.drop_last(), id), terms.last(), id, t);
        if terms.contains(t) && !terms.drop_last().contains(t) {
            let j = choose|j: int| 0 <= j < terms.len() && terms[j] == t;
            if j < terms.len() - 1 {
                assert(terms.drop_last()[j] == t);
            }
        }
    }
}

proof fn lemma_removed_entries(p: Postings, id: i64)
    ensures
        forall|k: int| 0 <= k < remove_postings(p, id).len() ==> !(#[trigger] remove_postings(p, id)[k]).1.contains(id),
    decreases p.len(),
{
    if p.len() > 0 {
        lemma_removed_entries(p.drop_last(), id);
        let r = remove_postings(p.drop_last(), id);
        let ids = without_id(p.last().1, id);
        lemma_without_id(p.last().1, id);
        if ids.len() > 0 {
            assert forall|k: int| 0 <= k < r.push((p.last().0, ids)).len() implies !(#[trigger] r.push((p.last().0, ids))[k]).1.contains(id) by {
                if k < r.len() {
                    assert(r.push((p.last().0, ids))[k] == r[k]);
                }
            }
        }
    }
}

proof fn lemma_without_id(ids: Seq<i64>, id: i64)
    ensures
        !without_id(ids, id).contains(id),
    decreases ids.len(),
{
    if ids.len() > 0 {
        lemma_without_id(ids.drop_last(), id);
        let r = without_id(ids.drop_last(), id);
        if ids.last() != id {
            assert forall|j: int| 0 <= j < r.push(ids.last()).len() implies r.push(ids.last())[j] != id by {
                if j < r.len() {
                    assert(r.push(ids.last())[j] == r[j]);
                }
            }
        }
    }
}

/// After an article is removed from an index, no term leads to it.
pub proof fn law_removed_article_forgotten(m: FeedModel, id: i64, t: Seq<char>)
    ensures
        !posting_set(unindexed(m, id).postings, t).contains(id) || crate::search::id_pos(m.articles, id) is None,
{
    if crate::search::id_pos(m.articles, id) is Some {
        let q = remove_postings(m.postings, id);
        lemma_removed_entries(m.postings, id);
        lemma_term_pos_found(q, t, 0);
    }
}

// ---------------------------------------------------------------------------
// Feed cache
// ---------------------------------------------------------------------------

proof fn lemma_url_pos_found(v: CacheView, url: Seq<char>, k: int)
    requires
        0 <= k,
    ensures
        url_pos_from(v, url, k) matches Some(i) ==> k <= i < v.len() && v[i].0 == url,
        url_pos_from(v, url, k) is None ==> forall|j: int| k <= j < v.len() ==> v[j].0 != url,
    decreases v.len() - k,
{
    if k < v.len() && v[k].0 != url {
        lemma_url_pos_found(v, url, k + 1);
    }
}

proof fn lemma_url_pos_update(v: CacheView, w: CacheView, url: Seq<char>, k: int)
    requires
        0 <= k,
        w.len() == v.len(),
        forall|j: int| 0 <= j < v.len() ==> (#[trigger] w[j]).0 == v[j].0,
    ensures
        url_pos_from(w, url, k) == url_pos_from(v, url, k),
    decreases v.len() - k,
{
    if k < v.len() && v[k].0 != url {
        lemma_url_pos_update(v, w, url, k + 1);
    }
}

proof fn lemma_url_pos_push(v: CacheView, w: CacheView, url: Seq<char>, k: int)
    requires
        0 <= k <= v.len(),
        w.len() == v.len() + 1,
        forall|j: int| 0 <= j < v.len() ==> (#[trigger] w[j]).0 == v[j].0 && v[j].0 != url,
        w[v.len() as int].0 == url,
    ensures
        url_pos_from(w, url, k) == Some(v.len() as int),
    decreases v.len() - k,
{
    if k < v.len() {
        lemma_url_pos_push(v, w, url, k + 1);
    }
}

/// A feed stored in a cache that is not full is found there with the
/// articles stored and the instant they were stored.
pub proof fn law_cache_add_then_find(v: CacheView, url: Seq<char>, now: u64, articles: Seq<Article>)
    requires
        v.len() < MAX_CACHED_FEEDS,
    ensures
        url_pos(cache_added(v, url, now, articles), url) matches Some(k) && cache_added(v, url, now, articles)[k] == (url, now, articles),
{
    lemma_url_pos_found(v, url, 0);
    let w = match url_pos(v, url) {
        Some(k) => v.update(k, (url, now, articles)),
        None => v.push((url, now, articles)),
    };
    match url_pos(v, url) {
        Some(k) => {
            lemma_url_pos_update(v, w, url, 0);
        },
        None => {
            lemma_url_pos_push(v, w, url, 0);
        },
    }
    assert(cache_added(v, url, now, articles) == w);
}

/// A cut text holds at most the limit and three more characters.
pub proof fn law_truncate_bound(text: Seq<char>, max: nat)
    ensures
        spec_truncate(text, max).len() <= max + 3,
        text.len() <= max ==> spec_truncate(text, max) == text,
{
    reveal_strlit("...");
}


/// The address of an imported subscription entry.
pub open spec fn entry_url(e: OpmlEntryView) -> Option<Seq<char>> {
    match e {
        OpmlEntryView::Feed(_, u, _, _) => Some(u),
        OpmlEntryView::Group(_) => None,
    }
}

/// An OPML import never subscribes twice to one address: no imported
/// subscription has an address already subscribed to, and no two imported
/// subscriptions share an address.
pub proof fn law_import_skips_known_addresses(es: Seq<OpmlEntryView>, seen: Seq<Seq<char>>)
    ensures
        forall|i: int| 0 <= i < fresh_entries(es, seen).len() && entry_url(#[trigger] fresh_entries(es, seen)[i]) is Some
            ==> !seen.contains(entry_url(fresh_entries(es, seen)[i])->0),
        forall|i: int, j: int|
            0 <= i < j < fresh_entries(es, seen).len() && entry_url(#[trigger] fresh_entries(es, seen)[i]) is Some
                && entry_url(#[trigger] fresh_entries(es, seen)[j]) is Some
            ==> entry_url(fresh_entries(es, seen)[i]) != entry_url(fresh_entries(es, seen)[j]),
    decreases es.len(),
{
    if es.len() > 0 {
        let rest = es.drop_first();
        let r = fresh_entries(es, seen);
        match es[0] {
            OpmlEntryView::Group(g) => {
                law_import_skips_known_addresses(rest, seen);
                let r2 = fresh_entries(rest, seen);
                assert(r == seq![es[0]] + r2);
                assert forall|i: int| 0 <= i < r.len() && entry_url(#[trigger] r[i]) is Some implies !seen.contains(entry_url(r[i])->0) by {
                    assert(r[i] == r2[i - 1]);
                }
                assert forall|i: int, j: int| 0 <= i < j < r.len() && entry_url(#[trigger] r[i]) is Some && entry_url(#[trigger] r[j]) is Some
                    implies entry_url(r[i]) != entry_url(r[j]) by {
                    assert(r[i] == r2[i - 1]);
                    assert(r[j] == r2[j - 1]);
                }
            },
            OpmlEntryView::Feed(t, u, g, l) => {
                if seen.contains(u) {
                    law_import_skips_known_addresses(rest, seen);
                } else {
                    let seen2 = seen.push(u);
                    law_import_skips_known_addresses(rest, seen2);
                    let r2 = fresh_entries(rest, seen2);
                    assert(r == seq![es[0]] + r2);
                    assert forall|i: int| 0 < i < r.len() && entry_url(#[trigger] r[i]) is Some implies {
                        &&& !seen.contains(entry_url(r[i])->0)
                        &&& entry_url(r[i])->0 != u
                    } by {
                        assert(r[i] == r2[i - 1]);
                        let v = entry_url(r[i])->0;
                        assert(!seen2.contains(v));
                        if seen.contains(v) {
                            let k = choose|k: int| 0 <= k < seen.len() && seen[k] == v;
                            assert(seen2[k] == v);
                        }
                        assert(seen2[seen.len() as int] == u);
                    }
                    assert forall|i: int, j: int| 0 <= i < j < r.len() && entry_url(#[trigger] r[i]) is Some && entry_url(#[trigger] r[j]) is Some
                        implies entry_url(r[i]) != entry_url(r[j]) by {
                        if i > 0 {
                            assert(r[i] == r2[i - 1]);
                            assert(r[j] == r2[j - 1]);
                        } else {
                            assert(r[0] == es[0]);
                            assert(entry_url(r[j])->0 != u);
                        }
                    }
                }
            },
        }
    }
}

/// After search results arrive, the open article, if any, is among them.
pub proof fn law_search_results_keep_listed_selection(s: ViewModel, results: Seq<Article>)
    ensures
        ({
            let n = next_search_results(s, results);
            &&& n.articles == results
            &&& n.selected_article_id matches Some(x) ==> first_id(results, x) is Some
        }),
{
}

/// Search results cached under a key are found under that key right after:
/// the new entry is kept, whatever was cached before.
pub proof fn law_search_cache_read_after_write(v: SearchCacheView, key: Seq<char>, results: Seq<Article>, now: u64)
    ensures
        lookup_cached(cache_stored(v, key, results, now), key, now) == Some(results),
{
    let u = match last_key_pos(v, key, v.len() as int) {
        Some(k) => v.remove(k),
        None => v,
    };
    let w = u.push((key, results, now));
    assert(w.drop_last() =~= u);
    let f = keep_fresh(w, now);
    assert(f == keep_fresh(u, now).push((key, results, now)));
    let g = cache_stored(v, key, results, now);
    if f.len() > SEARCH_CACHE_LIMIT {
        assert(g == f.remove(0));
        assert(g[g.len() - 1] == f[f.len() - 1]);
    }
    assert(g[g.len() - 1] == (key, results, now));
    assert(last_key_pos(g, key, g.len() as int) == Some(g.len() - 1));
}

/// Whether a text holds none of the characters that end an XML attribute
/// value or open a tag.
pub open spec fn markup_free(t: Seq<char>) -> bool {
    forall|i: int| 0 <= i < t.len() ==> #[trigger] t[i] != '<' && t[i] != '>' && t[i] != '"' && t[i] != '\''
}

proof fn lemma_xml_char_markup_free(c: char)
    ensures
        markup_free(xml_escape_char(c)),
{
    reveal_strlit("&amp;");
    reveal_strlit("&lt;");
    reveal_strlit("&gt;");
    reveal_strlit("&quot;");
    reveal_strlit("&apos;");
}

/// Text escaped for XML holds no `<`, `>`, `"` or `'`, whatever it was.
pub proof fn law_xml_escape_markup_free(s: Seq<char>)
    ensures
        markup_free(spec_escape(Escaping::Xml, s)),
    decreases s.len(),
{
    if s.len() > 0 {
        law_xml_escape_markup_free(s.drop_last());
        lemma_xml_char_markup_free(s.last());
        let a = spec_escape(Escaping::Xml, s.drop_last());
        let b = escape_char(Escaping::Xml, s.last());
        assert(spec_escape(Escaping::Xml, s) == a + b);
        assert forall|i: int| 0 <= i < (a + b).len() implies #[trigger] (a + b)[i] != '<' && (a + b)[i] != '>'
            && (a + b)[i] != '"' && (a + b)[i] != '\'' by {
            if i < a.len() {
                assert((a + b)[i] == a[i]);
            } else {
                assert((a + b)[i] == b[i - a.len()]);
            }
        }
    }
}

/// An emptied search cache answers no query, so after any change of the
/// index (which empties the cache) every search is looked up afresh in the
/// index.
pub proof fn law_emptied_search_cache_answers_nothing(v: SearchCacheView, key: Seq<char>, now: u64)
    requires
        v.len() == 0,
    ensures
        lookup_cached(v, key, now) is None,
{
}

/// A key sealed by the key box reads back in plain text: when the current
/// assistant configuration holds a key of the sealed shape that the key box
/// opens to `p` (as every key the box seals does), reading the current key
/// gives `p`.
pub proof fn law_sealed_key_reads_back(
    config: AppConfig,
    m: CryptoManager,
    i: int,
    p: Seq<char>,
    r: Result<String, CryptoError>,
)
    requires
        index_with_id(config.ai_configs@, config.current_ai_config_id@, 0) == Some(i),
        spec_is_sealed(config.ai_configs@[i].api_key@),
        spec_unseal(m.key(), config.ai_configs@[i].api_key@) == Unsealed::Plain(p),
        current_key_ok(config, &Ok::<CryptoManager, CryptoError>(m), r),
    ensures
        r matches Ok(s) && s@ == p,
{
    let k = config.ai_configs@[i].api_key@;
    if k.len() == 0 {
        assert(split_on(k, '.') =~= seq![Seq::<char>::empty()]);
    }
}

proof fn lemma_any_terms_without(p: Postings, terms: Seq<Seq<char>>, id: i64)
    requires
        forall|k: int| 0 <= k < terms.len() ==> !posting_set(p, #[trigger] terms[k]).contains(id),
    ensures
        !any_terms(p, terms).contains(id),
    decreases terms.len(),
{
    if terms.len() > 0 {
        let t = terms.drop_last();
        assert forall|k: int| 0 <= k < t.len() implies !posting_set(p, #[trigger] t[k]).contains(id) by {
            assert(t[k] == terms[k]);
        }
        lemma_any_terms_without(p, t, id);
        assert(!posting_set(p, terms[terms.len() - 1]).contains(id));
    }
}

proof fn lemma_all_terms_first(p: Postings, terms: Seq<Seq<char>>, id: i64)
    requires
        terms.len() > 0,
        all_terms(p, terms).contains(id),
    ensures
        posting_set(p, terms[0]).contains(id),
    decreases terms.len(),
{
    if terms.len() > 1 {
        let t = terms.drop_last();
        lemma_all_terms_first(p, t, id);
        assert(t[0] == terms[0]);
    }
}

/// After an article replaces the one with its id, a search for terms that
/// the new version lacks does not find it among the indexed candidates, so
/// it is not ranked for them.
pub proof fn law_replaced_article_not_a_candidate(m: FeedModel, a: Article, terms: Seq<Seq<char>>)
    requires
        id_pos(m.articles, a.id) is Some,
        forall|k: int| 0 <= k < terms.len() ==> !article_terms(a).contains(#[trigger] terms[k]),
    ensures
        !candidate_ids(indexed(m, a).postings, terms).contains(a.id),
{
    let p = indexed(m, a).postings;
    assert forall|k: int| 0 <= k < terms.len() implies !posting_set(p, #[trigger] terms[k]).contains(a.id) by {
        law_indexed_article_found(m, a, terms[k]);
    }
    lemma_any_terms_without(p, terms, a.id);
    if all_terms(p, terms).contains(a.id) {
        lemma_all_terms_first(p, terms, a.id);
        assert(!posting_set(p, terms[0]).contains(a.id));
    }
}

// ---------------------------------------------------------------------------
// What the operations are for
// ---------------------------------------------------------------------------

/// An article read from a feed item has the item's encoded content (as
/// plain text) whenever the item has encoded content, whatever its
/// description; the description is the content only of an item without
/// encoded content.
pub proof fn law_item_content_prefers_encoded(i: RssItemView, source: Seq<char>, now: i64, a: Article)
    requires
        item_article_ok(i, source, now, a),
    ensures
        i.content matches Some(c) ==> a.content@ == spec_sanitize_feed_content(c),
        i.content is None ==> (i.description matches Some(d) ==> a.content@ == spec_sanitize_feed_content(d)),
        i.content is None && i.description is None ==> a.content@.len() == 0,
{
}

/// The content read from a feed item is its encoded content (as plain text)
/// whenever it has encoded content; its description only when it has none.
pub proof fn law_get_content_prefers_encoded(i: RssItemView, content: Seq<char>)
    requires
        content == crate::syndication::spec_item_content(i),
    ensures
        i.content matches Some(c) ==> content == spec_sanitize_feed_content(c),
        i.content is None ==> (i.description matches Some(d) ==> content == spec_sanitize_feed_content(d)),
        i.content is None && i.description is None ==> content.len() == 0,
{
}

proof fn lemma_keep_sound<A>(s: Seq<A>, f: spec_fn(A) -> bool)
    ensures
        forall|i: int| 0 <= i < keep(s, f).len() ==> f(#[trigger] keep(s, f)[i]) && s.contains(keep(s, f)[i]),
        forall|j: int| 0 <= j < s.len() && f(#[trigger] s[j]) ==> keep(s, f).contains(s[j]),
    decreases s.len(),
{
    if s.len() > 0 {
        let d = s.drop_last();
        lemma_keep_sound(d, f);
        let k = keep(d, f);
        assert forall|i: int| 0 <= i < keep(s, f).len() implies f(#[trigger] keep(s, f)[i]) && s.contains(keep(s, f)[i]) by {
            if i < k.len() {
                assert(keep(s, f)[i] == k[i]);
                let j = choose|j: int| 0 <= j < d.len() && d[j] == k[i];
                assert(s[j] == d[j]);
            } else {
                assert(keep(s, f)[i] == s.last());
                assert(s[s.len() - 1] == s.last());
            }
        }
        assert forall|j: int| 0 <= j < s.len() && f(#[trigger] s[j]) implies keep(s, f).contains(s[j]) by {
            if j < d.len() {
                assert(d[j] == s[j]);
                let i = choose|i: int| 0 <= i < k.len() && k[i] == d[j];
                if f(s.last()) {
                    assert(keep(s, f)[i] == k[i]);
                } else {
                    assert(keep(s, f) == k);
                }
            } else {
                assert(s[j] == s.last());
                assert(keep(s, f)[k.len() as int] == s.last());
            }
        }
    }
}

/// A permutation of `0..n` reaches every position.
proof fn lemma_permutation_onto(p: Seq<usize>, n: nat, k: int)
    requires
        is_permutation(p, n),
        0 <= k < n,
    ensures
        exists|i: int| 0 <= i < p.len() && p[i] as int == k,
{
    let q = p.map_values(|x: usize| x as int);
    assert(q.no_duplicates()) by {
        assert forall|i: int, j: int| 0 <= i < q.len() && 0 <= j < q.len() && i != j implies q[i] != q[j] by {
            if i < j {
                assert(p[i] != p[j]);
            } else {
                assert(p[j] != p[i]);
            }
        }
    }
    q.unique_seq_to_set();
    let range = vstd::set_lib::set_int_range(0, n as int);
    vstd::set_lib::lemma_int_range(0, n as int);
    assert(q.to_set().subset_of(range)) by {
        assert forall|x: int| q.to_set().contains(x) implies range.contains(x) by {
            let i = choose|i: int| 0 <= i < q.len() && q[i] == x;
            assert(q[i] == p[i] as int);
        }
    }
    vstd::set_lib::lemma_len_subset(q.to_set(), range);
    vstd::set_lib::lemma_subset_equality(q.to_set(), range);
    assert(range.contains(k));
    assert(q.to_set().contains(k));
    let i = choose|i: int| 0 <= i < q.len() && q[i] == k;
    assert(q[i] == p[i] as int);
}

/// The filtered article list holds exactly the articles that pass the
/// filters, whatever the order: with "unread only" no returned article is
/// read, with "starred only" every returned article is starred, and every
/// input article that passes both filters is returned.
pub proof fn law_filtered_articles(
    articles: Seq<Article>,
    show_only_unread: bool,
    show_only_starred: bool,
    by_date: bool,
    descending: bool,
    r: Seq<Article>,
)
    requires
        by_date ==> sorted_by_date(
            keep(articles, |a: Article| passes_filters(a, show_only_unread, show_only_starred)),
            r,
            descending,
        ),
        !by_date ==> sorted_by_title(
            keep(articles, |a: Article| passes_filters(a, show_only_unread, show_only_starred)),
            r,
            descending,
        ),
    ensures
        forall|i: int| 0 <= i < r.len() ==> (!show_only_unread || !(#[trigger] r[i]).is_read) && (!show_only_starred || r[i].is_starred),
        forall|j: int| 0 <= j < articles.len() && (!show_only_unread || !(#[trigger] articles[j]).is_read)
            && (!show_only_starred || articles[j].is_starred) ==> r.contains(articles[j]),
{
    let f = |a: Article| passes_filters(a, show_only_unread, show_only_starred);
    let kept = keep(articles, f);
    lemma_keep_sound(articles, f);
    let p: Seq<usize> = if by_date {
        choose|p: Seq<usize>| crate::order::is_stable_order(date_keys(kept), p, descending) && crate::models::reordered(kept, p, r)
    } else {
        let (keys, p) = choose|keys: Seq<crate::order::TextKey>, p: Seq<usize>|
            keys.len() == kept.len() && (forall|i: int| 0 <= i < kept.len() ==> keys[i].chars@ == kept[i].title@)
                && crate::order::is_stable_order(keys, p, descending) && crate::models::reordered(kept, p, r);
        p
    };
    assert(is_permutation(p, kept.len()) && crate::models::reordered(kept, p, r));
    assert forall|i: int| 0 <= i < r.len() implies (!show_only_unread || !(#[trigger] r[i]).is_read) && (!show_only_starred || r[i].is_starred) by {
        assert(r[i] == kept[p[i] as int]);
        assert(f(kept[p[i] as int]));
    }
    assert forall|j: int| 0 <= j < articles.len() && (!show_only_unread || !(#[trigger] articles[j]).is_read)
        && (!show_only_starred || articles[j].is_starred) implies r.contains(articles[j]) by {
        assert(f(articles[j]));
        let k = choose|k: int| 0 <= k < kept.len() && kept[k] == articles[j];
        lemma_permutation_onto(p, kept.len(), k);
        let i = choose|i: int| 0 <= i < p.len() && p[i] as int == k;
        assert(r[i] == kept[k]);
    }
}

/// Searching subscriptions finds every feed whose title, address or group
/// holds the query, ignoring case, and nothing else.
pub proof fn law_search_feeds_finds_matches(feeds: Seq<Feed>, query: Seq<char>, r: Seq<Feed>)
    requires
        r == keep(feeds, |f: Feed| crate::feeds::feed_matches(f, spec_lowercase(query))),
    ensures
        forall|j: int| 0 <= j < feeds.len() && (spec_contains(spec_lowercase((#[trigger] feeds[j]).title@), spec_lowercase(query))
            || spec_contains(spec_lowercase(feeds[j].url@), spec_lowercase(query))
            || spec_contains(spec_lowercase(feeds[j].group@), spec_lowercase(query))) ==> r.contains(feeds[j]),
        forall|i: int| 0 <= i < r.len() ==> feeds.contains(#[trigger] r[i]) && (spec_contains(spec_lowercase(r[i].title@), spec_lowercase(query))
            || spec_contains(spec_lowercase(r[i].url@), spec_lowercase(query))
            || spec_contains(spec_lowercase(r[i].group@), spec_lowercase(query))),
{
    lemma_keep_sound(feeds, |f: Feed| crate::feeds::feed_matches(f, spec_lowercase(query)));
}

proof fn lemma_all_terms_each(p: Postings, terms: Seq<Seq<char>>, id: i64)
    requires
        terms.len() > 0,
        all_terms(p, terms).contains(id),
    ensures
        forall|k: int| 0 <= k < terms.len() ==> posting_set(p, #[trigger] terms[k]).contains(id),
    decreases terms.len(),
{
    if terms.len() > 1 {
        let t = terms.drop_last();
        lemma_all_terms_each(p, t, id);
        assert forall|k: int| 0 <= k < terms.len() implies posting_set(p, #[trigger] terms[k]).contains(id) by {
            if k < t.len() {
                assert(t[k] == terms[k]);
            }
        }
    }
}

proof fn lemma_each_all_terms(p: Postings, terms: Seq<Seq<char>>, id: i64)
    requires
        terms.len() > 0,
        forall|k: int| 0 <= k < terms.len() ==> posting_set(p, #[trigger] terms[k]).contains(id),
    ensures
        all_terms(p, terms).contains(id),
    decreases terms.len(),
{
    if terms.len() > 1 {
        let t = terms.drop_last();
        assert forall|k: int| 0 <= k < t.len() implies posting_set(p, #[trigger] t[k]).contains(id) by {
            assert(t[k] == terms[k]);
        }
        lemma_each_all_terms(p, t, id);
        assert(posting_set(p, terms[terms.len() - 1]).contains(id));
    } else {
        assert(posting_set(p, terms[0]).contains(id));
    }
}

/// When some article of a feed holds every term of a query, a search ranks
/// only articles that hold every term, and that article is among them.
pub proof fn law_search_prefers_articles_with_all_terms(m: FeedModel, query: Seq<char>, r: SearchOutcome, a: Article)
    requires
        search_outcome_ok(m, query, r),
        m.articles.contains(a),
        spec_tokenize(spec_lowercase(spec_trim(query))).len() > 0,
        forall|k: int| 0 <= k < spec_tokenize(spec_lowercase(spec_trim(query))).len() ==> posting_set(
            m.postings,
            #[trigger] spec_tokenize(spec_lowercase(spec_trim(query)))[k],
        ).contains(a.id),
    ensures
        r matches SearchOutcome::Ranked { candidates: c, .. } ==> {
            &&& c@.contains(a)
            &&& forall|i: int, k: int| 0 <= i < c@.len() && 0 <= k < spec_tokenize(spec_lowercase(spec_trim(query))).len()
                ==> #[trigger] posting_set(m.postings, spec_tokenize(spec_lowercase(spec_trim(query)))[k]).contains(c@[i].id)
        },
{
    let terms = spec_tokenize(spec_lowercase(spec_trim(query)));
    lemma_each_all_terms(m.postings, terms, a.id);
    assert(all_terms(m.postings, terms) != Set::<i64>::empty()) by {
        assert(all_terms(m.postings, terms).contains(a.id));
    }
    if let SearchOutcome::Ranked { candidates: c, .. } = r {
        let f = |x: Article| candidate_ids(m.postings, terms).contains(x.id);
        lemma_keep_sound(m.articles, f);
        let j = choose|j: int| 0 <= j < m.articles.len() && m.articles[j] == a;
        assert(f(m.articles[j]));
        assert forall|i: int, k: int| 0 <= i < c@.len() && 0 <= k < terms.len()
            implies #[trigger] posting_set(m.postings, terms[k]).contains(c@[i].id) by {
            assert(f(c@[i]));
            lemma_all_terms_each(m.postings, terms, c@[i].id);
        }
    }
}

/// A text in which no `<` is followed, anywhere later, by a `>`: no tag is
/// left in it.
pub open spec fn no_tag_left(t: Seq<char>) -> bool {
    forall|i: int, j: int| 0 <= i < j < t.len() && #[trigger] t[i] == '<' ==> #[trigger] t[j] != '>'
}

proof fn lemma_no_gt_after_none(s: Seq<char>, k: int)
    requires
        0 <= k,
        find_from(s, seq!['>'], k) is None,
    ensures
        forall|j: int| k <= j < s.len() ==> s[j] != '>',
    decreases s.len() + 1 - k,
{
    if k + 1 <= s.len() {
        assert(s.subrange(k, k + 1)[0] == s[k]);
        if s[k] == '>' {
            assert(s.subrange(k, k + 1) =~= seq!['>']);
            assert(matches_at(s, seq!['>'], k));
        }
        lemma_no_gt_after_none(s, k + 1);
    }
}

proof fn lemma_strip_leaves_no_tag(s: Seq<char>)
    ensures
        no_tag_left(spec_strip_tags(s)),
    decreases s.len(),
{
    if s.len() > 0 {
        if s[0] == '<' {
            match spec_find(s, seq!['>']) {
                Some(e) => {
                    crate::markup::lemma_find_gt_pos(s);
                    lemma_strip_leaves_no_tag(s.subrange(e + 1, s.len() as int));
                },
                None => {
                    lemma_no_gt_after_none(s, 0);
                },
            }
        } else {
            let rest = spec_strip_tags(s.drop_first());
            lemma_strip_leaves_no_tag(s.drop_first());
            let t = seq![s[0]] + rest;
            assert forall|i: int, j: int| 0 <= i < j < t.len() && #[trigger] t[i] == '<' implies #[trigger] t[j] != '>' by {
                assert(i > 0);
                assert(t[i] == rest[i - 1] && t[j] == rest[j - 1]);
            }
        }
    }
}

proof fn lemma_no_tag_left_drop_last(s: Seq<char>)
    requires
        s.len() > 0,
        no_tag_left(s),
    ensures
        no_tag_left(s.drop_last()),
{
    let d = s.drop_last();
    assert forall|i: int, j: int| 0 <= i < j < d.len() && #[trigger] d[i] == '<' implies #[trigger] d[j] != '>' by {
        assert(d[i] == s[i] && d[j] == s[j]);
    }
}

proof fn lemma_no_tag_left_drop_first(s: Seq<char>)
    requires
        s.len() > 0,
        no_tag_left(s),
    ensures
        no_tag_left(s.drop_first()),
{
    let d = s.drop_first();
    assert forall|i: int, j: int| 0 <= i < j < d.len() && #[trigger] d[i] == '<' implies #[trigger] d[j] != '>' by {
        assert(d[i] == s[i + 1] && d[j] == s[j + 1]);
    }
}

proof fn lemma_no_tag_left_push(o: Seq<char>, x: char)
    requires
        no_tag_left(o),
        x == '>' ==> !o.contains('<'),
    ensures
        no_tag_left(o.push(x)),
{
    let t = o.push(x);
    assert forall|i: int, j: int| 0 <= i < j < t.len() && #[trigger] t[i] == '<' implies #[trigger] t[j] != '>' by {
        assert(t[i] == o[i]);
        if j < o.len() {
            assert(t[j] == o[j]);
        } else {
            assert(o.contains('<'));
        }
    }
}

proof fn lemma_collapse_leaves_no_tag(s: Seq<char>)
    requires
        no_tag_left(s),
    ensures
        no_tag_left(collapse_state(s).0),
        collapse_state(s).0.contains('<') ==> s.contains('<'),
    decreases s.len(),
{
    if s.len() > 0 {
        let d = s.drop_last();
        lemma_no_tag_left_drop_last(s);
        lemma_collapse_leaves_no_tag(d);
        let st = collapse_state(d);
        let c = s.last();
        assert(collapse_state(s) == collapse_step(st, c));
        if st.0.contains('<') {
            let i = choose|i: int| 0 <= i < st.0.len() && st.0[i] == '<';
            assert(d.contains('<'));
            let k = choose|k: int| 0 <= k < d.len() && d[k] == '<';
            assert(s[k] == '<');
            if c == '>' {
                assert(s[s.len() - 1] == '>');
            }
        }
        if is_ws(c) {
            if c == '\n' || c == '\r' {
                if st.1 != '\n' {
                    lemma_no_tag_left_push(st.0, '\n');
                }
            } else if !is_ws(st.1) {
                lemma_no_tag_left_push(st.0, ' ');
            }
        } else {
            lemma_no_tag_left_push(st.0, c);
        }
        let o = collapse_state(s).0;
        if o.contains('<') {
            let i = choose|i: int| 0 <= i < o.len() && o[i] == '<';
            if i < st.0.len() {
                assert(o[i] == st.0[i]);
                assert(st.0.contains('<'));
                let k = choose|k: int| 0 <= k < d.len() && d[k] == '<';
                assert(s[k] == '<');
            } else {
                assert(o[i] == c || o[i] == '\n' || o[i] == ' ');
                assert(s[s.len() - 1] == c);
            }
        }
    }
}

proof fn lemma_trim_leaves_no_tag(s: Seq<char>)
    requires
        no_tag_left(s),
    ensures
        no_tag_left(trim_left(s)),
        no_tag_left(trim_right(s)),
    decreases s.len(),
{
    if s.len() > 0 {
        lemma_no_tag_left_drop_first(s);
        lemma_no_tag_left_drop_last(s);
        lemma_trim_leaves_no_tag(s.drop_first());
        lemma_trim_leaves_no_tag(s.drop_last());
    }
}

/// The readable text of an article's HTML holds no tag: no `<` in it is
/// followed later by a `>`, whatever the HTML.
pub proof fn law_sanitized_text_has_no_tags(html: Seq<char>)
    ensures
        no_tag_left(spec_sanitize_html(html)),
{
    if html.len() == 0 {
        assert(no_tag_left(Seq::<char>::empty()));
    } else {
        let a = crate::markup::spec_decode_entities(crate::markup::spec_clean_article_html(html));
        let b = crate::markup::spec_decode_entities(html);
        lemma_strip_leaves_no_tag(a);
        lemma_strip_leaves_no_tag(b);
        lemma_collapse_leaves_no_tag(spec_strip_tags(a));
        lemma_collapse_leaves_no_tag(spec_strip_tags(b));
        lemma_trim_leaves_no_tag(spec_collapse_whitespace(spec_strip_tags(a)));
        lemma_trim_leaves_no_tag(spec_collapse_whitespace(spec_strip_tags(b)));
        lemma_trim_leaves_no_tag(trim_left(spec_collapse_whitespace(spec_strip_tags(a))));
        lemma_trim_leaves_no_tag(trim_left(spec_collapse_whitespace(spec_strip_tags(b))));
    }
}

} // verus!
