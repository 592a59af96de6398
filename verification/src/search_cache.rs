//! The search service of the application: the article index together with a
//! cache of recent search results. A result stays valid for five minutes and
//! at most a hundred are kept; any change of the index empties the cache.
//! Ranking the candidates by relevance is done by the application, which
//! hands the ranked results back to be cached.
use vstd::prelude::*;
use crate::models::{copy_articles, Article};
use crate::search::{
    feed_pos, search_outcome_ok, total_articles, unindexed, with_article, with_articles, ArticleIndex,
    FeedModel, SearchOutcome,
};
use crate::syndication::{signed_decimal, signed_decimal_text};
use crate::text::{append_chars, chars_of, spec_trim, str_eq, string_of, trim_str};

verus! {

/// How long a cached search result is used, in milliseconds.
pub const SEARCH_CACHE_TTL_MS: u64 = 300000;

/// The most search results kept.
pub const SEARCH_CACHE_LIMIT: usize = 100;

/// A cached search result: its key, the results and when they were stored
/// (milliseconds of a monotonic clock).
pub struct CachedSearch {
    pub key: String,
    pub results: Vec<Article>,
    pub stored_at: u64,
}

pub type SearchCacheView = Seq<(Seq<char>, Seq<Article>, u64)>;

/// The time since `at`, none when the clock reads earlier.
pub open spec fn elapsed(now: u64, at: u64) -> int {
    if now >= at {
        now - at
    } else {
        0
    }
}

/// Whether a cached result stored at `at` is still used at `now`.
pub open spec fn is_fresh(at: u64, now: u64) -> bool {
    elapsed(now, at) <= SEARCH_CACHE_TTL_MS
}

/// The cached results still valid at `now`, in their order.
pub open spec fn keep_fresh(v: SearchCacheView, now: u64) -> SearchCacheView
    decreases v.len(),
{
    if v.len() == 0 {
        v
    } else {
        let r = keep_fresh(v.drop_last(), now);
        if is_fresh(v.last().2, now) {
            r.push(v.last())
        } else {
            r
        }
    }
}

/// The last position below `k` of an entry with the key.
pub open spec fn last_key_pos(v: SearchCacheView, key: Seq<char>, k: int) -> Option<int>
    decreases k,
{
    if k <= 0 {
        None
    } else if v[k - 1].0 == key {
        Some(k - 1)
    } else {
        last_key_pos(v, key, k - 1)
    }
}

/// The results cached under the key and still valid at `now`.
pub open spec fn lookup_cached(v: SearchCacheView, key: Seq<char>, now: u64) -> Option<Seq<Article>> {
    match last_key_pos(v, key, v.len() as int) {
        Some(k) => if is_fresh(v[k].2, now) {
            Some(v[k].1)
        } else {
            None
        },
        None => None,
    }
}

/// The cache after storing results at `now`: the entry of the key replaced
/// by the new one at the end, the stale entries dropped, and the first one
/// dropped when more than the limit are left.
pub open spec fn cache_stored(v: SearchCacheView, key: Seq<char>, results: Seq<Article>, now: u64) -> SearchCacheView {
    let w = match last_key_pos(v, key, v.len() as int) {
        Some(k) => v.remove(k),
        None => v,
    }.push((key, results, now));
    let f = keep_fresh(w, now);
    if f.len() > SEARCH_CACHE_LIMIT {
        f.remove(0)
    } else {
        f
    }
}

/// The search outcomes for a query within a feed (`-1`: every feed): none
/// for a blank query; one per feed in index order for every feed; otherwise
/// the outcome of that feed's index, none when it has no index.
pub open spec fn candidates_ok(v: Seq<(i64, FeedModel)>, query: Seq<char>, feed_id: i64, r: Seq<SearchOutcome>) -> bool {
    &&& spec_trim(query).len() == 0 ==> r.len() == 0
    &&& spec_trim(query).len() > 0 && feed_id == -1 ==> {
        &&& r.len() == v.len()
        &&& forall|k: int| 0 <= k < r.len() ==> search_outcome_ok(v[k].1, query, #[trigger] r[k])
    }
    &&& spec_trim(query).len() > 0 && feed_id != -1 ==> match feed_pos(v, feed_id) {
        Some(k) => r.len() == 1 && search_outcome_ok(v[k].1, query, r[0]),
        None => r.len() == 0,
    }
}


/// The cache key of a search: the trimmed query, a colon and the feed id.
pub open spec fn search_key_of(query: Seq<char>, feed_id: i64) -> Seq<char> {
    spec_trim(query) + seq![':'] + signed_decimal(feed_id as int)
}

proof fn lemma_last_key_pos(v: SearchCacheView, key: Seq<char>, k: int)
    requires
        k <= v.len(),
    ensures
        last_key_pos(v, key, k) matches Some(i) ==> 0 <= i < k && v[i].0 == key,
    decreases k,
{
    if k > 0 && v[k - 1].0 != key {
        lemma_last_key_pos(v, key, k - 1);
    }
}

/// What a search finds before ranking.
pub enum SearchLookup {
    /// The query is blank: there are no results.
    Blank,
    /// The results cached for the query.
    Cached(Vec<Article>),
    /// Nothing is cached: the key to cache the ranked results under, and the
    /// candidates of each feed searched.
    Miss { key: String, outcomes: Vec<SearchOutcome> },
}

/// The article index with its cache of search results.
pub struct SearchManager {
    index: ArticleIndex,
    cache: Vec<CachedSearch>,
}

/// The cache key of a search.
pub fn search_key(query: &str, feed_id: i64) -> (r: String)
    ensures
        r@ == search_key_of(query@, feed_id),
{
    let q = trim_str(query);
    let mut cs = chars_of(q.as_str());
    cs.push(':');
    let d = signed_decimal_text(feed_id);
    append_chars(&mut cs, d.as_slice());
    string_of(cs.as_slice())
}

impl SearchManager {
    /// The indexed feeds.
    pub closed spec fn view_feeds(&self) -> Seq<(i64, FeedModel)> {
        self.index.view_feeds()
    }

    /// The cached results, oldest first.
    pub closed spec fn view_cache(&self) -> SearchCacheView {
        self.cache@.map_values(|e: CachedSearch| (e.key@, e.results@, e.stored_at))
    }

    pub closed spec fn wf(&self) -> bool {
        self.index.wf()
    }

    /// An empty index with an empty cache.
    pub fn new() -> (r: Self)
        ensures
            r.wf(),
            r.view_feeds().len() == 0,
            r.view_cache().len() == 0,
    {
        SearchManager { index: ArticleIndex::new(), cache: Vec::new() }
    }

    /// Forgets every cached result.
    fn clear_cache(&mut self)
        ensures
            final(self).view_cache().len() == 0,
            final(self).index == old(self).index,
    {
        self.cache = Vec::new();
    }

    /// Adds (or replaces) an article in the index.
    pub fn add_article(&mut self, article: Article)
        requires
            old(self).wf(),
        ensures
            final(self).wf(),
            final(self).view_feeds() == with_article(old(self).view_feeds(), article),
            final(self).view_cache().len() == 0,
    {
        self.index.add_article(article);
        self.clear_cache();
    }

    /// Adds articles to the index one after the other.
    pub fn add_articles(&mut self, articles: Vec<Article>)
        requires
            old(self).wf(),
        ensures
            final(self).wf(),
            final(self).view_feeds() == with_articles(old(self).view_feeds(), articles@),
            final(self).view_cache().len() == 0,
    {
        self.index.add_articles(articles);
        self.clear_cache();
    }

    /// Removes an article from a feed's index.
    pub fn remove_article(&mut self, article_id: i64, feed_id: i64)
        requires
            old(self).wf(),
        ensures
            final(self).wf(),
            final(self).view_feeds() == match feed_pos(old(self).view_feeds(), feed_id) {
                Some(k) => old(self).view_feeds().update(k, (feed_id, unindexed(old(self).view_feeds()[k].1, article_id))),
                None => old(self).view_feeds(),
            },
            final(self).view_cache().len() == 0,
    {
        self.index.remove_article(article_id, feed_id);
        self.clear_cache();
    }

    /// Drops a feed's whole index.
    pub fn remove_articles_by_feed(&mut self, feed_id: i64)
        requires
            old(self).wf(),
        ensures
            final(self).wf(),
            final(self).view_feeds() == match feed_pos(old(self).view_feeds(), feed_id) {
                Some(k) => old(self).view_feeds().remove(k),
                None => old(self).view_feeds(),
            },
            final(self).view_cache().len() == 0,
    {
        self.index.remove_articles_by_feed(feed_id);
        self.clear_cache();
    }

    /// Empties the index and the cache.
    pub fn clear(&mut self)
        ensures
            final(self).wf(),
            final(self).view_feeds().len() == 0,
            final(self).view_cache().len() == 0,
    {
        self.index.clear();
        self.clear_cache();
    }

    /// The number of indexed articles.
    pub fn len(&self) -> (n: usize)
        requires
            total_articles(self.view_feeds()) <= usize::MAX,
        ensures
            n == total_articles(self.view_feeds()),
    {
        self.index.len()
    }

    /// Whether no article is indexed.
    pub fn is_empty(&self) -> (r: bool)
        ensures
            r == (self.view_feeds().len() == 0 || forall|k: int|
                0 <= k < self.view_feeds().len() ==> #[trigger] self.view_feeds()[k].1.articles.len() == 0),
    {
        assert(self.view_feeds() == self.index.view_feeds());
        self.index.is_empty()
    }

    /// The index.
    pub fn index(&self) -> (r: &ArticleIndex)
        ensures
            r.view_feeds() == self.view_feeds(),
            self.wf() ==> r.wf(),
    {
        &self.index
    }

    fn last_pos_exec(&self, key: &str) -> (r: Option<usize>)
        ensures
            match r {
                Some(k) => last_key_pos(self.view_cache(), key@, self.view_cache().len() as int) == Some(k as int)
                    && k < self.cache@.len(),
                None => last_key_pos(self.view_cache(), key@, self.view_cache().len() as int) is None,
            },
    {
        let ghost v = self.view_cache();
        let mut k: usize = self.cache.len();
        while k > 0
            invariant
                v == self.view_cache(),
                k <= v.len(),
                last_key_pos(v, key@, v.len() as int) == last_key_pos(v, key@, k as int),
            decreases k,
        {
            assert(v[k - 1].0 == self.cache@[k - 1].key@);
            if str_eq(self.cache[k - 1].key.as_str(), key) {
                return Some(k - 1);
            }
            k = k - 1;
        }
        None
    }

    /// The results cached under the key, when they are still valid at `now`.
    pub fn cached_results(&self, key: &str, now: u64) -> (r: Option<Vec<Article>>)
        ensures
            match lookup_cached(self.view_cache(), key@, now) {
                Some(a) => r matches Some(v) && v@ == a,
                None => r is None,
            },
    {
        let ghost v = self.view_cache();
        match self.last_pos_exec(key) {
            None => None,
            Some(k) => {
                assert(v[k as int] == (self.cache@[k as int].key@, self.cache@[k as int].results@, self.cache@[k as int].stored_at));
                let at = self.cache[k].stored_at;
                let age: u64 = if now >= at {
                    now - at
                } else {
                    0
                };
                if age <= SEARCH_CACHE_TTL_MS {
                    Some(copy_articles(&self.cache[k].results))
                } else {
                    None
                }
            },
        }
    }

    /// Drops the cached results that are no longer valid at `now`.
    fn drop_stale(&mut self, now: u64)
        ensures
            final(self).view_cache() == keep_fresh(old(self).view_cache(), now),
            final(self).index == old(self).index,
    {
        let ghost w = self.view_cache();
        let mut i: usize = 0;
        let ghost mut j: int = 0;
        while i < self.cache.len()
            invariant
                self.index == old(self).index,
                0 <= j <= w.len(),
                self.view_cache() == keep_fresh(w.take(j), now) + w.skip(j),
                i == keep_fresh(w.take(j), now).len(),
            decreases w.len() - j,
        {
            proof {
                assert(w.take(j + 1).drop_last() =~= w.take(j));
                assert(w.take(j + 1).last() == w[j]);
                assert(self.view_cache()[i as int] == w[j]);
            }
            let ghost before = self.view_cache();
            let ghost kf = keep_fresh(w.take(j), now);
            assert(before[i as int].2 == self.cache@[i as int].stored_at);
            if self.cache[i].stored_at <= now && now - self.cache[i].stored_at > SEARCH_CACHE_TTL_MS {
                self.cache.remove(i);
                proof {
                    assert(!is_fresh(w[j].2, now));
                    assert(keep_fresh(w.take(j + 1), now) == kf);
                    assert(self.view_cache() =~= before.remove(i as int));
                    assert(before.remove(i as int) =~= kf + w.skip(j + 1));
                    j = j + 1;
                }
            } else {
                proof {
                    assert(is_fresh(w[j].2, now));
                    assert(keep_fresh(w.take(j + 1), now) == kf.push(w[j]));
                    assert(before =~= kf.push(w[j]) + w.skip(j + 1));
                    j = j + 1;
                }
                i = i + 1;
            }
        }
        proof {
            assert(w.skip(j).len() == 0);
            assert(j == w.len());
            assert(w.take(j) =~= w);
            assert(self.view_cache() =~= keep_fresh(w, now));
        }
    }

    /// Caches ranked results under the key at `now`.
    pub fn cache_results(&mut self, key: &str, results: Vec<Article>, now: u64)
        requires
            old(self).wf(),
        ensures
            final(self).wf(),
            final(self).view_feeds() == old(self).view_feeds(),
            final(self).view_cache() == cache_stored(old(self).view_cache(), key@, results@, now),
    {
        let ghost v = self.view_cache();
        let ghost rv = results@;
        match self.last_pos_exec(key) {
            Some(k) => {
                self.cache.remove(k);
                assert(self.view_cache() =~= v.remove(k as int));
            },
            None => {},
        }
        let entry = CachedSearch { key: String::from_str(key), results, stored_at: now };
        let ghost u = self.view_cache();
        self.cache.push(entry);
        assert(self.view_cache() =~= u.push((key@, rv, now)));
        self.drop_stale(now);
        if self.cache.len() > SEARCH_CACHE_LIMIT {
            let ghost f = self.view_cache();
            self.cache.remove(0);
            assert(self.view_cache() =~= f.remove(0));
        }
    }

    /// Looks a search up: nothing for a blank query, the cached results when
    /// they are still valid, otherwise the key to cache under and the
    /// candidates of each feed searched for the trimmed query.
    pub fn lookup(&self, query: &str, feed_id: i64, now: u64) -> (r: SearchLookup)
        requires
            self.wf(),
        ensures
            spec_trim(query@).len() == 0 ==> r is Blank,
            spec_trim(query@).len() > 0 ==> match lookup_cached(self.view_cache(), search_key_of(query@, feed_id), now) {
                Some(a) => r matches SearchLookup::Cached(v) && v@ == a,
                None => r matches SearchLookup::Miss { key, outcomes } && key@ == search_key_of(query@, feed_id)
                    && candidates_ok(self.view_feeds(), spec_trim(query@), feed_id, outcomes@),
            },
    {
        let q = trim_str(query);
        if q.as_str().unicode_len() == 0 {
            return SearchLookup::Blank;
        }
        let key = search_key(query, feed_id);
        match self.cached_results(key.as_str(), now) {
            Some(found) => SearchLookup::Cached(found),
            None => {
                let outcomes = self.index.search_candidates(q.as_str(), feed_id);
                assert(candidates_ok(self.view_feeds(), q@, feed_id, outcomes@));
                SearchLookup::Miss { key, outcomes }
            },
        }
    }
}

} // verus!
