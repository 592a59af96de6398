//! The decisions of refreshing subscriptions: which feeds are refreshed
//! automatically, which articles are new and announced, which are
//! translated, and the messages shown afterwards. The fetching, storing and
//! the conversation with the assistant are performed by the application.
use vstd::prelude::*;
use crate::text::{append_chars, append_str, chars_of, decimal, decimal_chars, str_eq, string_of};
use crate::syndication::{signed_decimal, signed_decimal_text};
use crate::models::{copy_articles, keep, sort_by_date, sorted_by_date, Article, Feed};
use crate::feeds::{feed_pos_from, get_new_articles, has_guid, spec_url_parse_error, spec_url_parses, is_valid_url, url_parse_error};

verus! {

/// The feeds refreshed automatically, in order.
pub fn auto_update_feeds(feeds: &[Feed]) -> (r: Vec<Feed>)
    ensures
        r@ == keep(feeds@, |f: Feed| f.auto_update),
{
    let mut out: Vec<Feed> = Vec::new();
    let mut k: usize = 0;
    while k < feeds.len()
        invariant
            k <= feeds@.len(),
            out@ == keep(feeds@.take(k as int), |f: Feed| f.auto_update),
        decreases feeds@.len() - k,
    {
        proof {
            assert(feeds@.take(k + 1).drop_last() =~= feeds@.take(k as int));
        }
        if feeds[k].auto_update {
            out.push(feeds[k].clone());
        }
        k = k + 1;
    }
    assert(feeds@.take(feeds@.len() as int) =~= feeds@);
    out
}

/// The fetched articles that are not stored yet (by guid), in order.
pub open spec fn fresh_articles(old: Seq<Article>, new: Seq<Article>) -> Seq<Article> {
    keep(new, |a: Article| !has_guid(old, a.guid@))
}

/// The titles of the new articles of a refresh, newest first.
pub fn new_article_titles(old_articles: &[Article], new_articles: &[Article]) -> (r: Vec<String>)
    ensures
        exists|sorted: Seq<Article>|
            #[trigger] sorted_by_date(fresh_articles(old_articles@, new_articles@), sorted, true)
                && r@.map_values(|s: String| s@) == sorted.map_values(|a: Article| a.title@),
{
    let added = get_new_articles(old_articles, new_articles);
    let sorted = sort_by_date(added.as_slice(), true);
    let mut out: Vec<String> = Vec::new();
    let mut k: usize = 0;
    while k < sorted.len()
        invariant
            k <= sorted@.len(),
            out@.map_values(|s: String| s@) == sorted@.map_values(|a: Article| a.title@).take(k as int),
        decreases sorted@.len() - k,
    {
        let ghost before = out@;
        out.push(sorted[k].title.clone());
        proof {
            assert(out@.map_values(|s: String| s@) =~= before.map_values(|s: String| s@).push(sorted@[k as int].title@));
            assert(sorted@.map_values(|a: Article| a.title@).take(k + 1) =~= sorted@.map_values(|a: Article| a.title@).take(k as int).push(sorted@[k as int].title@));
        }
        k = k + 1;
    }
    assert(sorted@.map_values(|a: Article| a.title@).take(sorted@.len() as int) =~= sorted@.map_values(|a: Article| a.title@));
    assert(sorted_by_date(fresh_articles(old_articles@, new_articles@), sorted@, true));
    out
}

/// The newest `n` articles, newest first (all of them when there are fewer).
pub fn newest_articles(articles: &[Article], n: usize) -> (r: Vec<Article>)
    ensures
        exists|sorted: Seq<Article>|
            #[trigger] sorted_by_date(articles@, sorted, true) && r@ == (if n < sorted.len() { sorted.take(n as int) } else { sorted }),
{
    let sorted = sort_by_date(articles, true);
    if n >= sorted.len() {
        return sorted;
    }
    let mut out: Vec<Article> = Vec::new();
    let mut k: usize = 0;
    while k < n
        invariant
            k <= n < sorted@.len(),
            out@ == sorted@.take(k as int),
        decreases n - k,
    {
        out.push(sorted[k].clone());
        assert(sorted@.take(k + 1) =~= sorted@.take(k as int).push(sorted@[k as int]));
        k = k + 1;
    }
    out
}

/// Whether an article whose title is in language `lang` is translated:
/// everything but Chinese is.
pub fn needs_translation(lang: &str) -> (r: bool)
    ensures
        r == (lang@ != "zh"@),
{
    !str_eq(lang, "zh")
}

/// The article with its title and content replaced by their translations.
pub fn with_translation(article: Article, title: String, content: String) -> (r: Article)
    ensures
        r == (Article { title, content, ..article }),
{
    let mut a = article;
    a.title = title;
    a.content = content;
    a
}

/// The message shown after an automatic refresh.
pub fn update_summary(updated: usize, failed: usize) -> (r: String)
    ensures
        r@ == "自动更新完成: 更新成功 "@ + decimal(updated as nat) + " 个，失败 "@ + decimal(failed as nat) + " 个"@,
{
    let mut v: Vec<char> = Vec::new();
    append_str(&mut v, "自动更新完成: 更新成功 ");
    let a = decimal_chars(updated);
    append_chars(&mut v, a.as_slice());
    append_str(&mut v, " 个，失败 ");
    let b = decimal_chars(failed);
    append_chars(&mut v, b.as_slice());
    append_str(&mut v, " 个");
    string_of(v.as_slice())
}

/// The subscription added from the form: refused when the address or the
/// title is empty or the address does not parse; last updated `now`, with
/// notifications on and the chosen update and translation settings.
pub open spec fn form_feed_ok(url: Seq<char>, title: Seq<char>, group: Seq<char>, auto_update: bool, ai: bool, now: i64, f: Feed) -> bool {
    &&& f.id == -1
    &&& f.title@ == title
    &&& f.url@ == url
    &&& f.group@ == group
    &&& f.group_id is None
    &&& f.last_updated == Some(now)
    &&& f.description@.len() == 0
    &&& f.language@.len() == 0
    &&& f.link@.len() == 0
    &&& f.favicon is None
    &&& f.auto_update == auto_update
    &&& f.enable_notification
    &&& f.ai_auto_translate == ai
}

/// Builds the subscription entered in the form.
pub fn feed_from_form(
    feed_url: &str,
    feed_title: &str,
    feed_group: &str,
    auto_update: bool,
    ai_auto_translate: bool,
    now: i64,
) -> (r: Result<Feed, String>)
    ensures
        feed_url@.len() == 0 || feed_title@.len() == 0 ==> (r matches Err(m) && m@ == "URL和标题不能为空"@),
        feed_url@.len() > 0 && feed_title@.len() > 0 && !spec_url_parses(feed_url@) ==> (r matches Err(m)
            && spec_url_parse_error(feed_url@) == Some(m@)),
        feed_url@.len() > 0 && feed_title@.len() > 0 && spec_url_parses(feed_url@) ==> (r matches Ok(f)
            && form_feed_ok(feed_url@, feed_title@, feed_group@, auto_update, ai_auto_translate, now, f)),
{
    if feed_url.is_empty() || feed_title.is_empty() {
        return Err(String::from_str("URL和标题不能为空"));
    }
    if let Some(m) = url_parse_error(feed_url) {
        return Err(m);
    }
    Ok(Feed {
        id: -1,
        title: String::from_str(feed_title),
        url: String::from_str(feed_url),
        group: String::from_str(feed_group),
        group_id: None,
        last_updated: Some(now),
        description: String::new(),
        language: String::new(),
        link: String::new(),
        favicon: None,
        auto_update,
        enable_notification: true,
        ai_auto_translate,
    })
}

/// The message shown once a subscription is added.
pub fn feed_added_message(feed_title: &str) -> (r: String)
    ensures
        r@ == "成功添加订阅源: "@ + feed_title@,
{
    let mut v: Vec<char> = Vec::new();
    append_str(&mut v, "成功添加订阅源: ");
    append_str(&mut v, feed_title);
    string_of(v.as_slice())
}

// ---------------------------------------------------------------------------
// Retrying and caching fetched feeds
// ---------------------------------------------------------------------------

/// How many times a feed is fetched before giving up.
pub const MAX_FETCH_ATTEMPTS: u32 = 3;

/// The pause after failed attempt `attempt` (counted from 0) before the
/// next one: 200 ms doubled each time; none after the last attempt.
pub fn retry_delay_ms(attempt: u32) -> (r: Option<u64>)
    ensures
        attempt + 1 < MAX_FETCH_ATTEMPTS ==> r == Some((200 * vstd::arithmetic::power2::pow2(attempt as nat)) as u64),
        attempt + 1 >= MAX_FETCH_ATTEMPTS ==> r is None,
{
    if attempt >= MAX_FETCH_ATTEMPTS - 1 {
        return None;
    }
    proof {
        vstd::arithmetic::power2::lemma2_to64();
    }
    if attempt == 0 {
        Some(200)
    } else {
        Some(400)
    }
}

/// A fetched feed kept for a while: its address, when it was stored
/// (seconds of a monotonic clock) and its articles.
#[derive(Debug)]
pub struct CachedFeed {
    pub url: String,
    pub stored_at: u64,
    pub articles: Vec<Article>,
}

/// The most feeds kept.
pub const MAX_CACHED_FEEDS: usize = 100;

/// Recently fetched feeds, so that a feed fetched again soon is not
/// downloaded again.
pub struct FeedCache {
    entries: Vec<CachedFeed>,
    ttl_secs: u64,
}

pub type CacheView = Seq<(Seq<char>, u64, Seq<Article>)>;

pub open spec fn url_pos_from(v: CacheView, url: Seq<char>, k: int) -> Option<int>
    decreases v.len() - k,
{
    if k < 0 || k >= v.len() {
        None
    } else if v[k].0 == url {
        Some(k)
    } else {
        url_pos_from(v, url, k + 1)
    }
}

pub open spec fn url_pos(v: CacheView, url: Seq<char>) -> Option<int> {
    url_pos_from(v, url, 0)
}

/// The first position of the oldest entry among the first `k`.
pub open spec fn oldest_upto(v: CacheView, k: int) -> int
    decreases k,
{
    if k <= 1 {
        0
    } else {
        let m = oldest_upto(v, k - 1);
        if v[k - 1].1 < v[m].1 {
            k - 1
        } else {
            m
        }
    }
}

/// The cache after storing a feed: its entry replaced or added, then the
/// oldest entry dropped when there are more than the limit.
pub open spec fn cache_added(v: CacheView, url: Seq<char>, now: u64, articles: Seq<Article>) -> CacheView {
    let w = match url_pos(v, url) {
        Some(k) => v.update(k, (url, now, articles)),
        None => v.push((url, now, articles)),
    };
    if w.len() > MAX_CACHED_FEEDS {
        w.remove(oldest_upto(w, w.len() as int))
    } else {
        w
    }
}

proof fn lemma_url_pos(v: CacheView, url: Seq<char>, k: int)
    requires
        0 <= k,
    ensures
        url_pos_from(v, url, k) matches Some(i) ==> k <= i < v.len() && v[i].0 == url,
    decreases v.len() - k,
{
    if k < v.len() && v[k].0 != url {
        lemma_url_pos(v, url, k + 1);
    }
}

proof fn lemma_oldest_bounds(v: CacheView, k: int)
    requires
        1 <= k <= v.len(),
    ensures
        0 <= oldest_upto(v, k) < k,
        forall|j: int| 0 <= j < k ==> v[oldest_upto(v, k)].1 <= #[trigger] v[j].1,
    decreases k,
{
    if k > 1 {
        lemma_oldest_bounds(v, k - 1);
    }
}

impl FeedCache {
    pub closed spec fn view_entries(&self) -> CacheView {
        self.entries@.map_values(|e: CachedFeed| (e.url@, e.stored_at, e.articles@))
    }

    pub closed spec fn ttl(&self) -> u64 {
        self.ttl_secs
    }

    /// An empty cache keeping feeds for `ttl_secs` seconds.
    pub fn new(ttl_secs: u64) -> (c: Self)
        ensures
            c.view_entries().len() == 0,
            c.ttl() == ttl_secs,
    {
        FeedCache { entries: Vec::new(), ttl_secs }
    }

    /// Changes how long feeds are kept.
    pub fn set_cache_ttl(&mut self, ttl_seconds: u64)
        ensures
            final(self).ttl() == ttl_seconds,
            final(self).view_entries() == old(self).view_entries(),
    {
        self.ttl_secs = ttl_seconds;
    }

    /// Forgets every feed.
    pub fn clear_cache(&mut self)
        ensures
            final(self).view_entries().len() == 0,
            final(self).ttl() == old(self).ttl(),
    {
        self.entries = Vec::new();
    }

    fn pos_exec(&self, url: &str) -> (r: Option<usize>)
        ensures
            match r {
                Some(k) => url_pos(self.view_entries(), url@) == Some(k as int) && k < self.entries@.len(),
                None => url_pos(self.view_entries(), url@) is None,
            },
    {
        let ghost v = self.view_entries();
        let mut k: usize = 0;
        while k < self.entries.len()
            invariant
                v == self.view_entries(),
                k <= v.len(),
                url_pos(v, url@) == url_pos_from(v, url@, k as int),
            decreases v.len() - k,
        {
            if str_eq(self.entries[k].url.as_str(), url) {
                return Some(k);
            }
            k = k + 1;
        }
        None
    }

    /// The articles of a feed stored less than the time to keep ago; an
    /// entry that is too old is dropped.
    pub fn get(&mut self, url: &str, now: u64) -> (r: Option<Vec<Article>>)
        ensures
            final(self).ttl() == old(self).ttl(),
            match url_pos(old(self).view_entries(), url@) {
                Some(k) => if (if now >= old(self).view_entries()[k].1 { now - old(self).view_entries()[k].1 } else { 0 }) < old(self).ttl() {
                    r matches Some(a) && a@ == old(self).view_entries()[k].2 && final(self).view_entries() == old(self).view_entries()
                } else {
                    r is None && final(self).view_entries() == old(self).view_entries().remove(k)
                },
                None => r is None && final(self).view_entries() == old(self).view_entries(),
            },
    {
        let ghost v = self.view_entries();
        match self.pos_exec(url) {
            None => None,
            Some(k) => {
                assert(v[k as int] == (self.entries@[k as int].url@, self.entries@[k as int].stored_at, self.entries@[k as int].articles@));
                let stored = self.entries[k].stored_at;
                let age = if now >= stored {
                    now - stored
                } else {
                    0
                };
                if age < self.ttl_secs {
                    Some(copy_articles(&self.entries[k].articles))
                } else {
                    self.entries.remove(k);
                    assert(self.view_entries() =~= v.remove(k as int));
                    None
                }
            },
        }
    }

    /// Stores the articles of a feed fetched at `now`.
    pub fn add(&mut self, url: &str, now: u64, articles: Vec<Article>)
        ensures
            final(self).ttl() == old(self).ttl(),
            final(self).view_entries() == cache_added(old(self).view_entries(), url@, now, articles@),
    {
        let ghost v = self.view_entries();
        let ghost av = articles@;
        let entry = CachedFeed { url: String::from_str(url), stored_at: now, articles };
        match self.pos_exec(url) {
            Some(k) => {
                proof {
                    lemma_url_pos(v, url@, 0);
                }
                self.entries.set(k, entry);
                assert(self.view_entries() =~= v.update(k as int, (url@, now, av)));
            },
            None => {
                self.entries.push(entry);
                assert(self.view_entries() =~= v.push((url@, now, av)));
            },
        }
        let ghost w = self.view_entries();
        if self.entries.len() > MAX_CACHED_FEEDS {
            let mut m: usize = 0;
            let mut k: usize = 1;
            while k < self.entries.len()
                invariant
                    w == self.view_entries(),
                    1 <= k <= w.len(),
                    m == oldest_upto(w, k as int),
                decreases w.len() - k,
            {
                proof {
                    lemma_oldest_bounds(w, k as int);
                }
                assert(w[k as int].1 == self.entries@[k as int].stored_at);
                assert(w[m as int].1 == self.entries@[m as int].stored_at);
                if self.entries[k].stored_at < self.entries[m].stored_at {
                    m = k;
                }
                k = k + 1;
            }
            proof {
                lemma_oldest_bounds(w, w.len() as int);
            }
            self.entries.remove(m);
            assert(self.view_entries() =~= w.remove(m as int));
        }
    }
}


/// A subscription edited in the form: its title, address, group and
/// settings replaced. Refused when the title or the address is empty, or
/// when no subscription has the id; the refusal is the error shown.
pub open spec fn edited_ok(
    feeds: Seq<Feed>,
    feed_id: i64,
    title: Seq<char>,
    url: Seq<char>,
    group: Seq<char>,
    auto_update: bool,
    enable_notification: bool,
    ai: bool,
    r: Result<Feed, String>,
) -> bool {
    if title.len() == 0 || url.len() == 0 {
        r matches Err(m) && m@ == "标题和URL不能为空"@
    } else {
        match feed_pos_from(feeds, feed_id, 0) {
            None => r matches Err(m) && m@ == "更新订阅源失败: 订阅源不存在: "@ + signed_decimal(feed_id as int),
            Some(k) => r matches Ok(f) && {
                &&& f == (Feed {
                    title: f.title,
                    url: f.url,
                    group: f.group,
                    auto_update,
                    enable_notification,
                    ai_auto_translate: ai,
                    ..feeds[k]
                })
                &&& f.title@ == title
                &&& f.url@ == url
                &&& f.group@ == group
            },
        }
    }
}

/// The subscription edited in the form.
pub fn edited_feed(
    feeds: &[Feed],
    feed_id: i64,
    title: String,
    url: String,
    group: String,
    auto_update: bool,
    enable_notification: bool,
    ai_auto_translate: bool,
) -> (r: Result<Feed, String>)
    ensures
        edited_ok(feeds@, feed_id, title@, url@, group@, auto_update, enable_notification, ai_auto_translate, r),
{
    if title.as_str().is_empty() || url.as_str().is_empty() {
        return Err("标题和URL不能为空".to_string());
    }
    let mut k: usize = 0;
    while k < feeds.len()
        invariant
            k <= feeds@.len(),
            feed_pos_from(feeds@, feed_id, 0) == feed_pos_from(feeds@, feed_id, k as int),
            title@.len() > 0,
            url@.len() > 0,
        decreases feeds@.len() - k,
    {
        if feeds[k].id == feed_id {
            assert(feed_pos_from(feeds@, feed_id, k as int) == Some(k as int));
            let mut f = feeds[k].clone();
            f.title = title;
            f.url = url;
            f.group = group;
            f.auto_update = auto_update;
            f.enable_notification = enable_notification;
            f.ai_auto_translate = ai_auto_translate;
            return Ok(f);
        }
        k = k + 1;
    }
    assert(feed_pos_from(feeds@, feed_id, k as int) is None);
    let mut m = chars_of("更新订阅源失败: 订阅源不存在: ");
    let d = signed_decimal_text(feed_id);
    append_chars(&mut m, d.as_slice());
    Err(string_of(m.as_slice()))
}

} // verus!
