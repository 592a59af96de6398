//! Feeds, articles, groups, the article selection of the reader, and the
//! filtering and ordering of article lists.
//!
//! Instants are Unix times in nanoseconds.
use vstd::prelude::*;
use std::collections::HashSet;
use crate::order::{SortKey, TextKey, is_stable_order, stable_order};
use crate::text::{append_str, string_of};

verus! {

broadcast use vstd::std_specs::hash::group_hash_axioms;

/// The elements of `s` that satisfy `f`, in order.
pub open spec fn keep<A>(s: Seq<A>, f: spec_fn(A) -> bool) -> Seq<A>
    decreases s.len(),
{
    if s.len() == 0 {
        Seq::empty()
    } else if f(s.last()) {
        keep(s.drop_last(), f).push(s.last())
    } else {
        keep(s.drop_last(), f)
    }
}

/// A subscribed feed.
#[derive(Debug)]
pub struct Feed {
    pub id: i64,
    pub title: String,
    pub url: String,
    pub group: String,
    pub group_id: Option<i64>,
    pub last_updated: Option<i64>,
    pub description: String,
    pub language: String,
    pub link: String,
    pub favicon: Option<String>,
    pub auto_update: bool,
    pub enable_notification: bool,
    pub ai_auto_translate: bool,
}

impl Clone for Feed {
    fn clone(&self) -> (r: Self)
        ensures
            r == *self,
    {
        Feed {
            id: self.id,
            title: self.title.clone(),
            url: self.url.clone(),
            group: self.group.clone(),
            group_id: self.group_id,
            last_updated: self.last_updated,
            description: self.description.clone(),
            language: self.language.clone(),
            link: self.link.clone(),
            favicon: match &self.favicon {
                Some(f) => Some(f.clone()),
                None => None,
            },
            auto_update: self.auto_update,
            enable_notification: self.enable_notification,
            ai_auto_translate: self.ai_auto_translate,
        }
    }
}

/// An article of a feed.
#[derive(Debug)]
pub struct Article {
    pub id: i64,
    pub feed_id: i64,
    pub title: String,
    pub link: String,
    pub author: String,
    /// Publication instant.
    pub pub_date: i64,
    pub content: String,
    pub summary: String,
    pub is_read: bool,
    pub is_starred: bool,
    pub source: String,
    pub guid: String,
}

impl Clone for Article {
    fn clone(&self) -> (r: Self)
        ensures
            r == *self,
    {
        Article {
            id: self.id,
            feed_id: self.feed_id,
            title: self.title.clone(),
            link: self.link.clone(),
            author: self.author.clone(),
            pub_date: self.pub_date,
            content: self.content.clone(),
            summary: self.summary.clone(),
            is_read: self.is_read,
            is_starred: self.is_starred,
            source: self.source.clone(),
            guid: self.guid.clone(),
        }
    }
}

/// A copy of a list of articles.
pub fn copy_articles(v: &[Article]) -> (r: Vec<Article>)
    ensures
        r@ == v@,
{
    let mut out: Vec<Article> = Vec::new();
    let mut k: usize = 0;
    while k < v.len()
        invariant
            k <= v@.len(),
            out@ == v@.take(k as int),
        decreases v@.len() - k,
    {
        out.push(v[k].clone());
        assert(v@.take(k + 1) =~= v@.take(k as int).push(v@[k as int]));
        k = k + 1;
    }
    assert(v@.take(v@.len() as int) =~= v@);
    out
}

/// A group of feeds.
#[derive(Debug)]
pub struct FeedGroup {
    pub id: i64,
    pub name: String,
    pub icon: Option<String>,
}

impl Clone for FeedGroup {
    fn clone(&self) -> (r: Self)
        ensures
            r == *self,
    {
        FeedGroup {
            id: self.id,
            name: self.name.clone(),
            icon: match &self.icon {
                Some(i) => Some(i.clone()),
                None => None,
            },
        }
    }
}

/// The ids of a list of articles, in order.
pub open spec fn article_ids(articles: Seq<Article>) -> Seq<i64> {
    articles.map_values(|a: Article| a.id)
}

/// The reader's state: feeds, articles and the current selection.
#[derive(Debug)]
pub struct AppState {
    pub feeds: Vec<Feed>,
    pub selected_feed_id: Option<i64>,
    pub articles: Vec<Article>,
    pub selected_article_id: Option<i64>,
    pub selected_articles: HashSet<i64>,
    pub is_refreshing: bool,
    /// Refresh progress, 0 to 100.
    pub refresh_progress: u8,
}

/// Two states that differ at most in the set of selected articles.
pub open spec fn same_but_selection(a: AppState, b: AppState) -> bool {
    &&& a.feeds == b.feeds
    &&& a.selected_feed_id == b.selected_feed_id
    &&& a.articles == b.articles
    &&& a.selected_article_id == b.selected_article_id
    &&& a.is_refreshing == b.is_refreshing
    &&& a.refresh_progress == b.refresh_progress
}

impl AppState {
    /// An empty state.
    pub fn new() -> (s: Self)
        ensures
            s.feeds@.len() == 0,
            s.articles@.len() == 0,
            s.selected_articles@ == Set::<i64>::empty(),
            s.selected_feed_id is None,
            s.selected_article_id is None,
            !s.is_refreshing,
            s.refresh_progress == 0,
    {
        AppState {
            feeds: Vec::new(),
            selected_feed_id: None,
            articles: Vec::new(),
            selected_article_id: None,
            selected_articles: HashSet::new(),
            is_refreshing: false,
            refresh_progress: 0,
        }
    }

    /// Adds an article to the selection.
    pub fn select_article(&mut self, article_id: i64)
        ensures
            final(self).selected_articles@ == old(self).selected_articles@.insert(article_id),
            same_but_selection(*old(self), *final(self)),
    {
        self.selected_articles.insert(article_id);
    }

    /// Removes an article from the selection.
    pub fn deselect_article(&mut self, article_id: i64)
        ensures
            final(self).selected_articles@ == old(self).selected_articles@.remove(article_id),
            same_but_selection(*old(self), *final(self)),
    {
        self.selected_articles.remove(&article_id);
    }

    /// Selects an unselected article, deselects a selected one.
    pub fn toggle_select_article(&mut self, article_id: i64)
        ensures
            old(self).selected_articles@.contains(article_id) ==> final(self).selected_articles@ == old(self).selected_articles@.remove(article_id),
            !old(self).selected_articles@.contains(article_id) ==> final(self).selected_articles@ == old(self).selected_articles@.insert(article_id),
            same_but_selection(*old(self), *final(self)),
    {
        if self.selected_articles.contains(&article_id) {
            self.deselect_article(article_id);
        } else {
            self.select_article(article_id);
        }
    }

    /// Selects exactly the displayed articles.
    pub fn select_all_articles(&mut self)
        ensures
            final(self).selected_articles@ == article_ids(old(self).articles@).to_set(),
            same_but_selection(*old(self), *final(self)),
    {
        self.selected_articles.clear();
        let mut i: usize = 0;
        assert(article_ids(self.articles@.take(0)).to_set() =~= Set::<i64>::empty());
        while i < self.articles.len()
            invariant
                same_but_selection(*old(self), *self),
                i <= self.articles@.len(),
                self.selected_articles@ == article_ids(self.articles@.take(i as int)).to_set(),
            decreases self.articles@.len() - i,
        {
            let id = self.articles[i].id;
            self.selected_articles.insert(id);
            proof {
                assert(article_ids(self.articles@.take(i + 1)) =~= article_ids(
                    self.articles@.take(i as int),
                ).push(id));
                assert(article_ids(self.articles@.take(i + 1)).to_set() =~= article_ids(
                    self.articles@.take(i as int),
                ).to_set().insert(id)) by {
                    let s = article_ids(self.articles@.take(i as int));
                    assert forall|x: i64| s.push(id).contains(x) <==> (s.contains(x) || x == id) by {
                        if s.push(id).contains(x) {
                            let k = choose|k: int| 0 <= k < s.push(id).len() && s.push(id)[k] == x;
                            if k < s.len() {
                                assert(s[k] == x);
                            }
                        }
                        if s.contains(x) {
                            let k = choose|k: int| 0 <= k < s.len() && s[k] == x;
                            assert(s.push(id)[k] == x);
                        }
                        if x == id {
                            assert(s.push(id)[s.len() as int] == x);
                        }
                    }
                }
            }
            i = i + 1;
        }
        assert(self.articles@.take(self.articles@.len() as int) =~= self.articles@);
    }

    /// Clears the selection.
    pub fn deselect_all_articles(&mut self)
        ensures
            final(self).selected_articles@ == Set::<i64>::empty(),
            same_but_selection(*old(self), *final(self)),
    {
        self.selected_articles.clear();
    }

    /// The displayed articles that are selected, in display order.
    pub fn get_selected_articles(&self) -> (r: Vec<&Article>)
        ensures
            r@.map_values(|a: &Article| *a) == keep(
                self.articles@,
                |a: Article| self.selected_articles@.contains(a.id),
            ),
    {
        let mut r: Vec<&Article> = Vec::new();
        let mut i: usize = 0;
        while i < self.articles.len()
            invariant
                i <= self.articles@.len(),
                r@.map_values(|a: &Article| *a) == keep(
                    self.articles@.take(i as int),
                    |a: Article| self.selected_articles@.contains(a.id),
                ),
            decreases self.articles@.len() - i,
        {
            proof {
                assert(self.articles@.take(i + 1).drop_last() =~= self.articles@.take(i as int));
            }
            let a = &self.articles[i];
            if self.selected_articles.contains(&a.id) {
                let ghost prev = r@;
                r.push(a);
                proof {
                    assert(r@.map_values(|x: &Article| *x) =~= prev.map_values(|x: &Article| *x).push(
                        *a,
                    ));
                }
            }
            i = i + 1;
        }
        assert(self.articles@.take(self.articles@.len() as int) =~= self.articles@);
        r
    }

    /// The number of selected articles.
    pub fn selected_articles_count(&self) -> (n: usize)
        ensures
            n == self.selected_articles@.len(),
    {
        self.selected_articles.len()
    }

    /// Whether an article is selected.
    pub fn is_article_selected(&self, article_id: i64) -> (r: bool)
        ensures
            r == self.selected_articles@.contains(article_id),
    {
        self.selected_articles.contains(&article_id)
    }
}

/// How an article list is ordered.
#[derive(Debug, Clone, Copy, PartialEq, Eq, Structural)]
pub enum ArticleSort {
    PublishedDate,
    Title,
    Author,
}

/// Filtering and ordering options of an article list.
#[derive(Debug)]
pub struct ArticleFilter {
    pub unread_only: bool,
    pub starred_only: bool,
    pub search_term: String,
    pub sort_by: ArticleSort,
    pub sort_descending: bool,
}

impl Default for ArticleFilter {
    fn default() -> (f: Self)
        ensures
            !f.unread_only,
            !f.starred_only,
            f.search_term@.len() == 0,
            f.sort_by == ArticleSort::PublishedDate,
            f.sort_descending,
    {
        ArticleFilter {
            unread_only: false,
            starred_only: false,
            search_term: String::new(),
            sort_by: ArticleSort::PublishedDate,
            sort_descending: true,
        }
    }
}

/// The publication instants of a list of articles.
pub open spec fn date_keys(articles: Seq<Article>) -> Seq<i64> {
    articles.map_values(|a: Article| a.pub_date)
}

/// `r` is `a` reordered by the positions `p`.
pub open spec fn reordered(a: Seq<Article>, p: Seq<usize>, r: Seq<Article>) -> bool {
    r.len() == p.len() && forall|i: int| 0 <= i < r.len() ==> r[i] == a[p[i] as int]
}

/// `r` is `a` sorted stably by publication instant.
pub open spec fn sorted_by_date(a: Seq<Article>, r: Seq<Article>, descending: bool) -> bool {
    exists|p: Seq<usize>| is_stable_order(date_keys(a), p, descending) && reordered(a, p, r)
}

/// `r` is `a` sorted stably by title.
pub open spec fn sorted_by_title(a: Seq<Article>, r: Seq<Article>, descending: bool) -> bool {
    exists|keys: Seq<TextKey>, p: Seq<usize>|
        #![trigger is_stable_order(keys, p, descending)]
        keys.len() == a.len() && (forall|i: int| 0 <= i < a.len() ==> keys[i].chars@ == a[i].title@)
            && is_stable_order(keys, p, descending) && reordered(a, p, r)
}

/// The articles at the given positions, in that order.
pub fn pick_articles(a: &[Article], p: &[usize]) -> (r: Vec<Article>)
    requires
        forall|i: int| 0 <= i < p@.len() ==> (p@[i] as int) < a@.len(),
    ensures
        reordered(a@, p@, r@),
{
    let mut r: Vec<Article> = Vec::new();
    let mut i: usize = 0;
    while i < p.len()
        invariant
            i <= p@.len(),
            forall|k: int| 0 <= k < p@.len() ==> (p@[k] as int) < a@.len(),
            r@.len() == i,
            forall|k: int| 0 <= k < i ==> r@[k] == a@[p@[k] as int],
        decreases p@.len() - i,
    {
        r.push(a[p[i]].clone());
        i = i + 1;
    }
    r
}

/// `a` sorted stably by publication instant.
pub fn sort_by_date(a: &[Article], descending: bool) -> (r: Vec<Article>)
    ensures
        sorted_by_date(a@, r@, descending),
{
    let mut keys: Vec<i64> = Vec::new();
    let mut i: usize = 0;
    while i < a.len()
        invariant
            i <= a@.len(),
            keys@ == date_keys(a@).take(i as int),
        decreases a@.len() - i,
    {
        keys.push(a[i].pub_date);
        assert(date_keys(a@).take(i + 1) =~= date_keys(a@).take(i as int).push(a@[i as int].pub_date));
        i = i + 1;
    }
    assert(date_keys(a@).take(a@.len() as int) =~= date_keys(a@));
    let p = stable_order(keys.as_slice(), descending);
    let r = pick_articles(a, p.as_slice());
    assert(is_stable_order(date_keys(a@), p@, descending) && reordered(a@, p@, r@));
    r
}

/// `a` sorted stably by title.
pub fn sort_by_title(a: &[Article], descending: bool) -> (r: Vec<Article>)
    ensures
        sorted_by_title(a@, r@, descending),
{
    let mut keys: Vec<TextKey> = Vec::new();
    let mut i: usize = 0;
    while i < a.len()
        invariant
            i <= a@.len(),
            keys@.len() == i,
            forall|k: int| 0 <= k < i ==> keys@[k].chars@ == a@[k].title@,
        decreases a@.len() - i,
    {
        keys.push(TextKey { chars: crate::text::chars_of(a[i].title.as_str()) });
        i = i + 1;
    }
    let p = stable_order(keys.as_slice(), descending);
    let r = pick_articles(a, p.as_slice());
    assert(is_stable_order(keys@, p@, descending));
    r
}

/// The articles kept by the unread and starred filters.
pub open spec fn passes_filters(a: Article, show_only_unread: bool, show_only_starred: bool) -> bool {
    (!show_only_unread || !a.is_read) && (!show_only_starred || a.is_starred)
}

/// Filters an article list by the unread and starred options, then orders it
/// by date or by title, ascending or descending; equal keys keep their order.
pub fn filter_and_sort_articles(
    articles: &[Article],
    show_only_unread: bool,
    show_only_starred: bool,
    sort_by_date_key: bool,
    sort_descending: bool,
) -> (r: Vec<Article>)
    ensures
        ({
            let f = keep(
                articles@,
                |a: Article| passes_filters(a, show_only_unread, show_only_starred),
            );
            &&& sort_by_date_key ==> sorted_by_date(f, r@, sort_descending)
            &&& !sort_by_date_key ==> sorted_by_title(f, r@, sort_descending)
        }),
{
    let mut filtered: Vec<Article> = Vec::new();
    let mut i: usize = 0;
    while i < articles.len()
        invariant
            i <= articles@.len(),
            filtered@ == keep(
                articles@.take(i as int),
                |a: Article| passes_filters(a, show_only_unread, show_only_starred),
            ),
        decreases articles@.len() - i,
    {
        proof {
            assert(articles@.take(i + 1).drop_last() =~= articles@.take(i as int));
        }
        let a = &articles[i];
        if (!show_only_unread || !a.is_read) && (!show_only_starred || a.is_starred) {
            filtered.push(a.clone());
        }
        i = i + 1;
    }
    assert(articles@.take(articles@.len() as int) =~= articles@);
    if sort_by_date_key {
        sort_by_date(filtered.as_slice(), sort_descending)
    } else {
        sort_by_title(filtered.as_slice(), sort_descending)
    }
}


/// What is sent to the assistant of each chosen article.
#[derive(Debug, Clone, Copy, PartialEq, Eq, Structural)]
pub enum AISendContentType {
    TitleOnly,
    ContentOnly,
    Both,
}

/// The text sent of one article.
pub open spec fn send_piece(a: Article, kind: AISendContentType) -> Seq<char> {
    match kind {
        AISendContentType::TitleOnly => a.title@,
        AISendContentType::ContentOnly => a.content@,
        AISendContentType::Both => a.title@ + "\n\n"@ + a.content@,
    }
}

/// The text sent of a list of articles: each one's text followed by a blank
/// line.
pub open spec fn send_text(s: Seq<Article>, kind: AISendContentType) -> Seq<char>
    decreases s.len(),
{
    if s.len() == 0 {
        Seq::empty()
    } else {
        send_text(s.drop_last(), kind) + send_piece(s.last(), kind) + "\n\n"@
    }
}

impl AppState {
    /// The text to send to the assistant of the selected displayed
    /// articles, in display order.
    pub fn ai_send_preview(&self, kind: AISendContentType) -> (r: String)
        ensures
            r@ == send_text(keep(self.articles@, |a: Article| self.selected_articles@.contains(a.id)), kind),
    {
        let chosen = self.get_selected_articles();
        let ghost sel = chosen@.map_values(|a: &Article| *a);
        let mut out: Vec<char> = Vec::new();
        let mut i: usize = 0;
        while i < chosen.len()
            invariant
                i <= chosen@.len(),
                sel == chosen@.map_values(|a: &Article| *a),
                out@ == send_text(sel.take(i as int), kind),
            decreases chosen@.len() - i,
        {
            let a = chosen[i];
            proof {
                assert(sel.take(i + 1).drop_last() =~= sel.take(i as int));
                assert(sel[i as int] == *a);
            }
            match kind {
                AISendContentType::TitleOnly => append_str(&mut out, a.title.as_str()),
                AISendContentType::ContentOnly => append_str(&mut out, a.content.as_str()),
                AISendContentType::Both => {
                    append_str(&mut out, a.title.as_str());
                    append_str(&mut out, "\n\n");
                    append_str(&mut out, a.content.as_str());
                },
            }
            append_str(&mut out, "\n\n");
            proof {
                assert(out@ =~= send_text(sel.take(i + 1), kind));
            }
            i = i + 1;
        }
        assert(sel.take(chosen@.len() as int) =~= sel);
        string_of(out.as_slice())
    }
}

} // verus!
