//! The state changes of the reader window, one for each kind of message.
use vstd::prelude::*;
use crate::text::{append_str, chars_of, string_of};
use crate::models::{Article, Feed};
use crate::ui_state::{
    error_status, find_article, marked, marks_updated, marked_read, next_all_feeds, next_all_refreshed,
    next_articles_loaded, next_auto_update, next_error, next_feeds_loaded, next_indexing_completed,
    next_indexing_started, next_interval, next_marks, next_search_completed, next_search_results,
    next_select_article, next_status, next_stream_data, next_stream_end, next_translation,
    next_web_content, next_reloaded, next_visibility, next_search_run, sample_article,
    sample_article_ok, ViewModel, ViewState,
};

verus! {

/// A string followed by a text.
fn appended(a: &String, b: &str) -> (r: String)
    ensures
        r@ == a@ + b@,
{
    let mut v = chars_of(a.as_str());
    append_str(&mut v, b);
    string_of(v.as_slice())
}

impl ViewState {
    pub(crate) fn apply_feeds_loaded(&mut self, feeds: Vec<Feed>)
        ensures
            final(self)@ == next_feeds_loaded(old(self)@, feeds@),
    {
        let first: Option<i64> = if feeds.len() > 0 { Some(feeds[0].id) } else { None };
        self.feeds = feeds;
        self.is_importing = false;
        if first.is_some() && self.selected_feed_id.is_none() {
            self.selected_feed_id = first;
        }
    }

    pub(crate) fn apply_indexing_started(&mut self, total: usize)
        ensures
            final(self)@ == next_indexing_started(old(self)@, total),
    {
        self.is_indexing = true;
        self.indexing_total = total;
        self.indexing_progress = 0;
    }

    pub(crate) fn apply_indexing_completed(&mut self)
        ensures
            final(self)@ == next_indexing_completed(old(self)@),
    {
        self.is_indexing = false;
    }

    pub(crate) fn apply_articles_loaded(&mut self, articles: Vec<Article>)
        ensures
            final(self)@ == next_articles_loaded(old(self)@, articles@),
    {
        self.is_refreshing = false;
        self.is_initializing = false;
        self.is_translating = false;
        self.translated_article = None;
        self.show_translated_content = false;
        if !self.is_search_mode {
            self.articles = articles;
        }
    }

    pub(crate) fn apply_stream_data(&mut self, data: String)
        ensures
            final(self)@ == next_stream_data(old(self)@, data@),
    {
        self.ai_stream_response = appended(&self.ai_stream_response, data.as_str());
    }

    pub(crate) fn apply_stream_end(&mut self)
        ensures
            final(self)@ == next_stream_end(old(self)@),
    {
        self.is_ai_streaming = false;
        self.is_sending_message = false;
        self.ai_stream_response = String::new();
    }

    pub(crate) fn apply_all_refreshed(&mut self, now: u64)
        ensures
            final(self)@ == next_all_refreshed(old(self)@, now),
    {
        self.is_refreshing = false;
        self.last_refresh_time = now;
    }

    #[verifier::rlimit(40)]
    pub(crate) fn apply_marks(&mut self, id: i64, is_read: bool, is_starred: bool)
        ensures
            final(self)@ == next_marks(old(self)@, id, is_read, is_starred),
    {
        let ghost s = self@;
        let v = marked(&self.articles, id, is_read, is_starred);
        self.articles = v;
        assert(self@.articles == marks_updated(s.articles, id, is_read, is_starred));
    }

    pub(crate) fn apply_status(&mut self, message: String)
        ensures
            final(self)@ == next_status(old(self)@, message@),
    {
        self.status_message = message;
        self.is_exporting = false;
    }

    pub(crate) fn apply_error(&mut self, error: String)
        ensures
            final(self)@ == next_error(old(self)@, error@),
    {
        self.status_message = error_status(error.as_str());
        self.is_importing = false;
        self.is_exporting = false;
        self.is_refreshing = false;
        self.is_loading_web_content = false;
        self.show_web_content = false;
        self.is_translating = false;
    }

    pub(crate) fn apply_all_feeds(&mut self, clear: bool)
        ensures
            final(self)@ == next_all_feeds(old(self)@, clear),
    {
        self.selected_feed_id = Some(-1);
        if clear {
            self.selected_article_id = None;
        }
    }

    pub(crate) fn apply_web_content(&mut self, content: String)
        ensures
            final(self)@ == next_web_content(old(self)@, content@),
    {
        self.is_loading_web_content = false;
        self.web_content = content;
        self.show_web_content = true;
    }

    pub(crate) fn apply_interval(&mut self, interval: u64)
        ensures
            final(self)@ == next_interval(old(self)@, interval),
    {
        self.auto_update_interval = interval;
    }

    pub(crate) fn apply_auto_update(&mut self, enabled: bool)
        ensures
            final(self)@ == next_auto_update(old(self)@, enabled),
    {
        self.auto_update_enabled = enabled;
    }

    pub(crate) fn apply_search_results(&mut self, articles: Vec<Article>)
        ensures
            final(self)@ == next_search_results(old(self)@, articles@),
    {
        let keep = match self.selected_article_id {
            Some(x) => find_article(&articles, x).is_some(),
            None => false,
        };
        self.is_search_mode = true;
        self.articles = articles;
        if !keep {
            self.selected_article_id = None;
        }
    }

    pub(crate) fn apply_search_completed(&mut self)
        ensures
            final(self)@ == next_search_completed(old(self)@),
    {
        self.is_searching = false;
    }

    pub(crate) fn apply_select_article(&mut self, id: i64)
        ensures
            final(self)@ == next_select_article(old(self)@, id),
    {
        let listed = find_article(&self.articles, id).is_some();
        self.is_translating = false;
        self.translated_article = None;
        self.show_translated_content = false;
        if listed {
            self.selected_article_id = Some(id);
        }
        self.articles = marked_read(&self.articles, id);
    }

    pub(crate) fn apply_translation(&mut self, title: String, content: String)
        ensures
            final(self)@ == next_translation(old(self)@, title@, content@),
    {
        self.translated_article = Some((title, content));
        self.is_translating = false;
        self.show_translated_content = true;
    }

    pub(crate) fn apply_reloaded(&mut self, articles: Vec<Article>)
        ensures
            final(self)@ == next_reloaded(old(self)@, articles@),
    {
        self.articles = articles;
        self.selected_article_id = None;
    }

    pub(crate) fn apply_visibility(&mut self)
        ensures
            final(self)@ == next_visibility(old(self)@),
    {
        self.was_window_visible = self.is_window_visible;
    }

    #[verifier::rlimit(40)]
    pub(crate) fn apply_search_run(&mut self)
        ensures
            final(self)@ == next_search_run(old(self)@),
    {
        let query = self.search_input.clone();
        if query.as_str().is_empty() {
            self.search_query = query;
            self.is_searching = false;
            self.is_search_mode = false;
        } else {
            self.search_query = query;
            self.is_searching = true;
        }
    }

    /// The start of a frame at `now` (nanoseconds since the Unix epoch):
    /// with no subscriptions yet the data is loaded (returns true); a chosen
    /// feed without articles shows a sample article.
    pub fn start_frame(&mut self, now: i64) -> (initialize: bool)
        ensures
            initialize == (old(self)@.feeds.len() == 0),
            initialize ==> final(self)@ == (ViewModel { is_initializing: true, ..old(self)@ }),
            !initialize && old(self)@.articles.len() == 0 && old(self)@.selected_feed_id is Some ==> {
                &&& final(self)@ == (ViewModel { articles: final(self)@.articles, ..old(self)@ })
                &&& final(self)@.articles.len() == 1
                &&& sample_article_ok(final(self)@.articles[0], old(self)@.selected_feed_id->0, now)
            },
            !initialize && !(old(self)@.articles.len() == 0 && old(self)@.selected_feed_id is Some)
                ==> final(self)@ == old(self)@,
    {
        if self.feeds.len() == 0 {
            self.is_initializing = true;
            return true;
        }
        if self.articles.len() == 0 {
            if let Some(f) = self.selected_feed_id {
                let mut v: Vec<Article> = Vec::new();
                v.push(sample_article(f, now));
                self.articles = v;
            }
        }
        false
    }
}

} // verus!
