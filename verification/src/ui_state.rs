//! The reader window's state and how it follows the messages that the
//! background work sends it: loaded feeds and articles, search results,
//! status and error lines, the assistant's streamed reply, the refresh
//! schedule. Each message changes the state and asks the window for work
//! (effects) that the application performs: loading, searching, saving,
//! repainting.
use vstd::prelude::*;
use crate::text::{append_chars, append_str, chars_of, slice_chars, string_of};
use crate::models::{copy_articles, Article, Feed, FeedGroup};
use crate::search::{byte_len, utf8_len};

verus! {

/// A message from the background work to the window.
#[derive(Debug)]
pub enum UiMessage {
    FeedsLoaded(Vec<Feed>),
    ArticlesLoaded(Vec<Article>),
    /// A search for a query within a feed (-1: every feed).
    SearchArticles(String, i64),
    FeedRefreshed(i64),
    AllFeedsRefreshed,
    /// An article's new read and starred marks.
    ArticleStatusUpdated(i64, bool, bool),
    StatusMessage(String),
    Error(String),
    UnreadCountUpdated(i32),
    GroupsLoaded(Vec<FeedGroup>),
    ClearSelectedFeed,
    SelectAllFeeds,
    /// The automatic refresh interval, in minutes.
    UpdateIntervalLoaded(u64),
    AutoUpdateEnabledChanged(bool),
    ReloadArticles,
    SearchResults(Vec<Article>),
    SearchCompleted,
    RequestRepaint,
    /// Indexing of this many articles has started.
    IndexingStarted(usize),
    AIStreamData(String),
    AIStreamEnd,
    IndexingCompleted,
    /// A web page's content and its address.
    WebContentLoaded(String, String),
    SelectArticle(i64),
    /// The translated title and content of the open article.
    TranslationCompleted(String, String),
}

/// Work that the window asks for after a message.
#[derive(Debug)]
pub enum UiEffect {
    /// Repaint the window.
    Repaint,
    /// Load the articles of a feed (every article for -1) in the background
    /// and send them; a failure is reported as an error. The flag asks for a
    /// repaint once they are sent.
    LoadArticles(i64, bool),
    /// Load every article in the background and send them; a failure is
    /// reported as an error. The flag asks for a repaint once they are sent.
    LoadAllArticles(bool),
    /// Load the articles of a feed in the background and send them when that
    /// succeeds.
    RefreshArticles(i64),
    /// Load every article, send them, then ask again to select this article.
    LoadAllThenSelect(i64),
    /// Reload the subscriptions in the background and send them.
    ReloadFeeds,
    /// Load the articles of a feed at once and hand them to
    /// [`ViewState::apply_reloaded_articles`].
    ReloadArticlesNow(i64),
    StartAutoUpdate,
    StopAutoUpdate,
    /// Search these articles (the list shown when it was asked) for a query
    /// within a feed.
    Search(String, i64, Vec<Article>),
    /// Add this reply of the assistant to the conversation and save it.
    SaveAssistantReply(String),
    /// Report that this article is now read.
    MarkedRead(i64),
    /// Handle no more messages in this frame.
    EndFrame,
    /// Ask for a search for a query within a feed (-1: every feed).
    SendSearch(String, i64),
}

/// An effect, its texts taken as characters.
pub enum UiEffectView {
    Repaint,
    LoadArticles(i64, bool),
    LoadAllArticles(bool),
    RefreshArticles(i64),
    LoadAllThenSelect(i64),
    ReloadFeeds,
    ReloadArticlesNow(i64),
    StartAutoUpdate,
    StopAutoUpdate,
    Search(Seq<char>, i64, Seq<Article>),
    SaveAssistantReply(Seq<char>),
    MarkedRead(i64),
    EndFrame,
    SendSearch(Seq<char>, i64),
}

impl View for UiEffect {
    type V = UiEffectView;

    open spec fn view(&self) -> UiEffectView {
        match self {
            UiEffect::Repaint => UiEffectView::Repaint,
            UiEffect::LoadArticles(f, r) => UiEffectView::LoadArticles(*f, *r),
            UiEffect::LoadAllArticles(r) => UiEffectView::LoadAllArticles(*r),
            UiEffect::RefreshArticles(f) => UiEffectView::RefreshArticles(*f),
            UiEffect::LoadAllThenSelect(a) => UiEffectView::LoadAllThenSelect(*a),
            UiEffect::ReloadFeeds => UiEffectView::ReloadFeeds,
            UiEffect::ReloadArticlesNow(f) => UiEffectView::ReloadArticlesNow(*f),
            UiEffect::StartAutoUpdate => UiEffectView::StartAutoUpdate,
            UiEffect::StopAutoUpdate => UiEffectView::StopAutoUpdate,
            UiEffect::Search(q, f, a) => UiEffectView::Search(q@, *f, a@),
            UiEffect::SaveAssistantReply(t) => UiEffectView::SaveAssistantReply(t@),
            UiEffect::MarkedRead(a) => UiEffectView::MarkedRead(*a),
            UiEffect::EndFrame => UiEffectView::EndFrame,
            UiEffect::SendSearch(q, f) => UiEffectView::SendSearch(q@, *f),
        }
    }
}

pub open spec fn effect_views(v: Seq<UiEffect>) -> Seq<UiEffectView> {
    v.map_values(|e: UiEffect| e@)
}

/// The longest error text shown whole, in bytes.
pub const ERROR_SHOWN_BYTES: usize = 150;

/// The status line of an error: the error, cut to its first 150 characters
/// and marked with `...` when it is longer than 150 bytes.
pub open spec fn spec_error_status(e: Seq<char>) -> Seq<char> {
    "错误: "@ + if utf8_len(e) > 150 {
        (if e.len() > 150 { e.take(150) } else { e }) + "..."@
    } else {
        e
    }
}

/// The status line of an error.
pub fn error_status(e: &str) -> (r: String)
    ensures
        r@ == spec_error_status(e@),
{
    let mut out: Vec<char> = Vec::new();
    append_str(&mut out, "错误: ");
    let cs = chars_of(e);
    if byte_len(e) > ERROR_SHOWN_BYTES {
        let n: usize = if cs.len() > 150 { 150 } else { cs.len() };
        let head = slice_chars(cs.as_slice(), 0, n);
        append_chars(&mut out, head.as_slice());
        append_str(&mut out, "...");
        proof {
            assert(head@ =~= (if e@.len() > 150 { e@.take(150) } else { e@ }));
        }
    } else {
        append_chars(&mut out, cs.as_slice());
    }
    string_of(out.as_slice())
}


/// The window's state that the messages change.
pub struct ViewState {
    pub feeds: Vec<Feed>,
    pub articles: Vec<Article>,
    /// The feed shown (-1: every feed).
    pub selected_feed_id: Option<i64>,
    pub selected_article_id: Option<i64>,
    pub is_importing: bool,
    pub is_exporting: bool,
    pub is_refreshing: bool,
    pub is_initializing: bool,
    pub is_translating: bool,
    /// The translated title and content of the open article.
    pub translated_article: Option<(String, String)>,
    pub show_translated_content: bool,
    pub is_search_mode: bool,
    pub is_searching: bool,
    pub status_message: String,
    pub is_indexing: bool,
    pub indexing_total: usize,
    pub indexing_progress: usize,
    /// The assistant's reply received so far.
    pub ai_stream_response: String,
    pub is_ai_streaming: bool,
    pub is_sending_message: bool,
    pub is_loading_web_content: bool,
    pub show_web_content: bool,
    pub web_content: String,
    /// Minutes between automatic refreshes.
    pub auto_update_interval: u64,
    pub auto_update_enabled: bool,
    /// When all feeds were last refreshed, in seconds since the Unix epoch.
    pub last_refresh_time: u64,
    pub is_window_visible: bool,
    /// Whether the window was visible in the previous frame.
    pub was_window_visible: bool,
    /// The text in the search box.
    pub search_input: String,
    /// The query last searched for.
    pub search_query: String,
}

/// The window's state, its texts taken as characters.
pub struct ViewModel {
    pub feeds: Seq<Feed>,
    pub articles: Seq<Article>,
    pub selected_feed_id: Option<i64>,
    pub selected_article_id: Option<i64>,
    pub is_importing: bool,
    pub is_exporting: bool,
    pub is_refreshing: bool,
    pub is_initializing: bool,
    pub is_translating: bool,
    pub translated_article: Option<(Seq<char>, Seq<char>)>,
    pub show_translated_content: bool,
    pub is_search_mode: bool,
    pub is_searching: bool,
    pub status_message: Seq<char>,
    pub is_indexing: bool,
    pub indexing_total: usize,
    pub indexing_progress: usize,
    pub ai_stream_response: Seq<char>,
    pub is_ai_streaming: bool,
    pub is_sending_message: bool,
    pub is_loading_web_content: bool,
    pub show_web_content: bool,
    pub web_content: Seq<char>,
    pub auto_update_interval: u64,
    pub auto_update_enabled: bool,
    pub last_refresh_time: u64,
    pub is_window_visible: bool,
    pub was_window_visible: bool,
    pub search_input: Seq<char>,
    pub search_query: Seq<char>,
}

pub open spec fn pair_view(p: Option<(String, String)>) -> Option<(Seq<char>, Seq<char>)> {
    match p {
        Some((a, b)) => Some((a@, b@)),
        None => None,
    }
}

impl View for ViewState {
    type V = ViewModel;

    open spec fn view(&self) -> ViewModel {
        ViewModel {
            feeds: self.feeds@,
            articles: self.articles@,
            selected_feed_id: self.selected_feed_id,
            selected_article_id: self.selected_article_id,
            is_importing: self.is_importing,
            is_exporting: self.is_exporting,
            is_refreshing: self.is_refreshing,
            is_initializing: self.is_initializing,
            is_translating: self.is_translating,
            translated_article: pair_view(self.translated_article),
            show_translated_content: self.show_translated_content,
            is_search_mode: self.is_search_mode,
            is_searching: self.is_searching,
            status_message: self.status_message@,
            is_indexing: self.is_indexing,
            indexing_total: self.indexing_total,
            indexing_progress: self.indexing_progress,
            ai_stream_response: self.ai_stream_response@,
            is_ai_streaming: self.is_ai_streaming,
            is_sending_message: self.is_sending_message,
            is_loading_web_content: self.is_loading_web_content,
            show_web_content: self.show_web_content,
            web_content: self.web_content@,
            auto_update_interval: self.auto_update_interval,
            auto_update_enabled: self.auto_update_enabled,
            last_refresh_time: self.last_refresh_time,
            is_window_visible: self.is_window_visible,
            was_window_visible: self.was_window_visible,
            search_input: self.search_input@,
            search_query: self.search_query@,
        }
    }
}

/// The position of the first article with this id at or after `k`.
#[verifier::opaque]
pub open spec fn first_id_from(s: Seq<Article>, id: i64, k: int) -> Option<int>
    decreases s.len() - k,
{
    if k < 0 || k >= s.len() {
        None
    } else if s[k].id == id {
        Some(k)
    } else {
        first_id_from(s, id, k + 1)
    }
}

/// The position of the first article with this id.
pub open spec fn first_id(s: Seq<Article>, id: i64) -> Option<int> {
    first_id_from(s, id, 0)
}

/// An article with new read and starred marks.
pub open spec fn with_marks(a: Article, is_read: bool, is_starred: bool) -> Article {
    Article { is_read: is_read, is_starred: is_starred, ..a }
}

/// The articles with the first one of this id given new marks.
#[verifier::opaque]
pub open spec fn marks_updated(s: Seq<Article>, id: i64, is_read: bool, is_starred: bool) -> Seq<Article> {
    match first_id(s, id) {
        Some(k) => s.update(k, with_marks(s[k], is_read, is_starred)),
        None => s,
    }
}

/// The articles with the first one of this id marked read.
#[verifier::opaque]
pub open spec fn read_marked(s: Seq<Article>, id: i64) -> Seq<Article> {
    match first_id(s, id) {
        Some(k) => s.update(k, with_marks(s[k], true, s[k].is_starred)),
        None => s,
    }
}

/// Where the first article with this id is.
pub fn find_article(v: &Vec<Article>, id: i64) -> (r: Option<usize>)
    ensures
        match r {
            Some(k) => first_id(v@, id) == Some(k as int) && k < v@.len(),
            None => first_id(v@, id) is None,
        },
{
    let mut k: usize = 0;
    while k < v.len()
        invariant
            k <= v@.len(),
            first_id(v@, id) == first_id_from(v@, id, k as int),
        decreases v@.len() - k,
    {
        proof {
            reveal(first_id_from);
        }
        if v[k].id == id {
            return Some(k);
        }
        k = k + 1;
    }
    proof {
        reveal(first_id_from);
    }
    None
}

/// Gives the first article with this id new marks; whether there was one.
pub(crate) fn set_marks(v: &mut Vec<Article>, id: i64, is_read: bool, is_starred: bool) -> (found: bool)
    ensures
        final(v)@ == marks_updated(old(v)@, id, is_read, is_starred),
        found == first_id(old(v)@, id) is Some,
{
    proof {
        reveal(marks_updated);
    }
    match find_article(v, id) {
        Some(k) => {
            let mut a = v[k].clone();
            a.is_read = is_read;
            a.is_starred = is_starred;
            v.set(k, a);
            true
        }
        None => false,
    }
}

/// A copy of the articles with the first one of this id given new marks.
pub(crate) fn marked(v: &Vec<Article>, id: i64, is_read: bool, is_starred: bool) -> (r: Vec<Article>)
    ensures
        r@ == marks_updated(v@, id, is_read, is_starred),
{
    let mut w = copy_articles(v.as_slice());
    set_marks(&mut w, id, is_read, is_starred);
    w
}

/// A copy of the articles with the first one of this id marked read.
pub(crate) fn marked_read(v: &Vec<Article>, id: i64) -> (r: Vec<Article>)
    ensures
        r@ == read_marked(v@, id),
{
    proof {
        reveal(read_marked);
        reveal(marks_updated);
    }
    match find_article(v, id) {
        Some(k) => {
            let starred = v[k].is_starred;
            let r = marked(v, id, true, starred);
            r
        },
        None => copy_articles(v.as_slice()),
    }
}

/// The state after an article's marks changed.
pub open spec fn next_marks(s: ViewModel, id: i64, is_read: bool, is_starred: bool) -> ViewModel {
    ViewModel { articles: marks_updated(s.articles, id, is_read, is_starred), ..s }
}

/// The state after search results arrived: they are shown, and the open
/// article stays selected only when it is among them.
pub open spec fn next_search_results(s: ViewModel, a: Seq<Article>) -> ViewModel {
    ViewModel {
        is_search_mode: true,
        articles: a,
        selected_article_id: match s.selected_article_id {
            Some(x) => if first_id(a, x) is Some { Some(x) } else { None },
            None => None,
        },
        ..s
    }
}

/// The state after an article was chosen: it is selected and marked read
/// when it is listed, and the translation is dropped.
pub open spec fn next_select_article(s: ViewModel, id: i64) -> ViewModel {
    ViewModel {
        is_translating: false,
        translated_article: None,
        show_translated_content: false,
        selected_article_id: if first_id(s.articles, id) is Some { Some(id) } else { s.selected_article_id },
        articles: read_marked(s.articles, id),
        ..s
    }
}

/// The state after subscriptions were loaded: they are listed, and the
/// first one is chosen when none was.
pub open spec fn next_feeds_loaded(s: ViewModel, f: Seq<Feed>) -> ViewModel {
    ViewModel {
        feeds: f,
        is_importing: false,
        selected_feed_id: if f.len() > 0 && s.selected_feed_id is None { Some(f[0].id) } else { s.selected_feed_id },
        ..s
    }
}

/// The state once indexing of `total` articles started.
pub open spec fn next_indexing_started(s: ViewModel, total: usize) -> ViewModel {
    ViewModel { is_indexing: true, indexing_total: total, indexing_progress: 0, ..s }
}

/// The state once indexing finished.
pub open spec fn next_indexing_completed(s: ViewModel) -> ViewModel {
    ViewModel { is_indexing: false, ..s }
}

/// The state after articles were loaded: loading, refreshing and the
/// translation end, and the articles are shown unless search results are.
pub open spec fn next_articles_loaded(s: ViewModel, a: Seq<Article>) -> ViewModel {
    ViewModel {
        is_refreshing: false,
        is_initializing: false,
        is_translating: false,
        translated_article: None,
        show_translated_content: false,
        articles: if s.is_search_mode { s.articles } else { a },
        ..s
    }
}

/// The state after a piece of the assistant's reply arrived.
pub open spec fn next_stream_data(s: ViewModel, d: Seq<char>) -> ViewModel {
    ViewModel { ai_stream_response: s.ai_stream_response + d, ..s }
}

/// The state after the assistant's reply ended.
pub open spec fn next_stream_end(s: ViewModel) -> ViewModel {
    ViewModel { is_ai_streaming: false, is_sending_message: false, ai_stream_response: Seq::empty(), ..s }
}

/// The state after every feed was refreshed at `now`.
pub open spec fn next_all_refreshed(s: ViewModel, now: u64) -> ViewModel {
    ViewModel { is_refreshing: false, last_refresh_time: now, ..s }
}

/// The state after a status message.
pub open spec fn next_status(s: ViewModel, m: Seq<char>) -> ViewModel {
    ViewModel { status_message: m, is_exporting: false, ..s }
}

/// The state after an error: it is shown and every pending operation ends.
pub open spec fn next_error(s: ViewModel, e: Seq<char>) -> ViewModel {
    ViewModel {
        status_message: spec_error_status(e),
        is_importing: false,
        is_exporting: false,
        is_refreshing: false,
        is_loading_web_content: false,
        show_web_content: false,
        is_translating: false,
        ..s
    }
}

/// The state once every feed is chosen (`clear` also drops the open article).
pub open spec fn next_all_feeds(s: ViewModel, clear: bool) -> ViewModel {
    ViewModel {
        selected_feed_id: Some(-1i64),
        selected_article_id: if clear { None } else { s.selected_article_id },
        ..s
    }
}

/// The state after a web page's content arrived.
pub open spec fn next_web_content(s: ViewModel, c: Seq<char>) -> ViewModel {
    ViewModel { is_loading_web_content: false, web_content: c, show_web_content: true, ..s }
}

/// The state after the refresh interval was loaded.
pub open spec fn next_interval(s: ViewModel, i: u64) -> ViewModel {
    ViewModel { auto_update_interval: i, ..s }
}

/// The state after automatic refreshing was switched.
pub open spec fn next_auto_update(s: ViewModel, e: bool) -> ViewModel {
    ViewModel { auto_update_enabled: e, ..s }
}

/// The state once a search finished.
pub open spec fn next_search_completed(s: ViewModel) -> ViewModel {
    ViewModel { is_searching: false, ..s }
}

/// The state after a translation arrived: it is shown.
pub open spec fn next_translation(s: ViewModel, t: Seq<char>, c: Seq<char>) -> ViewModel {
    ViewModel { translated_article: Some((t, c)), is_translating: false, show_translated_content: true, ..s }
}

/// The state after a message that arrived at `now` (seconds since the Unix
/// epoch).
pub open spec fn spec_next(s: ViewModel, msg: UiMessage, now: u64) -> ViewModel {
    match msg {
        UiMessage::FeedsLoaded(f) => next_feeds_loaded(s, f@),
        UiMessage::IndexingStarted(total) => next_indexing_started(s, total),
        UiMessage::IndexingCompleted => next_indexing_completed(s),
        UiMessage::ArticlesLoaded(a) => next_articles_loaded(s, a@),
        UiMessage::AIStreamData(d) => next_stream_data(s, d@),
        UiMessage::AIStreamEnd => next_stream_end(s),
        UiMessage::FeedRefreshed(_) => s,
        UiMessage::AllFeedsRefreshed => next_all_refreshed(s, now),
        UiMessage::ArticleStatusUpdated(id, r, st) => next_marks(s, id, r, st),
        UiMessage::StatusMessage(m) => next_status(s, m@),
        UiMessage::Error(e) => next_error(s, e@),
        UiMessage::UnreadCountUpdated(_) => s,
        UiMessage::GroupsLoaded(_) => s,
        UiMessage::SelectAllFeeds => next_all_feeds(s, false),
        UiMessage::WebContentLoaded(c, _) => next_web_content(s, c@),
        UiMessage::ClearSelectedFeed => next_all_feeds(s, true),
        UiMessage::UpdateIntervalLoaded(i) => next_interval(s, i),
        UiMessage::AutoUpdateEnabledChanged(e) => next_auto_update(s, e),
        UiMessage::ReloadArticles => s,
        UiMessage::SearchArticles(_, _) => s,
        UiMessage::SearchResults(a) => next_search_results(s, a@),
        UiMessage::SearchCompleted => next_search_completed(s),
        UiMessage::RequestRepaint => s,
        UiMessage::SelectArticle(id) => next_select_article(s, id),
        UiMessage::TranslationCompleted(t, c) => next_translation(s, t@, c@),
    }
}

/// Minutes between automatic refreshes at first.
pub const DEFAULT_UPDATE_INTERVAL_MIN: u64 = 30;

/// The state of a window opened at `now` (seconds since the Unix epoch):
/// every feed chosen, automatic refreshing every 30 minutes, visible.
pub open spec fn initial_view(now: u64) -> ViewModel {
    ViewModel {
        feeds: Seq::empty(),
        articles: Seq::empty(),
        selected_feed_id: Some(-1i64),
        selected_article_id: None,
        is_importing: false,
        is_exporting: false,
        is_refreshing: false,
        is_initializing: false,
        is_translating: false,
        translated_article: None,
        show_translated_content: false,
        is_search_mode: false,
        is_searching: false,
        status_message: Seq::empty(),
        is_indexing: false,
        indexing_total: 0,
        indexing_progress: 0,
        ai_stream_response: Seq::empty(),
        is_ai_streaming: false,
        is_sending_message: false,
        is_loading_web_content: false,
        show_web_content: false,
        web_content: Seq::empty(),
        auto_update_interval: DEFAULT_UPDATE_INTERVAL_MIN,
        auto_update_enabled: true,
        last_refresh_time: now,
        is_window_visible: true,
        was_window_visible: true,
        search_input: Seq::empty(),
        search_query: Seq::empty(),
    }
}

impl ViewState {
    /// The state of a window opened at `now`.
    pub fn new(now: u64) -> (s: Self)
        ensures
            s@ == initial_view(now),
    {
        ViewState {
            feeds: Vec::new(),
            articles: Vec::new(),
            selected_feed_id: Some(-1),
            selected_article_id: None,
            is_importing: false,
            is_exporting: false,
            is_refreshing: false,
            is_initializing: false,
            is_translating: false,
            translated_article: None,
            show_translated_content: false,
            is_search_mode: false,
            is_searching: false,
            status_message: String::new(),
            is_indexing: false,
            indexing_total: 0,
            indexing_progress: 0,
            ai_stream_response: String::new(),
            is_ai_streaming: false,
            is_sending_message: false,
            is_loading_web_content: false,
            show_web_content: false,
            web_content: String::new(),
            auto_update_interval: DEFAULT_UPDATE_INTERVAL_MIN,
            auto_update_enabled: true,
            last_refresh_time: now,
            is_window_visible: true,
            was_window_visible: true,
            search_input: String::new(),
            search_query: String::new(),
        }
    }
}

/// Seconds until the next automatic refresh: none when it is off, else
/// the time left until `interval` minutes after the last refresh (none once
/// that has passed).
pub open spec fn spec_countdown(enabled: bool, last_refresh: u64, interval_min: u64, now: u64) -> int {
    if !enabled {
        0
    } else if last_refresh + interval_min * 60 > now {
        last_refresh + interval_min * 60 - now
    } else {
        0
    }
}

/// Seconds until the next automatic refresh.
pub fn countdown_secs(enabled: bool, last_refresh: u64, interval_min: u64, now: u64) -> (r: u64)
    requires
        enabled ==> last_refresh + interval_min * 60 <= u64::MAX,
    ensures
        r == spec_countdown(enabled, last_refresh, interval_min, now),
{
    if enabled {
        let next = last_refresh + interval_min * 60;
        next.saturating_sub(now)
    } else {
        0
    }
}

/// Whether the periodic refresh is due: none is running, the interval is
/// set, and `interval_min` minutes have passed since the last one.
pub open spec fn spec_refresh_due(is_refreshing: bool, interval_min: u32, now: u64, last_refresh: u64) -> bool {
    !is_refreshing && interval_min > 0 && now - last_refresh >= interval_min * 60
}

/// Whether the periodic refresh is due.
pub fn auto_refresh_due(is_refreshing: bool, interval_min: u32, now: u64, last_refresh: u64) -> (r: bool)
    requires
        !is_refreshing && interval_min > 0 ==> last_refresh <= now,
    ensures
        r == spec_refresh_due(is_refreshing, interval_min, now, last_refresh),
{
    !is_refreshing && interval_min > 0 && now - last_refresh >= (interval_min as u64) * 60
}

/// How long a search waits for typing to stop, in milliseconds.
pub const SEARCH_DEBOUNCE_MS: u64 = 300;

/// What the search box does in a frame.
#[derive(Debug, Clone, Copy, PartialEq, Eq, Structural)]
pub enum Debounce {
    /// No search is pending.
    Idle,
    /// Look again after this many milliseconds.
    Wait(u64),
    /// Run the search now, and stop waiting.
    Search,
}

/// The search box in a frame: typing restarts the wait; once `delay_ms`
/// have passed since the last change the search runs. `elapsed_ms` is the
/// time since the last change, when a search is pending.
pub open spec fn spec_debounce(input_changed: bool, elapsed_ms: Option<u64>, delay_ms: u64) -> Debounce {
    let pending = if input_changed { Some(0u64) } else { elapsed_ms };
    match pending {
        None => Debounce::Idle,
        Some(e) => if e >= delay_ms { Debounce::Search } else { Debounce::Wait((delay_ms - e) as u64) },
    }
}

/// The search box in a frame.
pub fn debounce(input_changed: bool, elapsed_ms: Option<u64>, delay_ms: u64) -> (r: Debounce)
    ensures
        r == spec_debounce(input_changed, elapsed_ms, delay_ms),
{
    let pending: Option<u64> = if input_changed { Some(0) } else { elapsed_ms };
    match pending {
        None => Debounce::Idle,
        Some(e) => if e >= delay_ms { Debounce::Search } else { Debounce::Wait(delay_ms - e) },
    }
}

/// The state after the articles of the chosen feed were loaded again: they
/// are shown and no article stays open.
pub open spec fn next_reloaded(s: ViewModel, a: Seq<Article>) -> ViewModel {
    ViewModel { articles: a, selected_article_id: None, ..s }
}

/// The state after the window's visibility was noted for the next frame.
pub open spec fn next_visibility(s: ViewModel) -> ViewModel {
    ViewModel { was_window_visible: s.is_window_visible, ..s }
}

/// The work when the window may have become visible: once it does, the
/// chosen feed's articles are loaded again and the window is repainted.
pub open spec fn visibility_effects(s: ViewModel) -> Seq<UiEffectView> {
    if !s.was_window_visible && s.is_window_visible {
        match s.selected_feed_id {
            Some(f) => seq![UiEffectView::RefreshArticles(f), UiEffectView::Repaint],
            None => seq![UiEffectView::Repaint],
        }
    } else {
        Seq::empty()
    }
}

/// The state when the text of the search box is searched for: an empty box
/// leaves search mode, any other text starts a search.
pub open spec fn next_search_run(s: ViewModel) -> ViewModel {
    if s.search_input.len() == 0 {
        ViewModel { search_query: s.search_input, is_searching: false, is_search_mode: false, ..s }
    } else {
        ViewModel { search_query: s.search_input, is_searching: true, ..s }
    }
}

/// The work of searching the text of the search box: the chosen feed's
/// articles again for an empty box, otherwise a search within the chosen
/// feed (every feed when none is chosen).
pub open spec fn search_run_effects(s: ViewModel) -> Seq<UiEffectView> {
    if s.search_input.len() == 0 {
        match s.selected_feed_id {
            Some(f) => seq![UiEffectView::RefreshArticles(f)],
            None => Seq::empty(),
        }
    } else {
        seq![UiEffectView::SendSearch(s.search_input, match s.selected_feed_id { Some(f) => f, None => -1i64 })]
    }
}

/// The article shown while a chosen feed has none: a sample of feed
/// `feed_id` published at `now` (nanoseconds since the Unix epoch).
pub open spec fn sample_article_ok(a: Article, feed_id: i64, now: i64) -> bool {
    &&& a.id == 1
    &&& a.feed_id == feed_id
    &&& a.title@ == "测试文章标题 - 示例内容"@
    &&& a.content@ == "<h2>这是测试文章内容</h2><p>这是一段测试内容，用于验证文章显示功能。</p><p>如果您能看到这段文字，说明文章内容渲染正常。</p>"@
    &&& a.summary@ == "测试文章摘要内容"@
    &&& a.link@ == "https://example.com/article1"@
    &&& a.author@ == "测试作者"@
    &&& a.pub_date == now
    &&& a.guid@ == "test-article-example-1"@
    &&& !a.is_read
    &&& !a.is_starred
    &&& a.source@ == "示例源"@
}

/// The sample article of a feed.
pub fn sample_article(feed_id: i64, now: i64) -> (a: Article)
    ensures
        sample_article_ok(a, feed_id, now),
{
    Article {
        id: 1,
        feed_id,
        title: "测试文章标题 - 示例内容".to_string(),
        link: "https://example.com/article1".to_string(),
        author: "测试作者".to_string(),
        pub_date: now,
        content: "<h2>这是测试文章内容</h2><p>这是一段测试内容，用于验证文章显示功能。</p><p>如果您能看到这段文字，说明文章内容渲染正常。</p>".to_string(),
        summary: "测试文章摘要内容".to_string(),
        is_read: false,
        is_starred: false,
        source: "示例源".to_string(),
        guid: "test-article-example-1".to_string(),
    }
}

/// A repaint when the window is visible.
pub open spec fn repaint_if_visible(s: ViewModel) -> Seq<UiEffectView> {
    if s.is_window_visible { seq![UiEffectView::Repaint] } else { Seq::empty() }
}

/// The work a message asks for.
pub open spec fn spec_effects(s: ViewModel, msg: UiMessage) -> Seq<UiEffectView> {
    match msg {
        UiMessage::FeedsLoaded(_) => seq![UiEffectView::Repaint],
        UiMessage::IndexingStarted(_) => seq![UiEffectView::Repaint],
        UiMessage::IndexingCompleted => seq![UiEffectView::Repaint],
        UiMessage::ArticlesLoaded(_) => repaint_if_visible(s),
        UiMessage::AIStreamData(_) => seq![UiEffectView::Repaint],
        UiMessage::AIStreamEnd => if s.ai_stream_response.len() > 0 {
            seq![UiEffectView::SaveAssistantReply(s.ai_stream_response), UiEffectView::Repaint]
        } else {
            seq![UiEffectView::Repaint]
        },
        UiMessage::FeedRefreshed(id) => if s.selected_feed_id == Some(id) {
            seq![UiEffectView::LoadArticles(id, s.is_window_visible)]
        } else {
            Seq::empty()
        },
        UiMessage::AllFeedsRefreshed => match s.selected_feed_id {
            Some(f) => seq![UiEffectView::ReloadFeeds, UiEffectView::LoadArticles(f, s.is_window_visible)],
            None => seq![UiEffectView::ReloadFeeds],
        },
        UiMessage::ArticleStatusUpdated(id, _, _) => if first_id(s.articles, id) is Some {
            repaint_if_visible(s)
        } else {
            Seq::empty()
        },
        UiMessage::StatusMessage(_) => repaint_if_visible(s),
        UiMessage::Error(_) => repaint_if_visible(s),
        UiMessage::UnreadCountUpdated(_) => repaint_if_visible(s),
        UiMessage::GroupsLoaded(_) => Seq::empty(),
        UiMessage::SelectAllFeeds => seq![UiEffectView::LoadAllArticles(s.is_window_visible)],
        UiMessage::WebContentLoaded(_, _) => repaint_if_visible(s),
        UiMessage::ClearSelectedFeed => seq![UiEffectView::LoadAllArticles(s.is_window_visible)],
        UiMessage::UpdateIntervalLoaded(_) => if s.auto_update_enabled {
            seq![UiEffectView::StartAutoUpdate]
        } else {
            Seq::empty()
        },
        UiMessage::AutoUpdateEnabledChanged(e) => if e {
            seq![UiEffectView::StartAutoUpdate]
        } else {
            seq![UiEffectView::StopAutoUpdate]
        },
        UiMessage::ReloadArticles => match s.selected_feed_id {
            Some(f) => seq![UiEffectView::ReloadArticlesNow(f)],
            None => Seq::empty(),
        },
        UiMessage::SearchArticles(q, f) => seq![UiEffectView::Search(q@, f, s.articles)],
        UiMessage::SearchResults(_) => seq![UiEffectView::Repaint],
        UiMessage::SearchCompleted => seq![UiEffectView::Repaint],
        UiMessage::RequestRepaint => repaint_if_visible(s),
        UiMessage::SelectArticle(id) => match first_id(s.articles, id) {
            Some(k) => if !s.articles[k].is_read {
                seq![UiEffectView::MarkedRead(id)] + repaint_if_visible(s)
            } else {
                repaint_if_visible(s)
            },
            None => seq![UiEffectView::LoadAllThenSelect(id), UiEffectView::EndFrame],
        },
        UiMessage::TranslationCompleted(_, _) => repaint_if_visible(s),
    }
}


/// Whether the window is drawn dark: the theme `dark`, or `system` when the
/// system draws dark.
pub fn is_dark_mode(theme: &str, system_dark: bool) -> (r: bool)
    ensures
        r == (theme@ == "dark"@ || (theme@ == "system"@ && system_dark)),
{
    crate::text::str_eq(theme, "dark") || (crate::text::str_eq(theme, "system") && system_dark)
}

} // verus!
