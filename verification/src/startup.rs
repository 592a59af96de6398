//! The first loading of the reader's data: with no subscription yet a
//! welcome feed and a welcome article are stored (or, when storing fails,
//! kept in memory under the id -1), and the articles of the first feed are
//! shown. The storage calls are the application's; this module decides what
//! is stored and shown.
use vstd::prelude::*;
use crate::text::{append_chars, chars_of, string_of};
use crate::models::{Article, Feed};
use crate::syndication::{signed_decimal, signed_decimal_text};

verus! {

/// The id of a feed or article that lives in memory only.
pub const MEMORY_ID: i64 = -1;

/// The welcome subscription offered when there is none.
pub open spec fn welcome_feed_ok(f: Feed) -> bool {
    &&& f.id == 0
    &&& f.title@ == "欢迎使用 Rust RSS 阅读器"@
    &&& f.url@ == "example://welcome"@
    &&& f.group@ == "默认分组"@
    &&& f.group_id is None
    &&& f.description@ == "这是一个示例订阅源，请点击'添加订阅源'按钮添加您自己的RSS源"@
    &&& f.last_updated is None
    &&& f.language@ == "zh-CN"@
    &&& f.link@ == "#"@
    &&& f.favicon is None
    &&& f.auto_update
    &&& f.enable_notification
    &&& !f.ai_auto_translate
}

/// The welcome subscription, with id 0 until it is stored.
pub fn welcome_feed() -> (f: Feed)
    ensures
        welcome_feed_ok(f),
{
    Feed {
        id: 0,
        title: "欢迎使用 Rust RSS 阅读器".to_string(),
        url: "example://welcome".to_string(),
        group: "默认分组".to_string(),
        group_id: None,
        last_updated: None,
        description: "这是一个示例订阅源，请点击'添加订阅源'按钮添加您自己的RSS源".to_string(),
        language: "zh-CN".to_string(),
        link: "#".to_string(),
        favicon: None,
        auto_update: true,
        enable_notification: true,
        ai_auto_translate: false,
    }
}

/// The welcome article with this id, feed and guid, published at `now`
/// (nanoseconds since the Unix epoch).
pub open spec fn welcome_article_ok(a: Article, id: i64, feed_id: i64, guid: Seq<char>, now: i64) -> bool {
    &&& a.id == id
    &&& a.feed_id == feed_id
    &&& a.title@ == "欢迎使用 Rust RSS 阅读器！"@
    &&& a.link@ == "#"@
    &&& a.author@ == "Rust RSS 团队"@
    &&& a.pub_date == now
    &&& a.content@ == "<h2>欢迎使用 Rust RSS 阅读器</h2><p>这是您的第一个订阅源和文章。</p><p>要添加新的RSS源，请点击左侧面板底部的'添加订阅源'按钮。</p><p>您可以添加任何符合RSS或Atom标准的订阅源URL。</p>"@
    &&& a.guid@ == guid
    &&& a.summary@ == "欢迎使用Rust RSS阅读器，点击了解如何添加RSS源。"@
    &&& !a.is_read
    &&& !a.is_starred
    &&& a.source@ == "示例源"@
}

/// The welcome article.
pub fn welcome_article(id: i64, feed_id: i64, guid: String, now: i64) -> (a: Article)
    ensures
        welcome_article_ok(a, id, feed_id, guid@, now),
{
    Article {
        id,
        feed_id,
        title: "欢迎使用 Rust RSS 阅读器！".to_string(),
        link: "#".to_string(),
        author: "Rust RSS 团队".to_string(),
        pub_date: now,
        content: "<h2>欢迎使用 Rust RSS 阅读器</h2><p>这是您的第一个订阅源和文章。</p><p>要添加新的RSS源，请点击左侧面板底部的'添加订阅源'按钮。</p><p>您可以添加任何符合RSS或Atom标准的订阅源URL。</p>".to_string(),
        summary: "欢迎使用Rust RSS阅读器，点击了解如何添加RSS源。".to_string(),
        is_read: false,
        is_starred: false,
        source: "示例源".to_string(),
        guid,
    }
}

/// The guid of the stored welcome article: `welcome-article-` and the time
/// in seconds.
pub open spec fn spec_welcome_guid(now_secs: i64) -> Seq<char> {
    "welcome-article-"@ + signed_decimal(now_secs as int)
}

/// The guid of the stored welcome article.
pub fn welcome_guid(now_secs: i64) -> (r: String)
    ensures
        r@ == spec_welcome_guid(now_secs),
{
    let mut v = chars_of("welcome-article-");
    let d = signed_decimal_text(now_secs);
    append_chars(&mut v, d.as_slice());
    string_of(v.as_slice())
}

/// The welcome article stored with the welcome feed `feed_id`.
pub fn stored_welcome_article(feed_id: i64, now: i64, now_secs: i64) -> (a: Article)
    ensures
        welcome_article_ok(a, 0, feed_id, spec_welcome_guid(now_secs), now),
{
    welcome_article(0, feed_id, welcome_guid(now_secs), now)
}

/// The welcome article kept in memory when storing the welcome feed failed.
pub fn memory_welcome_article(now: i64) -> (a: Article)
    ensures
        welcome_article_ok(a, MEMORY_ID, MEMORY_ID, "memory-welcome-article"@, now),
{
    welcome_article(MEMORY_ID, MEMORY_ID, "memory-welcome-article".to_string(), now)
}

/// The welcome article shown for a feed in memory that has no article.
pub fn placeholder_welcome_article(now: i64) -> (a: Article)
    ensures
        welcome_article_ok(a, MEMORY_ID, MEMORY_ID, "memory-article-placeholder"@, now),
{
    welcome_article(MEMORY_ID, MEMORY_ID, "memory-article-placeholder".to_string(), now)
}

/// The subscriptions shown at start: the stored ones; with none, the
/// welcome feed under the id it was stored with (`added`), or under the
/// memory id when storing it failed.
pub open spec fn startup_feeds_ok(loaded: Seq<Feed>, added: Option<i64>, r: Seq<Feed>) -> bool {
    if loaded.len() > 0 {
        r == loaded
    } else {
        &&& r.len() == 1
        &&& r[0].id == (match added { Some(id) => id, None => MEMORY_ID })
        &&& welcome_feed_ok(Feed { id: 0, ..r[0] })
    }
}

/// The subscriptions shown at start.
pub fn startup_feeds(loaded: Vec<Feed>, added: Option<i64>) -> (r: Vec<Feed>)
    ensures
        startup_feeds_ok(loaded@, added, r@),
{
    if loaded.len() > 0 {
        return loaded;
    }
    let mut f = welcome_feed();
    f.id = match added {
        Some(id) => id,
        None => MEMORY_ID,
    };
    let mut r: Vec<Feed> = Vec::new();
    r.push(f);
    r
}

/// Where the first articles shown come from.
#[derive(Debug, Clone, Copy, PartialEq, Eq, Structural)]
pub enum StartupArticles {
    /// There is no feed: nothing is shown.
    Nothing,
    /// The first feed lives in memory: its welcome article is shown.
    Memory,
    /// The stored articles of this feed.
    Stored(i64),
}

/// Where the first articles shown come from.
pub open spec fn spec_startup_articles(feeds: Seq<Feed>) -> StartupArticles {
    if feeds.len() == 0 {
        StartupArticles::Nothing
    } else if feeds[0].id == MEMORY_ID {
        StartupArticles::Memory
    } else {
        StartupArticles::Stored(feeds[0].id)
    }
}

/// Where the first articles shown come from.
pub fn startup_articles(feeds: &[Feed]) -> (r: StartupArticles)
    ensures
        r == spec_startup_articles(feeds@),
{
    if feeds.len() == 0 {
        StartupArticles::Nothing
    } else if feeds[0].id == MEMORY_ID {
        StartupArticles::Memory
    } else {
        StartupArticles::Stored(feeds[0].id)
    }
}

/// The status line when the data was loaded and there is no subscription.
pub fn no_feeds_message() -> (r: String)
    ensures
        r@ == "数据库已初始化，请添加您的第一个订阅源"@,
{
    "数据库已初始化，请添加您的第一个订阅源".to_string()
}

/// The status line once loading is complete.
pub fn initialized_message() -> (r: String)
    ensures
        r@ == "初始化完成"@,
{
    "初始化完成".to_string()
}

} // verus!
