use rust_rss_reader::export::{
    articles_to_import, export_tables, feed_import_action, group_is_new, imported_feed_id, sql_export_script, FeedImport,
};
use rust_rss_reader::feeds::uses_direct_search;
use rust_rss_reader::ids::{generate_unique_id, unique_id_of};
use rust_rss_reader::notify::new_articles_batch;
use rust_rss_reader::updates::edited_feed;
use rust_rss_reader::markup::favicon_candidate;
use rust_rss_reader::models::{AISendContentType, AppState, Article, Feed};
use rust_rss_reader::search::ArticleIndex;
use rust_rss_reader::sidebar::sidebar_groups;
use rust_rss_reader::store_rules::{known_article, retained, retention_cutoff, same_link, stored_article};
use rust_rss_reader::opml_import::{imported_feed, opml_import_plan, OpmlEntry};
use rust_rss_reader::startup::{
    memory_welcome_article, startup_articles, startup_feeds, stored_welcome_article, welcome_feed,
    welcome_guid, StartupArticles,
};
use rust_rss_reader::tray::{
    after_menu_messages, icon_retry_delay_ms, next_icon_config, tray_after_wait, tray_title,
    tray_title_of, tray_wait_ms, TrayIconConfig, TrayMessage, TrayNext, TrayWaitOutcome,
};
use rust_rss_reader::ui_state::{
    auto_refresh_due, countdown_secs, debounce, error_status, is_dark_mode, Debounce, UiEffect, UiMessage, ViewState,
};
use rust_rss_reader::store_rules::{checked_update_interval, stored_update_interval};
use rust_rss_reader::timefmt::format_datetime;

fn article(id: i64, title: &str) -> Article {
    Article {
        id,
        feed_id: 7,
        title: title.to_string(),
        link: String::new(),
        author: String::new(),
        pub_date: id,
        content: String::new(),
        summary: String::new(),
        is_read: false,
        is_starred: false,
        source: String::new(),
        guid: format!("g{}", id),
    }
}

fn feed(id: i64) -> Feed {
    let mut f = welcome_feed();
    f.id = id;
    f.url = format!("http://f/{}", id);
    f
}

// ----- tray -----

#[test]
fn tray_waits_and_stops() {
    assert_eq!(tray_wait_ms(0, true), 50);
    assert_eq!(tray_wait_ms(0, false), 500);
    assert_eq!(tray_wait_ms(10, false), 500);
    assert_eq!(tray_wait_ms(11, true), 5000);
    assert_eq!(after_menu_messages(7, 2), (0, true));
    assert_eq!(after_menu_messages(7, 0), (7, false));
    assert_eq!(tray_after_wait(3, TrayWaitOutcome::TimedOut), TrayNext::Continue(4));
    assert_eq!(tray_after_wait(3, TrayWaitOutcome::Received(TrayMessage::ShowWindow)), TrayNext::Continue(0));
    assert_eq!(tray_after_wait(3, TrayWaitOutcome::Received(TrayMessage::Exit)), TrayNext::Stop);
    assert_eq!(tray_after_wait(3, TrayWaitOutcome::Disconnected), TrayNext::Stop);
}

#[test]
fn tray_icon_attempts() {
    let delays: Vec<u64> = (0..4).map(icon_retry_delay_ms).collect();
    assert_eq!(delays, vec![100, 200, 400, 800]);
    assert_eq!(next_icon_config(TrayIconConfig::FirstAttempt), Some(TrayIconConfig::SecondAttempt));
    assert_eq!(next_icon_config(TrayIconConfig::Fallback), None);
    assert_eq!(tray_title_of(TrayIconConfig::FirstAttempt, 42, 1700, 9), "RSS_42_1700");
    assert_eq!(tray_title_of(TrayIconConfig::SecondAttempt, 42, 1700, 9), "Reader_42_9");
    assert_eq!(tray_title_of(TrayIconConfig::ThirdAttempt, 42, 1700, 9), "App_1700_9");
    assert_eq!(tray_title_of(TrayIconConfig::Fallback, 12345, 1700, 9), "R345_9");
    assert_eq!(tray_title(TrayIconConfig::FirstAttempt, 1, 2), "RSS_1_2");
    assert!(tray_title(TrayIconConfig::Fallback, 2001, 2).starts_with("R1_"));
}

// ----- window state -----

#[test]
fn loaded_feeds_choose_the_first() {
    let mut s = ViewState::new(100);
    assert_eq!(s.selected_feed_id, Some(-1));
    assert_eq!(s.auto_update_interval, 30);
    s.selected_feed_id = None;
    s.is_importing = true;
    let e = s.handle_message(UiMessage::FeedsLoaded(vec![feed(5), feed(6)]), 0);
    assert_eq!(s.selected_feed_id, Some(5));
    assert!(!s.is_importing);
    assert_eq!(s.feeds.len(), 2);
    assert!(matches!(e.as_slice(), [UiEffect::Repaint]));
    let e = s.handle_message(UiMessage::FeedsLoaded(vec![feed(8)]), 0);
    assert_eq!(s.selected_feed_id, Some(5));
    assert_eq!(e.len(), 1);
}

#[test]
fn articles_loaded_outside_search_mode_only() {
    let mut s = ViewState::new(0);
    s.is_refreshing = true;
    s.is_window_visible = false;
    let e = s.handle_message(UiMessage::ArticlesLoaded(vec![article(1, "a")]), 0);
    assert!(e.is_empty());
    assert!(!s.is_refreshing);
    assert_eq!(s.articles.len(), 1);
    s.is_search_mode = true;
    s.is_window_visible = true;
    let e = s.handle_message(UiMessage::ArticlesLoaded(vec![]), 0);
    assert_eq!(s.articles.len(), 1);
    assert!(matches!(e.as_slice(), [UiEffect::Repaint]));
}

#[test]
fn errors_are_cut_and_end_operations() {
    let long = "a".repeat(200);
    assert_eq!(error_status(&long), format!("错误: {}...", "a".repeat(150)));
    assert_eq!(error_status("boom"), "错误: boom");
    // Sixty CJK characters are 180 bytes: marked as cut though all are shown.
    let cjk = "中".repeat(60);
    assert_eq!(error_status(&cjk), format!("错误: {}...", cjk));
    let mut s = ViewState::new(0);
    s.is_exporting = true;
    s.show_web_content = true;
    let e = s.handle_message(UiMessage::Error("boom".to_string()), 0);
    assert_eq!(s.status_message, "错误: boom");
    assert!(!s.is_exporting && !s.show_web_content);
    assert!(matches!(e.as_slice(), [UiEffect::Repaint]));
}

#[test]
fn selecting_an_article_marks_it_read() {
    let mut s = ViewState::new(0);
    s.articles = vec![article(1, "a"), article(2, "b")];
    s.translated_article = Some(("t".to_string(), "c".to_string()));
    let e = s.handle_message(UiMessage::SelectArticle(2), 0);
    assert_eq!(s.selected_article_id, Some(2));
    assert!(s.articles[1].is_read && !s.articles[0].is_read);
    assert!(s.translated_article.is_none());
    assert!(matches!(e.as_slice(), [UiEffect::MarkedRead(2), UiEffect::Repaint]));
    let e = s.handle_message(UiMessage::SelectArticle(2), 0);
    assert!(matches!(e.as_slice(), [UiEffect::Repaint]));
    let e = s.handle_message(UiMessage::SelectArticle(9), 0);
    assert_eq!(s.selected_article_id, Some(2));
    assert!(matches!(e.as_slice(), [UiEffect::LoadAllThenSelect(9), UiEffect::EndFrame]));
}

#[test]
fn search_results_keep_a_listed_selection_only() {
    let mut s = ViewState::new(0);
    s.selected_article_id = Some(1);
    s.handle_message(UiMessage::SearchResults(vec![article(1, "a")]), 0);
    assert!(s.is_search_mode);
    assert_eq!(s.selected_article_id, Some(1));
    s.handle_message(UiMessage::SearchResults(vec![article(3, "c")]), 0);
    assert_eq!(s.selected_article_id, None);
    s.is_searching = true;
    s.handle_message(UiMessage::SearchCompleted, 0);
    assert!(!s.is_searching);
    let e = s.handle_message(UiMessage::SearchArticles("rust".to_string(), 4), 0);
    match e.as_slice() {
        [UiEffect::Search(q, 4, shown)] => {
            assert_eq!(q, "rust");
            assert_eq!(shown.len(), 1);
        }
        _ => panic!("a search"),
    }
}

#[test]
fn status_marks_stream_and_refresh() {
    let mut s = ViewState::new(0);
    s.articles = vec![article(1, "a")];
    let e = s.handle_message(UiMessage::ArticleStatusUpdated(1, true, true), 0);
    assert!(s.articles[0].is_read && s.articles[0].is_starred);
    assert_eq!(e.len(), 1);
    let e = s.handle_message(UiMessage::ArticleStatusUpdated(5, true, true), 0);
    assert!(e.is_empty());
    s.handle_message(UiMessage::AIStreamData("Hel".to_string()), 0);
    s.handle_message(UiMessage::AIStreamData("lo".to_string()), 0);
    assert_eq!(s.ai_stream_response, "Hello");
    let e = s.handle_message(UiMessage::AIStreamEnd, 0);
    assert!(s.ai_stream_response.is_empty());
    assert!(matches!(e.as_slice(), [UiEffect::SaveAssistantReply(r), UiEffect::Repaint] if r == "Hello"));
    s.is_refreshing = true;
    s.selected_feed_id = Some(3);
    let e = s.handle_message(UiMessage::AllFeedsRefreshed, 777);
    assert_eq!(s.last_refresh_time, 777);
    assert!(!s.is_refreshing);
    assert!(matches!(e.as_slice(), [UiEffect::ReloadFeeds, UiEffect::LoadArticles(3, true)]));
    let e = s.handle_message(UiMessage::FeedRefreshed(3), 0);
    assert!(matches!(e.as_slice(), [UiEffect::LoadArticles(3, true)]));
    let e = s.handle_message(UiMessage::FeedRefreshed(4), 0);
    assert!(e.is_empty());
    let e = s.handle_message(UiMessage::ClearSelectedFeed, 0);
    assert_eq!(s.selected_feed_id, Some(-1));
    assert!(matches!(e.as_slice(), [UiEffect::LoadAllArticles(true)]));
}

#[test]
fn refresh_schedule() {
    let mut s = ViewState::new(0);
    let e = s.handle_message(UiMessage::UpdateIntervalLoaded(15), 0);
    assert_eq!(s.auto_update_interval, 15);
    assert!(matches!(e.as_slice(), [UiEffect::StartAutoUpdate]));
    let e = s.handle_message(UiMessage::AutoUpdateEnabledChanged(false), 0);
    assert!(!s.auto_update_enabled);
    assert!(matches!(e.as_slice(), [UiEffect::StopAutoUpdate]));
    let e = s.handle_message(UiMessage::UpdateIntervalLoaded(20), 0);
    assert!(e.is_empty());
    assert_eq!(countdown_secs(true, 1000, 30, 1500), 1300);
    assert_eq!(countdown_secs(true, 1000, 1, 5000), 0);
    assert_eq!(countdown_secs(false, 1000, 30, 1500), 0);
    assert!(auto_refresh_due(false, 5, 1300, 1000));
    assert!(!auto_refresh_due(false, 5, 1299, 1000));
    assert!(!auto_refresh_due(true, 5, 9999, 1000));
    assert!(!auto_refresh_due(false, 0, 9999, 1000));
}

#[test]
fn search_box_debounce_and_run() {
    assert_eq!(debounce(true, None, 300), Debounce::Wait(300));
    assert_eq!(debounce(false, Some(120), 300), Debounce::Wait(180));
    assert_eq!(debounce(false, Some(300), 300), Debounce::Search);
    assert_eq!(debounce(false, None, 300), Debounce::Idle);
    let mut s = ViewState::new(0);
    s.search_input = "rust".to_string();
    s.selected_feed_id = None;
    let e = s.execute_search();
    assert!(s.is_searching);
    assert_eq!(s.search_query, "rust");
    assert!(matches!(e.as_slice(), [UiEffect::SendSearch(q, -1)] if q == "rust"));
    s.search_input = String::new();
    s.is_search_mode = true;
    s.selected_feed_id = Some(2);
    let e = s.execute_search();
    assert!(!s.is_searching && !s.is_search_mode);
    assert!(matches!(e.as_slice(), [UiEffect::RefreshArticles(2)]));
}

#[test]
fn frames_visibility_and_reloads() {
    let mut s = ViewState::new(0);
    assert!(s.start_frame(5));
    assert!(s.is_initializing);
    s.feeds = vec![feed(1)];
    s.selected_feed_id = Some(1);
    assert!(!s.start_frame(5));
    assert_eq!(s.articles.len(), 1);
    assert_eq!(s.articles[0].guid, "test-article-example-1");
    assert_eq!(s.articles[0].feed_id, 1);
    s.was_window_visible = false;
    let e = s.check_visibility();
    assert!(s.was_window_visible);
    assert!(matches!(e.as_slice(), [UiEffect::RefreshArticles(1), UiEffect::Repaint]));
    assert!(s.check_visibility().is_empty());
    s.selected_article_id = Some(1);
    let e = s.apply_reloaded_articles(vec![article(4, "d")]);
    assert_eq!(s.selected_article_id, None);
    assert_eq!(s.articles[0].id, 4);
    assert_eq!(e.len(), 1);
}

// ----- first start -----

#[test]
fn welcome_feed_and_articles() {
    let f = welcome_feed();
    assert_eq!(f.url, "example://welcome");
    assert_eq!(f.group, "默认分组");
    assert!(f.auto_update && f.enable_notification && !f.ai_auto_translate);
    assert_eq!(welcome_guid(1700000000), "welcome-article-1700000000");
    let a = stored_welcome_article(9, 5, 42);
    assert_eq!(a.guid, "welcome-article-42");
    assert_eq!(a.feed_id, 9);
    assert_eq!(a.id, 0);
    let m = memory_welcome_article(5);
    assert_eq!((m.id, m.feed_id), (-1, -1));
    assert_eq!(m.guid, "memory-welcome-article");
    let shown = startup_feeds(vec![], Some(12));
    assert_eq!(shown.len(), 1);
    assert_eq!(shown[0].id, 12);
    assert_eq!(shown[0].title, "欢迎使用 Rust RSS 阅读器");
    assert_eq!(startup_feeds(vec![], None)[0].id, -1);
    assert_eq!(startup_feeds(vec![feed(3)], None)[0].id, 3);
    assert_eq!(startup_articles(&[]), StartupArticles::Nothing);
    assert_eq!(startup_articles(&startup_feeds(vec![], None)), StartupArticles::Memory);
    assert_eq!(startup_articles(&[feed(3)]), StartupArticles::Stored(3));
}

// ----- OPML import, SQL export, identifiers -----

fn entry_text(e: &OpmlEntry) -> String {
    match e {
        OpmlEntry::Group(g) => format!("G:{}", g),
        OpmlEntry::Feed(t, u, g, l) => format!("F:{}|{}|{}|{}", t, u, g, l),
    }
}

#[test]
fn opml_import_walks_the_outlines() {
    let doc = r#"<opml version="2.0"><head/><body>
        <outline text="Tech"><outline type="rss" text=" Blog " xmlUrl=" http://b/rss " htmlUrl="http://b"/><outline type="rss" title="Dup" xmlUrl="http://old/rss"/></outline>
        <outline type="rss" xmlUrl="http://s/rss"/>
        <outline type="rss" text="Again" xmlUrl="http://s/rss"/>
        </body></opml>"#;
    let plan = opml_import_plan(doc, &vec!["http://old/rss".to_string()]).expect("a valid document");
    let texts: Vec<String> = plan.iter().map(entry_text).collect();
    assert_eq!(
        texts,
        vec![
            "F:Again|http://s/rss||".to_string(),
            "G:Tech".to_string(),
            "F:Blog|http://b/rss|Tech|http://b".to_string(),
        ]
    );
    assert!(opml_import_plan("<opml version=\"3.0\"><body><outline text=\"a\"/></body></opml>", &vec![]).is_err());
    assert!(opml_import_plan("<opml version=\"2.0\"><body></body></opml>", &vec![]).is_err());
    assert!(opml_import_plan("not xml", &vec![]).is_err());
    let plan = opml_import_plan(r#"<opml version="1.0"><body><outline type="rss" xmlUrl="u"/></body></opml>"#, &vec![]).unwrap();
    assert_eq!(plan.iter().map(entry_text).collect::<Vec<_>>(), vec!["F:未知标题|u||".to_string()]);
    let f = imported_feed("t".into(), "u".into(), "g".into(), "l".into());
    assert_eq!((f.id, f.title.as_str(), f.group.as_str(), f.link.as_str()), (0, "t", "g", "l"));
    assert!(f.auto_update && f.enable_notification && f.description.is_empty());
}

#[test]
fn sql_script_and_imported_ids() {
    assert_eq!(export_tables(), vec!["feed_groups", "feeds", "articles", "settings"]);
    let s = sql_export_script("NOW", &["C1".to_string(), "C2".to_string()], &["I1".to_string()], &[]);
    assert_eq!(
        s,
        "-- RSS Rust Reader 数据库导出\n-- 导出时间: NOW\n-- 支持DuckDB\n\n-- 表结构创建语句\nC1\nC2\n\n-- 数据插入语句\nI1\n\n-- 索引创建语句\n"
    );
    let map = [(1, 10), (2, 20), (1, 11)];
    assert_eq!(imported_feed_id(&map, 1), 11);
    assert_eq!(imported_feed_id(&map, 2), 20);
    assert_eq!(imported_feed_id(&map, 3), 3);
}

#[test]
fn unique_identifiers() {
    assert_eq!(unique_id_of(12, 34), "12-34");
    assert_eq!(unique_id_of(-5, 0), "-5-0");
    let id = generate_unique_id();
    let (t, r) = id.rsplit_once('-').expect("two numbers");
    assert!(t.parse::<i64>().is_ok() && r.parse::<u32>().is_ok());
}

#[test]
fn assistant_preview_and_icons() {
    let mut state = AppState::new();
    let mut a = article(1, "T1");
    a.content = "C1".to_string();
    let mut b = article(2, "T2");
    b.content = "C2".to_string();
    state.articles = vec![a, b];
    state.select_article(2);
    state.select_article(1);
    assert_eq!(state.ai_send_preview(AISendContentType::TitleOnly), "T1\n\nT2\n\n");
    assert_eq!(state.ai_send_preview(AISendContentType::ContentOnly), "C1\n\nC2\n\n");
    assert_eq!(state.ai_send_preview(AISendContentType::Both), "T1\n\nC1\n\nT2\n\nC2\n\n");
    state.deselect_article(1);
    assert_eq!(state.ai_send_preview(AISendContentType::TitleOnly), "T2\n\n");
    assert_eq!(favicon_candidate("https://blog.example.org/feed.xml"), Some("https://blog.example.org/favicon.ico".to_string()));
    assert_eq!(favicon_candidate("no scheme"), None);
}

#[test]
fn index_exposes_each_feed() {
    let mut index = ArticleIndex::new();
    let mut a = article(1, "rust news");
    a.feed_id = 3;
    let mut b = article(2, "other");
    b.feed_id = 4;
    index.add_articles(vec![a, b]);
    let feeds = index.feed_indexes();
    assert_eq!(feeds.iter().map(|f| f.feed_id).collect::<Vec<_>>(), vec![3, 4]);
    assert_eq!(feeds[0].index.article_count(), 1);
    assert!(feeds[0].index.full_text_of(1).is_some());
    assert!(feeds[0].index.full_text_of(2).is_none());
}

#[test]
fn new_article_announcements() {
    assert!(new_articles_batch("Blog", &[], true, 5).is_none());
    assert!(new_articles_batch("Blog", &["a".to_string()], false, 5).is_none());
    let b = new_articles_batch("Blog", &["a".to_string(), "b".to_string()], true, 5).expect("a batch");
    assert_eq!(b.len(), 2);
    assert_eq!(b[1].0, "Blog");
    assert_eq!(b[1].1.title, "b");
    assert_eq!(b[1].1.pub_date, 5);
    assert!(b[1].1.guid.is_empty() && b[1].1.id == 0);
    assert!(uses_direct_search("direct_search", true));
    assert!(!uses_direct_search("direct_search", false));
    assert!(!uses_direct_search("index_search", true));
}

#[test]
fn subscription_list_is_grouped_and_sorted() {
    let mk = |id: i64, title: &str, group: &str| {
        let mut f = feed(id);
        f.title = title.to_string();
        f.group = group.to_string();
        f
    };
    let feeds = vec![mk(1, "b", "Tech"), mk(2, "z", ""), mk(3, "a", "Tech"), mk(4, "m", "Art"), mk(5, "a", "")];
    let groups = sidebar_groups(&feeds);
    let names: Vec<&str> = groups.iter().map(|(g, _)| g.as_str()).collect();
    assert_eq!(names, vec!["", "Art", "Tech"]);
    let ids: Vec<Vec<i64>> = groups.iter().map(|(_, fs)| fs.iter().map(|f| f.id).collect()).collect();
    assert_eq!(ids, vec![vec![5, 2], vec![4], vec![3, 1]]);
}

#[test]
fn editing_a_subscription() {
    let feeds = vec![feed(1), feed(2)];
    let f = edited_feed(&feeds, 2, "New".into(), "http://n".into(), "G".into(), false, false, true).expect("edited");
    assert_eq!((f.id, f.title.as_str(), f.url.as_str(), f.group.as_str()), (2, "New", "http://n", "G"));
    assert!(!f.auto_update && !f.enable_notification && f.ai_auto_translate);
    assert_eq!(f.language, feeds[1].language);
    assert_eq!(
        edited_feed(&feeds, 2, String::new(), "u".into(), "G".into(), true, true, false).unwrap_err(),
        "标题和URL不能为空"
    );
    assert_eq!(
        edited_feed(&feeds, 9, "t".into(), "u".into(), "G".into(), true, true, false).unwrap_err(),
        "更新订阅源失败: 订阅源不存在: 9"
    );
}

#[test]
fn what_is_stored_of_fetched_articles() {
    assert_eq!(retention_cutoff(10 * 86_400_000_000_000, 3), 7 * 86_400_000_000_000);
    assert_eq!(retention_cutoff(0, u32::MAX), i64::MIN);
    let mut a = article(1, "Tom &amp; Jerry");
    a.pub_date = 100;
    assert!(retained(&a, 100) && !retained(&a, 101));
    a.is_starred = true;
    assert!(retained(&a, 101));
    assert!(same_link("http://x/a#top", "http://x/a"));
    assert!(same_link("http://x/a", "http://x/a#other"));
    assert!(!same_link("http://x/ab", "http://x/a"));
    assert!(!same_link("http://x/a/b", "http://x/a#top"));
    let mut fetched = article(5, "five");
    fetched.link = "http://x/a#sec".to_string();
    assert!(known_article(&[("g9".to_string(), "http://x/a".to_string())], &fetched));
    assert!(known_article(&[("g5".to_string(), "http://y".to_string())], &fetched));
    assert!(!known_article(&[("g9".to_string(), "http://x/ab".to_string())], &fetched));
    let s = stored_article(&a, 9);
    assert_eq!(s.feed_id, 9);
    assert_eq!(s.title, "Tom & Jerry");
    assert_eq!(s.guid, a.guid);
}

#[test]
fn imported_data_updates_known_feeds_and_skips_known_articles() {
    let stored = vec![("http://a".to_string(), 4), ("http://b".to_string(), 5), ("http://a".to_string(), 6)];
    assert!(feed_import_action(&stored, "http://a") == FeedImport::Update(4));
    assert!(feed_import_action(&stored, "http://c") == FeedImport::Insert);
    let groups = vec!["Tech".to_string()];
    assert!(!group_is_new(&groups, "Tech"));
    assert!(group_is_new(&groups, "News"));
    let mut a1 = article(1, "one");
    a1.feed_id = 1;
    let mut a2 = article(2, "two");
    a2.feed_id = 9;
    let a3 = article(3, "three");
    let dup = article(2, "two again");
    let stored_guids = vec!["g3".to_string()];
    let out = articles_to_import(&stored_guids, &[a1, a2, a3, dup], &[(1, 40)]);
    assert_eq!(out.len(), 2);
    assert_eq!((out[0].id, out[0].feed_id), (1, 40));
    assert_eq!((out[1].id, out[1].feed_id, out[1].title.as_str()), (2, 9, "two"));
}

#[test]
fn update_interval_and_theme() {
    assert_eq!(stored_update_interval(None), 30);
    assert_eq!(stored_update_interval(Some(5)), 5);
    assert_eq!(checked_update_interval(1), Ok(1));
    assert_eq!(checked_update_interval(1440), Ok(1440));
    assert_eq!(checked_update_interval(0), Err("更新间隔必须在1-1440分钟之间".to_string()));
    assert_eq!(checked_update_interval(1441), Err("更新间隔必须在1-1440分钟之间".to_string()));
    assert!(is_dark_mode("dark", false));
    assert!(is_dark_mode("system", true));
    assert!(!is_dark_mode("system", false));
    assert!(!is_dark_mode("light", true));
}

#[test]
fn instants_are_shown_with_a_time_or_a_date() {
    let now = std::time::SystemTime::now().duration_since(std::time::UNIX_EPOCH).unwrap().as_nanos() as i64;
    let today = format_datetime(now);
    assert!(today.len() >= 5 && today.contains(':'));
    let old = format_datetime(0);
    assert_eq!(old.chars().count(), 10);
    assert!(old.starts_with("19"));
}
