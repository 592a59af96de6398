use rust_rss_reader::ai_client::{
    assemble_stream, first_choice, stream_chunk_pieces, AIChatSession, AIClient, AIClientError, AIMessage, SseBuffer,
    StreamChunk,
};
use rust_rss_reader::cache_manager::CacheManager;
use rust_rss_reader::config::AppConfig;
use rust_rss_reader::content::{
    extract_image_src, extract_link_url, extract_main_content, extract_tag_content,
    process_html_tag, resolve_url,
};
use rust_rss_reader::export::{
    export_opml, generate_create_index_sql, generate_create_table_sql, generate_insert_sql,
    ColumnInfo, IndexInfo, SqlValue,
};
use rust_rss_reader::feeds::{
    direct_search_articles, feed_exists, get_group_stats, get_new_articles, new_feed,
    search_feeds,
};
use rust_rss_reader::markup::{escape_xml, remove_url_anchor, strip_tags};
use rust_rss_reader::models::{filter_and_sort_articles, AppState, Article, Feed};
use rust_rss_reader::notify::{
    clean_notification_queue,
    notice_action, notices_for, truncate_text, view_action, NoticeAction, NotificationConfig,
};
use rust_rss_reader::reader::{parse_html, Part};
use rust_rss_reader::search::{is_chinese_char, is_meaningful_term, tokenize, ArticleIndex, SearchOutcome};
use rust_rss_reader::search_cache::{search_key, SearchLookup, SearchManager, SEARCH_CACHE_LIMIT, SEARCH_CACHE_TTL_MS};
use rust_rss_reader::syndication::{
    extract_images, extract_rss_link_from_html, feed_source, generate_example_articles,
    generate_opml_at, import_from_string, parse_atom_content, parse_feed_body, parse_pub_date,
    fetch_start, try_decompress_gzip, FeedSource, FetchStart, RssError,
};
use rust_rss_reader::timefmt::{convert_to_configured_timezone, format_local, LocalView};
use rust_rss_reader::updates::{feed_from_form, retry_delay_ms, update_summary, FeedCache};

fn article(id: i64, feed_id: i64, title: &str, date: i64) -> Article {
    Article {
        id,
        feed_id,
        title: title.to_string(),
        link: format!("http://x/{}", id),
        author: "Ann".to_string(),
        pub_date: date,
        content: format!("content of {}", title),
        summary: String::new(),
        is_read: false,
        is_starred: false,
        source: "s".to_string(),
        guid: format!("g{}", id),
    }
}

fn feed(id: i64, title: &str, url: &str, group: &str) -> Feed {
    Feed {
        id,
        title: title.to_string(),
        url: url.to_string(),
        group: group.to_string(),
        group_id: None,
        last_updated: None,
        description: String::new(),
        language: String::new(),
        link: format!("l{}", id),
        favicon: None,
        auto_update: true,
        enable_notification: true,
        ai_auto_translate: false,
    }
}

// ----- text and markup -----

#[test]
fn escaping_and_tags() {
    assert_eq!(escape_xml("<a&'\">"), "&lt;a&amp;&apos;&quot;&gt;");
    assert_eq!(strip_tags("<p>hi</p> there <b>x"), "hi there x");
    assert_eq!(strip_tags("a < b"), "a < b");
    assert_eq!(remove_url_anchor("http://a/b#c"), "http://a/b");
    assert_eq!(remove_url_anchor("http://a/b"), "http://a/b");
}

#[test]
fn escaped_xml_has_no_markup_characters() {
    let e = escape_xml("<tag attr=\"v\">it's & done</tag>");
    assert!(!e.contains('<') && !e.contains('>') && !e.contains('"') && !e.contains('\''));
    assert_eq!(e, "&lt;tag attr=&quot;v&quot;&gt;it&apos;s &amp; done&lt;/tag&gt;");
}

// ----- content and reader -----

#[test]
fn resolving_links() {
    assert_eq!(resolve_url("https://o.com/x".to_string(), "https://a.com/p"), "https://o.com/x");
    assert_eq!(resolve_url("/a/b.png".to_string(), "https://site.com/x/y"), "https://site.com/a/b.png");
    assert_eq!(resolve_url("/a".to_string(), "https://site.com"), "https://site.com/a");
    assert_eq!(resolve_url("//cdn.com/x".to_string(), "https://a.com"), "https://cdn.com/x");
    assert_eq!(
        resolve_url("img.png".to_string(), "https://a.com/dir/page.html"),
        "https://a.com/dir/img.png"
    );
    assert_eq!(
        resolve_url("../up.png".to_string(), "https://a.com/d1/d2/p"),
        "https://a.com/d1/up.png"
    );
    assert_eq!(resolve_url("x".to_string(), "nobase"), "x");
    assert_eq!(resolve_url("c.png".to_string(), "https://example.com/a/b.html"), "https://example.com/a/c.png");
    assert_eq!(resolve_url("c.png".to_string(), "https://example.com"), "https://example.com/c.png");
    assert_eq!(resolve_url("./c.png".to_string(), "http://example.com/"), "http://example.com/c.png");
    assert_eq!(resolve_url("c.png".to_string(), "dir/page.html"), "dir/c.png");
}

#[test]
fn tags_and_attributes() {
    assert_eq!(process_html_tag("<a href=\"x\">"), "<a ");
    assert_eq!(process_html_tag("<br/>"), "<br/>");
    assert_eq!(process_html_tag("<IMG src=\"a\">"), "<IMG src=\"a\">");
    assert_eq!(process_html_tag("<div class=\"c\">"), "<div ");
    assert_eq!(process_html_tag("<p>"), "<p>");
    assert_eq!(extract_tag_content("<b>bold</b>"), Some("bold".to_string()));
    assert_eq!(extract_tag_content("<b>"), None);
    assert_eq!(extract_link_url("<a href=\"http://x.com\" class=\"y\">"), Some("http://x.com".to_string()));
    assert_eq!(extract_link_url(r#"<a href="http://x.com/p">"#), Some("http://x.com/p".to_string()));
    assert_eq!(extract_link_url("<a href=x.html title=t>"), Some("x.html".to_string()));
    assert_eq!(extract_link_url("<a name=\"n\">"), None);
    assert_eq!(extract_image_src("<img src=\"a.png\">"), Some("a.png".to_string()));
    assert_eq!(extract_image_src("<img src='b.png'>"), Some("b.png".to_string()));
    assert_eq!(extract_image_src("<img src = c.png>"), Some("c.png".to_string()));
    assert_eq!(extract_image_src("<img alt=\"x\">"), None);
}

#[test]
fn main_content_is_found() {
    assert_eq!(
        extract_main_content("<html><main><p>x</p></main><footer/></html>"),
        "<main><p>x</p></main>"
    );
    assert_eq!(
        extract_main_content("<div class=\"post\"><div>a</div>b</div>tail"),
        "<div class=\"post\"><div>a</div>b</div>"
    );
    assert_eq!(extract_main_content("<p>plain</p>"), "<p>plain</p>");
}

#[test]
fn html_is_parsed_into_parts() {
    let parts = parse_html("Hello <ul><li>one<li>two</ul> end", "");
    assert_eq!(parts.len(), 3);
    match &parts[0] {
        Part::Text(t) => assert_eq!(t, "Hello "),
        _ => panic!("text first"),
    }
    match &parts[1] {
        Part::List(items, ordered) => {
            assert_eq!(items, &vec!["one".to_string(), "two".to_string()]);
            assert!(!ordered);
        }
        _ => panic!("a list"),
    }
    match &parts[2] {
        Part::Text(t) => assert_eq!(t, " end"),
        _ => panic!("text last"),
    }
    let parts = parse_html("<pre>code</pre><p>para</p>", "");
    assert!(matches!(&parts[0], Part::Code(c) if c == "code"));
    // Text before a closing tag is flushed when the tag opens, so a paragraph
    // arrives as plain text.
    assert!(matches!(&parts[1], Part::Text(p) if p == "para"));
    assert_eq!(parts.len(), 2);
}

// ----- search -----

#[test]
fn tokens_are_distinct_and_lower_case() {
    let t = tokenize("Hello World hello");
    assert!(t.contains(&"hello".to_string()));
    assert!(t.contains(&"world".to_string()));
    let mut seen = std::collections::HashSet::new();
    for x in &t {
        assert!(seen.insert(x.clone()));
    }
    assert!(is_chinese_char('中'));
    assert!(!is_chinese_char('a'));
    assert!(is_meaningful_term("ab"));
    assert!(!is_meaningful_term("!!"));
    assert!(!is_meaningful_term("a"));
    // A CJK pair counts two characters against six bytes, so only the whole
    // word is a term.
    assert!(!is_meaningful_term("中文"));
    assert_eq!(tokenize("中文搜索"), vec!["中文搜索".to_string()]);
    assert_eq!(tokenize("ab cd"), vec!["ab", "cd", "b ", " c", "ab ", "b c", " cd", "ab c", "b cd"]
            .into_iter()
            .map(String::from)
            .collect::<Vec<String>>());
}

#[test]
fn index_finds_and_forgets_articles() {
    let mut index = ArticleIndex::new();
    index.add_article(article(1, 10, "Rust language", 5));
    index.add_article(article(2, 10, "Cooking", 6));
    index.add_article(article(3, 20, "Rust again", 7));
    assert_eq!(index.len(), 3);
    assert!(!index.is_empty());
    let outcomes = index.search_candidates("rust", -1);
    assert_eq!(outcomes.len(), 2);
    match &outcomes[0] {
        SearchOutcome::Ranked { candidates, terms, .. } => {
            assert_eq!(candidates.len(), 1);
            assert_eq!(candidates[0].id, 1);
            assert!(terms.contains(&"rust".to_string()));
        }
        _ => panic!("feed 10 holds the term"),
    }
    assert_eq!(index.search_candidates("   ", -1).len(), 0);
    index.remove_article(1, 10);
    let outcomes = index.search_candidates("rust", 10);
    assert_eq!(outcomes.len(), 1);
    match &outcomes[0] {
        SearchOutcome::Substring(found) => assert!(found.is_empty()),
        SearchOutcome::Ranked { candidates, .. } => assert!(candidates.is_empty()),
        SearchOutcome::Empty => panic!("the query has terms"),
    }
    index.remove_articles_by_feed(20);
    assert_eq!(index.len(), 1);
    index.clear();
    assert!(index.is_empty());
}

#[test]
fn search_keys_hold_the_trimmed_query_and_feed() {
    assert_eq!(search_key("  rust lang ", -1), "rust lang:-1");
    assert_eq!(search_key("news", 42), "news:42");
}

#[test]
fn search_results_are_cached_until_the_index_changes() {
    let mut m = SearchManager::new();
    m.add_article(article(1, 10, "Rust language", 5));
    assert!(matches!(m.lookup("   ", -1, 0), SearchLookup::Blank));
    let key = match m.lookup(" rust ", -1, 1000) {
        SearchLookup::Miss { key, outcomes } => {
            assert_eq!(outcomes.len(), 1);
            key
        }
        _ => panic!("nothing is cached yet"),
    };
    assert_eq!(key, "rust:-1");
    m.cache_results(&key, vec![article(1, 10, "Rust language", 5)], 1000);
    match m.lookup("rust", -1, 1000 + SEARCH_CACHE_TTL_MS) {
        SearchLookup::Cached(found) => {
            assert_eq!(found.len(), 1);
            assert_eq!(found[0].id, 1);
        }
        _ => panic!("the results are still valid"),
    }
    assert!(matches!(m.lookup("rust", -1, 1001 + SEARCH_CACHE_TTL_MS), SearchLookup::Miss { .. }));
    assert!(m.cached_results("rust:-1", 2000).is_some());
    m.add_article(article(2, 10, "Rust again", 6));
    assert!(m.cached_results("rust:-1", 2000).is_none());
    assert_eq!(m.len(), 2);
    m.cache_results("rust:-1", Vec::new(), 3000);
    m.remove_article(2, 10);
    assert!(m.cached_results("rust:-1", 3000).is_none());
    m.clear();
    assert!(m.is_empty());
}

#[test]
fn search_cache_drops_stale_and_excess_results() {
    let mut m = SearchManager::new();
    m.cache_results("old:-1", Vec::new(), 0);
    m.cache_results("new:-1", Vec::new(), SEARCH_CACHE_TTL_MS + 1);
    assert!(m.cached_results("old:-1", 0).is_none());
    assert!(m.cached_results("new:-1", SEARCH_CACHE_TTL_MS + 1).is_some());
    for i in 0..SEARCH_CACHE_LIMIT {
        m.cache_results(&format!("q{}:-1", i), Vec::new(), SEARCH_CACHE_TTL_MS + 2);
    }
    assert!(m.cached_results("new:-1", SEARCH_CACHE_TTL_MS + 2).is_none());
    assert!(m.cached_results("q0:-1", SEARCH_CACHE_TTL_MS + 2).is_some());
    let last = format!("q{}:-1", SEARCH_CACHE_LIMIT - 1);
    assert!(m.cached_results(&last, SEARCH_CACHE_TTL_MS + 2).is_some());
}

#[test]
fn old_notification_times_are_forgotten() {
    let mut q: Vec<u64> = vec![1000, 50000, 70000, 130000];
    clean_notification_queue(&mut q, 125000);
    assert_eq!(q, vec![70000, 130000]);
    let mut early: Vec<u64> = vec![0, 10];
    clean_notification_queue(&mut early, 30000);
    assert_eq!(early, vec![0, 10]);
    let mut unordered: Vec<u64> = vec![70000, 1000];
    clean_notification_queue(&mut unordered, 125000);
    assert_eq!(unordered, vec![70000, 1000]);
}

#[test]
fn form_feeds_report_the_address_error() {
    let e = feed_from_form("not a url", "T", "", true, false, 7).err();
    assert_eq!(e, Some("relative URL without a base".to_string()));
    assert_eq!(feed_from_form("", "T", "", true, false, 7).err(), Some("URL和标题不能为空".to_string()));
    let f = feed_from_form("http://a.example/rss", "T", "G", false, true, 7).unwrap();
    assert_eq!(f.url, "http://a.example/rss");
    assert_eq!(f.last_updated, Some(7));
    assert!(f.ai_auto_translate && !f.auto_update && f.enable_notification);
}

#[test]
fn replacing_an_article_forgets_its_old_terms() {
    let mut idx = ArticleIndex::new();
    let mut a = article(1, 1, "alpha", 5);
    a.content = String::new();
    a.author = String::new();
    let mut b = a.clone();
    b.title = "beta".to_string();
    idx.add_article(a);
    idx.add_article(b);
    assert_eq!(idx.len(), 1);
    let found = |o: &SearchOutcome| -> Vec<i64> {
        match o {
            SearchOutcome::Ranked { candidates, .. } => candidates.iter().map(|c| c.id).collect(),
            SearchOutcome::Substring(v) => v.iter().map(|c| c.id).collect(),
            SearchOutcome::Empty => Vec::new(),
        }
    };
    assert!(found(&idx.search_candidates("alpha", 1)[0]).is_empty());
    assert_eq!(found(&idx.search_candidates("beta", 1)[0]), vec![1]);
}

#[test]
fn streamed_replies_are_assembled_from_the_payloads() {
    let chunks = vec![
        Some(StreamChunk { contents: vec![Some("Hel".to_string()), None] }),
        None,
        Some(StreamChunk { contents: vec![] }),
        Some(StreamChunk { contents: vec![Some("lo".to_string()), Some("!".to_string())] }),
    ];
    let (full, pieces) = assemble_stream(&chunks);
    assert_eq!(full, "Hello!");
    assert_eq!(pieces, vec!["Hel".to_string(), "lo".to_string(), "!".to_string()]);
    assert_eq!(stream_chunk_pieces(&chunks[3]), vec!["lo".to_string(), "!".to_string()]);
    assert!(stream_chunk_pieces(&None).is_empty());
    assert_eq!(first_choice(vec!["a".to_string(), "b".to_string()]).ok(), Some("a".to_string()));
    match first_choice(Vec::new()) {
        Err(AIClientError::ApiError(m)) => assert_eq!(m, "没有返回有效的回复"),
        _ => panic!("no choice is an error"),
    }
}

#[test]
fn a_failed_request_keeps_the_user_turn() {
    let client = AIClient::new("http://x", "k", "m").unwrap();
    let mut session = AIChatSession::new(client);
    session.push_user_message("hi");
    let r = session.receive_reply(Err(AIClientError::Timeout));
    assert!(matches!(r, Err(AIClientError::Timeout)));
    assert_eq!(session.get_messages().len(), 1);
    assert_eq!(session.get_messages()[0].content, "hi");
    let r = session.receive_reply(Ok("hello".to_string()));
    assert_eq!(r.ok(), Some("hello".to_string()));
    assert_eq!(session.get_messages().len(), 2);
    assert_eq!(session.get_messages()[1].role, "assistant");
    assert_eq!(session.get_messages()[1].content, "hello");
}

#[test]
fn fetching_begins_by_the_kind_of_address() {
    assert!(matches!(fetch_start("https://a/rss", 1, 1), FetchStart::Request));
    match fetch_start("ftp://example.com/rss.xml", 1, 1) {
        FetchStart::Refuse(RssError::NetworkError(m)) => assert_eq!(m, "Invalid URL format"),
        _ => panic!("an ftp address is refused"),
    }
    match fetch_start("example://welcome", 1, 1) {
        FetchStart::Answer(v) => assert_eq!(v.len(), 1),
        _ => panic!("example addresses are answered"),
    }
}

// ----- feeds -----

#[test]
fn syndication_dates() {
    assert_eq!(parse_pub_date(" Mon, 01 Jan 2024 00:00:00 +0000 "), Some(1_704_067_200_000_000_000));
    assert_eq!(parse_pub_date("2024-01-01T00:00:00Z"), Some(1_704_067_200_000_000_000));
    assert_eq!(parse_pub_date("yesterday"), None);
}

#[test]
fn rss_documents_become_articles() {
    let doc = "<?xml version=\"1.0\"?><rss version=\"2.0\"><channel><title>Feed</title><link>http://x</link><description>d</description><item><title>First &amp; best</title><link>http://x/1</link><guid>g1</guid><pubDate>Mon, 01 Jan 2024 00:00:00 +0000</pubDate><description>Hello</description></item><item><title>Second</title><link>http://x/2</link></item></channel></rss>";
    let articles = parse_feed_body("http://x/rss", doc.as_bytes(), "", 42).expect("a valid feed");
    assert_eq!(articles.len(), 2);
    assert_eq!(articles[0].title, "First & best");
    assert_eq!(articles[0].link, "http://x/1");
    assert_eq!(articles[0].guid, "g1");
    assert_eq!(articles[0].author, "Unknown");
    assert_eq!(articles[0].source, "Feed");
    assert_eq!(articles[0].pub_date, 1_704_067_200_000_000_000);
    assert_eq!(articles[1].guid, "http://x/2");
    assert_eq!(articles[1].pub_date, 42);
    match parse_feed_body("u", b"", "", 0) {
        Err(RssError::NetworkError(m)) => assert_eq!(m, "服务器返回空内容"),
        _ => panic!("empty body"),
    }
    match parse_feed_body("u", b"hello", "", 0) {
        Err(RssError::NetworkError(m)) => assert_eq!(m, "服务器返回无效的XML内容"),
        _ => panic!("not xml"),
    }
}

#[test]
fn atom_documents_become_articles() {
    let doc = "<?xml version=\"1.0\" encoding=\"utf-8\"?><feed xmlns=\"http://www.w3.org/2005/Atom\"><title>A</title><entry><title> Entry One </title><link rel=\"alternate\" href=\"http://a/1\"/><id>urn:1</id><updated>2024-01-01T00:00:00Z</updated><summary>Sum</summary><author><name>Bob</name></author></entry></feed>";
    let articles = parse_atom_content(doc, "http://a/feed", 5).expect("one entry");
    assert_eq!(articles.len(), 1);
    let a = &articles[0];
    assert_eq!(a.title, "Entry One");
    assert_eq!(a.link, "http://a/1");
    assert_eq!(a.guid, "urn:1");
    assert_eq!(a.author, "Bob");
    assert_eq!(a.pub_date, 1_704_067_200_000_000_000);
    assert_eq!(a.source, "http://a/feed");
    assert_eq!(a.summary, "");
    match parse_atom_content("<feed xmlns=\"http://www.w3.org/2005/Atom\"></feed>", "u", 0) {
        Err(RssError::AtomParseError) => {}
        _ => panic!("no entries"),
    }
    match parse_atom_content("<feed", "u", 0) {
        Err(RssError::XmlError(_)) => {}
        _ => panic!("not xml"),
    }
}

#[test]
fn opml_round_trip() {
    let doc = "<opml version=\"1.0\"><body><outline text=\"Tech\" title=\"Tech\"><outline type=\"rss\" title=\"Blog\" xmlUrl=\"http://b/rss\"/></outline><outline type=\"rss\" text=\"Solo\" xmlUrl=\"http://s/rss\"/></body></opml>";
    let feeds = import_from_string(doc).expect("valid opml");
    assert_eq!(
        feeds,
        vec![
            ("Blog".to_string(), "http://b/rss".to_string(), "Tech".to_string()),
            ("Solo".to_string(), "http://s/rss".to_string(), String::new()),
        ]
    );
    let text = generate_opml_at(&[("T".to_string(), "u".to_string(), String::new())], "NOW");
    assert_eq!(
        text,
        "<?xml version=\"1.0\" encoding=\"UTF-8\"?><opml version=\"1.0\"><head><title>Rust RSS Reader Subscriptions</title><dateCreated>NOW</dateCreated><ownerName>Rust RSS Reader</ownerName></head><body><outline type=\"rss\" title=\"T\" text=\"T\" xmlUrl=\"u\"/></body></opml>"
    );
    let generated = generate_opml_at(&feeds, "NOW");
    let back = import_from_string(&generated).expect("generated opml parses");
    // Feeds without a group are written first.
    assert_eq!(
        back,
        vec![
            ("Solo".to_string(), "http://s/rss".to_string(), String::new()),
            ("Blog".to_string(), "http://b/rss".to_string(), "Tech".to_string()),
        ]
    );
    assert!(import_from_string("<opml").is_err());
}

#[test]
fn images_links_and_compression() {
    assert_eq!(
        extract_images("<p><img src=\"a.png\"><img src=\"b.png\"></p>"),
        vec!["a.png".to_string(), "b.png".to_string()]
    );
    assert_eq!(extract_images(r#"<script src="x.js"></script><img src="a.png">"#), vec!["a.png".to_string()]);
    assert!(extract_images(r#"<script src="x.js"></script>"#).is_empty());
    assert_eq!(
        extract_rss_link_from_html("<link rel=\"alternate\" type=\"application/rss+xml\" href=\"/feed.xml\">"),
        Some("/feed.xml".to_string())
    );
    assert_eq!(extract_rss_link_from_html("<p>none</p>"), None);
    assert_eq!(
        try_decompress_gzip(b"not compressed"),
        Err("Failed to decompress data with all available methods".to_string())
    );
    assert!(feed_source("example://welcome") == FeedSource::Example);
    assert!(feed_source("https://a") == FeedSource::Web);
    assert!(feed_source("ftp://a") == FeedSource::Invalid);
    let ex = generate_example_articles("example://welcome", 9, 17);
    assert_eq!(ex.len(), 1);
    assert_eq!(ex[0].title, "欢迎使用 Rust RSS 阅读器");
    assert_eq!(ex[0].guid, "example://welcome-17");
}

#[test]
fn subscriptions_are_checked_and_searched() {
    let f = new_feed("  Tech  ", "https://example.com/rss", " g ").expect("valid");
    assert_eq!(f.title, "Tech");
    assert_eq!(f.group, "g");
    assert_eq!(f.link, "https://example.com");
    assert!(f.auto_update && f.enable_notification && !f.ai_auto_translate);
    assert_eq!(new_feed("x", "not a url", "").err(), Some("无效的URL地址".to_string()));
    assert_eq!(new_feed("  ", "https://a.com", "").err(), Some("标题不能为空".to_string()));
    let feeds = vec![feed(1, "Rust Blog", "https://r", "Tech"), feed(2, "Food", "https://f", "Life"), feed(3, "Go", "https://g", "Tech")];
    let found = search_feeds(&feeds, "TECH");
    assert_eq!(found.iter().map(|f| f.id).collect::<Vec<_>>(), vec![1, 3]);
    assert!(feed_exists(&feeds, "https://f"));
    assert!(!feed_exists(&feeds, "https://x"));
    assert_eq!(get_group_stats(&feeds), vec![("Tech".to_string(), 2), ("Life".to_string(), 1)]);
}

#[test]
fn new_articles_and_direct_search() {
    let old = vec![article(1, 1, "a", 1)];
    let new = vec![article(1, 1, "a", 1), article(2, 1, "b", 2)];
    let fresh = get_new_articles(&old, &new);
    assert_eq!(fresh.len(), 1);
    assert_eq!(fresh[0].id, 2);
    let all = vec![article(1, 1, "Rust one", 1), article(2, 2, "Rust two", 3), article(3, 1, "Other", 2)];
    let hits = direct_search_articles(" RUST ", &all, -1);
    assert_eq!(hits.iter().map(|a| a.id).collect::<Vec<_>>(), vec![2, 1]);
    let hits = direct_search_articles("rust", &all, 1);
    assert_eq!(hits.iter().map(|a| a.id).collect::<Vec<_>>(), vec![1]);
    assert!(direct_search_articles("  ", &all, -1).is_empty());
}

#[test]
fn articles_are_filtered_and_sorted() {
    let mut a = vec![article(1, 1, "b", 2), article(2, 1, "a", 3), article(3, 1, "c", 1)];
    a[0].is_read = true;
    let by_date = filter_and_sort_articles(&a, false, false, true, true);
    assert_eq!(by_date.iter().map(|x| x.id).collect::<Vec<_>>(), vec![2, 1, 3]);
    let unread_by_title = filter_and_sort_articles(&a, true, false, false, false);
    assert_eq!(unread_by_title.iter().map(|x| x.id).collect::<Vec<_>>(), vec![2, 3]);
}

#[test]
fn selection_toggles() {
    let mut s = AppState::new();
    s.toggle_select_article(5);
    assert!(s.is_article_selected(5));
    s.toggle_select_article(5);
    assert!(!s.is_article_selected(5));
    assert_eq!(s.selected_articles_count(), 0);
}

// ----- notifications -----

#[test]
fn notifications() {
    assert_eq!(truncate_text("abcdef", 3), "abc...");
    assert_eq!(truncate_text("abc", 3), "abc");
    assert_eq!(view_action(12), "view_12");
    assert!(notice_action("view_12") == NoticeAction::View(12));
    assert!(notice_action("view_x") == NoticeAction::Ignored);
    assert!(notice_action("dismiss") == NoticeAction::Dismiss);
    assert!(notice_action("__closed") == NoticeAction::Closed);
    assert!(notice_action("other") == NoticeAction::Unknown);
    assert!(notice_action("view_+5") == NoticeAction::View(5));
    assert!(notice_action("view_-9223372036854775808") == NoticeAction::View(i64::MIN));
    assert!(notice_action("view_9223372036854775807") == NoticeAction::View(i64::MAX));
    assert!(notice_action("view_9223372036854775808") == NoticeAction::Ignored);
    assert!(notice_action("view_99999999999999999999") == NoticeAction::Ignored);
    assert!(notice_action("view_") == NoticeAction::Ignored);
    assert!(notice_action("view_-") == NoticeAction::Ignored);
    assert!(notice_action("view_12a") == NoticeAction::Ignored);
    assert!(notice_action("view_ 1") == NoticeAction::Ignored);
    let config = NotificationConfig { enabled: true, max_notifications: 1, timeout_ms: 100 };
    let batch = vec![("Feed".to_string(), article(7, 1, "Title", 1)), ("Feed".to_string(), article(8, 1, "T2", 1))];
    let notices = notices_for(config, &batch);
    assert_eq!(notices.len(), 1);
    assert_eq!(notices[0].summary, "[Feed] Title");
    assert_eq!(notices[0].article_id, 7);
    assert!(notices_for(config.disable(), &batch).is_empty());
}

// ----- export -----

#[test]
fn sql_script() {
    let cols = vec![
        ColumnInfo { name: "id".into(), data_type: "INTEGER".into(), not_null: 1, default_value: None, primary_key: 1 },
        ColumnInfo { name: "title".into(), data_type: "TEXT".into(), not_null: 1, default_value: Some("''".into()), primary_key: 0 },
    ];
    assert_eq!(
        generate_create_table_sql("feeds", &cols),
        "CREATE TABLE IF NOT EXISTS feeds (\n    id INTEGER PRIMARY KEY AUTOINCREMENT,\n    title TEXT NOT NULL DEFAULT '',\n    FOREIGN KEY (group_id) REFERENCES feed_groups(id) ON DELETE SET NULL\n);"
    );
    let names = vec!["a".chars().collect::<Vec<char>>(), "b".chars().collect::<Vec<char>>()];
    let rows = vec![vec![SqlValue::BigInt(-1), SqlValue::Text(b"it's".to_vec())]];
    assert_eq!(generate_insert_sql("t", &names, &rows), "-- 插入 t 表数据\nINSERT INTO t (a, b) VALUES (-1, 'it''s')\n");
    assert_eq!(generate_insert_sql("t", &names, &[]), "");
    let ix = vec![IndexInfo { name: "idx".into(), unique: true, columns: vec![vec!['a']] }];
    assert_eq!(generate_create_index_sql("t", &ix), "CREATE UNIQUE INDEX IF NOT EXISTS idx ON t (a)\n");
}

#[test]
fn store_opml_groups_sorted() {
    let feeds = vec![feed(1, "f1", "u1", "B"), feed(2, "f2", "u2", "A"), feed(3, "f3", "u3", "Uncategorized")];
    assert_eq!(
        export_opml(&feeds),
        "<?xml version=\"1.0\" encoding=\"UTF-8\"?><opml version=\"1.0\"><head><title>RSS Rust Reader Subscriptions</title></head><body>\
<outline text=\"A\" title=\"A\">\n<outline text=\"f2\" title=\"f2\" type=\"rss\" xmlUrl=\"u2\" htmlUrl=\"l2\" />\n</outline>\n\
<outline text=\"B\" title=\"B\">\n<outline text=\"f1\" title=\"f1\" type=\"rss\" xmlUrl=\"u1\" htmlUrl=\"l1\" />\n</outline>\n\
<outline text=\"f3\" title=\"f3\" type=\"rss\" xmlUrl=\"u3\" htmlUrl=\"l3\" />\n</body></opml>"
    );
}

// ----- time, updates, caches, chat, configuration -----

#[test]
fn time_zones_and_relative_dates() {
    assert_eq!(convert_to_configured_timezone(0, "UTC"), "1970-01-01 00:00:00 UTC");
    assert_eq!(convert_to_configured_timezone(0, "Nowhere/Zone"), "1970-01-01 08:00:00 (+08:00)");
    let v = LocalView { days_ago: 3, weeks_ago: 0, weekday: 2, hm: "10:00".into(), md_hm: "m".into(), ymd: "y".into() };
    assert_eq!(format_local(&v), "周三 10:00");
    let v = LocalView { days_ago: 1, weeks_ago: 0, weekday: 2, hm: "10:00".into(), md_hm: "m".into(), ymd: "y".into() };
    assert_eq!(format_local(&v), "昨天 10:00");
    let v = LocalView { days_ago: 40, weeks_ago: 5, weekday: 2, hm: "h".into(), md_hm: "m".into(), ymd: "2024-01-01".into() };
    assert_eq!(format_local(&v), "2024-01-01");
}

#[test]
fn retries_and_feed_cache() {
    assert_eq!(retry_delay_ms(0), Some(200));
    assert_eq!(retry_delay_ms(1), Some(400));
    assert_eq!(retry_delay_ms(2), None);
    assert_eq!(update_summary(3, 1), "自动更新完成: 更新成功 3 个，失败 1 个");
    let mut cache = FeedCache::new(60);
    cache.add("u", 100, vec![article(1, 1, "a", 1)]);
    assert_eq!(cache.get("u", 150).map(|v| v.len()), Some(1));
    assert!(cache.get("u", 200).is_none());
    assert!(cache.get("u", 120).is_none());
}

#[test]
fn page_cache_reads_what_was_written() {
    let mut c = CacheManager::new(Some(10));
    c.set_at("k", "v".to_string(), None, 100);
    assert_eq!(c.get_at("k", 105), Some("v".to_string()));
    assert_eq!(c.get_at("k", 111), None);
    assert_eq!(c.size(), 0);
    c.set_at("a", "1".to_string(), Some(0), 100);
    c.set_at("b", "2".to_string(), Some(5), 100);
    assert_eq!(c.clean_expired_at(200), 1);
    assert_eq!(c.size(), 1);
    assert_eq!(c.clean_expired_at(200), 0);
    assert_eq!(c.get_at("a", 10_000), Some("1".to_string()));
    c.clear_all();
    assert_eq!(c.size(), 0);
}

#[test]
fn chat_history_is_trimmed() {
    let client = AIClient::new("https://api", "key", "model").expect("complete settings");
    let mut s = AIChatSession::new(client);
    s.set_system_prompt("be brief");
    for i in 0..5 {
        s.push_user_message(&format!("question {}", i));
    }
    s.set_max_history_length(3);
    let m = s.get_messages();
    assert_eq!(m.len(), 3);
    assert_eq!(m[0].role, "system");
    assert_eq!(m[2].content, "question 4");
    s.clear_history();
    assert_eq!(s.get_messages().len(), 1);
    assert!(AIClient::new("", "key", "model").is_err());
    assert_eq!(AIMessage::user("hi").role, "user");
}

#[test]
fn streamed_replies_are_split_into_payloads() {
    let mut b = SseBuffer::new();
    assert!(b.push_chunk("data: {\"a\":").is_empty());
    assert_eq!(b.push_chunk("1}\n\ndata: x\n"), vec!["{\"a\":1}".to_string(), "x".to_string()]);
    assert!(b.push_chunk("data: [DONE]\nrest").is_empty());
}

#[test]
fn ai_configurations() {
    let mut c = AppConfig::default();
    assert_eq!(c.get_ai_configs().len(), 1);
    let first = c.get_current_ai_config().unwrap().id.clone();
    c.add_ai_config("Other", "https://o", "k", "m");
    let second = c.get_ai_configs()[1].id.clone();
    assert_eq!(second.len(), 36);
    assert!(c.switch_ai_config(&second));
    assert_eq!(c.get_current_ai_config().unwrap().name, "Other");
    assert!(!c.switch_ai_config("missing"));
    assert!(c.delete_ai_config(&first));
    assert_eq!(c.get_ai_configs().len(), 1);
}
