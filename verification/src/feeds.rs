//! Managing subscriptions and their articles: validating new feeds,
//! grouping, searching feeds, group statistics, finding the new articles of
//! a refresh and searching articles directly.
use vstd::prelude::*;
use crate::text::{
    append_chars, append_str, chars_of, contains_chars, spec_contains, spec_trim, str_eq,
    string_of, trim_str,
};
use crate::content::{spec_lowercase, to_lowercase};
use crate::models::{keep, sort_by_date, sorted_by_date, Article, Feed, FeedGroup};

verus! {

// ---------------------------------------------------------------------------
// Addresses (url)
// ---------------------------------------------------------------------------

/// The `Display` text of the error `url::Url::parse` gives for a text;
/// `None` when the text parses.
pub uninterp spec fn spec_url_parse_error(url: Seq<char>) -> Option<Seq<char>>;

/// Whether `url::Url::parse` accepts a text.
pub open spec fn spec_url_parses(url: Seq<char>) -> bool {
    spec_url_parse_error(url) is None
}

/// `url::Url::parse(..)`, keeping the text of its error.
#[verifier::external_body]
pub(crate) fn url_parse_error(url: &str) -> (r: Option<String>)
    ensures
        match r {
            Some(m) => spec_url_parse_error(url@) == Some(m@),
            None => spec_url_parse_error(url@) is None,
        },
{
    url::Url::parse(url).err().map(|e| e.to_string())
}


/// The domain `url::Url::parse` finds in a text (`None` when it does not
/// parse or has no domain).
pub uninterp spec fn spec_url_domain(url: Seq<char>) -> Option<Seq<char>>;

/// `url::Url::parse(..)` then `domain()`.
#[verifier::external_body]
fn url_domain(url: &str) -> (r: Option<String>)
    ensures
        match r {
            Some(d) => spec_url_domain(url@) == Some(d@),
            None => spec_url_domain(url@) is None,
        },
{
    url::Url::parse(url).ok().and_then(|u| u.domain().map(|d| d.to_string()))
}

/// Whether a text is a valid address.
pub fn is_valid_url(url: &str) -> (r: bool)
    ensures
        r == spec_url_parses(url@),
{
    url_parse_error(url).is_none()
}

/// The domain of an address.
pub fn get_domain_from_url(url: &str) -> (r: Option<String>)
    ensures
        match spec_url_domain(url@) {
            Some(d) => r matches Some(s) && s@ == d,
            None => r is None,
        },
{
    url_domain(url)
}

// ---------------------------------------------------------------------------
// Subscriptions
// ---------------------------------------------------------------------------

/// A new subscription: trimmed title, address and group, the site's
/// address as link, automatic updates and notifications on, automatic
/// translation off.
pub open spec fn new_feed_ok(title: Seq<char>, url: Seq<char>, group: Seq<char>, f: Feed) -> bool {
    &&& f.id == 0
    &&& f.title@ == spec_trim(title)
    &&& f.url@ == spec_trim(url)
    &&& f.group@ == spec_trim(group)
    &&& f.group_id is None
    &&& f.last_updated is None
    &&& f.description@.len() == 0
    &&& f.language@.len() == 0
    &&& f.link@ == match spec_url_domain(url) {
        Some(d) => "https://"@ + d,
        None => Seq::empty(),
    }
    &&& f.favicon is None
    &&& f.auto_update
    &&& f.enable_notification
    &&& !f.ai_auto_translate
}

/// Checks a new subscription and builds it (without an id yet): the address
/// must parse and the title must not be blank.
pub fn new_feed(title: &str, url: &str, group: &str) -> (r: Result<Feed, String>)
    ensures
        !spec_url_parses(url@) ==> (r matches Err(m) && m@ == "无效的URL地址"@),
        spec_url_parses(url@) && spec_trim(title@).len() == 0 ==> (r matches Err(m) && m@ == "标题不能为空"@),
        spec_url_parses(url@) && spec_trim(title@).len() > 0 ==> (r matches Ok(f) && new_feed_ok(title@, url@, group@, f)),
{
    if !is_valid_url(url) {
        return Err(String::from_str("无效的URL地址"));
    }
    let t = trim_str(title);
    if t.as_str().is_empty() {
        return Err(String::from_str("标题不能为空"));
    }
    let link = match get_domain_from_url(url) {
        Some(d) => {
            let mut v: Vec<char> = Vec::new();
            append_str(&mut v, "https://");
            append_str(&mut v, d.as_str());
            string_of(v.as_slice())
        },
        None => String::new(),
    };
    Ok(Feed {
        id: 0,
        title: t,
        url: trim_str(url),
        group: trim_str(group),
        group_id: None,
        last_updated: None,
        description: String::new(),
        language: String::new(),
        link,
        favicon: None,
        auto_update: true,
        enable_notification: true,
        ai_auto_translate: false,
    })
}

/// Checks a subscription before it is saved: a valid address and a title.
pub fn validate_feed(feed: &Feed) -> (r: Result<(), String>)
    ensures
        !spec_url_parses(feed.url@) ==> (r matches Err(m) && m@ == "无效的URL地址"@),
        spec_url_parses(feed.url@) && spec_trim(feed.title@).len() == 0 ==> (r matches Err(m) && m@ == "标题不能为空"@),
        spec_url_parses(feed.url@) && spec_trim(feed.title@).len() > 0 ==> r is Ok,
{
    if !is_valid_url(feed.url.as_str()) {
        return Err(String::from_str("无效的URL地址"));
    }
    let t = trim_str(feed.title.as_str());
    if t.as_str().is_empty() {
        return Err(String::from_str("标题不能为空"));
    }
    Ok(())
}

/// The position of the first feed with an id.
pub open spec fn feed_pos_from(feeds: Seq<Feed>, id: i64, k: int) -> Option<int>
    decreases feeds.len() - k,
{
    if k < 0 || k >= feeds.len() {
        None
    } else if feeds[k].id == id {
        Some(k)
    } else {
        feed_pos_from(feeds, id, k + 1)
    }
}

/// A feed moved to another group (trimmed); an error when no feed has the id.
pub fn regroup_feed(feeds: &[Feed], feed_id: i64, group: &str) -> (r: Result<Feed, String>)
    ensures
        match feed_pos_from(feeds@, feed_id, 0) {
            Some(k) => r matches Ok(f) && f == (Feed { group: f.group, ..feeds@[k] }) && f.group@ == spec_trim(group@),
            None => r matches Err(m) && m@ == "找不到指定的订阅源"@,
        },
{
    let mut k: usize = 0;
    while k < feeds.len()
        invariant
            k <= feeds@.len(),
            feed_pos_from(feeds@, feed_id, 0) == feed_pos_from(feeds@, feed_id, k as int),
        decreases feeds@.len() - k,
    {
        if feeds[k].id == feed_id {
            let mut f = feeds[k].clone();
            f.group = trim_str(group);
            return Ok(f);
        }
        k = k + 1;
    }
    Err(String::from_str("找不到指定的订阅源"))
}

/// The feeds of a group, in order.
pub fn get_feeds_by_group(feeds: &[Feed], group: &str) -> (r: Vec<Feed>)
    ensures
        r@ == keep(feeds@, |f: Feed| f.group@ == group@),
{
    let mut out: Vec<Feed> = Vec::new();
    let mut k: usize = 0;
    while k < feeds.len()
        invariant
            k <= feeds@.len(),
            out@ == keep(feeds@.take(k as int), |f: Feed| f.group@ == group@),
        decreases feeds@.len() - k,
    {
        proof {
            assert(feeds@.take(k + 1).drop_last() =~= feeds@.take(k as int));
        }
        if str_eq(feeds[k].group.as_str(), group) {
            out.push(feeds[k].clone());
        }
        k = k + 1;
    }
    assert(feeds@.take(feeds@.len() as int) =~= feeds@);
    out
}

/// A feed matches a query when its lower-cased title, address or group
/// holds the lower-cased query.
pub open spec fn feed_matches(f: Feed, q: Seq<char>) -> bool {
    spec_contains(spec_lowercase(f.title@), q) || spec_contains(spec_lowercase(f.url@), q) || spec_contains(
        spec_lowercase(f.group@),
        q,
    )
}

fn lower_contains(text: &str, q: &[char]) -> (r: bool)
    ensures
        r == spec_contains(spec_lowercase(text@), q@),
{
    let l = to_lowercase(text);
    let lc = chars_of(l.as_str());
    contains_chars(lc.as_slice(), q)
}

/// The feeds whose title, address or group holds the query, ignoring case.
pub fn search_feeds(feeds: &[Feed], query: &str) -> (r: Vec<Feed>)
    ensures
        r@ == keep(feeds@, |f: Feed| feed_matches(f, spec_lowercase(query@))),
{
    let ql = to_lowercase(query);
    let q = chars_of(ql.as_str());
    let mut out: Vec<Feed> = Vec::new();
    let mut k: usize = 0;
    while k < feeds.len()
        invariant
            k <= feeds@.len(),
            q@ == spec_lowercase(query@),
            out@ == keep(feeds@.take(k as int), |f: Feed| feed_matches(f, spec_lowercase(query@))),
        decreases feeds@.len() - k,
    {
        proof {
            assert(feeds@.take(k + 1).drop_last() =~= feeds@.take(k as int));
        }
        let f = &feeds[k];
        if lower_contains(f.title.as_str(), q.as_slice()) || lower_contains(f.url.as_str(), q.as_slice())
            || lower_contains(f.group.as_str(), q.as_slice()) {
            out.push(f.clone());
        }
        k = k + 1;
    }
    assert(feeds@.take(feeds@.len() as int) =~= feeds@);
    out
}

/// Whether a feed with exactly this address exists.
pub fn feed_exists(feeds: &[Feed], url: &str) -> (r: bool)
    ensures
        r == exists|k: int| 0 <= k < feeds@.len() && (#[trigger] feeds@[k]).url@ == url@,
{
    let mut k: usize = 0;
    while k < feeds.len()
        invariant
            k <= feeds@.len(),
            forall|j: int| 0 <= j < k ==> (#[trigger] feeds@[j]).url@ != url@,
        decreases feeds@.len() - k,
    {
        if str_eq(feeds[k].url.as_str(), url) {
            return true;
        }
        k = k + 1;
    }
    false
}

/// The new name of a group: trimmed, and not blank.
pub fn checked_group_name(new_name: &str) -> (r: Result<String, String>)
    ensures
        spec_trim(new_name@).len() == 0 ==> (r matches Err(m) && m@ == "分组名称不能为空"@),
        spec_trim(new_name@).len() > 0 ==> (r matches Ok(n) && n@ == spec_trim(new_name@)),
{
    let t = trim_str(new_name);
    if t.as_str().is_empty() {
        Err(String::from_str("分组名称不能为空"))
    } else {
        Ok(t)
    }
}

/// The id of the first group with a name.
pub open spec fn group_id_from(groups: Seq<FeedGroup>, name: Seq<char>, k: int) -> Option<i64>
    decreases groups.len() - k,
{
    if k < 0 || k >= groups.len() {
        None
    } else if groups[k].name@ == name {
        Some(groups[k].id)
    } else {
        group_id_from(groups, name, k + 1)
    }
}

/// The id of the group with a name.
pub fn get_group_id_by_name(groups: &[FeedGroup], group_name: &str) -> (r: Option<i64>)
    ensures
        r == group_id_from(groups@, group_name@, 0),
{
    let mut k: usize = 0;
    while k < groups.len()
        invariant
            k <= groups@.len(),
            group_id_from(groups@, group_name@, 0) == group_id_from(groups@, group_name@, k as int),
        decreases groups@.len() - k,
    {
        if str_eq(groups[k].name.as_str(), group_name) {
            return Some(groups[k].id);
        }
        k = k + 1;
    }
    None
}

/// The number of feeds in a group.
pub open spec fn group_count(feeds: Seq<Feed>, g: Seq<char>) -> nat
    decreases feeds.len(),
{
    if feeds.len() == 0 {
        0
    } else {
        group_count(feeds.drop_last(), g) + if feeds.last().group@ == g {
            1nat
        } else {
            0nat
        }
    }
}

/// The groups of the feeds, each once, in order of first appearance.
pub open spec fn groups_seen(feeds: Seq<Feed>) -> Seq<Seq<char>>
    decreases feeds.len(),
{
    if feeds.len() == 0 {
        Seq::empty()
    } else {
        let r = groups_seen(feeds.drop_last());
        if r.contains(feeds.last().group@) {
            r
        } else {
            r.push(feeds.last().group@)
        }
    }
}

proof fn lemma_group_count_bound(feeds: Seq<Feed>, g: Seq<char>)
    ensures
        group_count(feeds, g) <= feeds.len(),
    decreases feeds.len(),
{
    if feeds.len() > 0 {
        lemma_group_count_bound(feeds.drop_last(), g);
    }
}

/// The number of feeds in each group, groups in order of first appearance.
pub fn get_group_stats(feeds: &[Feed]) -> (r: Vec<(String, usize)>)
    ensures
        r@.len() == groups_seen(feeds@).len(),
        forall|k: int| 0 <= k < r@.len() ==> (#[trigger] r@[k]).0@ == groups_seen(feeds@)[k] && r@[k].1 == group_count(feeds@, groups_seen(feeds@)[k]),
{
    let ghost gs = groups_seen(feeds@);
    let mut out: Vec<(String, usize)> = Vec::new();
    let mut k: usize = 0;
    while k < feeds.len()
        invariant
            k <= feeds@.len(),
            out@.len() == groups_seen(feeds@.take(k as int)).len(),
            forall|j: int| 0 <= j < out@.len() ==> (#[trigger] out@[j]).0@ == groups_seen(feeds@.take(k as int))[j]
                && out@[j].1 == group_count(feeds@.take(k as int), groups_seen(feeds@.take(k as int))[j]),
        decreases feeds@.len() - k,
    {
        let ghost prev = feeds@.take(k as int);
        let ghost next = feeds@.take(k + 1);
        proof {
            assert(next.drop_last() =~= prev);
            assert(next.last() == feeds@[k as int]);
            lemma_group_count_bound(prev, feeds@[k as int].group@);
        }
        let g = &feeds[k].group;
        let mut j: usize = 0;
        let mut found = false;
        while j < out.len()
            invariant_except_break
                j <= out@.len(),
                !found,
                forall|i: int| 0 <= i < j ==> (#[trigger] out@[i]).0@ != g@,
            ensures
                found ==> j < out@.len() && out@[j as int].0@ == g@,
                !found ==> forall|i: int| 0 <= i < out@.len() ==> (#[trigger] out@[i]).0@ != g@,
            decreases out@.len() - j,
        {
            if str_eq(out[j].0.as_str(), g.as_str()) {
                found = true;
                break;
            }
            j = j + 1;
        }
        if found {
            assert(out@[j as int].0@ == g@);
            let old_entry = out.remove(j);
            proof {
                lemma_group_count_bound(prev, old_entry.0@);
            }
            assert(old_entry.1 <= k);
            let entry = (old_entry.0, old_entry.1 + 1);
            out.insert(j, entry);
            proof {
                assert(groups_seen(prev).contains(g@)) by {
                    assert(groups_seen(prev)[j as int] == g@);
                }
                assert(groups_seen(next) == groups_seen(prev));
                assert forall|i: int| 0 <= i < out@.len() implies (#[trigger] out@[i]).0@ == groups_seen(next)[i]
                    && out@[i].1 == group_count(next, groups_seen(next)[i]) by {
                    if i != j as int {
                        assert(groups_seen(prev)[i] != g@) by {
                            if groups_seen(prev)[i] == g@ {
                                lemma_groups_seen_distinct(prev, i, j as int);
                            }
                        }
                    }
                }
            }
        } else {
            let name = g.clone();
            out.push((name, 1));
            proof {
                assert(!groups_seen(prev).contains(g@)) by {
                    if groups_seen(prev).contains(g@) {
                        let i = choose|i: int| 0 <= i < groups_seen(prev).len() && groups_seen(prev)[i] == g@;
                        assert(out@[i].0@ == g@);
                    }
                }
                lemma_group_count_absent(prev, g@);
                assert forall|i: int| 0 <= i < out@.len() implies (#[trigger] out@[i]).0@ == groups_seen(next)[i]
                    && out@[i].1 == group_count(next, groups_seen(next)[i]) by {
                    if i < out@.len() - 1 {
                        assert(groups_seen(prev)[i] != g@);
                    }
                }
            }
        }
        k = k + 1;
    }
    assert(feeds@.take(feeds@.len() as int) =~= feeds@);
    out
}

proof fn lemma_groups_seen_distinct(feeds: Seq<Feed>, i: int, j: int)
    requires
        0 <= i < groups_seen(feeds).len(),
        0 <= j < groups_seen(feeds).len(),
        i != j,
    ensures
        groups_seen(feeds)[i] != groups_seen(feeds)[j],
    decreases feeds.len(),
{
    if feeds.len() > 0 {
        let r = groups_seen(feeds.drop_last());
        if r.contains(feeds.last().group@) {
            lemma_groups_seen_distinct(feeds.drop_last(), i, j);
        } else {
            if i < r.len() && j < r.len() {
                lemma_groups_seen_distinct(feeds.drop_last(), i, j);
            } else if i == r.len() {
                assert(r[j] != feeds.last().group@);
            } else {
                assert(r[i] != feeds.last().group@);
            }
        }
    }
}

proof fn lemma_group_count_absent(feeds: Seq<Feed>, g: Seq<char>)
    requires
        !groups_seen(feeds).contains(g),
    ensures
        group_count(feeds, g) == 0,
    decreases feeds.len(),
{
    if feeds.len() > 0 {
        let r = groups_seen(feeds.drop_last());
        if r.contains(feeds.last().group@) {
            lemma_group_count_absent(feeds.drop_last(), g);
            if feeds.last().group@ == g {
                assert(groups_seen(feeds).contains(g));
            }
        } else {
            assert(groups_seen(feeds)[r.len() as int] == feeds.last().group@);
            if r.contains(g) {
                let i = choose|i: int| 0 <= i < r.len() && r[i] == g;
                assert(groups_seen(feeds)[i] == g);
            }
            lemma_group_count_absent(feeds.drop_last(), g);
        }
    }
}

// ---------------------------------------------------------------------------
// Articles of a refresh
// ---------------------------------------------------------------------------

/// Whether some article has a guid.
pub open spec fn has_guid(articles: Seq<Article>, guid: Seq<char>) -> bool {
    exists|k: int| 0 <= k < articles.len() && (#[trigger] articles[k]).guid@ == guid
}

pub(crate) fn has_guid_exec(articles: &[Article], guid: &str) -> (r: bool)
    ensures
        r == has_guid(articles@, guid@),
{
    let mut k: usize = 0;
    while k < articles.len()
        invariant
            k <= articles@.len(),
            forall|j: int| 0 <= j < k ==> (#[trigger] articles@[j]).guid@ != guid@,
        decreases articles@.len() - k,
    {
        if str_eq(articles[k].guid.as_str(), guid) {
            return true;
        }
        k = k + 1;
    }
    false
}

/// The fetched articles whose guid none of the stored articles has, in
/// order.
pub fn get_new_articles(old_articles: &[Article], new_articles: &[Article]) -> (r: Vec<Article>)
    ensures
        r@ == keep(new_articles@, |a: Article| !has_guid(old_articles@, a.guid@)),
{
    let mut out: Vec<Article> = Vec::new();
    let mut k: usize = 0;
    while k < new_articles.len()
        invariant
            k <= new_articles@.len(),
            out@ == keep(new_articles@.take(k as int), |a: Article| !has_guid(old_articles@, a.guid@)),
        decreases new_articles@.len() - k,
    {
        proof {
            assert(new_articles@.take(k + 1).drop_last() =~= new_articles@.take(k as int));
        }
        if !has_guid_exec(old_articles, new_articles[k].guid.as_str()) {
            out.push(new_articles[k].clone());
        }
        k = k + 1;
    }
    assert(new_articles@.take(new_articles@.len() as int) =~= new_articles@);
    out
}

/// The text an article is searched in directly: lower-cased title, content,
/// summary and author separated by spaces.
pub open spec fn direct_text(a: Article) -> Seq<char> {
    spec_lowercase(a.title@) + seq![' '] + spec_lowercase(a.content@) + seq![' '] + spec_lowercase(a.summary@) + seq![' ']
        + spec_lowercase(a.author@)
}

/// The articles (of feed `feed_id`, or of all feeds for `-1`) whose text
/// holds the trimmed, lower-cased query.
pub open spec fn direct_hit(a: Article, q: Seq<char>, feed_id: i64) -> bool {
    (feed_id == -1 || a.feed_id == feed_id) && spec_contains(direct_text(a), q)
}

/// Searches articles directly, newest first; nothing for a blank query.
pub fn direct_search_articles(query: &str, articles: &[Article], feed_id: i64) -> (r: Vec<Article>)
    ensures
        spec_trim(query@).len() == 0 ==> r@.len() == 0,
        spec_trim(query@).len() > 0 ==> sorted_by_date(
            keep(articles@, |a: Article| direct_hit(a, spec_lowercase(spec_trim(query@)), feed_id)),
            r@,
            true,
        ),
{
    let t = trim_str(query);
    if t.as_str().is_empty() {
        return Vec::new();
    }
    let ql = to_lowercase(t.as_str());
    let q = chars_of(ql.as_str());
    let ghost qv = spec_lowercase(spec_trim(query@));
    let mut hits: Vec<Article> = Vec::new();
    let mut k: usize = 0;
    while k < articles.len()
        invariant
            k <= articles@.len(),
            q@ == qv,
            qv == spec_lowercase(spec_trim(query@)),
            hits@ == keep(articles@.take(k as int), |a: Article| direct_hit(a, qv, feed_id)),
        decreases articles@.len() - k,
    {
        proof {
            assert(articles@.take(k + 1).drop_last() =~= articles@.take(k as int));
        }
        let a = &articles[k];
        if feed_id == -1 || a.feed_id == feed_id {
            let mut text: Vec<char> = Vec::new();
            let l1 = to_lowercase(a.title.as_str());
            append_str(&mut text, l1.as_str());
            text.push(' ');
            let l2 = to_lowercase(a.content.as_str());
            append_str(&mut text, l2.as_str());
            text.push(' ');
            let l3 = to_lowercase(a.summary.as_str());
            append_str(&mut text, l3.as_str());
            text.push(' ');
            let l4 = to_lowercase(a.author.as_str());
            append_str(&mut text, l4.as_str());
            assert(text@ =~= direct_text(*a));
            if contains_chars(text.as_slice(), q.as_slice()) {
                hits.push(a.clone());
            }
        }
        k = k + 1;
    }
    assert(articles@.take(articles@.len() as int) =~= articles@);
    sort_by_date(hits.as_slice(), true)
}


/// Whether a search runs over the listed articles rather than the index:
/// in `direct_search` mode, when the listed articles are at hand.
pub fn uses_direct_search(search_mode: &str, has_listed_articles: bool) -> (r: bool)
    ensures
        r == (search_mode@ == "direct_search"@ && has_listed_articles),
{
    str_eq(search_mode, "direct_search") && has_listed_articles
}

} // verus!
