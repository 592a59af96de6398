//! What is stored of fetched articles: an article older than the retention
//! period is dropped unless starred; an article whose guid, or whose link up
//! to its fragment, is already stored is not stored again; a stored article
//! has its title's entities decoded and its content and summary cleaned.
//! The store itself is the application's.
use vstd::prelude::*;
use crate::text::str_eq;
use crate::models::Article;
use crate::markup::{
    decode_html_entities, remove_url_anchor, sanitize_html, spec_decode_entities, spec_remove_url_anchor,
    spec_sanitize_html,
};

verus! {

/// Nanoseconds in a day.
pub const DAY_NANOS: i64 = 86_400_000_000_000;

/// The instant before which unstarred articles are dropped: `retention_days`
/// days before `now` (nanoseconds since the Unix epoch), or the earliest
/// instant when that lies before it (no article is older).
pub fn retention_cutoff(now: i64, retention_days: u32) -> (r: i64)
    ensures
        now - (retention_days as int) * (DAY_NANOS as int) >= i64::MIN ==> r == now - (retention_days as int) * (DAY_NANOS as int),
        now - (retention_days as int) * (DAY_NANOS as int) < i64::MIN ==> r == i64::MIN,
{
    assert((retention_days as int) * (DAY_NANOS as int) <= 0x1_0000_0000 * 86_400_000_000_000) by (nonlinear_arith)
        requires
            retention_days < 0x1_0000_0000,
    ;
    let span: i128 = (retention_days as i128) * (DAY_NANOS as i128);
    let r: i128 = (now as i128) - span;
    if r < (i64::MIN as i128) {
        i64::MIN
    } else {
        r as i64
    }
}

/// Whether a fetched article is kept: starred, or published at or after the
/// cutoff.
pub open spec fn spec_retained(a: Article, cutoff: i64) -> bool {
    a.is_starred || a.pub_date >= cutoff
}

/// Whether a fetched article is kept.
pub fn retained(a: &Article, cutoff: i64) -> (r: bool)
    ensures
        r == spec_retained(*a, cutoff),
{
    a.is_starred || a.pub_date >= cutoff
}

/// Whether a stored link is a fetched link up to its fragment: the stored
/// link is the fetched one without its fragment, alone or followed by `#`
/// and a fragment.
pub open spec fn spec_same_link(stored: Seq<char>, link: Seq<char>) -> bool {
    spec_remove_url_anchor(stored) == spec_remove_url_anchor(link)
}

/// Whether two links are the same up to their fragments.
pub fn same_link(stored: &str, link: &str) -> (r: bool)
    ensures
        r == spec_same_link(stored@, link@),
{
    let a = remove_url_anchor(stored);
    let b = remove_url_anchor(link);
    str_eq(a.as_str(), b.as_str())
}

/// Whether a fetched article is stored already: a stored article (guid,
/// link) has its guid, or its link up to the fragment.
pub open spec fn spec_known_article(stored: Seq<(String, String)>, a: Article) -> bool {
    exists|k: int| 0 <= k < stored.len() && is_same_article(#[trigger] stored[k], a)
}

/// Whether a stored article (guid, link) is a fetched one.
pub open spec fn is_same_article(e: (String, String), a: Article) -> bool {
    e.0@ == a.guid@ || spec_same_link(e.1@, a.link@)
}

/// Whether a fetched article is stored already, given the guids and links
/// of the stored articles.
pub fn known_article(stored: &[(String, String)], a: &Article) -> (r: bool)
    ensures
        r == spec_known_article(stored@, *a),
{
    let mut k: usize = 0;
    while k < stored.len()
        invariant
            k <= stored@.len(),
            forall|j: int| 0 <= j < k ==> !is_same_article(#[trigger] stored@[j], *a),
        decreases stored@.len() - k,
    {
        if str_eq(stored[k].0.as_str(), a.guid.as_str()) || same_link(stored[k].1.as_str(), a.link.as_str()) {
            assert(is_same_article(stored@[k as int], *a));
            return true;
        }
        k = k + 1;
    }
    false
}

/// The article as stored in feed `feed_id`: the title's entities decoded,
/// the content and summary cleaned, everything else as fetched.
pub open spec fn stored_ok(a: Article, feed_id: i64, r: Article) -> bool {
    &&& r == (Article { feed_id, title: r.title, content: r.content, summary: r.summary, ..a })
    &&& r.title@ == spec_decode_entities(a.title@)
    &&& r.content@ == spec_sanitize_html(a.content@)
    &&& r.summary@ == spec_sanitize_html(a.summary@)
}

/// The article as stored in a feed.
pub fn stored_article(a: &Article, feed_id: i64) -> (r: Article)
    ensures
        stored_ok(*a, feed_id, r),
{
    let mut r = a.clone();
    r.feed_id = feed_id;
    r.title = decode_html_entities(a.title.as_str());
    r.content = sanitize_html(a.content.as_str());
    r.summary = sanitize_html(a.summary.as_str());
    r
}

/// The automatic update interval, in minutes, when none is stored.
pub const DEFAULT_UPDATE_INTERVAL_MINUTES: u64 = 30;

/// The stored automatic update interval, or the default.
pub fn stored_update_interval(stored: Option<u64>) -> (r: u64)
    ensures
        r == match stored {
            Some(i) => i,
            None => DEFAULT_UPDATE_INTERVAL_MINUTES,
        },
{
    match stored {
        Some(i) => i,
        None => DEFAULT_UPDATE_INTERVAL_MINUTES,
    }
}

/// An update interval to store: from one minute to one day; anything else
/// is refused.
pub fn checked_update_interval(interval: u64) -> (r: Result<u64, String>)
    ensures
        1 <= interval <= 1440 ==> r == Ok::<u64, String>(interval),
        !(1 <= interval <= 1440) ==> (r matches Err(m) && m@ == "更新间隔必须在1-1440分钟之间"@),
{
    if 1 <= interval && interval <= 1440 {
        Ok(interval)
    } else {
        Err(String::from_str("更新间隔必须在1-1440分钟之间"))
    }
}

} // verus!
