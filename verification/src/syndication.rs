//! Reading feeds: RSS items and Atom entries turned into articles, the
//! fallbacks tried on a feed document (other encodings, byte-order marks,
//! compression), publication dates, OPML import and export, and links found
//! in web pages.
use vstd::prelude::*;
use crate::text::{
    append_chars, append_str, chars_of, contains_chars, find_chars, lemma_find_from_bounds,
    slice_chars, spec_contains, spec_find, spec_starts_with, spec_trim, starts_with_chars,
    string_of, trim_chars, trim_str,
};
use crate::markup::{
    decode_html_entities, html_to_plain_text, sanitize_feed_content, spec_decode_entities,
    spec_html_to_plain_text, spec_sanitize_feed_content,
};
use crate::models::Article;
use crate::crypto::{utf8_bytes, utf8_string};
use crate::markup::{escape_text, spec_escape, Escaping};
use vstd::utf8::{valid_utf8, decode_utf8, encode_utf8};
use crate::markup::{spec_strip_tags, strip_tags_chars, spec_is_atom_format, is_atom_format, spec_utf16_units, try_decode_utf16};
use crate::text::{trim_left, is_whitespace};
use crate::content::{spec_lowercase, to_lowercase};

verus! {

// ---------------------------------------------------------------------------
// Feed documents as plain values
// ---------------------------------------------------------------------------

/// The fields of an RSS item that articles are made from.
#[derive(Debug)]
pub struct RssItem {
    pub title: Option<String>,
    pub link: Option<String>,
    pub description: Option<String>,
    pub content: Option<String>,
    pub author: Option<String>,
    /// The first Dublin Core creator.
    pub creator: Option<String>,
    pub pub_date: Option<String>,
    pub guid: Option<String>,
}

/// An RSS channel: its title and items.
#[derive(Debug)]
pub struct RssChannel {
    pub title: String,
    pub items: Vec<RssItem>,
}

pub open spec fn opt_view(o: Option<String>) -> Option<Seq<char>> {
    match o {
        Some(s) => Some(s@),
        None => None,
    }
}

/// An item as plain text.
pub struct RssItemView {
    pub title: Option<Seq<char>>,
    pub link: Option<Seq<char>>,
    pub description: Option<Seq<char>>,
    pub content: Option<Seq<char>>,
    pub author: Option<Seq<char>>,
    pub creator: Option<Seq<char>>,
    pub pub_date: Option<Seq<char>>,
    pub guid: Option<Seq<char>>,
}

impl View for RssItem {
    type V = RssItemView;

    open spec fn view(&self) -> RssItemView {
        RssItemView {
            title: opt_view(self.title),
            link: opt_view(self.link),
            description: opt_view(self.description),
            content: opt_view(self.content),
            author: opt_view(self.author),
            creator: opt_view(self.creator),
            pub_date: opt_view(self.pub_date),
            guid: opt_view(self.guid),
        }
    }
}

/// A channel as plain text.
pub struct RssChannelView {
    pub title: Seq<char>,
    pub items: Seq<RssItemView>,
}

impl View for RssChannel {
    type V = RssChannelView;

    open spec fn view(&self) -> RssChannelView {
        RssChannelView { title: self.title@, items: self.items@.map_values(|i: RssItem| i@) }
    }
}

/// Errors of feed reading.
#[derive(Debug)]
pub enum RssError {
    HttpError(String),
    ParseError(String),
    TimeError(String),
    NetworkError(String),
    XmlError(String),
    AtomParseError,
    Unknown,
}

/// The text of a prefix followed by a message.
fn prefixed(prefix: &str, m: &str) -> (r: String)
    ensures
        r@ == prefix@ + m@,
{
    let mut v: Vec<char> = Vec::new();
    append_str(&mut v, prefix);
    append_str(&mut v, m);
    string_of(v.as_slice())
}

/// The message of an error.
pub open spec fn spec_error_message(e: RssError) -> Seq<char> {
    match e {
        RssError::HttpError(m) => "HTTP请求错误: "@ + m@,
        RssError::ParseError(m) => "RSS解析错误: "@ + m@,
        RssError::TimeError(m) => "时间解析错误: "@ + m@,
        RssError::NetworkError(m) => "网络错误: "@ + m@,
        RssError::XmlError(m) => "XML解析错误: "@ + m@,
        RssError::AtomParseError => "Atom解析错误"@,
        RssError::Unknown => "未知错误"@,
    }
}

impl RssError {
    /// The message shown for the error.
    pub fn message(&self) -> (r: String)
        ensures
            r@ == spec_error_message(*self),
    {
        match self {
            RssError::HttpError(m) => prefixed("HTTP请求错误: ", m.as_str()),
            RssError::ParseError(m) => prefixed("RSS解析错误: ", m.as_str()),
            RssError::TimeError(m) => prefixed("时间解析错误: ", m.as_str()),
            RssError::NetworkError(m) => prefixed("网络错误: ", m.as_str()),
            RssError::XmlError(m) => prefixed("XML解析错误: ", m.as_str()),
            RssError::AtomParseError => String::from_str("Atom解析错误"),
            RssError::Unknown => String::from_str("未知错误"),
        }
    }
}

/// An owned copy of an optional text.
pub fn owned(s: Option<&str>) -> (r: Option<String>)
    ensures
        match s {
            Some(t) => r matches Some(u) && u@ == t@,
            None => r is None,
        },
{
    match s {
        Some(t) => Some(String::from_str(t)),
        None => None,
    }
}

/// What `rss::Channel::read_from` reads from a document, as plain values
/// (`None` when it fails).
pub uninterp spec fn spec_read_channel(bytes: Seq<u8>) -> Option<RssChannelView>;

/// `rss::Channel::read_from` on a document, keeping the fields articles are
/// made from.
#[verifier::external_body]
fn read_channel(bytes: &[u8]) -> (r: Option<RssChannel>)
    ensures
        match r {
            Some(c) => spec_read_channel(bytes@) == Some(c@),
            None => spec_read_channel(bytes@) is None,
        },
{
    let ch = rss::Channel::read_from(bytes).ok()?;
    let items = ch.items().iter().map(|i| RssItem {
        title: owned(i.title()), link: owned(i.link()), description: owned(i.description()),
        content: owned(i.content()), author: owned(i.author()), pub_date: owned(i.pub_date()),
        creator: owned(i.dublin_core_ext().and_then(|d| d.creators().first()).map(|c| c.as_str())),
        guid: owned(i.guid().map(|g| g.value())),
    }).collect();
    Some(RssChannel { title: ch.title().to_string(), items })
}

// ---------------------------------------------------------------------------
// Dates
// ---------------------------------------------------------------------------

/// What `chrono::DateTime::parse_from_str` gives for a text and a format,
/// as nanoseconds since the epoch (`None` when parsing fails or the instant
/// does not fit in nanoseconds).
pub uninterp spec fn spec_parse_datetime(s: Seq<char>, fmt: Seq<char>) -> Option<i64>;

/// `chrono::DateTime::parse_from_str`, as nanoseconds since the epoch.
#[verifier::external_body]
fn parse_datetime(s: &str, fmt: &str) -> (r: Option<i64>)
    ensures
        r == spec_parse_datetime(s@, fmt@),
{
    chrono::DateTime::parse_from_str(s, fmt).ok().and_then(|d| d.timestamp_nanos_opt())
}

/// What `chrono::DateTime::parse_from_rfc3339` gives for a text, as
/// nanoseconds since the epoch.
pub uninterp spec fn spec_parse_rfc3339(s: Seq<char>) -> Option<i64>;

/// `chrono::DateTime::parse_from_rfc3339`, as nanoseconds since the epoch.
#[verifier::external_body]
fn parse_rfc3339(s: &str) -> (r: Option<i64>)
    ensures
        r == spec_parse_rfc3339(s@),
{
    chrono::DateTime::parse_from_rfc3339(s).ok().and_then(|d| d.timestamp_nanos_opt())
}

/// The date formats tried on a publication date, in order.
pub open spec fn date_formats() -> Seq<Seq<char>> {
    seq![
        "%a, %d %b %Y %H:%M:%S %z"@,
        "%a, %d %b %Y %H:%M:%S GMT"@,
        "%a,%d %b %Y %H:%M:%S GMT"@,
        "%a, %d %b %Y %H:%M:%S %Z"@,
        "%Y-%m-%dT%H:%M:%S%z"@,
        "%Y-%m-%d %H:%M:%S"@,
        "%d %b %Y %H:%M:%S"@,
        "%a, %d %b %Y %H:%M:%S GMT+00:00"@,
        "%a, %d %b %Y %H:%M:%S +0000"@,
        "%a, %d %b %Y %H:%M:%S GMT"@,
        "%a, %d %b %Y %H:%M:%S %Z"@,
    ]
}

/// The first format from `k` on that parses the text.
pub open spec fn first_format(s: Seq<char>, fmts: Seq<Seq<char>>, k: int) -> Option<i64>
    decreases fmts.len() - k,
{
    if k < 0 || k >= fmts.len() {
        None
    } else {
        match spec_parse_datetime(s, fmts[k]) {
            Some(t) => Some(t),
            None => first_format(s, fmts, k + 1),
        }
    }
}

/// Every non-overlapping occurrence of `pat` replaced, left to right
/// (`str::replace`).
pub open spec fn replace_all(s: Seq<char>, pat: Seq<char>, rep: Seq<char>) -> Seq<char>
    decreases s.len(),
{
    if pat.len() == 0 {
        s
    } else {
        match spec_find(s, pat) {
            None => s,
            Some(i) => if 0 <= i && i + pat.len() <= s.len() {
                s.subrange(0, i) + rep + replace_all(s.subrange(i + pat.len(), s.len() as int), pat, rep)
            } else {
                s
            },
        }
    }
}

/// Replaces every occurrence of a non-empty pattern.
pub fn replace_text(s: &[char], pat: &[char], rep: &[char]) -> (r: Vec<char>)
    ensures
        r@ == replace_all(s@, pat@, rep@),
    decreases s@.len(),
{
    if pat.len() == 0 {
        return slice_chars(s, 0, s.len());
    }
    match find_chars(s, pat) {
        None => slice_chars(s, 0, s.len()),
        Some(i) => {
            proof {
                lemma_find_from_bounds(s@, pat@, 0);
            }
            assert(i + pat@.len() <= s@.len() && s@.len() == s.len());
            let mut out = slice_chars(s, 0, i);
            append_chars(&mut out, rep);
            let rest = slice_chars(s, i + pat.len(), s.len());
            let tail = replace_text(rest.as_slice(), pat, rep);
            append_chars(&mut out, tail.as_slice());
            out
        },
    }
}

/// The instant of a feed's publication date: the listed formats in order,
/// then RFC 3339, then `GMT` forms without a comma, then with `GMT` read as
/// `+00:00`.
pub open spec fn spec_parse_pub_date(date: Seq<char>) -> Option<i64> {
    let t = spec_trim(date);
    match first_format(t, date_formats(), 0) {
        Some(x) => Some(x),
        None => match spec_parse_rfc3339(t) {
            Some(x) => Some(x),
            None => {
                let gmt = spec_contains(t, "GMT"@);
                let comma = spec_contains(t, ","@);
                match (if gmt && !comma {
                    spec_parse_datetime(t, "%a %d %b %Y %H:%M:%S GMT"@)
                } else {
                    None
                }) {
                    Some(x) => Some(x),
                    None => if comma && gmt {
                        spec_parse_datetime(replace_all(t, "GMT"@, "+00:00"@), "%a, %d %b %Y %H:%M:%S %z"@)
                    } else {
                        None
                    },
                }
            },
        },
    }
}

/// Parses a feed's publication date into nanoseconds since the epoch.
pub fn parse_pub_date(date_str: &str) -> (r: Option<i64>)
    ensures
        r == spec_parse_pub_date(date_str@),
{
    let t = trim_str(date_str);
    let mut fmts: Vec<&str> = Vec::new();
    fmts.push("%a, %d %b %Y %H:%M:%S %z");
    fmts.push("%a, %d %b %Y %H:%M:%S GMT");
    fmts.push("%a,%d %b %Y %H:%M:%S GMT");
    fmts.push("%a, %d %b %Y %H:%M:%S %Z");
    fmts.push("%Y-%m-%dT%H:%M:%S%z");
    fmts.push("%Y-%m-%d %H:%M:%S");
    fmts.push("%d %b %Y %H:%M:%S");
    fmts.push("%a, %d %b %Y %H:%M:%S GMT+00:00");
    fmts.push("%a, %d %b %Y %H:%M:%S +0000");
    fmts.push("%a, %d %b %Y %H:%M:%S GMT");
    fmts.push("%a, %d %b %Y %H:%M:%S %Z");
    let ghost spec_fmts = date_formats();
    assert(fmts@.map_values(|f: &str| f@) =~= spec_fmts);
    let mut k: usize = 0;
    while k < fmts.len()
        invariant
            k <= fmts@.len(),
            fmts@.map_values(|f: &str| f@) == spec_fmts,
            spec_fmts == date_formats(),
            first_format(t@, spec_fmts, 0) == first_format(t@, spec_fmts, k as int),
            t@ == spec_trim(date_str@),
        decreases fmts@.len() - k,
    {
        assert(spec_fmts[k as int] == fmts@[k as int]@);
        match parse_datetime(t.as_str(), fmts[k]) {
            Some(x) => {
                return Some(x);
            },
            None => {},
        }
        k = k + 1;
    }
    match parse_rfc3339(t.as_str()) {
        Some(x) => {
            return Some(x);
        },
        None => {},
    }
    let tc = chars_of(t.as_str());
    let gmt_pat = chars_of("GMT");
    let comma_pat = chars_of(",");
    let gmt = contains_chars(tc.as_slice(), gmt_pat.as_slice());
    let comma = contains_chars(tc.as_slice(), comma_pat.as_slice());
    if gmt && !comma {
        match parse_datetime(t.as_str(), "%a %d %b %Y %H:%M:%S GMT") {
            Some(x) => {
                return Some(x);
            },
            None => {},
        }
    }
    if comma && gmt {
        let plus = chars_of("+00:00");
        let modified = replace_text(tc.as_slice(), gmt_pat.as_slice(), plus.as_slice());
        let m = string_of(modified.as_slice());
        return parse_datetime(m.as_str(), "%a, %d %b %Y %H:%M:%S %z");
    }
    None
}

// ---------------------------------------------------------------------------
// RSS items
// ---------------------------------------------------------------------------

/// The first `n` characters of a text.
pub open spec fn take_chars(s: Seq<char>, n: nat) -> Seq<char> {
    if s.len() <= n {
        s
    } else {
        s.subrange(0, n as int)
    }
}

/// The content of an item: its encoded content, else its description,
/// made tidy plain text.
pub open spec fn spec_item_content(i: RssItemView) -> Seq<char> {
    match i.content {
        Some(c) => spec_sanitize_feed_content(c),
        None => match i.description {
            Some(d) => spec_sanitize_feed_content(d),
            None => Seq::empty(),
        },
    }
}

/// The summary of an item: the first 200 characters of the plain text of
/// its description, else of its content.
pub open spec fn spec_item_summary(i: RssItemView) -> Seq<char> {
    match i.description {
        Some(d) => take_chars(spec_html_to_plain_text(d), 200),
        None => match i.content {
            Some(c) => take_chars(spec_html_to_plain_text(c), 200),
            None => Seq::empty(),
        },
    }
}

/// The article made from an RSS item: a date that does not parse, or is
/// missing, becomes `now`; the author falls back to the Dublin Core creator,
/// then `Unknown`; the guid falls back to the link.
pub open spec fn item_article_ok(i: RssItemView, source: Seq<char>, now: i64, a: Article) -> bool {
    &&& a.id == 0
    &&& a.feed_id == 0
    &&& a.title@ == spec_decode_entities(
        match i.title {
            Some(t) => t,
            None => "Untitled"@,
        },
    )
    &&& a.link@ == match i.link {
        Some(l) => l,
        None => Seq::empty(),
    }
    &&& a.author@ == match i.author {
        Some(x) => x,
        None => match i.creator {
            Some(c) => c,
            None => "Unknown"@,
        },
    }
    &&& a.pub_date == match i.pub_date {
        Some(d) => match spec_parse_pub_date(d) {
            Some(t) => t,
            None => now,
        },
        None => now,
    }
    &&& a.content@ == spec_item_content(i)
    &&& a.summary@ == spec_item_summary(i)
    &&& !a.is_read
    &&& !a.is_starred
    &&& a.source@ == source
    &&& a.guid@ == match i.guid {
        Some(g) => g,
        None => match i.link {
            Some(l) => l,
            None => Seq::empty(),
        },
    }
}

fn take_200(s: &str) -> (r: String)
    ensures
        r@ == take_chars(s@, 200),
{
    let cs = chars_of(s);
    if cs.len() <= 200 {
        return string_of(cs.as_slice());
    }
    let t = slice_chars(cs.as_slice(), 0, 200);
    string_of(t.as_slice())
}

fn opt_or(s: &Option<String>, default: &str) -> (r: String)
    ensures
        r@ == match opt_view(*s) {
            Some(x) => x,
            None => default@,
        },
{
    match s {
        Some(x) => x.clone(),
        None => String::from_str(default),
    }
}

/// The content of an item.
pub fn get_content(item: &RssItem) -> (r: String)
    ensures
        r@ == spec_item_content(item@),
{
    match &item.content {
        Some(c) => sanitize_feed_content(c.as_str()),
        None => match &item.description {
            Some(d) => sanitize_feed_content(d.as_str()),
            None => String::new(),
        },
    }
}

/// The summary of an item.
pub fn get_summary(item: &RssItem) -> (r: String)
    ensures
        r@ == spec_item_summary(item@),
{
    match &item.description {
        Some(d) => {
            let p = html_to_plain_text(d.as_str());
            take_200(p.as_str())
        },
        None => match &item.content {
            Some(c) => {
                let p = html_to_plain_text(c.as_str());
                take_200(p.as_str())
            },
            None => String::new(),
        },
    }
}

/// Turns an RSS item into an article of `source`, dated `now` when its date
/// is missing or unreadable.
pub fn item_to_article(item: &RssItem, source: &str, now: i64) -> (a: Article)
    ensures
        item_article_ok(item@, source@, now, a),
{
    let pub_date = match &item.pub_date {
        Some(d) => match parse_pub_date(d.as_str()) {
            Some(t) => t,
            None => now,
        },
        None => now,
    };
    let content = get_content(item);
    let summary = get_summary(item);
    let author = match &item.author {
        Some(x) => x.clone(),
        None => opt_or(&item.creator, "Unknown"),
    };
    let raw_title = opt_or(&item.title, "Untitled");
    let title = decode_html_entities(raw_title.as_str());
    let link = opt_or(&item.link, "");
    let guid = match &item.guid {
        Some(g) => g.clone(),
        None => opt_or(&item.link, ""),
    };
    proof {
        reveal_strlit("");
    }
    assert(title@ == spec_decode_entities(match item@.title { Some(t) => t, None => "Untitled"@ }));
    assert(link@ == match item@.link { Some(l) => l, None => Seq::<char>::empty() });
    assert(author@ == match item@.author { Some(x) => x, None => match item@.creator { Some(c) => c, None => "Unknown"@ } });
    assert(guid@ == match item@.guid { Some(g) => g, None => match item@.link { Some(l) => l, None => Seq::<char>::empty() } });
    Article {
        id: 0,
        feed_id: 0,
        title,
        link,
        author,
        pub_date,
        content,
        summary,
        is_read: false,
        is_starred: false,
        source: String::from_str(source),
        guid,
    }
}

/// The articles of a channel, one per item in order, with the channel's
/// title as their source.
pub fn parse_items_to_articles(channel: &RssChannel, now: i64) -> (r: Vec<Article>)
    ensures
        r@.len() == channel.items@.len(),
        forall|k: int|
            0 <= k < r@.len() ==> item_article_ok(channel.items@[k]@, channel.title@, now, #[trigger] r@[k]),
{
    let mut out: Vec<Article> = Vec::new();
    let mut k: usize = 0;
    while k < channel.items.len()
        invariant
            k <= channel.items@.len(),
            out@.len() == k,
            forall|j: int|
                0 <= j < k ==> item_article_ok(channel.items@[j]@, channel.title@, now, #[trigger] out@[j]),
        decreases channel.items@.len() - k,
    {
        let a = item_to_article(&channel.items[k], channel.title.as_str(), now);
        out.push(a);
        k = k + 1;
    }
    out
}

// ---------------------------------------------------------------------------
// Images and links in HTML
// ---------------------------------------------------------------------------

/// The pieces of a text between occurrences of a non-empty pattern
/// (`str::split` with a text).
pub open spec fn split_text(s: Seq<char>, pat: Seq<char>) -> Seq<Seq<char>>
    decreases s.len(),
{
    if pat.len() == 0 {
        seq![s]
    } else {
        match spec_find(s, pat) {
            Some(i) => if 0 <= i && i + pat.len() <= s.len() {
                seq![s.subrange(0, i)] + split_text(s.subrange(i + pat.len(), s.len() as int), pat)
            } else {
                seq![s]
            },
            None => seq![s],
        }
    }
}

/// Splits a text at every occurrence of a pattern.
pub fn split_text_exec(s: &[char], pat: &[char]) -> (r: Vec<Vec<char>>)
    ensures
        r@.map_values(|v: Vec<char>| v@) == split_text(s@, pat@),
    decreases s@.len(),
{
    let mut out: Vec<Vec<char>> = Vec::new();
    if pat.len() == 0 {
        let whole = slice_chars(s, 0, s.len());
        assert(whole@ =~= s@);
        out.push(whole);
        assert(out@.map_values(|v: Vec<char>| v@) =~= seq![s@]);
        return out;
    }
    match find_chars(s, pat) {
        Some(i) => {
            proof {
                lemma_find_from_bounds(s@, pat@, 0);
            }
            assert(i + pat@.len() <= s@.len() && s@.len() == s.len());
            let head = slice_chars(s, 0, i);
            let rest = slice_chars(s, i + pat.len(), s.len());
            let tail = split_text_exec(rest.as_slice(), pat);
            out.push(head);
            assert(out@.map_values(|v: Vec<char>| v@) =~= seq![s@.subrange(0, i as int)] + tail@.map_values(|v: Vec<char>| v@).take(0));
            let mut j: usize = 0;
            while j < tail.len()
                invariant
                    j <= tail@.len(),
                    i <= s@.len(),
                    out@.map_values(|v: Vec<char>| v@) == seq![s@.subrange(0, i as int)] + tail@.map_values(|v: Vec<char>| v@).take(j as int),
                decreases tail@.len() - j,
            {
                let piece = slice_chars(tail[j].as_slice(), 0, tail[j].len());
                let ghost before = out@;
                out.push(piece);
                proof {
                    assert(piece@ =~= tail@[j as int]@);
                    assert(out@.map_values(|v: Vec<char>| v@) =~= before.map_values(|v: Vec<char>| v@).push(piece@));
                    assert(tail@.map_values(|v: Vec<char>| v@).take(j + 1) =~= tail@.map_values(|v: Vec<char>| v@).take(j as int).push(piece@));
                }
                j = j + 1;
            }
            assert(tail@.map_values(|v: Vec<char>| v@).take(tail@.len() as int) =~= tail@.map_values(|v: Vec<char>| v@));
            out
        },
        None => {
            let whole = slice_chars(s, 0, s.len());
            assert(whole@ =~= s@);
            out.push(whole);
            assert(out@.map_values(|v: Vec<char>| v@) =~= seq![s@]);
            out
        },
    }
}

/// The image address in a piece after `<img`: from one character past
/// `src=` to the next `"`.
pub open spec fn image_in(piece: Seq<char>) -> Option<Seq<char>> {
    match spec_find(piece, "src="@) {
        Some(st) => if 0 <= st && st + 5 <= piece.len() {
            let rest = piece.subrange(st + 5, piece.len() as int);
            match spec_find(rest, seq!['"']) {
                Some(e) => if 0 <= e <= rest.len() {
                    Some(rest.subrange(0, e))
                } else {
                    None
                },
                None => None,
            }
        } else {
            None
        },
        None => None,
    }
}

/// The inputs on which reading an image address cannot fail: the character
/// after each `src=` exists and is a single byte.
pub open spec fn image_piece_ok(piece: Seq<char>) -> bool {
    spec_find(piece, "src="@) matches Some(st) ==> (0 <= st && st + 4 < piece.len() && (piece[st + 4] as u32) < 128)
}

pub open spec fn images_from(pieces: Seq<Seq<char>>) -> Seq<Seq<char>>
    decreases pieces.len(),
{
    if pieces.len() == 0 {
        Seq::empty()
    } else {
        let r = images_from(pieces.drop_last());
        match image_in(pieces.last()) {
            Some(u) => r.push(u),
            None => r,
        }
    }
}

/// The image addresses of an HTML text, in order: one for each `<img` tag,
/// read from the text that follows it (the text before the first `<img` is
/// not an image).
pub open spec fn spec_extract_images(html: Seq<char>) -> Seq<Seq<char>> {
    let ps = split_text(html, "<img"@);
    if ps.len() == 0 {
        Seq::empty()
    } else {
        images_from(ps.subrange(1, ps.len() as int))
    }
}

/// Collects the addresses of the images of an HTML text.
pub fn extract_images(html: &str) -> (r: Vec<String>)
    requires
        forall|k: int| 1 <= k < split_text(html@, "<img"@).len() ==> image_piece_ok(#[trigger] split_text(html@, "<img"@)[k]),
    ensures
        r@.map_values(|s: String| s@) == spec_extract_images(html@),
{
    let h = chars_of(html);
    let img = chars_of("<img");
    let src = chars_of("src=");
    proof {
        reveal_strlit("src=");
    }
    let pieces = split_text_exec(h.as_slice(), img.as_slice());
    let ghost ps = pieces@.map_values(|v: Vec<char>| v@);
    let mut out: Vec<String> = Vec::new();
    if pieces.len() == 0 {
        assert(out@.map_values(|s: String| s@) =~= Seq::<Seq<char>>::empty());
        return out;
    }
    let mut k: usize = 1;
    assert(ps.subrange(1, 1) =~= Seq::<Seq<char>>::empty());
    assert(out@.map_values(|s: String| s@) =~= Seq::<Seq<char>>::empty());
    while k < pieces.len()
        invariant
            ps == pieces@.map_values(|v: Vec<char>| v@),
            ps == split_text(html@, "<img"@),
            src@ == "src="@,
            src@.len() == 4,
            forall|j: int| 1 <= j < ps.len() ==> image_piece_ok(#[trigger] ps[j]),
            1 <= k <= ps.len(),
            out@.map_values(|s: String| s@) == images_from(ps.subrange(1, k as int)),
        decreases ps.len() - k,
    {
        proof {
            assert(ps.subrange(1, k + 1).drop_last() =~= ps.subrange(1, k as int));
            assert(ps.subrange(1, k + 1).last() == ps[k as int]);
            assert(ps[k as int] == pieces@[k as int]@);
        }
        let piece = pieces[k].as_slice();
        let ghost before = out@;
        match find_chars(piece, src.as_slice()) {
            Some(st) => {
                proof {
                    lemma_find_from_bounds(piece@, src@, 0);
                    assert(image_piece_ok(ps[k as int]));
                }
                assert(st + 5 <= piece@.len() && piece@.len() == piece.len());
                let rest = slice_chars(piece, st + 5, piece.len());
                match crate::text::find_char(rest.as_slice(), '"') {
                    Some(e) => {
                        proof {
                            lemma_find_from_bounds(rest@, seq!['"'], 0);
                        }
                        let u = slice_chars(rest.as_slice(), 0, e);
                        out.push(string_of(u.as_slice()));
                        proof {
                            assert(out@.map_values(|s: String| s@) =~= before.map_values(|s: String| s@).push(u@));
                        }
                    },
                    None => {},
                }
            },
            None => {},
        }
        k = k + 1;
    }
    out
}

/// What `regex::Regex::new(pattern)` and then `captures(text)` give as the
/// first capture group (`None` when the pattern does not compile, nothing
/// matches or the group is unset).
pub uninterp spec fn spec_regex_capture(pattern: Seq<char>, text: Seq<char>) -> Option<Seq<char>>;

/// The first capture group of the leftmost match of a pattern.
#[verifier::external_body]
pub(crate) fn regex_capture(pattern: &str, text: &str) -> (r: Option<String>)
    ensures
        match r {
            Some(c) => spec_regex_capture(pattern@, text@) == Some(c@),
            None => spec_regex_capture(pattern@, text@) is None,
        },
{
    let re = regex::Regex::new(pattern).ok()?;
    re.captures(text).and_then(|c| c.get(1)).map(|m| m.as_str().to_string())
}

/// The pattern of an alternate RSS link in a web page.
pub open spec fn rss_link_pattern() -> Seq<char> {
    "<link[^>]+rel=['\"]alternate['\"].*?type=['\"]application/rss\\+xml['\"].*?href=['\"]([^'\"]+)['\"]"@
}

/// The pattern of an alternate Atom link in a web page.
pub open spec fn atom_link_pattern() -> Seq<char> {
    "<link[^>]+rel=['\"]alternate['\"].*?type=['\"]application/atom\\+xml['\"].*?href=['\"]([^'\"]+)['\"]"@
}

/// The feed a web page announces: its alternate RSS link, else its
/// alternate Atom link.
pub open spec fn spec_extract_rss_link(html: Seq<char>) -> Option<Seq<char>> {
    match spec_regex_capture(rss_link_pattern(), html) {
        Some(l) => Some(l),
        None => spec_regex_capture(atom_link_pattern(), html),
    }
}

/// Finds the feed a web page links to.
pub fn extract_rss_link_from_html(html: &str) -> (r: Option<String>)
    ensures
        match spec_extract_rss_link(html@) {
            Some(l) => r matches Some(s) && s@ == l,
            None => r is None,
        },
{
    match regex_capture(
        "<link[^>]+rel=['\"]alternate['\"].*?type=['\"]application/rss\\+xml['\"].*?href=['\"]([^'\"]+)['\"]",
        html,
    ) {
        Some(l) => Some(l),
        None => regex_capture(
            "<link[^>]+rel=['\"]alternate['\"].*?type=['\"]application/atom\\+xml['\"].*?href=['\"]([^'\"]+)['\"]",
            html,
        ),
    }
}

// ---------------------------------------------------------------------------
// Decoding and decompressing
// ---------------------------------------------------------------------------

/// What `String::from_utf8_lossy` gives for bytes.
pub uninterp spec fn spec_lossy_utf8(bytes: Seq<u8>) -> Seq<char>;

/// `String::from_utf8_lossy`: valid UTF-8 is decoded as it is, invalid
/// sequences become replacement characters.
#[verifier::external_body]
pub(crate) fn lossy_utf8(bytes: &[u8]) -> (r: String)
    ensures
        r@ == spec_lossy_utf8(bytes@),
        valid_utf8(bytes@) ==> r@ == decode_utf8(bytes@),
{
    String::from_utf8_lossy(bytes).into_owned()
}

/// What `encoding_rs::GBK.decode` gives for bytes.
pub uninterp spec fn spec_decode_gbk(bytes: Seq<u8>) -> Seq<char>;

/// `encoding_rs::GBK.decode`.
#[verifier::external_body]
fn decode_gbk(bytes: &[u8]) -> (r: String)
    ensures
        r@ == spec_decode_gbk(bytes@),
{
    encoding_rs::GBK.decode(bytes).0.into_owned()
}

/// What `encoding_rs::EUC_KR.decode` gives for bytes.
pub uninterp spec fn spec_decode_euc_kr(bytes: Seq<u8>) -> Seq<char>;

/// `encoding_rs::EUC_KR.decode`.
#[verifier::external_body]
fn decode_euc_kr(bytes: &[u8]) -> (r: String)
    ensures
        r@ == spec_decode_euc_kr(bytes@),
{
    encoding_rs::EUC_KR.decode(bytes).0.into_owned()
}

/// What `String::from_utf16` gives for code units (`None` on unpaired
/// surrogates).
pub uninterp spec fn spec_from_utf16(units: Seq<u16>) -> Option<Seq<char>>;

/// `String::from_utf16`.
#[verifier::external_body]
fn string_from_utf16(units: &[u16]) -> (r: Option<String>)
    ensures
        match r {
            Some(s) => spec_from_utf16(units@) == Some(s@),
            None => spec_from_utf16(units@) is None,
        },
{
    String::from_utf16(units).ok()
}

/// What `flate2::read::GzDecoder` reads to the end from bytes.
pub uninterp spec fn spec_gz_decode(bytes: Seq<u8>) -> Option<Seq<u8>>;

/// Reads a gzip stream with `flate2::read::GzDecoder`.
#[verifier::external_body]
fn gz_decode(bytes: &[u8]) -> (r: Option<Vec<u8>>)
    ensures
        match r {
            Some(d) => spec_gz_decode(bytes@) == Some(d@),
            None => spec_gz_decode(bytes@) is None,
        },
{
    let mut out = Vec::new();
    std::io::Read::read_to_end(&mut flate2::read::GzDecoder::new(bytes), &mut out).ok().map(|_| out)
}

/// What `flate2::read::MultiGzDecoder` reads to the end from bytes.
pub uninterp spec fn spec_multi_gz_decode(bytes: Seq<u8>) -> Option<Seq<u8>>;

/// Reads concatenated gzip members with `flate2::read::MultiGzDecoder`.
#[verifier::external_body]
fn multi_gz_decode(bytes: &[u8]) -> (r: Option<Vec<u8>>)
    ensures
        match r {
            Some(d) => spec_multi_gz_decode(bytes@) == Some(d@),
            None => spec_multi_gz_decode(bytes@) is None,
        },
{
    let mut out = Vec::new();
    std::io::Read::read_to_end(&mut flate2::read::MultiGzDecoder::new(bytes), &mut out).ok().map(|_| out)
}

/// What `flate2::read::DeflateDecoder` reads to the end from bytes.
pub uninterp spec fn spec_deflate_decode(bytes: Seq<u8>) -> Option<Seq<u8>>;

/// Reads a raw deflate stream with `flate2::read::DeflateDecoder`.
#[verifier::external_body]
fn deflate_decode(bytes: &[u8]) -> (r: Option<Vec<u8>>)
    ensures
        match r {
            Some(d) => spec_deflate_decode(bytes@) == Some(d@),
            None => spec_deflate_decode(bytes@) is None,
        },
{
    let mut out = Vec::new();
    std::io::Read::read_to_end(&mut flate2::read::DeflateDecoder::new(bytes), &mut out).ok().map(|_| out)
}

/// The decompressed bytes: gzip when the stream starts with the gzip magic
/// number, else concatenated gzip, else raw deflate.
pub open spec fn spec_decompress(bytes: Seq<u8>) -> Option<Seq<u8>> {
    let gz = if bytes.len() >= 2 && bytes[0] == 0x1f && bytes[1] == 0x8b {
        spec_gz_decode(bytes)
    } else {
        None
    };
    match gz {
        Some(d) => Some(d),
        None => match spec_multi_gz_decode(bytes) {
            Some(d) => Some(d),
            None => spec_deflate_decode(bytes),
        },
    }
}

/// Decompresses a feed body, trying gzip, concatenated gzip and deflate.
pub fn try_decompress_gzip(bytes: &[u8]) -> (r: Result<Vec<u8>, String>)
    ensures
        match spec_decompress(bytes@) {
            Some(d) => r matches Ok(v) && v@ == d,
            None => r matches Err(m) && m@ == "Failed to decompress data with all available methods"@,
        },
{
    if bytes.len() >= 2 && bytes[0] == 0x1f && bytes[1] == 0x8b {
        match gz_decode(bytes) {
            Some(d) => {
                return Ok(d);
            },
            None => {},
        }
    }
    match multi_gz_decode(bytes) {
        Some(d) => {
            return Ok(d);
        },
        None => {},
    }
    match deflate_decode(bytes) {
        Some(d) => Ok(d),
        None => Err(String::from_str("Failed to decompress data with all available methods")),
    }
}

// ---------------------------------------------------------------------------
// XML documents as plain values
// ---------------------------------------------------------------------------

/// A node of an XML document, in document order: whether it is an element,
/// its local name (empty for other nodes), its text, its attributes (local
/// name and value), and how many nodes its subtree holds.
#[derive(Debug)]
pub struct XmlNode {
    pub element: bool,
    pub name: String,
    pub text: Option<String>,
    pub attrs: Vec<(String, String)>,
    pub span: usize,
}

/// A node as plain values.
pub struct XmlNodeView {
    pub element: bool,
    pub name: Seq<char>,
    pub text: Option<Seq<char>>,
    pub attrs: Seq<(Seq<char>, Seq<char>)>,
    pub span: nat,
}

impl View for XmlNode {
    type V = XmlNodeView;

    open spec fn view(&self) -> XmlNodeView {
        XmlNodeView {
            element: self.element,
            name: self.name@,
            text: opt_view(self.text),
            attrs: self.attrs@.map_values(|a: (String, String)| (a.0@, a.1@)),
            span: self.span as nat,
        }
    }
}

pub open spec fn nodes_view(v: Seq<XmlNode>) -> Seq<XmlNodeView> {
    v.map_values(|n: XmlNode| n@)
}

/// What `roxmltree::Document::parse` gives for a text: the nodes of the
/// document in document order, or the error's message.
pub uninterp spec fn spec_xml_document(text: Seq<char>) -> Result<Seq<XmlNodeView>, Seq<char>>;

/// `roxmltree::Document::parse`, with the document's nodes listed in
/// document order.
#[verifier::external_body]
fn xml_document(text: &str) -> (r: Result<Vec<XmlNode>, String>)
    ensures
        match r {
            Ok(v) => spec_xml_document(text@) == Ok::<Seq<XmlNodeView>, Seq<char>>(nodes_view(v@)),
            Err(m) => spec_xml_document(text@) == Err::<Seq<XmlNodeView>, Seq<char>>(m@),
        },
{
    let doc = roxmltree::Document::parse(text).map_err(|e| e.to_string())?;
    Ok(doc.root().descendants().map(|n| XmlNode {
        element: n.is_element(), name: n.tag_name().name().to_string(),
        text: n.text().map(|t| t.to_string()), span: n.descendants().count(),
        attrs: n.attributes().map(|a| (a.name().to_string(), a.value().to_string())).collect(),
    }).collect())
}

/// The end of a node's subtree (its span kept within the document, at least
/// the node itself).
pub open spec fn subtree_end(nodes: Seq<XmlNodeView>, i: int) -> int {
    if nodes[i].span < 1 {
        i + 1
    } else if i + nodes[i].span > nodes.len() {
        nodes.len() as int
    } else {
        i + nodes[i].span
    }
}

/// The first element named `name` in `[from, to)`.
pub open spec fn first_named(nodes: Seq<XmlNodeView>, name: Seq<char>, from: int, to: int) -> Option<int>
    decreases to - from,
{
    if from < 0 || from >= to || from >= nodes.len() {
        None
    } else if nodes[from].element && nodes[from].name == name {
        Some(from)
    } else {
        first_named(nodes, name, from + 1, to)
    }
}

/// The value of the first attribute with a local name.
pub open spec fn attr_from(attrs: Seq<(Seq<char>, Seq<char>)>, name: Seq<char>, k: int) -> Option<Seq<char>>
    decreases attrs.len() - k,
{
    if k < 0 || k >= attrs.len() {
        None
    } else if attrs[k].0 == name {
        Some(attrs[k].1)
    } else {
        attr_from(attrs, name, k + 1)
    }
}

pub open spec fn attr(n: XmlNodeView, name: Seq<char>) -> Option<Seq<char>> {
    attr_from(n.attrs, name, 0)
}

/// The first element named `name` in `[from, to)` that has attribute
/// `key`, with that attribute's value.
pub open spec fn first_attr_of_named(
    nodes: Seq<XmlNodeView>,
    name: Seq<char>,
    key: Seq<char>,
    from: int,
    to: int,
) -> Option<Seq<char>>
    decreases to - from,
{
    if from < 0 || from >= to || from >= nodes.len() {
        None
    } else if nodes[from].element && nodes[from].name == name && attr(nodes[from], key) is Some {
        attr(nodes[from], key)
    } else {
        first_attr_of_named(nodes, name, key, from + 1, to)
    }
}

proof fn lemma_first_named_bounds(nodes: Seq<XmlNodeView>, name: Seq<char>, from: int, to: int)
    ensures
        first_named(nodes, name, from, to) matches Some(k) ==> 0 <= from <= k < to && k < nodes.len()
            && nodes[k].element && nodes[k].name == name,
    decreases to - from,
{
    if 0 <= from < to && from < nodes.len() && !(nodes[from].element && nodes[from].name == name) {
        lemma_first_named_bounds(nodes, name, from + 1, to);
    }
}

fn subtree_end_exec(nodes: &Vec<XmlNode>, i: usize) -> (r: usize)
    requires
        i < nodes@.len(),
    ensures
        r == subtree_end(nodes_view(nodes@), i as int),
        i < r <= nodes@.len(),
{
    let n = nodes.len();
    let sp = nodes[i].span;
    if sp < 1 {
        i + 1
    } else if sp > n - i {
        n
    } else {
        i + sp
    }
}

fn first_named_exec(nodes: &Vec<XmlNode>, name: &str, from: usize, to: usize) -> (r: Option<usize>)
    requires
        from <= to <= nodes@.len(),
    ensures
        match first_named(nodes_view(nodes@), name@, from as int, to as int) {
            Some(k) => r == Some(k as usize),
            None => r is None,
        },
{
    let ghost nv = nodes_view(nodes@);
    let nm = chars_of(name);
    let mut k = from;
    while k < to
        invariant
            from <= k <= to <= nodes@.len(),
            nv == nodes_view(nodes@),
            nm@ == name@,
            first_named(nv, name@, from as int, to as int) == first_named(nv, name@, k as int, to as int),
        decreases to - k,
    {
        assert(nv[k as int] == nodes@[k as int]@);
        let this = chars_of(nodes[k].name.as_str());
        if nodes[k].element && crate::text::chars_eq(this.as_slice(), nm.as_slice()) {
            return Some(k);
        }
        k = k + 1;
    }
    None
}

fn attr_exec(n: &XmlNode, key: &str) -> (r: Option<String>)
    ensures
        match attr(n@, key@) {
            Some(v) => r matches Some(s) && s@ == v,
            None => r is None,
        },
{
    let ghost av = n@.attrs;
    let k0 = chars_of(key);
    let mut k: usize = 0;
    while k < n.attrs.len()
        invariant
            k <= n.attrs@.len(),
            av == n@.attrs,
            k0@ == key@,
            attr(n@, key@) == attr_from(av, key@, k as int),
        decreases n.attrs@.len() - k,
    {
        assert(av[k as int] == (n.attrs@[k as int].0@, n.attrs@[k as int].1@));
        let nm = chars_of(n.attrs[k].0.as_str());
        if crate::text::chars_eq(nm.as_slice(), k0.as_slice()) {
            return Some(n.attrs[k].1.clone());
        }
        k = k + 1;
    }
    None
}

fn first_attr_of_named_exec(nodes: &Vec<XmlNode>, name: &str, key: &str, from: usize, to: usize) -> (r: Option<String>)
    requires
        from <= to <= nodes@.len(),
    ensures
        match first_attr_of_named(nodes_view(nodes@), name@, key@, from as int, to as int) {
            Some(v) => r matches Some(s) && s@ == v,
            None => r is None,
        },
{
    let ghost nv = nodes_view(nodes@);
    let nm = chars_of(name);
    let mut k = from;
    while k < to
        invariant
            from <= k <= to <= nodes@.len(),
            nv == nodes_view(nodes@),
            nm@ == name@,
            first_attr_of_named(nv, name@, key@, from as int, to as int) == first_attr_of_named(nv, name@, key@, k as int, to as int),
        decreases to - k,
    {
        assert(nv[k as int] == nodes@[k as int]@);
        let this = chars_of(nodes[k].name.as_str());
        if nodes[k].element && crate::text::chars_eq(this.as_slice(), nm.as_slice()) {
            match attr_exec(&nodes[k], key) {
                Some(v) => {
                    return Some(v);
                },
                None => {},
            }
        }
        k = k + 1;
    }
    None
}

// ---------------------------------------------------------------------------
// Atom
// ---------------------------------------------------------------------------

pub open spec fn node_text(nodes: Seq<XmlNodeView>, k: Option<int>) -> Option<Seq<char>> {
    match k {
        Some(i) => nodes[i].text,
        None => None,
    }
}

pub open spec fn trimmed_or(t: Option<Seq<char>>, default: Seq<char>) -> Seq<char> {
    match t {
        Some(x) => spec_trim(x),
        None => default,
    }
}

/// The fields of the Atom entry at `e` (its subtree ends at `to`).
pub open spec fn atom_title(nodes: Seq<XmlNodeView>, e: int, to: int) -> Seq<char> {
    match node_text(nodes, first_named(nodes, "title"@, e, to)) {
        Some(t) => if spec_trim(t).len() > 0 {
            spec_decode_entities(spec_trim(t))
        } else {
            "[无标题]"@
        },
        None => "[无标题]"@,
    }
}

pub open spec fn atom_link(nodes: Seq<XmlNodeView>, e: int, to: int) -> Seq<char> {
    match first_attr_of_named(nodes, "link"@, "href"@, e, to) {
        Some(l) => l,
        None => Seq::empty(),
    }
}

pub open spec fn atom_date(nodes: Seq<XmlNodeView>, e: int, to: int, now: i64) -> i64 {
    let k = match first_named(nodes, "published"@, e, to) {
        Some(k) => Some(k),
        None => first_named(nodes, "updated"@, e, to),
    };
    match node_text(nodes, k) {
        Some(t) => match spec_parse_rfc3339(spec_trim(t)) {
            Some(x) => x,
            None => now,
        },
        None => now,
    }
}

pub open spec fn atom_summary(nodes: Seq<XmlNodeView>, e: int, to: int) -> Seq<char> {
    trimmed_or(node_text(nodes, first_named(nodes, "summary"@, e, to)), Seq::empty())
}

pub open spec fn atom_content(nodes: Seq<XmlNodeView>, e: int, to: int) -> Seq<char> {
    trimmed_or(node_text(nodes, first_named(nodes, "content"@, e, to)), atom_summary(nodes, e, to))
}

pub open spec fn atom_author(nodes: Seq<XmlNodeView>, e: int, to: int) -> Seq<char> {
    match first_named(nodes, "author"@, e, to) {
        Some(a) => trimmed_or(
            node_text(nodes, first_named(nodes, "name"@, a, subtree_end(nodes, a))),
            Seq::empty(),
        ),
        None => Seq::empty(),
    }
}

/// The article made from the Atom entry at `e` of the feed at `feed_url`:
/// a missing or unreadable date becomes `now`; the content falls back to
/// the summary; the summary is kept only when it differs from the content.
pub open spec fn atom_entry_ok(nodes: Seq<XmlNodeView>, e: int, feed_url: Seq<char>, now: i64, a: Article) -> bool {
    let to = subtree_end(nodes, e);
    let summary = atom_summary(nodes, e, to);
    let content = atom_content(nodes, e, to);
    &&& a.id == 0
    &&& a.feed_id == 0
    &&& a.title@ == atom_title(nodes, e, to)
    &&& a.link@ == atom_link(nodes, e, to)
    &&& a.author@ == atom_author(nodes, e, to)
    &&& a.pub_date == atom_date(nodes, e, to, now)
    &&& a.content@ == spec_sanitize_feed_content(content)
    &&& a.summary@ == (if summary.len() > 0 && summary != content {
        take_chars(spec_html_to_plain_text(summary), 200)
    } else {
        Seq::empty()
    })
    &&& !a.is_read
    &&& !a.is_starred
    &&& a.source@ == feed_url
    &&& a.guid@ == trimmed_or(node_text(nodes, first_named(nodes, "id"@, e, to)), atom_link(nodes, e, to))
}

/// The first element of a document (its root element).
pub open spec fn first_element(nodes: Seq<XmlNodeView>, k: int) -> Option<int>
    decreases nodes.len() - k,
{
    if k < 0 || k >= nodes.len() {
        None
    } else if nodes[k].element {
        Some(k)
    } else {
        first_element(nodes, k + 1)
    }
}

/// The elements named `name` in `[from, k)`, in order.
pub open spec fn named_upto(nodes: Seq<XmlNodeView>, name: Seq<char>, from: int, k: int) -> Seq<int>
    decreases k - from,
{
    if k <= from {
        Seq::empty()
    } else {
        let r = named_upto(nodes, name, from, k - 1);
        if nodes[k - 1].element && nodes[k - 1].name == name {
            r.push(k - 1)
        } else {
            r
        }
    }
}

/// The entries of an Atom document: the `entry` elements under its root
/// element.
pub open spec fn atom_entries(nodes: Seq<XmlNodeView>) -> Seq<int> {
    match first_element(nodes, 0) {
        Some(r) => named_upto(nodes, "entry"@, r, subtree_end(nodes, r)),
        None => Seq::empty(),
    }
}

fn first_element_exec(nodes: &Vec<XmlNode>) -> (r: Option<usize>)
    ensures
        match r {
            Some(k) => first_element(nodes_view(nodes@), 0) == Some(k as int) && k < nodes@.len(),
            None => first_element(nodes_view(nodes@), 0) is None,
        },
{
    let ghost nv = nodes_view(nodes@);
    let mut k: usize = 0;
    while k < nodes.len()
        invariant
            nv == nodes_view(nodes@),
            k <= nodes@.len(),
            first_element(nv, 0) == first_element(nv, k as int),
        decreases nodes@.len() - k,
    {
        assert(nv[k as int] == nodes@[k as int]@);
        if nodes[k].element {
            return Some(k);
        }
        k = k + 1;
    }
    None
}

fn text_of(nodes: &Vec<XmlNode>, k: Option<usize>) -> (r: Option<String>)
    requires
        k matches Some(i) ==> i < nodes@.len(),
    ensures
        opt_view(r) == node_text(nodes_view(nodes@), match k { Some(i) => Some(i as int), None => None }),
{
    match k {
        Some(i) => {
            assert(nodes_view(nodes@)[i as int] == nodes@[i as int]@);
            match &nodes[i].text {
                Some(t) => Some(t.clone()),
                None => None,
            }
        },
        None => None,
    }
}

fn trimmed_or_exec(t: &Option<String>, default: &str) -> (r: String)
    ensures
        r@ == trimmed_or(opt_view(*t), default@),
{
    match t {
        Some(x) => trim_str(x.as_str()),
        None => String::from_str(default),
    }
}

fn first_named_opt(nodes: &Vec<XmlNode>, name: &str, from: usize, to: usize) -> (r: Option<usize>)
    requires
        from <= to <= nodes@.len(),
    ensures
        match r {
            Some(k) => first_named(nodes_view(nodes@), name@, from as int, to as int) == Some(k as int) && k < nodes@.len(),
            None => first_named(nodes_view(nodes@), name@, from as int, to as int) is None,
        },
{
    proof {
        lemma_first_named_bounds(nodes_view(nodes@), name@, from as int, to as int);
    }
    first_named_exec(nodes, name, from, to)
}

/// The article of the Atom entry at `e`.
fn atom_entry(nodes: &Vec<XmlNode>, e: usize, feed_url: &str, now: i64) -> (a: Article)
    requires
        e < nodes@.len(),
    ensures
        atom_entry_ok(nodes_view(nodes@), e as int, feed_url@, now, a),
{
    let ghost nv = nodes_view(nodes@);
    let to = subtree_end_exec(nodes, e);
    let title_t = text_of(nodes, first_named_opt(nodes, "title", e, to));
    let title = match &title_t {
        Some(t) => {
            let tt = trim_str(t.as_str());
            if tt.as_str().is_empty() {
                String::from_str("[无标题]")
            } else {
                decode_html_entities(tt.as_str())
            }
        },
        None => String::from_str("[无标题]"),
    };
    let link = match first_attr_of_named_exec(nodes, "link", "href", e, to) {
        Some(l) => l,
        None => String::new(),
    };
    let date_node = match first_named_opt(nodes, "published", e, to) {
        Some(k) => Some(k),
        None => first_named_opt(nodes, "updated", e, to),
    };
    let pub_date = match text_of(nodes, date_node) {
        Some(t) => {
            let tt = trim_str(t.as_str());
            match parse_rfc3339(tt.as_str()) {
                Some(x) => x,
                None => now,
            }
        },
        None => now,
    };
    let summary_t = text_of(nodes, first_named_opt(nodes, "summary", e, to));
    let summary = trimmed_or_exec(&summary_t, "");
    let content_t = text_of(nodes, first_named_opt(nodes, "content", e, to));
    let content_str = match &content_t {
        Some(c) => trim_str(c.as_str()),
        None => summary.clone(),
    };
    let cleaned_content = sanitize_feed_content(content_str.as_str());
    let sc = chars_of(summary.as_str());
    let cc = chars_of(content_str.as_str());
    let cleaned_summary = if sc.len() > 0 && !crate::text::chars_eq(sc.as_slice(), cc.as_slice()) {
        let p = html_to_plain_text(summary.as_str());
        take_200(p.as_str())
    } else {
        String::new()
    };
    let author = match first_named_opt(nodes, "author", e, to) {
        Some(a) => {
            let a_end = subtree_end_exec(nodes, a);
            let n = text_of(nodes, first_named_opt(nodes, "name", a, a_end));
            trimmed_or_exec(&n, "")
        },
        None => String::new(),
    };
    let id_t = text_of(nodes, first_named_opt(nodes, "id", e, to));
    let guid = match &id_t {
        Some(g) => trim_str(g.as_str()),
        None => link.clone(),
    };
    proof {
        reveal_strlit("");
    }
    assert(title@ == atom_title(nv, e as int, to as int));
    assert(link@ == atom_link(nv, e as int, to as int));
    assert(pub_date == atom_date(nv, e as int, to as int, now));
    assert(summary@ == atom_summary(nv, e as int, to as int));
    assert(content_str@ == atom_content(nv, e as int, to as int));
    assert(author@ == atom_author(nv, e as int, to as int));
    Article {
        id: 0,
        feed_id: 0,
        title,
        link,
        author,
        pub_date,
        content: cleaned_content,
        summary: cleaned_summary,
        is_read: false,
        is_starred: false,
        source: String::from_str(feed_url),
        guid,
    }
}

/// The articles of the entries of an Atom document, in order; an error when
/// it has none.
pub fn parse_atom_nodes(nodes: &Vec<XmlNode>, feed_url: &str, now: i64) -> (r: Result<Vec<Article>, RssError>)
    ensures
        atom_result_ok(nodes_view(nodes@), feed_url@, now, r),
{
    let ghost nv = nodes_view(nodes@);
    let root = first_element_exec(nodes);
    let mut out: Vec<Article> = Vec::new();
    match root {
        None => {
            return Err(RssError::AtomParseError);
        },
        Some(r) => {
            let end = subtree_end_exec(nodes, r);
            let ghost es = named_upto(nv, "entry"@, r as int, end as int);
            let entry = chars_of("entry");
            let mut i = r;
            while i < end
                invariant
                    nv == nodes_view(nodes@),
                    r <= i <= end <= nodes@.len(),
                    entry@ == "entry"@,
                    out@.len() == named_upto(nv, "entry"@, r as int, i as int).len(),
                    forall|j: int| 0 <= j < out@.len() ==> atom_entry_ok(nv, #[trigger] named_upto(nv, "entry"@, r as int, i as int)[j], feed_url@, now, out@[j]),
                decreases end - i,
            {
                assert(nv[i as int] == nodes@[i as int]@);
                let ghost before = named_upto(nv, "entry"@, r as int, i as int);
                let this = chars_of(nodes[i].name.as_str());
                if nodes[i].element && crate::text::chars_eq(this.as_slice(), entry.as_slice()) {
                    let a = atom_entry(nodes, i, feed_url, now);
                    out.push(a);
                    assert(named_upto(nv, "entry"@, r as int, i + 1) == before.push(i as int));
                } else {
                    assert(named_upto(nv, "entry"@, r as int, i + 1) == before);
                }
                i = i + 1;
            }
            if out.len() == 0 {
                return Err(RssError::AtomParseError);
            }
            Ok(out)
        },
    }
}

/// The outcome of reading the entries of an Atom document.
pub open spec fn atom_result_ok(nv: Seq<XmlNodeView>, feed_url: Seq<char>, now: i64, r: Result<Vec<Article>, RssError>) -> bool {
    if atom_entries(nv).len() == 0 {
        r matches Err(RssError::AtomParseError)
    } else {
        r matches Ok(v) && v@.len() == atom_entries(nv).len() && forall|k: int|
            0 <= k < v@.len() ==> atom_entry_ok(nv, #[trigger] atom_entries(nv)[k], feed_url, now, v@[k])
    }
}

/// The articles of an Atom document; an XML error when it does not parse.
pub fn parse_atom_content(content: &str, feed_url: &str, now: i64) -> (r: Result<Vec<Article>, RssError>)
    ensures
        match spec_xml_document(content@) {
            Err(m) => r matches Err(RssError::XmlError(x)) && x@ == m,
            Ok(nv) => atom_result_ok(nv, feed_url@, now, r),
        },
{
    match xml_document(content) {
        Err(m) => Err(RssError::XmlError(m)),
        Ok(nodes) => parse_atom_nodes(&nodes, feed_url, now),
    }
}

// ---------------------------------------------------------------------------
// OPML import
// ---------------------------------------------------------------------------

/// A subscription read from OPML: title, feed address, group.
pub type OpmlFeed = (Seq<char>, Seq<char>, Seq<char>);

/// The nearest node before `k`, searching down from `j`, whose subtree
/// holds `k`: the parent of `k`.
pub open spec fn parent_from(nodes: Seq<XmlNodeView>, k: int, j: int) -> Option<int>
    decreases j + 1,
{
    if j < 0 {
        None
    } else if j < nodes.len() && subtree_end(nodes, j) > k {
        Some(j)
    } else {
        parent_from(nodes, k, j - 1)
    }
}

pub open spec fn parent_of(nodes: Seq<XmlNodeView>, k: int) -> Option<int> {
    parent_from(nodes, k, k - 1)
}

pub open spec fn title_or_text(n: XmlNodeView) -> Option<Seq<char>> {
    match attr(n, "title"@) {
        Some(t) => Some(t),
        None => attr(n, "text"@),
    }
}

/// The group of an outline: the title (or text) of its parent, when the
/// parent is an outline (any parent when `any_parent`).
pub open spec fn outline_group(nodes: Seq<XmlNodeView>, k: int, any_parent: bool) -> Seq<char> {
    match parent_of(nodes, k) {
        Some(p) => if any_parent || nodes[p].name == "outline"@ {
            match title_or_text(nodes[p]) {
                Some(t) => t,
                None => Seq::empty(),
            }
        } else {
            Seq::empty()
        },
        None => Seq::empty(),
    }
}

/// The subscription an outline stands for: typed `rss` or `atom`, or (when
/// `untyped` is allowed) without a type but with a feed address; it needs a
/// title (or text) and a feed address.
pub open spec fn outline_feed(nodes: Seq<XmlNodeView>, k: int, untyped: bool, any_parent: bool) -> Option<OpmlFeed> {
    let n = nodes[k];
    let typed_ok = match attr(n, "type"@) {
        Some(t) => t == "rss"@ || t == "atom"@,
        None => untyped && attr(n, "xmlUrl"@) is Some,
    };
    if n.name == "outline"@ && typed_ok && title_or_text(n) is Some && attr(n, "xmlUrl"@) is Some {
        Some((title_or_text(n)->0, attr(n, "xmlUrl"@)->0, outline_group(nodes, k, any_parent)))
    } else {
        None
    }
}

pub open spec fn opml_feeds_upto(nodes: Seq<XmlNodeView>, k: int, untyped: bool, any_parent: bool) -> Seq<OpmlFeed>
    decreases k,
{
    if k <= 0 {
        Seq::empty()
    } else {
        let r = opml_feeds_upto(nodes, k - 1, untyped, any_parent);
        match outline_feed(nodes, k - 1, untyped, any_parent) {
            Some(f) => r.push(f),
            None => r,
        }
    }
}

pub open spec fn triples_view(v: Seq<(String, String, String)>) -> Seq<OpmlFeed> {
    v.map_values(|t: (String, String, String)| (t.0@, t.1@, t.2@))
}

fn parent_of_exec(nodes: &Vec<XmlNode>, k: usize) -> (r: Option<usize>)
    requires
        k < nodes@.len(),
    ensures
        match r {
            Some(p) => parent_of(nodes_view(nodes@), k as int) == Some(p as int) && p < k,
            None => parent_of(nodes_view(nodes@), k as int) is None,
        },
{
    let ghost nv = nodes_view(nodes@);
    let mut j = k;
    while j > 0
        invariant
            nv == nodes_view(nodes@),
            j <= k < nodes@.len(),
            parent_of(nv, k as int) == parent_from(nv, k as int, j - 1),
        decreases j,
    {
        if subtree_end_exec(nodes, j - 1) > k {
            return Some(j - 1);
        }
        j = j - 1;
    }
    None
}

fn title_or_text_exec(n: &XmlNode) -> (r: Option<String>)
    ensures
        opt_view(r) == title_or_text(n@),
{
    match attr_exec(n, "title") {
        Some(t) => Some(t),
        None => attr_exec(n, "text"),
    }
}

fn lit_is(s: &str, lit: &str) -> (r: bool)
    ensures
        r == (s@ == lit@),
{
    let a = chars_of(s);
    let b = chars_of(lit);
    crate::text::chars_eq(a.as_slice(), b.as_slice())
}

fn outline_feed_exec(nodes: &Vec<XmlNode>, k: usize, untyped: bool, any_parent: bool) -> (r: Option<(String, String, String)>)
    requires
        k < nodes@.len(),
    ensures
        match outline_feed(nodes_view(nodes@), k as int, untyped, any_parent) {
            Some(f) => r matches Some(t) && (t.0@, t.1@, t.2@) == f,
            None => r is None,
        },
{
    let ghost nv = nodes_view(nodes@);
    assert(nv[k as int] == nodes@[k as int]@);
    let n = &nodes[k];
    if !lit_is(n.name.as_str(), "outline") {
        return None;
    }
    let typed_ok = match attr_exec(n, "type") {
        Some(t) => lit_is(t.as_str(), "rss") || lit_is(t.as_str(), "atom"),
        None => untyped && attr_exec(n, "xmlUrl").is_some(),
    };
    if !typed_ok {
        return None;
    }
    let title = match title_or_text_exec(n) {
        Some(t) => t,
        None => {
            return None;
        },
    };
    let url = match attr_exec(n, "xmlUrl") {
        Some(u) => u,
        None => {
            return None;
        },
    };
    let group = match parent_of_exec(nodes, k) {
        Some(p) => {
            assert(nv[p as int] == nodes@[p as int]@);
            if any_parent || lit_is(nodes[p].name.as_str(), "outline") {
                match title_or_text_exec(&nodes[p]) {
                    Some(t) => t,
                    None => String::new(),
                }
            } else {
                String::new()
            }
        },
        None => String::new(),
    };
    Some((title, url, group))
}

/// The subscriptions of the outlines of an OPML document, in document order.
pub fn opml_feeds(nodes: &Vec<XmlNode>, untyped: bool, any_parent: bool) -> (r: Vec<(String, String, String)>)
    ensures
        triples_view(r@) == opml_feeds_upto(nodes_view(nodes@), nodes@.len() as int, untyped, any_parent),
{
    let ghost nv = nodes_view(nodes@);
    let mut out: Vec<(String, String, String)> = Vec::new();
    let mut k: usize = 0;
    while k < nodes.len()
        invariant
            nv == nodes_view(nodes@),
            k <= nodes@.len(),
            triples_view(out@) == opml_feeds_upto(nv, k as int, untyped, any_parent),
        decreases nodes@.len() - k,
    {
        match outline_feed_exec(nodes, k, untyped, any_parent) {
            Some(t) => {
                let ghost before = out@;
                let ghost tv = (t.0@, t.1@, t.2@);
                out.push(t);
                proof {
                    assert(triples_view(out@) =~= triples_view(before).push(tv));
                }
            },
            None => {},
        }
        k = k + 1;
    }
    out
}

/// The subscriptions of an OPML text: outlines typed `rss` or `atom`, or
/// untyped with a feed address, grouped under a parent outline's title.
pub fn import_from_string(opml_content: &str) -> (r: Result<Vec<(String, String, String)>, String>)
    ensures
        match spec_xml_document(opml_content@) {
            Err(m) => r matches Err(x) && x@ == m,
            Ok(nv) => r matches Ok(v) && triples_view(v@) == opml_feeds_upto(nv, nv.len() as int, true, false),
        },
{
    match xml_document(opml_content) {
        Err(m) => Err(m),
        Ok(nodes) => Ok(opml_feeds(&nodes, true, false)),
    }
}

/// The subscriptions of the text of an OPML file: outlines typed `rss` or
/// `atom`, grouped under their parent's title.
pub fn import_from_file_content(opml_content: &str) -> (r: Result<Vec<(String, String, String)>, String>)
    ensures
        match spec_xml_document(opml_content@) {
            Err(m) => r matches Err(x) && x@ == m,
            Ok(nv) => r matches Ok(v) && triples_view(v@) == opml_feeds_upto(nv, nv.len() as int, false, true),
        },
{
    match xml_document(opml_content) {
        Err(m) => Err(m),
        Ok(nodes) => Ok(opml_feeds(&nodes, false, true)),
    }
}

// ---------------------------------------------------------------------------
// OPML export
// ---------------------------------------------------------------------------

pub open spec fn esc(s: Seq<char>) -> Seq<char> {
    spec_escape(Escaping::HtmlText, s)
}

/// The outline of one subscription, indented inside a group; with the
/// title repeated as `text` when `with_text`.
pub open spec fn feed_outline(title: Seq<char>, url: Seq<char>, nested: bool, with_text: bool) -> Seq<char> {
    (if nested { "  "@ } else { Seq::empty() }) + "<outline type=\"rss\" title=\""@ + esc(title) + (if with_text {
        "\" text=\""@ + esc(title)
    } else {
        Seq::empty()
    }) + "\" xmlUrl=\""@ + esc(url) + "\"/>"@
}

/// The outlines of the subscriptions of group `g`.
pub open spec fn group_lines(feeds: Seq<OpmlFeed>, g: Seq<char>, nested: bool, with_text: bool) -> Seq<char>
    decreases feeds.len(),
{
    if feeds.len() == 0 {
        Seq::empty()
    } else {
        group_lines(feeds.drop_last(), g, nested, with_text) + if feeds.last().2 == g {
            feed_outline(feeds.last().0, feeds.last().1, nested, with_text)
        } else {
            Seq::empty()
        }
    }
}

/// The non-empty groups, each once, in order of first appearance.
pub open spec fn group_names(feeds: Seq<OpmlFeed>) -> Seq<Seq<char>>
    decreases feeds.len(),
{
    if feeds.len() == 0 {
        Seq::empty()
    } else {
        let r = group_names(feeds.drop_last());
        let g = feeds.last().2;
        if g.len() == 0 || r.contains(g) {
            r
        } else {
            r.push(g)
        }
    }
}

/// The group outlines, each holding its subscriptions.
pub open spec fn group_blocks(feeds: Seq<OpmlFeed>, gs: Seq<Seq<char>>, with_text: bool) -> Seq<char>
    decreases gs.len(),
{
    if gs.len() == 0 {
        Seq::empty()
    } else {
        let g = gs.last();
        group_blocks(feeds, gs.drop_last(), with_text) + "<outline text=\""@ + esc(g) + "\" title=\""@ + esc(g)
            + "\">\n"@ + group_lines(feeds, g, true, with_text) + "</outline>"@
    }
}

/// The body of an OPML document: ungrouped subscriptions first, then one
/// outline per group.
pub open spec fn opml_body(feeds: Seq<OpmlFeed>, with_text: bool) -> Seq<char> {
    "<body>"@ + group_lines(feeds, Seq::empty(), false, with_text) + group_blocks(feeds, group_names(feeds), with_text)
        + "</body></opml>"@
}

pub open spec fn opml_prolog() -> Seq<char> {
    "<?xml version=\"1.0\" encoding=\"UTF-8\"?><opml version=\"1.0\">"@
}

/// The OPML document of the subscriptions, created at `created`.
pub open spec fn spec_generate_opml(feeds: Seq<OpmlFeed>, created: Seq<char>) -> Seq<char> {
    opml_prolog() + "<head>"@ + "<title>Rust RSS Reader Subscriptions</title>"@ + "<dateCreated>"@ + created
        + "</dateCreated>"@ + "<ownerName>Rust RSS Reader</ownerName>"@ + "</head>"@ + opml_body(feeds, true)
}

/// The OPML document written when subscriptions are exported to a file.
pub open spec fn spec_export_opml(feeds: Seq<OpmlFeed>) -> Seq<char> {
    opml_prolog() + "<head><title>Rust RSS Reader Subscriptions</title></head>"@ + opml_body(feeds, false)
}

fn esc_exec(s: &str) -> (r: Vec<char>)
    ensures
        r@ == esc(s@),
{
    let e = escape_text(Escaping::HtmlText, s);
    chars_of(e.as_str())
}

fn push_feed_outline(out: &mut Vec<char>, title: &str, url: &str, nested: bool, with_text: bool)
    ensures
        final(out)@ == old(out)@ + feed_outline(title@, url@, nested, with_text),
{
    let ghost o = old(out)@;
    if nested {
        append_str(out, "  ");
    }
    append_str(out, "<outline type=\"rss\" title=\"");
    let t = esc_exec(title);
    append_chars(out, t.as_slice());
    if with_text {
        append_str(out, "\" text=\"");
        append_chars(out, t.as_slice());
    }
    append_str(out, "\" xmlUrl=\"");
    let u = esc_exec(url);
    append_chars(out, u.as_slice());
    append_str(out, "\"/>");
    proof {
        reveal_strlit("  ");
        assert(out@ =~= o + feed_outline(title@, url@, nested, with_text));
    }
}

fn push_group_lines(out: &mut Vec<char>, feeds: &[(String, String, String)], g: &str, nested: bool, with_text: bool)
    ensures
        final(out)@ == old(out)@ + group_lines(triples_view(feeds@), g@, nested, with_text),
{
    let ghost o = old(out)@;
    let ghost fv = triples_view(feeds@);
    let gc = chars_of(g);
    let mut k: usize = 0;
    while k < feeds.len()
        invariant
            k <= feeds@.len(),
            fv == triples_view(feeds@),
            gc@ == g@,
            out@ == o + group_lines(fv.take(k as int), g@, nested, with_text),
        decreases feeds@.len() - k,
    {
        proof {
            assert(fv.take(k + 1).drop_last() =~= fv.take(k as int));
            assert(fv.take(k + 1).last() == (feeds@[k as int].0@, feeds@[k as int].1@, feeds@[k as int].2@));
        }
        let grp = chars_of(feeds[k].2.as_str());
        if crate::text::chars_eq(grp.as_slice(), gc.as_slice()) {
            push_feed_outline(out, feeds[k].0.as_str(), feeds[k].1.as_str(), nested, with_text);
            assert(out@ =~= o + group_lines(fv.take(k + 1), g@, nested, with_text));
        } else {
            assert(out@ =~= o + group_lines(fv.take(k + 1), g@, nested, with_text));
        }
        k = k + 1;
    }
    assert(fv.take(feeds@.len() as int) =~= fv);
}

fn group_names_exec(feeds: &[(String, String, String)]) -> (r: Vec<String>)
    ensures
        r@.map_values(|s: String| s@) == group_names(triples_view(feeds@)),
{
    let ghost fv = triples_view(feeds@);
    let mut out: Vec<String> = Vec::new();
    let mut k: usize = 0;
    while k < feeds.len()
        invariant
            k <= feeds@.len(),
            fv == triples_view(feeds@),
            out@.map_values(|s: String| s@) == group_names(fv.take(k as int)),
        decreases feeds@.len() - k,
    {
        proof {
            assert(fv.take(k + 1).drop_last() =~= fv.take(k as int));
            assert(fv.take(k + 1).last().2 == feeds@[k as int].2@);
        }
        let g = &feeds[k].2;
        let gc = chars_of(g.as_str());
        let mut seen = false;
        let mut j: usize = 0;
        while j < out.len()
            invariant
                j <= out@.len(),
                gc@ == feeds@[k as int].2@,
                seen == (exists|i: int| 0 <= i < j && out@[i]@ == gc@),
            decreases out@.len() - j,
        {
            let oc = chars_of(out[j].as_str());
            if crate::text::chars_eq(oc.as_slice(), gc.as_slice()) {
                seen = true;
            }
            j = j + 1;
        }
        let ghost names = out@.map_values(|s: String| s@);
        proof {
            if seen {
                let i = choose|i: int| 0 <= i < out@.len() && out@[i]@ == gc@;
                assert(names[i] == gc@);
            }
            if names.contains(gc@) {
                let i = choose|i: int| 0 <= i < names.len() && names[i] == gc@;
                assert(out@[i]@ == gc@);
            }
        }
        if gc.len() > 0 && !seen {
            out.push(g.clone());
            proof {
                assert(out@.map_values(|s: String| s@) =~= names.push(gc@));
            }
        }
        k = k + 1;
    }
    assert(fv.take(feeds@.len() as int) =~= fv);
    out
}

fn push_opml_body(out: &mut Vec<char>, feeds: &[(String, String, String)], with_text: bool)
    ensures
        final(out)@ == old(out)@ + opml_body(triples_view(feeds@), with_text),
{
    let ghost o = old(out)@;
    let ghost fv = triples_view(feeds@);
    append_str(out, "<body>");
    let ghost after_open = out@;
    push_group_lines(out, feeds, "", false, with_text);
    proof {
        reveal_strlit("");
        assert(""@ =~= Seq::<char>::empty());
    }
    let ghost after_plain = out@;
    assert(after_plain == o + "<body>"@ + group_lines(fv, Seq::empty(), false, with_text));
    let gs = group_names_exec(feeds);
    let ghost gv = gs@.map_values(|s: String| s@);
    let mut k: usize = 0;
    while k < gs.len()
        invariant
            k <= gs@.len(),
            gv == gs@.map_values(|s: String| s@),
            fv == triples_view(feeds@),
            out@ == after_plain + group_blocks(fv, gv.take(k as int), with_text),
        decreases gs@.len() - k,
    {
        proof {
            assert(gv.take(k + 1).drop_last() =~= gv.take(k as int));
            assert(gv.take(k + 1).last() == gs@[k as int]@);
        }
        let ghost before = out@;
        append_str(out, "<outline text=\"");
        let e = esc_exec(gs[k].as_str());
        append_chars(out, e.as_slice());
        append_str(out, "\" title=\"");
        append_chars(out, e.as_slice());
        append_str(out, "\">\n");
        push_group_lines(out, feeds, gs[k].as_str(), true, with_text);
        append_str(out, "</outline>");
        assert(out@ =~= after_plain + group_blocks(fv, gv.take(k + 1), with_text));
        k = k + 1;
    }
    assert(gv.take(gs@.len() as int) =~= gv);
    assert(gv == group_names(fv));
    append_str(out, "</body></opml>");
    assert(out@ =~= o + opml_body(fv, with_text));
}

/// The OPML document of the subscriptions, stamped with its creation time.
pub fn generate_opml_at(feeds: &[(String, String, String)], created: &str) -> (r: String)
    ensures
        r@ == spec_generate_opml(triples_view(feeds@), created@),
{
    let mut out: Vec<char> = Vec::new();
    append_str(&mut out, "<?xml version=\"1.0\" encoding=\"UTF-8\"?><opml version=\"1.0\">");
    append_str(&mut out, "<head>");
    append_str(&mut out, "<title>Rust RSS Reader Subscriptions</title>");
    append_str(&mut out, "<dateCreated>");
    append_str(&mut out, created);
    append_str(&mut out, "</dateCreated>");
    append_str(&mut out, "<ownerName>Rust RSS Reader</ownerName>");
    append_str(&mut out, "</head>");
    let ghost head = out@;
    push_opml_body(&mut out, feeds, true);
    assert(out@ =~= spec_generate_opml(triples_view(feeds@), created@));
    string_of(out.as_slice())
}

/// The current instant in RFC 3339 (`chrono::Utc::now().to_rfc3339()`).
/// Nothing is stated of it: it is the time of the call.
#[verifier::external_body]
pub(crate) fn now_rfc3339() -> (r: String) {
    chrono::Utc::now().to_rfc3339()
}

/// The OPML document of the subscriptions, stamped with the current time:
/// the document of [`generate_opml_at`] for some creation time.
pub fn generate_opml(feeds: &[(String, String, String)]) -> (r: String)
    ensures
        exists|created: Seq<char>| r@ == spec_generate_opml(triples_view(feeds@), created),
{
    let now = now_rfc3339();
    generate_opml_at(feeds, now.as_str())
}

/// The OPML document written when subscriptions are exported to a file.
pub fn export_opml_text(feeds: &[(String, String, String)]) -> (r: String)
    ensures
        r@ == spec_export_opml(triples_view(feeds@)),
{
    let mut out: Vec<char> = Vec::new();
    append_str(&mut out, "<?xml version=\"1.0\" encoding=\"UTF-8\"?><opml version=\"1.0\">");
    append_str(&mut out, "<head><title>Rust RSS Reader Subscriptions</title></head>");
    push_opml_body(&mut out, feeds, false);
    assert(out@ =~= spec_export_opml(triples_view(feeds@)));
    string_of(out.as_slice())
}

// ---------------------------------------------------------------------------
// Reading a fetched feed document
// ---------------------------------------------------------------------------

/// A document that starts (after white space) like XML, RSS or Atom.
pub open spec fn looks_like_xml(s: Seq<char>) -> bool {
    let t = trim_left(s);
    spec_starts_with(t, "<?xml"@) || spec_starts_with(t, "<rss"@) || spec_starts_with(t, "<feed"@)
}

/// The refusal of a document that is a web page: a missing page, or a page
/// that announces a feed (`None` for anything else).
pub open spec fn html_refusal(body: Seq<u8>) -> Option<Seq<char>> {
    if !valid_utf8(body) {
        None
    } else {
        let text = decode_utf8(body);
        let lower = spec_lowercase(text);
        if spec_contains(lower, "<!doctype html"@) || spec_contains(lower, "<html"@) {
            if spec_contains(lower, "404"@) || spec_contains(lower, "not found"@) {
                Some("服务器返回404错误，该RSS源可能不存在或已更改"@)
            } else {
                match spec_extract_rss_link(text) {
                    Some(l) => Some("检测到HTML页面，已提取RSS链接: "@ + l),
                    None => None,
                }
            }
        } else {
            None
        }
    }
}

/// Whether a document is worth decompressing: its encoding names gzip,
/// brotli or deflate, or it is longer than 100 bytes.
pub open spec fn should_decompress(enc_lower: Seq<char>, len: nat) -> bool {
    spec_contains(enc_lower, "gzip"@) || spec_contains(enc_lower, "br"@) || spec_contains(enc_lower, "deflate"@)
        || len > 100
}

/// The byte strings tried as an RSS document, in order: the document, the
/// document without a UTF-8 byte-order mark, its lossy UTF-8 text, its GBK
/// text, its UTF-16 text, its GBK text again, its EUC-KR text, its lossy text
/// without byte-order marks and tags, and its decompressed bytes.
pub open spec fn channel_candidates(body: Seq<u8>, enc_lower: Seq<char>) -> Seq<Seq<u8>> {
    let lossy = spec_lossy_utf8(body);
    let c0 = seq![body];
    let c1 = if body.len() >= 3 && body[0] == 0xef && body[1] == 0xbb && body[2] == 0xbf {
        c0.push(body.subrange(3, body.len() as int))
    } else {
        c0
    };
    let c2 = c1.push(encode_utf8(lossy));
    let c3 = c2.push(encode_utf8(spec_decode_gbk(body)));
    let c4 = match spec_from_utf16(spec_utf16_units(body)) {
        Some(t) => c3.push(encode_utf8(t)),
        None => c3,
    };
    let c5 = c4.push(encode_utf8(spec_decode_gbk(body)));
    let c6 = c5.push(encode_utf8(spec_decode_euc_kr(body)));
    let c7 = c6.push(encode_utf8(spec_strip_tags(replace_all(lossy, seq!['\u{FEFF}'], Seq::empty()))));
    if should_decompress(enc_lower, body.len()) {
        match spec_decompress(body) {
            Some(d) => c7.push(d),
            None => c7,
        }
    } else {
        c7
    }
}

/// The first candidate from `k` on that reads as an RSS channel.
pub open spec fn first_channel(cands: Seq<Seq<u8>>, k: int) -> Option<RssChannelView>
    decreases cands.len() - k,
{
    if k < 0 || k >= cands.len() {
        None
    } else {
        match spec_read_channel(cands[k]) {
            Some(c) => Some(c),
            None => first_channel(cands, k + 1),
        }
    }
}

/// The articles of a channel.
pub open spec fn channel_articles_ok(c: RssChannelView, now: i64, v: Seq<Article>) -> bool {
    v.len() == c.items.len() && forall|k: int| 0 <= k < v.len() ==> item_article_ok(c.items[k], c.title, now, #[trigger] v[k])
}

/// What reading a fetched feed document gives: refusals of empty, non-XML
/// and web-page documents; else the articles of the first candidate that
/// reads as RSS; else those of the document read as Atom; else an error.
pub open spec fn feed_body_ok(url: Seq<char>, body: Seq<u8>, enc: Seq<char>, now: i64, r: Result<Vec<Article>, RssError>) -> bool {
    if body.len() == 0 {
        r matches Err(RssError::NetworkError(m)) && m@ == "服务器返回空内容"@
    } else if !looks_like_xml(spec_lossy_utf8(body)) {
        r matches Err(RssError::NetworkError(m)) && m@ == "服务器返回无效的XML内容"@
    } else {
        match html_refusal(body) {
            Some(msg) => r matches Err(RssError::NetworkError(m)) && m@ == msg,
            None => match first_channel(channel_candidates(body, spec_lowercase(enc)), 0) {
                Some(c) => r matches Ok(v) && channel_articles_ok(c, now, v@),
                None => {
                    let text = spec_lossy_utf8(body);
                    let parsed = if spec_is_atom_format(text) {
                        match spec_xml_document(text) {
                            Ok(nv) => if atom_entries(nv).len() > 0 { Some(nv) } else { None },
                            Err(_) => None,
                        }
                    } else {
                        None
                    };
                    match parsed {
                        Some(nv) => atom_result_ok(nv, url, now, r),
                        None => r matches Err(RssError::NetworkError(m)) && m@ == "无法解析RSS/Atom内容，尝试了多种编码和解析方法"@,
                    }
                },
            },
        }
    }
}

fn push_text_bytes(cands: &mut Vec<Vec<u8>>, t: &str)
    ensures
        final(cands)@.map_values(|v: Vec<u8>| v@) == old(cands)@.map_values(|v: Vec<u8>| v@).push(encode_utf8(t@)),
{
    let ghost before = cands@;
    let b = utf8_bytes(t);
    cands.push(b);
    assert(cands@.map_values(|v: Vec<u8>| v@) =~= before.map_values(|v: Vec<u8>| v@).push(encode_utf8(t@)));
}

fn copy_bytes(b: &[u8], from: usize) -> (r: Vec<u8>)
    requires
        from <= b@.len(),
    ensures
        r@ == b@.subrange(from as int, b@.len() as int),
{
    let mut r: Vec<u8> = Vec::new();
    let mut i = from;
    while i < b.len()
        invariant
            from <= i <= b@.len(),
            r@ == b@.subrange(from as int, i as int),
        decreases b@.len() - i,
    {
        r.push(b[i]);
        assert(b@.subrange(from as int, i + 1) =~= b@.subrange(from as int, i as int).push(b@[i as int]));
        i = i + 1;
    }
    r
}

fn channel_candidates_exec(body: &[u8], enc_lower: &str) -> (r: Vec<Vec<u8>>)
    ensures
        r@.map_values(|v: Vec<u8>| v@) == channel_candidates(body@, enc_lower@),
{
    let lossy = lossy_utf8(body);
    let mut cands: Vec<Vec<u8>> = Vec::new();
    cands.push(copy_bytes(body, 0));
    assert(body@.subrange(0, body@.len() as int) =~= body@);
    assert(cands@.map_values(|v: Vec<u8>| v@) =~= seq![body@]);
    if body.len() >= 3 && body[0] == 0xef && body[1] == 0xbb && body[2] == 0xbf {
        let ghost before = cands@;
        cands.push(copy_bytes(body, 3));
        assert(cands@.map_values(|v: Vec<u8>| v@) =~= before.map_values(|v: Vec<u8>| v@).push(body@.subrange(3, body@.len() as int)));
    }
    push_text_bytes(&mut cands, lossy.as_str());
    let gbk = decode_gbk(body);
    push_text_bytes(&mut cands, gbk.as_str());
    let units = try_decode_utf16(body);
    match string_from_utf16(units.as_slice()) {
        Some(t) => push_text_bytes(&mut cands, t.as_str()),
        None => {},
    }
    push_text_bytes(&mut cands, gbk.as_str());
    let euc = decode_euc_kr(body);
    push_text_bytes(&mut cands, euc.as_str());
    let lc = chars_of(lossy.as_str());
    let bom = ['\u{FEFF}'];
    let empty: [char; 0] = [];
    let no_bom = replace_text(lc.as_slice(), bom.as_slice(), empty.as_slice());
    assert(bom@ =~= seq!['\u{FEFF}']);
    assert(empty@ =~= Seq::<char>::empty());
    let stripped = strip_tags_chars(no_bom.as_slice());
    let st = string_of(stripped.as_slice());
    push_text_bytes(&mut cands, st.as_str());
    let e = chars_of(enc_lower);
    let gzip = chars_of("gzip");
    let br = chars_of("br");
    let deflate = chars_of("deflate");
    if contains_chars(e.as_slice(), gzip.as_slice()) || contains_chars(e.as_slice(), br.as_slice())
        || contains_chars(e.as_slice(), deflate.as_slice()) || body.len() > 100 {
        match try_decompress_gzip(body) {
            Ok(d) => {
                let ghost before = cands@;
                cands.push(d);
                assert(cands@.map_values(|v: Vec<u8>| v@) =~= before.map_values(|v: Vec<u8>| v@).push(d@));
            },
            Err(_) => {},
        }
    }
    cands
}

/// Reads a fetched feed document into articles, dated `now` where a date is
/// missing or unreadable; `content_encoding` is the response's
/// `Content-Encoding` header.
pub fn parse_feed_body(url: &str, body: &[u8], content_encoding: &str, now: i64) -> (r: Result<Vec<Article>, RssError>)
    ensures
        feed_body_ok(url@, body@, content_encoding@, now, r),
{
    if body.len() == 0 {
        return Err(RssError::NetworkError(String::from_str("服务器返回空内容")));
    }
    let lossy = lossy_utf8(body);
    let lc = chars_of(lossy.as_str());
    let lead = trim_leading(lc.as_slice());
    let x1 = chars_of("<?xml");
    let x2 = chars_of("<rss");
    let x3 = chars_of("<feed");
    if !(starts_with_chars(lead.as_slice(), x1.as_slice()) || starts_with_chars(lead.as_slice(), x2.as_slice())
        || starts_with_chars(lead.as_slice(), x3.as_slice())) {
        return Err(RssError::NetworkError(String::from_str("服务器返回无效的XML内容")));
    }
    match html_refusal_exec(body) {
        Some(m) => {
            return Err(RssError::NetworkError(m));
        },
        None => {},
    }
    let enc_lower = to_lowercase(content_encoding);
    let cands = channel_candidates_exec(body, enc_lower.as_str());
    let ghost cv = cands@.map_values(|v: Vec<u8>| v@);
    let mut k: usize = 0;
    while k < cands.len()
        invariant
            k <= cands@.len(),
            cv == cands@.map_values(|v: Vec<u8>| v@),
            cv == channel_candidates(body@, spec_lowercase(content_encoding@)),
            body@.len() > 0,
            looks_like_xml(spec_lossy_utf8(body@)),
            html_refusal(body@) is None,
            first_channel(cv, 0) == first_channel(cv, k as int),
        decreases cands@.len() - k,
    {
        assert(cv[k as int] == cands@[k as int]@);
        match read_channel(cands[k].as_slice()) {
            Some(c) => {
                let v = parse_items_to_articles(&c, now);
                proof {
                    assert(first_channel(cv, k as int) == Some(c@));
                    assert forall|j: int| 0 <= j < v@.len() implies item_article_ok(c@.items[j], c@.title, now, #[trigger] v@[j]) by {
                        assert(c@.items[j] == c.items@[j]@);
                    }
                    assert(channel_articles_ok(c@, now, v@));
                }
                return Ok(v);
            },
            None => {},
        }
        k = k + 1;
    }
    if is_atom_format(lossy.as_str()) {
        match parse_atom_content(lossy.as_str(), url, now) {
            Ok(articles) => {
                return Ok(articles);
            },
            Err(_) => {},
        }
    }
    Err(RssError::NetworkError(String::from_str("无法解析RSS/Atom内容，尝试了多种编码和解析方法")))
}

fn trim_leading(s: &[char]) -> (r: Vec<char>)
    ensures
        r@ == trim_left(s@),
{
    let n = s.len();
    let mut a: usize = 0;
    while a < n && is_whitespace(s[a])
        invariant
            n == s@.len(),
            a <= n,
            forall|j: int| 0 <= j < a ==> crate::text::is_ws(s@[j]),
        decreases n - a,
    {
        a = a + 1;
    }
    proof {
        crate::text::lemma_trim_left_skip(s@, a as int);
    }
    let ghost left = s@.subrange(a as int, n as int);
    assert(left.len() == 0 || !crate::text::is_ws(left[0]));
    assert(trim_left(s@) == left);
    slice_chars(s, a, n)
}

/// The refusal of a document that is a web page.
fn html_refusal_exec(body: &[u8]) -> (r: Option<String>)
    ensures
        opt_view(r) == html_refusal(body@),
{
    let owned_body = copy_bytes(body, 0);
    assert(body@.subrange(0, body@.len() as int) =~= body@);
    match utf8_string(owned_body) {
        Ok(text) => {
            let lower = to_lowercase(text.as_str());
            let l = chars_of(lower.as_str());
            let doctype = chars_of("<!doctype html");
            let html = chars_of("<html");
            if contains_chars(l.as_slice(), doctype.as_slice()) || contains_chars(l.as_slice(), html.as_slice()) {
                let n404 = chars_of("404");
                let nf = chars_of("not found");
                if contains_chars(l.as_slice(), n404.as_slice()) || contains_chars(l.as_slice(), nf.as_slice()) {
                    return Some(String::from_str("服务器返回404错误，该RSS源可能不存在或已更改"));
                }
                match extract_rss_link_from_html(text.as_str()) {
                    Some(link) => Some(prefixed("检测到HTML页面，已提取RSS链接: ", link.as_str())),
                    None => None,
                }
            } else {
                None
            }
        },
        Err(_) => None,
    }
}

// ---------------------------------------------------------------------------
// Feed addresses and example feeds
// ---------------------------------------------------------------------------

/// Where a feed address leads.
#[derive(Debug, PartialEq, Eq, Structural)]
pub enum FeedSource {
    /// An `http://` or `https://` address.
    Web,
    /// An `example://` address, answered with an example article.
    Example,
    /// Anything else, refused as an invalid address.
    Invalid,
}

pub open spec fn spec_feed_source(url: Seq<char>) -> FeedSource {
    if spec_starts_with(url, "http://"@) || spec_starts_with(url, "https://"@) {
        FeedSource::Web
    } else if spec_starts_with(url, "example://"@) {
        FeedSource::Example
    } else {
        FeedSource::Invalid
    }
}

/// Classifies a feed address.
pub fn feed_source(url: &str) -> (r: FeedSource)
    ensures
        r == spec_feed_source(url@),
{
    let u = chars_of(url);
    let a = chars_of("http://");
    let b = chars_of("https://");
    let c = chars_of("example://");
    if starts_with_chars(u.as_slice(), a.as_slice()) || starts_with_chars(u.as_slice(), b.as_slice()) {
        FeedSource::Web
    } else if starts_with_chars(u.as_slice(), c.as_slice()) {
        FeedSource::Example
    } else {
        FeedSource::Invalid
    }
}

/// The decimal text of a signed number.
pub open spec fn signed_decimal(n: int) -> Seq<char> {
    if n < 0 {
        seq!['-'] + crate::text::decimal((-n) as nat)
    } else {
        crate::text::decimal(n as nat)
    }
}

pub fn signed_decimal_text(n: i64) -> (r: Vec<char>)
    ensures
        r@ == signed_decimal(n as int),
{
    if n < 0 {
        let m: u64 = if n == i64::MIN {
            9223372036854775808u64
        } else {
            (-n) as u64
        };
        let mut r: Vec<char> = Vec::new();
        r.push('-');
        let d = crate::text::decimal_chars_u64(m);
        append_chars(&mut r, d.as_slice());
        r
    } else {
        crate::text::decimal_chars_u64(n as u64)
    }
}

/// The example article of an `example://` address, published at `now`
/// (nanoseconds) and identified by the address and `now_secs`.
pub open spec fn example_article_ok(url: Seq<char>, now: i64, now_secs: i64, a: Article) -> bool {
    &&& a.id == 0
    &&& a.feed_id == 0
    &&& a.title@ == (if url == "example://welcome"@ { "欢迎使用 Rust RSS 阅读器"@ } else { "示例文章标题"@ })
    &&& a.link@ == url
    &&& a.summary@ == "这是一篇示例文章，用于测试目的。"@
    &&& a.content@ == "<p>这是示例文章的详细内容。</p><p>Rust RSS 阅读器是一个高性能、轻量级的RSS阅读应用。</p>"@
    &&& a.author@ == "Rust RSS Reader Team"@
    &&& a.pub_date == now
    &&& !a.is_read
    &&& !a.is_starred
    &&& a.guid@ == url + seq!['-'] + signed_decimal(now_secs as int)
    &&& a.source@ == url
}

/// The articles served for an example address: one example article.
pub fn generate_example_articles(url: &str, now: i64, now_secs: i64) -> (r: Vec<Article>)
    ensures
        r@.len() == 1,
        example_article_ok(url@, now, now_secs, r@[0]),
{
    let title = if lit_is(url, "example://welcome") {
        String::from_str("欢迎使用 Rust RSS 阅读器")
    } else {
        String::from_str("示例文章标题")
    };
    let mut g: Vec<char> = Vec::new();
    append_str(&mut g, url);
    g.push('-');
    let d = signed_decimal_text(now_secs);
    append_chars(&mut g, d.as_slice());
    let a = Article {
        id: 0,
        feed_id: 0,
        title,
        link: String::from_str(url),
        summary: String::from_str("这是一篇示例文章，用于测试目的。"),
        content: String::from_str(
            "<p>这是示例文章的详细内容。</p><p>Rust RSS 阅读器是一个高性能、轻量级的RSS阅读应用。</p>",
        ),
        author: String::from_str("Rust RSS Reader Team"),
        pub_date: now,
        is_read: false,
        is_starred: false,
        guid: string_of(g.as_slice()),
        source: String::from_str(url),
    };
    assert(a.title@ == (if url@ == "example://welcome"@ { "欢迎使用 Rust RSS 阅读器"@ } else { "示例文章标题"@ }));
    assert(a.guid@ == url@ + seq!['-'] + signed_decimal(now_secs as int));
    assert(a.summary@ == "这是一篇示例文章，用于测试目的。"@);
    let mut v: Vec<Article> = Vec::new();
    v.push(a);
    v
}


/// How fetching a feed begins.
pub enum FetchStart {
    /// Answered without a request (the example articles).
    Answer(Vec<Article>),
    /// Refused without a request.
    Refuse(RssError),
    /// The address is requested.
    Request,
}

/// How fetching a feed begins, by the kind of its address: an `example://`
/// address is answered with the example articles at `now`; an address that
/// is neither that nor `http(s)://` is refused with a network error "Invalid
/// URL format" and no request is made; a web address is requested.
pub fn fetch_start(url: &str, now: i64, now_secs: i64) -> (r: FetchStart)
    ensures
        spec_feed_source(url@) is Example ==> (r matches FetchStart::Answer(v) && v@.len() == 1 && example_article_ok(url@, now, now_secs, v@[0])),
        spec_feed_source(url@) is Invalid ==> (r matches FetchStart::Refuse(RssError::NetworkError(m)) && m@ == "Invalid URL format"@),
        spec_feed_source(url@) is Web ==> r is Request,
{
    match feed_source(url) {
        FeedSource::Example => FetchStart::Answer(generate_example_articles(url, now, now_secs)),
        FeedSource::Invalid => FetchStart::Refuse(RssError::NetworkError(String::from_str("Invalid URL format"))),
        FeedSource::Web => FetchStart::Request,
    }
}

} // verus!
