//! Desktop notifications of new articles: which notifications a batch of
//! new articles gives under the current settings, how the settings change,
//! and what the actions of a notification mean.
use vstd::prelude::*;
use crate::text::{append_chars, append_str, chars_of, slice_chars, spec_starts_with, starts_with_chars, str_eq, string_of};
use crate::models::Article;
use crate::syndication::signed_decimal;

verus! {

/// The notification settings.
#[derive(Clone, Copy, Debug, PartialEq, Eq, Structural)]
pub struct NotificationConfig {
    pub enabled: bool,
    pub max_notifications: usize,
    pub timeout_ms: u64,
}

/// One notification to show.
#[derive(Debug)]
pub struct Notice {
    pub summary: String,
    pub body: String,
    pub timeout_ms: u64,
    pub article_id: i64,
}

/// What the notification service is asked to do.
#[derive(Debug)]
pub enum NotificationEvent {
    NewArticles(Vec<(String, Article)>),
    UpdateConfig(bool, usize, u64),
    /// The window to report chosen articles to has changed.
    UpdateUiSender,
    Stop,
}

/// A text cut to `max` characters, with `...` added when it was longer.
pub open spec fn spec_truncate(text: Seq<char>, max: nat) -> Seq<char> {
    if text.len() <= max {
        text
    } else {
        text.subrange(0, max as int) + "..."@
    }
}

/// Cuts a text to `max_length` characters, marking the cut with `...`.
pub fn truncate_text(text: &str, max_length: usize) -> (r: String)
    ensures
        r@ == spec_truncate(text@, max_length as nat),
{
    let cs = chars_of(text);
    if cs.len() <= max_length {
        return string_of(cs.as_slice());
    }
    let mut out = slice_chars(cs.as_slice(), 0, max_length);
    append_str(&mut out, "...");
    string_of(out.as_slice())
}

/// The notification of one new article of a feed.
pub open spec fn notice_ok(feed: Seq<char>, a: Article, timeout_ms: u64, n: Notice) -> bool {
    &&& n.summary@ == seq!['['] + feed + "] "@ + spec_truncate(a.title@, 50)
    &&& n.body@ == spec_truncate(a.summary@, 200)
    &&& n.timeout_ms == timeout_ms
    &&& n.article_id == a.id
}

/// The notifications of a batch of new articles: none when notifications
/// are off, otherwise one for each of the first `max_notifications`.
pub open spec fn notices_ok(config: NotificationConfig, batch: Seq<(String, Article)>, r: Seq<Notice>) -> bool {
    if !config.enabled {
        r.len() == 0
    } else {
        &&& r.len() == (if batch.len() < config.max_notifications { batch.len() } else { config.max_notifications as nat })
        &&& forall|k: int| 0 <= k < r.len() ==> notice_ok(batch[k].0@, batch[k].1, config.timeout_ms, #[trigger] r[k])
    }
}

/// The notifications of a batch of new articles.
pub fn notices_for(config: NotificationConfig, batch: &[(String, Article)]) -> (r: Vec<Notice>)
    ensures
        notices_ok(config, batch@, r@),
{
    let mut out: Vec<Notice> = Vec::new();
    if !config.enabled {
        return out;
    }
    let n = if batch.len() < config.max_notifications {
        batch.len()
    } else {
        config.max_notifications
    };
    let mut k: usize = 0;
    while k < n
        invariant
            k <= n,
            n <= batch@.len(),
            out@.len() == k,
            forall|j: int| 0 <= j < k ==> notice_ok(batch@[j].0@, batch@[j].1, config.timeout_ms, #[trigger] out@[j]),
        decreases n - k,
    {
        let (feed, a) = (&batch[k].0, &batch[k].1);
        let mut s: Vec<char> = Vec::new();
        s.push('[');
        append_str(&mut s, feed.as_str());
        append_str(&mut s, "] ");
        let t = truncate_text(a.title.as_str(), 50);
        append_str(&mut s, t.as_str());
        let body = truncate_text(a.summary.as_str(), 200);
        out.push(Notice { summary: string_of(s.as_slice()), body, timeout_ms: config.timeout_ms, article_id: a.id });
        k = k + 1;
    }
    out
}

impl NotificationConfig {
    /// The same settings with notifications switched on.
    pub fn enable(&self) -> (r: Self)
        ensures
            r == (NotificationConfig { enabled: true, ..*self }),
    {
        NotificationConfig { enabled: true, max_notifications: self.max_notifications, timeout_ms: self.timeout_ms }
    }

    /// The same settings with notifications switched off.
    pub fn disable(&self) -> (r: Self)
        ensures
            r == (NotificationConfig { enabled: false, ..*self }),
    {
        NotificationConfig { enabled: false, max_notifications: self.max_notifications, timeout_ms: self.timeout_ms }
    }

    /// The same settings with another limit per batch.
    pub fn set_max_notifications(&self, max: usize) -> (r: Self)
        ensures
            r == (NotificationConfig { max_notifications: max, ..*self }),
    {
        NotificationConfig { enabled: self.enabled, max_notifications: max, timeout_ms: self.timeout_ms }
    }

    /// The same settings with another display time.
    pub fn set_timeout(&self, timeout_ms: u64) -> (r: Self)
        ensures
            r == (NotificationConfig { timeout_ms, ..*self }),
    {
        NotificationConfig { enabled: self.enabled, max_notifications: self.max_notifications, timeout_ms }
    }
}

/// One step of the notification service: the settings after the event, the
/// notifications to show, and whether the service stops.
pub fn notification_step(config: NotificationConfig, event: NotificationEvent) -> (r: (NotificationConfig, Vec<Notice>, bool))
    ensures
        match event {
            NotificationEvent::NewArticles(batch) => r.0 == config && notices_ok(config, batch@, r.1@) && !r.2,
            NotificationEvent::UpdateConfig(e, m, t) => r.0 == (NotificationConfig { enabled: e, max_notifications: m, timeout_ms: t })
                && r.1@.len() == 0 && !r.2,
            NotificationEvent::UpdateUiSender => r.0 == config && r.1@.len() == 0 && !r.2,
            NotificationEvent::Stop => r.0 == config && r.1@.len() == 0 && r.2,
        },
{
    match event {
        NotificationEvent::NewArticles(batch) => {
            let notices = notices_for(config, batch.as_slice());
            (config, notices, false)
        },
        NotificationEvent::UpdateConfig(e, m, t) => (
            NotificationConfig { enabled: e, max_notifications: m, timeout_ms: t },
            Vec::new(),
            false,
        ),
        NotificationEvent::UpdateUiSender => (config, Vec::new(), false),
        NotificationEvent::Stop => (config, Vec::new(), true),
    }
}

/// How long a shown notification is remembered, in milliseconds.
pub const NOTICE_WINDOW_MS: u64 = 60000;

/// The number of leading send times earlier than the cutoff.
pub open spec fn leading_before(q: Seq<u64>, cutoff: int) -> nat
    decreases q.len(),
{
    if q.len() > 0 && q[0] < cutoff {
        1 + leading_before(q.drop_first(), cutoff)
    } else {
        0
    }
}

/// The earliest send time still remembered at `now` (the start of the clock
/// when less than the window has passed).
pub open spec fn notice_cutoff(now: u64) -> int {
    if now >= NOTICE_WINDOW_MS {
        now - NOTICE_WINDOW_MS
    } else {
        0
    }
}

/// Forgets the send times at the front of the queue that lie more than the
/// window before `now` (milliseconds of a monotonic clock).
pub fn clean_notification_queue(queue: &mut Vec<u64>, now: u64)
    ensures
        final(queue)@ == old(queue)@.skip(leading_before(old(queue)@, notice_cutoff(now)) as int),
{
    let ghost q = queue@;
    let cutoff: u64 = if now >= NOTICE_WINDOW_MS {
        now - NOTICE_WINDOW_MS
    } else {
        0
    };
    let mut n: usize = 0;
    assert(q.skip(0) =~= q);
    while n < queue.len() && queue[n] < cutoff
        invariant
            q == queue@,
            n <= q.len(),
            leading_before(q, cutoff as int) == n + leading_before(q.skip(n as int), cutoff as int),
        decreases q.len() - n,
    {
        proof {
            assert(q.skip(n as int).drop_first() =~= q.skip(n + 1));
        }
        n = n + 1;
    }
    proof {
        if n < q.len() {
            assert(q.skip(n as int)[0] == q[n as int]);
        }
    }
    let mut rest: Vec<u64> = Vec::new();
    let mut k: usize = n;
    while k < queue.len()
        invariant
            q == queue@,
            n <= k <= q.len(),
            rest@ == q.subrange(n as int, k as int),
        decreases q.len() - k,
    {
        rest.push(queue[k]);
        proof {
            assert(rest@ =~= q.subrange(n as int, k + 1));
        }
        k = k + 1;
    }
    assert(rest@ =~= q.skip(n as int));
    *queue = rest;
}

/// The action that opens an article: `view_` and its id.
pub fn view_action(article_id: i64) -> (r: String)
    ensures
        r@ == "view_"@ + signed_decimal(article_id as int),
{
    let mut v: Vec<char> = Vec::new();
    append_str(&mut v, "view_");
    let d = crate::syndication::signed_decimal_text(article_id);
    append_chars(&mut v, d.as_slice());
    string_of(v.as_slice())
}

/// Whether a character is an ASCII digit.
pub open spec fn is_digit(c: char) -> bool {
    '0' <= c && c <= '9'
}

/// The number written by decimal digits.
pub open spec fn digits_value(s: Seq<char>) -> int
    decreases s.len(),
{
    if s.len() == 0 {
        0
    } else {
        digits_value(s.drop_last()) * 10 + (s.last() as int - '0' as int)
    }
}

/// The digits of a number written after an optional sign.
pub open spec fn unsigned_part(s: Seq<char>) -> Seq<char> {
    if s.len() > 0 && (s[0] == '-' || s[0] == '+') {
        s.skip(1)
    } else {
        s
    }
}

/// What `str::parse::<i64>` gives: an optional `+` or `-`, then at least one
/// ASCII digit and nothing else, for a value within the range of `i64`.
pub open spec fn spec_parse_i64(s: Seq<char>) -> Option<i64> {
    let body = unsigned_part(s);
    let v = if s.len() > 0 && s[0] == '-' {
        -digits_value(body)
    } else {
        digits_value(body)
    };
    if body.len() == 0 || !(forall|i: int| 0 <= i < body.len() ==> is_digit(#[trigger] body[i])) {
        None
    } else if i64::MIN <= v && v <= i64::MAX {
        Some(v as i64)
    } else {
        None
    }
}

proof fn lemma_digits_prefix(s: Seq<char>, k: int)
    requires
        0 <= k <= s.len(),
        forall|i: int| 0 <= i < s.len() ==> is_digit(#[trigger] s[i]),
    ensures
        digits_value(s) >= digits_value(s.take(k)),
        digits_value(s) >= 0,
    decreases s.len(),
{
    if s.len() > 0 {
        let t = s.drop_last();
        assert forall|i: int| 0 <= i < t.len() implies is_digit(#[trigger] t[i]) by {
            assert(t[i] == s[i]);
        }
        if k == s.len() {
            lemma_digits_prefix(t, 0);
            assert(s.take(k) =~= s);
        } else {
            lemma_digits_prefix(t, k);
            assert(t.take(k) =~= s.take(k));
        }
    } else {
        assert(s.take(k) =~= s);
    }
}

/// Reads a decimal integer as `str::parse::<i64>` does.
fn parse_i64(s: &str) -> (r: Option<i64>)
    ensures
        r == spec_parse_i64(s@),
{
    let cs = chars_of(s);
    let n = cs.len();
    let ghost t = s@;
    let mut neg = false;
    let mut i: usize = 0;
    if n > 0 && cs[0] == '-' {
        neg = true;
        i = 1;
    } else if n > 0 && cs[0] == '+' {
        i = 1;
    }
    let start = i;
    let ghost body = unsigned_part(t);
    assert(body =~= t.subrange(start as int, n as int));
    if start == n {
        return None;
    }
    let mut acc: u64 = 0;
    while i < n
        invariant
            cs@ == t,
            t == s@,
            body == unsigned_part(t),
            n == t.len(),
            start <= i <= n,
            body == t.subrange(start as int, n as int),
            neg == (t.len() > 0 && t[0] == '-'),
            acc == digits_value(t.subrange(start as int, i as int)),
            acc <= 9223372036854775808u64,
            forall|j: int| start <= j < i ==> is_digit(#[trigger] t[j]),
        decreases n - i,
    {
        let c = cs[i];
        assert(body[i - start] == t[i as int]);
        if !('0' <= c && c <= '9') {
            assert(!is_digit(body[i - start]));
            assert(!(forall|j: int| 0 <= j < body.len() ==> is_digit(#[trigger] body[j])));
            assert(body == unsigned_part(s@));
            assert(spec_parse_i64(s@) is None);
            return None;
        }
        let d: u64 = ((c as u32) - ('0' as u32)) as u64;
        assert(d == c as int - '0' as int);
        assert(t.subrange(start as int, i + 1).drop_last() =~= t.subrange(start as int, i as int));
        assert(t.subrange(start as int, i + 1).last() == c);
        assert(digits_value(t.subrange(start as int, i + 1)) == acc * 10 + d);
        if acc > (9223372036854775808u64 - d) / 10 {
            proof {
                assert(digits_value(t.subrange(start as int, i + 1)) > 9223372036854775808) by (nonlinear_arith)
                    requires
                        digits_value(t.subrange(start as int, i + 1)) == acc * 10 + d,
                        acc > (9223372036854775808u64 - d) / 10,
                        d <= 9,
                ;
                if forall|j: int| 0 <= j < body.len() ==> is_digit(#[trigger] body[j]) {
                    lemma_digits_prefix(body, i + 1 - start);
                    assert(body.take(i + 1 - start) =~= t.subrange(start as int, i + 1));
                    assert(digits_value(body) > 9223372036854775808);
                    assert(spec_parse_i64(t) is None);
                } else {
                    assert(spec_parse_i64(t) is None);
                }
            }
            return None;
        }
        proof {
            assert(acc * 10 + d <= 9223372036854775808) by (nonlinear_arith)
                requires
                    acc <= (9223372036854775808u64 - d) / 10,
                    d <= 9,
            ;
        }
        acc = acc * 10 + d;
        i = i + 1;
    }
    assert(t.subrange(start as int, n as int) == body);
    assert(forall|j: int| 0 <= j < body.len() ==> is_digit(#[trigger] body[j])) by {
        assert forall|j: int| 0 <= j < body.len() implies is_digit(#[trigger] body[j]) by {
            assert(body[j] == t[start + j]);
        }
    }
    if neg {
        if acc == 9223372036854775808u64 {
            Some(i64::MIN)
        } else {
            Some(-(acc as i64))
        }
    } else {
        if acc > 9223372036854775807u64 {
            None
        } else {
            Some(acc as i64)
        }
    }
}

/// What the user chose on a notification.
#[derive(Debug, PartialEq, Eq, Structural)]
pub enum NoticeAction {
    /// Open the article with this id.
    View(i64),
    Dismiss,
    Closed,
    /// A `view_` action whose id does not parse: nothing to do.
    Ignored,
    Unknown,
}

pub open spec fn spec_notice_action(action: Seq<char>) -> NoticeAction {
    if spec_starts_with(action, "view_"@) {
        match spec_parse_i64(action.subrange(5, action.len() as int)) {
            Some(id) => NoticeAction::View(id),
            None => NoticeAction::Ignored,
        }
    } else if action == "dismiss"@ {
        NoticeAction::Dismiss
    } else if action == "__closed"@ {
        NoticeAction::Closed
    } else {
        NoticeAction::Unknown
    }
}

/// Reads the action chosen on a notification.
pub fn notice_action(action: &str) -> (r: NoticeAction)
    ensures
        r == spec_notice_action(action@),
{
    let a = chars_of(action);
    let view = chars_of("view_");
    proof {
        reveal_strlit("view_");
    }
    if starts_with_chars(a.as_slice(), view.as_slice()) {
        let rest = slice_chars(a.as_slice(), 5, a.len());
        let s = string_of(rest.as_slice());
        match parse_i64(s.as_str()) {
            Some(id) => NoticeAction::View(id),
            None => NoticeAction::Ignored,
        }
    } else if str_eq(action, "dismiss") {
        NoticeAction::Dismiss
    } else if str_eq(action, "__closed") {
        NoticeAction::Closed
    } else {
        NoticeAction::Unknown
    }
}


/// The article that announces a new title of a feed at `now`: only the
/// title and the time are set.
pub open spec fn announced_ok(a: Article, title: Seq<char>, now: i64) -> bool {
    &&& a.id == 0
    &&& a.feed_id == 0
    &&& a.title@ == title
    &&& a.link@.len() == 0
    &&& a.author@.len() == 0
    &&& a.pub_date == now
    &&& a.content@.len() == 0
    &&& a.summary@.len() == 0
    &&& !a.is_read
    &&& !a.is_starred
    &&& a.source@.len() == 0
    &&& a.guid@.len() == 0
}

/// The batch that announces the new articles of a feed at `now`: none
/// when there is no new title or the feed's notifications are off, else one
/// entry (feed title, article) for each title, in order.
pub fn new_articles_batch(feed_title: &str, titles: &[String], enable_notification: bool, now: i64) -> (r: Option<
    Vec<(String, Article)>,
>)
    ensures
        titles@.len() == 0 || !enable_notification ==> r is None,
        titles@.len() > 0 && enable_notification ==> (r matches Some(b) && {
            &&& b@.len() == titles@.len()
            &&& forall|k: int| 0 <= k < b@.len() ==> {
                &&& (#[trigger] b@[k]).0@ == feed_title@
                &&& announced_ok(b@[k].1, titles@[k]@, now)
            }
        }),
{
    if titles.len() == 0 || !enable_notification {
        return None;
    }
    let mut batch: Vec<(String, Article)> = Vec::new();
    let mut k: usize = 0;
    while k < titles.len()
        invariant
            k <= titles@.len(),
            batch@.len() == k,
            forall|j: int| 0 <= j < k ==> {
                &&& (#[trigger] batch@[j]).0@ == feed_title@
                &&& announced_ok(batch@[j].1, titles@[j]@, now)
            },
        decreases titles@.len() - k,
    {
        let a = Article {
            id: 0,
            feed_id: 0,
            title: titles[k].clone(),
            link: String::new(),
            author: String::new(),
            pub_date: now,
            content: String::new(),
            summary: String::new(),
            is_read: false,
            is_starred: false,
            source: String::new(),
            guid: String::new(),
        };
        batch.push((feed_title.to_string(), a));
        k = k + 1;
    }
    Some(batch)
}

} // verus!
