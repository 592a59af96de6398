//! Small transformations of markup and URLs: escaping, tag stripping, white
//! space normalisation, anchors, domains, and byte decoding.
use vstd::prelude::*;
use crate::text::{append_str, 
    append_chars, chars_of, find_chars, find_char, is_whitespace, is_ws, matches_at, spec_find,
    string_of, slice_chars, contains_chars, spec_contains, split_chars, split_on, spec_trim,
    trim_chars,
};

verus! {

/// The concatenation of `f` applied to each character of `s`.
pub open spec fn flat_chars(s: Seq<char>, f: spec_fn(char) -> Seq<char>) -> Seq<char>
    decreases s.len(),
{
    if s.len() == 0 {
        Seq::empty()
    } else {
        flat_chars(s.drop_last(), f) + f(s.last())
    }
}

// ---------------------------------------------------------------------------
// Escaping
// ---------------------------------------------------------------------------

/// The XML escape of one character, with `&apos;` for the apostrophe.
pub open spec fn xml_escape_char(c: char) -> Seq<char> {
    if c == '&' {
        "&amp;"@
    } else if c == '<' {
        "&lt;"@
    } else if c == '>' {
        "&gt;"@
    } else if c == '"' {
        "&quot;"@
    } else if c == '\'' {
        "&apos;"@
    } else {
        seq![c]
    }
}

/// The XML escape of one character, with `&#39;` for the apostrophe.
pub open spec fn xml_escape_char_numeric(c: char) -> Seq<char> {
    if c == '\'' {
        "&#39;"@
    } else {
        xml_escape_char(c)
    }
}

/// The SQL-literal escape of one character.
pub open spec fn sql_escape_char(c: char) -> Seq<char> {
    if c == '\'' {
        "''"@
    } else if c == '"' {
        "\\\""@
    } else if c == '\n' {
        "\\n"@
    } else if c == '\r' {
        "\\r"@
    } else if c == '\t' {
        "\\t"@
    } else {
        seq![c]
    }
}

/// The HTML text escape of one character.
pub open spec fn html_text_escape_char(c: char) -> Seq<char> {
    if c == '&' {
        "&amp;"@
    } else if c == '<' {
        "&lt;"@
    } else if c == '>' {
        "&gt;"@
    } else {
        seq![c]
    }
}

/// Which escaping is applied.
#[derive(Clone, Copy, PartialEq, Eq, Structural, Debug)]
pub enum Escaping {
    /// XML entities, apostrophe as `&apos;`.
    Xml,
    /// XML entities, apostrophe as `&#39;`.
    XmlNumeric,
    /// SQL string literal content.
    Sql,
    /// HTML text content (`&`, `<`, `>`), as `html_escape::encode_text`.
    HtmlText,
}

pub open spec fn escape_char(kind: Escaping, c: char) -> Seq<char> {
    match kind {
        Escaping::Xml => xml_escape_char(c),
        Escaping::XmlNumeric => xml_escape_char_numeric(c),
        Escaping::Sql => sql_escape_char(c),
        Escaping::HtmlText => html_text_escape_char(c),
    }
}

pub open spec fn spec_escape(kind: Escaping, s: Seq<char>) -> Seq<char> {
    flat_chars(s, |c: char| escape_char(kind, c))
}

fn escape_char_exec(kind: Escaping, c: char) -> (r: Vec<char>)
    ensures
        r@ == escape_char(kind, c),
{
    let lit: &str = match kind {
        Escaping::Sql => {
            if c == '\'' {
                "''"
            } else if c == '"' {
                "\\\""
            } else if c == '\n' {
                "\\n"
            } else if c == '\r' {
                "\\r"
            } else if c == '\t' {
                "\\t"
            } else {
                return vec![c];
            }
        },
        Escaping::HtmlText => {
            if c == '&' {
                "&amp;"
            } else if c == '<' {
                "&lt;"
            } else if c == '>' {
                "&gt;"
            } else {
                return vec![c];
            }
        },
        _ => {
            if c == '&' {
                "&amp;"
            } else if c == '<' {
                "&lt;"
            } else if c == '>' {
                "&gt;"
            } else if c == '"' {
                "&quot;"
            } else if c == '\'' {
                if kind == Escaping::Xml {
                    "&apos;"
                } else {
                    "&#39;"
                }
            } else {
                return vec![c];
            }
        },
    };
    chars_of(lit)
}

/// Escapes every character of a text.
pub fn escape_text(kind: Escaping, s: &str) -> (r: String)
    ensures
        r@ == spec_escape(kind, s@),
{
    let cs = chars_of(s);
    let mut out: Vec<char> = Vec::new();
    let mut i: usize = 0;
    while i < cs.len()
        invariant
            cs@ == s@,
            i <= cs@.len(),
            out@ == spec_escape(kind, cs@.take(i as int)),
        decreases cs@.len() - i,
    {
        proof {
            assert(cs@.take(i + 1).drop_last() =~= cs@.take(i as int));
        }
        let e = escape_char_exec(kind, cs[i]);
        append_chars(&mut out, e.as_slice());
        i = i + 1;
    }
    assert(cs@.take(cs@.len() as int) =~= cs@);
    string_of(out.as_slice())
}

/// XML escaping of text placed in an attribute (`&`, `<`, `>`, `"`, `'`).
pub fn escape_xml(s: &str) -> (r: String)
    ensures
        r@ == spec_escape(Escaping::Xml, s@),
{
    escape_text(Escaping::Xml, s)
}

/// Escaping of text placed in a SQL string literal.
pub fn escape_sql_string(s: &str) -> (r: String)
    ensures
        r@ == spec_escape(Escaping::Sql, s@),
{
    escape_text(Escaping::Sql, s)
}

// ---------------------------------------------------------------------------
// URLs
// ---------------------------------------------------------------------------

/// A URL without its fragment: everything before the first `#`.
pub open spec fn spec_remove_url_anchor(url: Seq<char>) -> Seq<char> {
    match spec_find(url, seq!['#']) {
        Some(p) => url.subrange(0, p),
        None => url,
    }
}

/// Removes the fragment of a URL.
pub fn remove_url_anchor(url: &str) -> (r: String)
    ensures
        r@ == spec_remove_url_anchor(url@),
{
    let cs = chars_of(url);
    match find_char(cs.as_slice(), '#') {
        Some(p) => {
            proof {
                crate::text::lemma_find_from_bounds(cs@, seq!['#'], 0);
            }
            let head = slice_chars(cs.as_slice(), 0, p);
            string_of(head.as_slice())
        },
        None => string_of(cs.as_slice()),
    }
}

/// The host part of a URL: what follows the first `://` up to the next `/`.
pub open spec fn spec_extract_domain(url: Seq<char>) -> Option<Seq<char>> {
    match spec_find(url, "://"@) {
        None => None,
        Some(start) => {
            let rest = url.subrange(start + 3, url.len() as int);
            match spec_find(rest, seq!['/']) {
                Some(end) => Some(rest.subrange(0, end)),
                None => Some(rest),
            }
        },
    }
}

/// The host part of a URL.
pub fn extract_domain(url: &str) -> (r: Option<String>)
    ensures
        match spec_extract_domain(url@) {
            Some(d) => r matches Some(s) && s@ == d,
            None => r is None,
        },
{
    let cs = chars_of(url);
    let sep = chars_of("://");
    proof {
        reveal_strlit("://");
    }
    match find_chars(cs.as_slice(), sep.as_slice()) {
        None => None,
        Some(start) => {
            proof {
                crate::text::lemma_find_from_bounds(cs@, sep@, 0);
                assert(sep@.len() == 3);
                assert(matches_at(cs@, sep@, start as int));
            }
            let n = cs.len();
            let rest = slice_chars(cs.as_slice(), start + 3, n);
            match find_char(rest.as_slice(), '/') {
                Some(end) => {
                    proof {
                        crate::text::lemma_find_from_bounds(rest@, seq!['/'], 0);
                    }
                    let d = slice_chars(rest.as_slice(), 0, end);
                    Some(string_of(d.as_slice()))
                },
                None => Some(string_of(rest.as_slice())),
            }
        },
    }
}

// ---------------------------------------------------------------------------
// Tags and white space
// ---------------------------------------------------------------------------

/// Removal of every `<...>` tag, as the pattern `<[^>]*>` replaced by nothing:
/// a `<` starts a tag only when a `>` follows it.
pub open spec fn spec_strip_tags(s: Seq<char>) -> Seq<char>
    decreases s.len(),
{
    if s.len() == 0 {
        s
    } else if s[0] == '<' {
        match spec_find(s, seq!['>']) {
            Some(e) => {
                proof {
                    lemma_find_gt_pos(s);
                }
                spec_strip_tags(s.subrange(e + 1, s.len() as int))
            },
            None => s,
        }
    } else {
        seq![s[0]] + spec_strip_tags(s.drop_first())
    }
}

pub proof fn lemma_find_gt_pos(s: Seq<char>)
    requires
        s.len() > 0,
        s[0] == '<',
    ensures
        spec_find(s, seq!['>']) matches Some(e) ==> 0 < e < s.len() && s[e] == '>',
{
    crate::text::lemma_find_from_bounds(s, seq!['>'], 0);
    if let Some(e) = spec_find(s, seq!['>']) {
        assert(s.subrange(e, e + 1)[0] == s[e]);
    }
}

/// Removes every tag from a text.
pub fn strip_tags(s: &str) -> (r: String)
    ensures
        r@ == spec_strip_tags(s@),
{
    let cs = chars_of(s);
    let out = strip_tags_chars(cs.as_slice());
    string_of(out.as_slice())
}

/// Removes every tag from a character sequence.
pub fn strip_tags_chars(cs: &[char]) -> (out: Vec<char>)
    ensures
        out@ == spec_strip_tags(cs@),
{
    let mut out: Vec<char> = Vec::new();
    let n = cs.len();
    let mut i: usize = 0;
    let gt = vec!['>'];
    assert(cs@.subrange(0, n as int) =~= cs@);
    while i < n
        invariant
            n == cs@.len(),
            i <= n,
            gt@ == seq!['>'],
            out@ + spec_strip_tags(cs@.subrange(i as int, n as int)) == spec_strip_tags(cs@),
        decreases n - i,
    {
        let ghost rest = cs@.subrange(i as int, n as int);
        if cs[i] == '<' {
            let tail = slice_chars(cs, i, n);
            assert(tail@ == rest);
            proof {
                lemma_find_gt_pos(rest);
            }
            match crate::text::find_chars(tail.as_slice(), gt.as_slice()) {
                Some(e) => {
                    assert(rest.subrange(e + 1, rest.len() as int) =~= cs@.subrange(
                        i + e + 1,
                        n as int,
                    ));
                    i = i + e + 1;
                },
                None => {
                    append_chars(&mut out, tail.as_slice());
                    assert(spec_strip_tags(rest) == rest);
                    assert(cs@.subrange(n as int, n as int) =~= Seq::<char>::empty());
                    i = n;
                },
            }
        } else {
            out.push(cs[i]);
            assert(rest.drop_first() =~= cs@.subrange(i + 1, n as int));
            assert(out@ + spec_strip_tags(cs@.subrange(i + 1, n as int)) =~= (out@.drop_last()
                + spec_strip_tags(rest)));
            i = i + 1;
        }
    }
    assert(cs@.subrange(n as int, n as int) =~= Seq::<char>::empty());
    assert(out@ + Seq::<char>::empty() =~= out@);
    out
}

/// The state of white-space collapsing: the text so far and its last character.
pub open spec fn collapse_step(st: (Seq<char>, char), c: char) -> (Seq<char>, char) {
    if is_ws(c) {
        if c == '\n' || c == '\r' {
            if st.1 != '\n' {
                (st.0.push('\n'), '\n')
            } else {
                st
            }
        } else if !is_ws(st.1) {
            (st.0.push(' '), ' ')
        } else {
            st
        }
    } else {
        (st.0.push(c), c)
    }
}

pub open spec fn collapse_state(s: Seq<char>) -> (Seq<char>, char)
    decreases s.len(),
{
    if s.len() == 0 {
        (Seq::empty(), ' ')
    } else {
        collapse_step(collapse_state(s.drop_last()), s.last())
    }
}

/// White space collapsed: a run of line breaks becomes one `\n`, other runs
/// of white space after a visible character become one space.
pub open spec fn spec_collapse_whitespace(s: Seq<char>) -> Seq<char> {
    collapse_state(s).0
}

/// Collapses white space, keeping line breaks.
pub fn collapse_whitespace(cs: &[char]) -> (r: Vec<char>)
    ensures
        r@ == spec_collapse_whitespace(cs@),
{
    let mut out: Vec<char> = Vec::new();
    let mut last: char = ' ';
    let mut i: usize = 0;
    while i < cs.len()
        invariant
            i <= cs@.len(),
            (out@, last) == collapse_state(cs@.take(i as int)),
        decreases cs@.len() - i,
    {
        proof {
            assert(cs@.take(i + 1).drop_last() =~= cs@.take(i as int));
        }
        let c = cs[i];
        if is_whitespace(c) {
            if c == '\n' || c == '\r' {
                if last != '\n' {
                    out.push('\n');
                    last = '\n';
                }
            } else if !is_whitespace(last) {
                out.push(' ');
                last = ' ';
            }
        } else {
            out.push(c);
            last = c;
        }
        i = i + 1;
    }
    assert(cs@.take(cs@.len() as int) =~= cs@);
    out
}

// ---------------------------------------------------------------------------
// Byte decoding
// ---------------------------------------------------------------------------

/// The 16-bit units of a byte sequence read as UTF-16: big-endian after a
/// `FE FF` mark, little-endian otherwise; a byte-order mark is skipped and a
/// trailing odd byte ignored.
pub open spec fn spec_utf16_units(bytes: Seq<u8>) -> Seq<u16> {
    let is_be = bytes.len() >= 2 && bytes[0] == 0xFE && bytes[1] == 0xFF;
    let start: int = if bytes.len() >= 2 && ((bytes[0] == 0xFE && bytes[1] == 0xFF) || (bytes[0]
        == 0xFF && bytes[1] == 0xFE)) {
        2
    } else {
        0
    };
    Seq::new(
        ((bytes.len() - start) / 2) as nat,
        |k: int|
            if is_be {
                (bytes[start + 2 * k] as int * 256 + bytes[start + 2 * k + 1] as int) as u16
            } else {
                (bytes[start + 2 * k + 1] as int * 256 + bytes[start + 2 * k] as int) as u16
            },
    )
}

/// Reads a byte sequence as UTF-16 units.
pub fn try_decode_utf16(bytes: &[u8]) -> (r: Vec<u16>)
    ensures
        r@ == spec_utf16_units(bytes@),
{
    let mut result: Vec<u16> = Vec::new();
    let n = bytes.len();
    let is_be = n >= 2 && bytes[0] == 0xFE && bytes[1] == 0xFF;
    let start: usize = if n >= 2 && ((bytes[0] == 0xFE && bytes[1] == 0xFF) || (bytes[0] == 0xFF
        && bytes[1] == 0xFE)) {
        2
    } else {
        0
    };
    let ghost expected = spec_utf16_units(bytes@);
    let mut i: usize = start;
    while n - i >= 2
        invariant
            n == bytes@.len(),
            start <= i <= n,
            start <= n,
            (i - start) % 2 == 0,
            result@.len() == (i - start) / 2,
            expected.len() == (n - start) / 2,
            expected == spec_utf16_units(bytes@),
            is_be == (bytes@.len() >= 2 && bytes@[0] == 0xFE && bytes@[1] == 0xFF),
            start == (if bytes@.len() >= 2 && ((bytes@[0] == 0xFE && bytes@[1] == 0xFF) || (
            bytes@[0] == 0xFF && bytes@[1] == 0xFE)) {
                2int
            } else {
                0int
            }),
            forall|k: int| 0 <= k < result@.len() ==> result@[k] == expected[k],
        decreases n - i,
    {
        let hi: u16 = if is_be {
            bytes[i] as u16
        } else {
            bytes[i + 1] as u16
        };
        let lo: u16 = if is_be {
            bytes[i + 1] as u16
        } else {
            bytes[i] as u16
        };
        let value: u16 = hi * 256 + lo;
        let ghost k = (i - start) / 2;
        proof {
            assert(start + 2 * k == i);
            assert(k < expected.len());
            let b0 = bytes@[i as int] as int;
            let b1 = bytes@[i + 1] as int;
            if is_be {
                assert(value as int == b0 * 256 + b1);
                assert(b0 * 256 + b1 < 65536);
            } else {
                assert(value as int == b1 * 256 + b0);
                assert(b1 * 256 + b0 < 65536);
            }
            let st: int = start as int;
            assert(st + 2 * k == i);
            assert(expected[k] == (if is_be {
                (bytes@[st + 2 * k] as int * 256 + bytes@[st + 2 * k + 1] as int) as u16
            } else {
                (bytes@[st + 2 * k + 1] as int * 256 + bytes@[st + 2 * k] as int) as u16
            }));
            assert(expected[k] == value);
        }
        result.push(value);
        assert(result@[k] == expected[k]);
        i = i + 2;
    }
    assert(result@ =~= expected);
    result
}

// ---------------------------------------------------------------------------
// Feed format detection and image sources
// ---------------------------------------------------------------------------

/// Whether a document looks like an Atom feed: it declares the Atom namespace,
/// or has `<feed`, `</feed>`, `<entry` and `</entry>`.
pub open spec fn spec_is_atom_format(s: Seq<char>) -> bool {
    spec_contains(s, "xmlns=\"http://www.w3.org/2005/Atom\""@) || (spec_contains(s, "<feed"@)
        && spec_contains(s, "</feed>"@) && spec_contains(s, "<entry"@) && spec_contains(
        s,
        "</entry>"@,
    ))
}

/// Whether a document looks like an Atom feed.
pub fn is_atom_format(content: &str) -> (r: bool)
    ensures
        r == spec_is_atom_format(content@),
{
    let cs = chars_of(content);
    let ns = chars_of("xmlns=\"http://www.w3.org/2005/Atom\"");
    if contains_chars(cs.as_slice(), ns.as_slice()) {
        return true;
    }
    let a = chars_of("<feed");
    let b = chars_of("</feed>");
    let c = chars_of("<entry");
    let d = chars_of("</entry>");
    contains_chars(cs.as_slice(), a.as_slice()) && contains_chars(cs.as_slice(), b.as_slice())
        && contains_chars(cs.as_slice(), c.as_slice()) && contains_chars(cs.as_slice(), d.as_slice())
}

// ---------------------------------------------------------------------------
// Outside HTML processing
// ---------------------------------------------------------------------------

/// What `html_escape::decode_html_entities` returns for a text.
pub uninterp spec fn spec_decode_entities(s: Seq<char>) -> Seq<char>;

/// `html_escape::decode_html_entities`. A text without `&` holds no entity
/// and comes back unchanged.
#[verifier::external_body]
pub(crate) fn decode_html_entities(s: &str) -> (r: String)
    ensures
        r@ == spec_decode_entities(s@),
        !s@.contains('&') ==> r@ == s@,
{
    html_escape::decode_html_entities(s).to_string()
}

/// The settings of an HTML sanitiser: the tags kept, the attributes kept on
/// each tag (`*` standing for every tag), and the `rel` given to links;
/// relative URLs are always passed through.
#[derive(Debug)]
pub struct CleanSettings {
    pub tags: Vec<String>,
    pub attributes: Vec<(String, Vec<String>)>,
    pub link_rel: Option<String>,
}

pub type CleanSettingsView = (Seq<Seq<char>>, Seq<(Seq<char>, Seq<Seq<char>>)>, Option<Seq<char>>);

pub open spec fn texts_view(v: Seq<String>) -> Seq<Seq<char>> {
    v.map_values(|s: String| s@)
}

impl View for CleanSettings {
    type V = CleanSettingsView;

    open spec fn view(&self) -> CleanSettingsView {
        (
            texts_view(self.tags@),
            self.attributes@.map_values(|e: (String, Vec<String>)| (e.0@, texts_view(e.1@))),
            match self.link_rel {
                Some(r) => Some(r@),
                None => None,
            },
        )
    }
}

/// Settings that `ammonia::Builder::clean` accepts without failing an
/// assertion: `script` and `style` (whose content is removed) are neither
/// kept tags nor given attributes, and with a link `rel` the links keep no
/// `rel` attribute of their own.
pub open spec fn settings_ok(v: CleanSettingsView) -> bool {
    &&& forall|i: int| 0 <= i < v.0.len() ==> #[trigger] v.0[i] != "script"@ && v.0[i] != "style"@
    &&& forall|i: int| 0 <= i < v.1.len() ==> #[trigger] v.1[i].0 != "script"@ && v.1[i].0 != "style"@
    &&& v.2 is Some ==> forall|i: int| 0 <= i < v.1.len() && #[trigger] v.1[i].0 == "a"@ ==> !v.1[i].1.contains("rel"@)
}

/// What `ammonia::Builder::clean` returns for a document with the settings.
pub uninterp spec fn spec_ammonia_clean(settings: CleanSettingsView, s: Seq<char>) -> Seq<char>;

/// `ammonia::Builder` with the settings (relative URLs passed through),
/// then `clean`.
#[verifier::external_body]
pub(crate) fn ammonia_clean(settings: &CleanSettings, s: &str) -> (r: String)
    requires
        settings_ok(settings@),
    ensures
        r@ == spec_ammonia_clean(settings@, s@),
{
    let mut builder = ammonia::Builder::new();
    builder.tags(settings.tags.iter().map(|t| t.as_str()).collect());
    builder.tag_attributes(
        settings.attributes.iter().map(|(t, a)| (t.as_str(), a.iter().map(|x| x.as_str()).collect())).collect(),
    );
    builder.url_relative(ammonia::UrlRelative::PassThrough);
    builder.link_rel(settings.link_rel.as_deref());
    builder.clean(s).to_string()
}

/// The settings for articles: common text and structure tags, `class` on
/// every tag, `href`/`title` on links, `src`/`alt`/`title` on images, and
/// `rel="noopener noreferrer"` on links.
pub open spec fn article_settings() -> CleanSettingsView {
    (
        seq!["p"@, "div"@, "span"@, "h1"@, "h2"@, "h3"@, "h4"@, "h5"@, "h6"@, "br"@, "hr"@, "ul"@, "ol"@, "li"@, "strong"@, "em"@, "b"@, "i"@, "code"@, "pre"@, "blockquote"@],
        seq![("*"@, seq!["class"@]), ("a"@, seq!["href"@, "title"@]), ("img"@, seq!["src"@, "alt"@, "title"@])],
        Some("noopener noreferrer"@),
    )
}

/// The settings for text to translate: only paragraphs and line breaks, no
/// attributes, no link `rel`.
pub open spec fn paragraph_settings() -> CleanSettingsView {
    (seq!["p"@, "br"@], Seq::empty(), None)
}

/// The sanitiser settings for articles.
pub fn article_clean_settings() -> (r: CleanSettings)
    ensures
        r@ == article_settings(),
        settings_ok(r@),
{
    let r = CleanSettings {
        tags: vec![String::from_str("p"), String::from_str("div"), String::from_str("span"), String::from_str("h1"), String::from_str("h2"), String::from_str("h3"), String::from_str("h4"), String::from_str("h5"), String::from_str("h6"), String::from_str("br"), String::from_str("hr"), String::from_str("ul"), String::from_str("ol"), String::from_str("li"), String::from_str("strong"), String::from_str("em"), String::from_str("b"), String::from_str("i"), String::from_str("code"), String::from_str("pre"), String::from_str("blockquote")],
        attributes: vec![
            (String::from_str("*"), vec![String::from_str("class")]),
            (String::from_str("a"), vec![String::from_str("href"), String::from_str("title")]),
            (String::from_str("img"), vec![String::from_str("src"), String::from_str("alt"), String::from_str("title")]),
        ],
        link_rel: Some(String::from_str("noopener noreferrer")),
    };
    proof {
        reveal_strlit("*");
        reveal_strlit("a");
        reveal_strlit("alt");
        reveal_strlit("b");
        reveal_strlit("blockquote");
        reveal_strlit("br");
        reveal_strlit("class");
        reveal_strlit("code");
        reveal_strlit("div");
        reveal_strlit("em");
        reveal_strlit("h1");
        reveal_strlit("h2");
        reveal_strlit("h3");
        reveal_strlit("h4");
        reveal_strlit("h5");
        reveal_strlit("h6");
        reveal_strlit("hr");
        reveal_strlit("href");
        reveal_strlit("i");
        reveal_strlit("img");
        reveal_strlit("li");
        reveal_strlit("noopener noreferrer");
        reveal_strlit("ol");
        reveal_strlit("p");
        reveal_strlit("pre");
        reveal_strlit("rel");
        reveal_strlit("script");
        reveal_strlit("span");
        reveal_strlit("src");
        reveal_strlit("strong");
        reveal_strlit("style");
        reveal_strlit("title");
        reveal_strlit("ul");
        assert(r@.0 =~= article_settings().0);
        assert(r@.1[0].1 =~= seq!["class"@]);
        assert(r@.1[1].1 =~= seq!["href"@, "title"@]);
        assert(r@.1[2].1 =~= seq!["src"@, "alt"@, "title"@]);
        assert(r@.1 =~= article_settings().1);
        let v = r@;
        assert("script"@.len() == 6 && "style"@.len() == 5);
        assert forall|i: int| 0 <= i < v.0.len() implies #[trigger] v.0[i] != "script"@ && v.0[i] != "style"@ by {
            if i == 0 {
                assert(v.0[0] == "p"@);
                assert("p"@.len() == 1);
            } else if i == 1 {
                assert(v.0[1] == "div"@);
                assert("div"@.len() == 3);
            } else if i == 2 {
                assert(v.0[2] == "span"@);
                assert("span"@.len() == 4);
            } else if i == 3 {
                assert(v.0[3] == "h1"@);
                assert("h1"@.len() == 2);
            } else if i == 4 {
                assert(v.0[4] == "h2"@);
                assert("h2"@.len() == 2);
            } else if i == 5 {
                assert(v.0[5] == "h3"@);
                assert("h3"@.len() == 2);
            } else if i == 6 {
                assert(v.0[6] == "h4"@);
                assert("h4"@.len() == 2);
            } else if i == 7 {
                assert(v.0[7] == "h5"@);
                assert("h5"@.len() == 2);
            } else if i == 8 {
                assert(v.0[8] == "h6"@);
                assert("h6"@.len() == 2);
            } else if i == 9 {
                assert(v.0[9] == "br"@);
                assert("br"@.len() == 2);
            } else if i == 10 {
                assert(v.0[10] == "hr"@);
                assert("hr"@.len() == 2);
            } else if i == 11 {
                assert(v.0[11] == "ul"@);
                assert("ul"@.len() == 2);
            } else if i == 12 {
                assert(v.0[12] == "ol"@);
                assert("ol"@.len() == 2);
            } else if i == 13 {
                assert(v.0[13] == "li"@);
                assert("li"@.len() == 2);
            } else if i == 14 {
                assert(v.0[14] == "strong"@);
                assert("strong"@.len() == 6);
                assert("strong"@[1] != "script"@[1]);
            } else if i == 15 {
                assert(v.0[15] == "em"@);
                assert("em"@.len() == 2);
            } else if i == 16 {
                assert(v.0[16] == "b"@);
                assert("b"@.len() == 1);
            } else if i == 17 {
                assert(v.0[17] == "i"@);
                assert("i"@.len() == 1);
            } else if i == 18 {
                assert(v.0[18] == "code"@);
                assert("code"@.len() == 4);
            } else if i == 19 {
                assert(v.0[19] == "pre"@);
                assert("pre"@.len() == 3);
            } else if i == 20 {
                assert(v.0[20] == "blockquote"@);
                assert("blockquote"@.len() == 10);
            }
        }
        assert forall|i: int| 0 <= i < v.1.len() implies #[trigger] v.1[i].0 != "script"@ && v.1[i].0 != "style"@ by {
            if i == 0 {
                assert(v.1[0].0 == "*"@);
                assert("*"@.len() == 1);
            } else if i == 1 {
                assert(v.1[1].0 == "a"@);
                assert("a"@.len() == 1);
            } else {
                assert(v.1[2].0 == "img"@);
                assert("img"@.len() == 3);
            }
        }
        assert forall|i: int| 0 <= i < v.1.len() && #[trigger] v.1[i].0 == "a"@ implies !v.1[i].1.contains("rel"@) by {
            if i == 0 {
                assert(v.1[0].0 == "*"@);
                assert("*"@.len() == 1);
            } else if i == 1 {
                assert(v.1[1].1[0] == "href"@ && v.1[1].1[1] == "title"@);
                assert("href"@.len() == 4 && "title"@.len() == 5 && "rel"@.len() == 3);
                assert(v.1[1].1.len() == 2);
                assert(!v.1[1].1.contains("rel"@));
            } else {
                assert(v.1[2].0 == "img"@);
                assert("img"@.len() == 3);
            }
        }
    }
    r
}

/// The sanitiser settings for text to translate.
pub fn paragraph_clean_settings() -> (r: CleanSettings)
    ensures
        r@ == paragraph_settings(),
        settings_ok(r@),
{
    let r = CleanSettings {
        tags: vec![String::from_str("p"), String::from_str("br")],
        attributes: Vec::new(),
        link_rel: None,
    };
    proof {
        reveal_strlit("p");
        reveal_strlit("br");
        reveal_strlit("script");
        reveal_strlit("style");
        assert(r@.0 =~= paragraph_settings().0);
        assert(r@.1 =~= paragraph_settings().1);
        let v = r@;
        assert forall|i: int| 0 <= i < v.0.len() implies #[trigger] v.0[i] != "script"@ && v.0[i] != "style"@ by {
            reveal_strlit("p");
            reveal_strlit("br");
            reveal_strlit("script");
            reveal_strlit("style");
            assert("p"@.len() == 1);
            assert("script"@.len() == 6);
            if i == 0 {
                assert(v.0[0] == "p"@);
                assert("p"@.len() == 1);
            } else {
                assert(v.0[1] == "br"@);
                assert("br"@.len() == 2);
            }
        }
    }
    r
}

/// The article sanitiser's output.
pub open spec fn spec_clean_article_html(s: Seq<char>) -> Seq<char> {
    spec_ammonia_clean(article_settings(), s)
}

/// The translation sanitiser's output.
pub open spec fn spec_clean_paragraphs_html(s: Seq<char>) -> Seq<char> {
    spec_ammonia_clean(paragraph_settings(), s)
}

/// Sanitises an article's HTML.
pub(crate) fn clean_article_html(s: &str) -> (r: String)
    ensures
        r@ == spec_clean_article_html(s@),
{
    let settings = article_clean_settings();
    ammonia_clean(&settings, s)
}

/// Keeps only the paragraphs and line breaks of HTML.
pub(crate) fn clean_paragraphs_html(s: &str) -> (r: String)
    ensures
        r@ == spec_clean_paragraphs_html(s@),
{
    let settings = paragraph_clean_settings();
    ammonia_clean(&settings, s)
}

/// What `html2text::from_read` at a width returns (`None` on its error,
/// such as a width too narrow).
pub uninterp spec fn spec_html2text(s: Seq<char>, width: usize) -> Option<Seq<char>>;

/// `html2text::from_read` of a document wrapped at `width` columns.
#[verifier::external_body]
fn html2text_at(s: &str, width: usize) -> (r: Option<String>)
    ensures
        r is Some <==> spec_html2text(s@, width) is Some,
        r matches Some(t) ==> Some(t@) == spec_html2text(s@, width),
{
    html2text::from_read(std::io::Cursor::new(s), width).ok()
}

/// The width plain text is wrapped at.
pub const PLAIN_TEXT_WIDTH: usize = 80;

/// The plain text of an HTML document at 80 columns, or the document itself
/// when it cannot be rendered.
pub open spec fn spec_html_to_plain_text(s: Seq<char>) -> Seq<char> {
    match spec_html2text(s, PLAIN_TEXT_WIDTH) {
        Some(t) => t,
        None => s,
    }
}

/// Renders an HTML document as plain text.
pub fn html_to_plain_text(html: &str) -> (r: String)
    ensures
        r@ == spec_html_to_plain_text(html@),
{
    match html2text_at(html, PLAIN_TEXT_WIDTH) {
        Some(t) => t,
        None => String::from_str(html),
    }
}

// ---------------------------------------------------------------------------
// Lines and paragraphs
// ---------------------------------------------------------------------------

/// The pieces joined by a separator.
pub open spec fn join_with(parts: Seq<Seq<char>>, sep: Seq<char>) -> Seq<char>
    decreases parts.len(),
{
    if parts.len() == 0 {
        Seq::empty()
    } else if parts.len() == 1 {
        parts[0]
    } else {
        join_with(parts.drop_last(), sep) + sep + parts.last()
    }
}

/// The trimmed, non-empty lines of a text.
pub open spec fn kept_lines(s: Seq<char>) -> Seq<Seq<char>> {
    crate::models::keep(
        split_on(s, '\n').map_values(|l: Seq<char>| spec_trim(l)),
        |l: Seq<char>| l.len() > 0,
    )
}

/// The trimmed, non-empty lines of a text joined by line breaks.
pub open spec fn spec_tidy_lines(s: Seq<char>) -> Seq<char> {
    join_with(kept_lines(s), seq!['\n'])
}

/// Trims every line of a text, drops empty lines and joins the rest with `\n`.
pub fn tidy_lines(s: &[char]) -> (r: Vec<char>)
    ensures
        r@ == spec_tidy_lines(s@),
{
    let lines = split_chars(s, '\n');
    let ghost pieces = split_on(s@, '\n');
    let ghost trimmed = pieces.map_values(|l: Seq<char>| spec_trim(l));
    let mut out: Vec<char> = Vec::new();
    let mut count: usize = 0;
    let mut i: usize = 0;
    while i < lines.len()
        invariant
            lines@.len() == pieces.len(),
            forall|k: int| 0 <= k < lines@.len() ==> #[trigger] lines@[k]@ == pieces[k],
            trimmed == pieces.map_values(|l: Seq<char>| spec_trim(l)),
            i <= lines@.len(),
            count <= i,
            count == crate::models::keep(trimmed.take(i as int), |l: Seq<char>| l.len() > 0).len(),
            out@ == join_with(
                crate::models::keep(trimmed.take(i as int), |l: Seq<char>| l.len() > 0),
                seq!['\n'],
            ),
        decreases lines@.len() - i,
    {
        proof {
            assert(trimmed.take(i + 1).drop_last() =~= trimmed.take(i as int));
            assert(trimmed.take(i + 1).last() == trimmed[i as int]);
        }
        let t = trim_chars(lines[i].as_slice());
        if t.len() > 0 {
            if count > 0 {
                out.push('\n');
            }
            append_chars(&mut out, t.as_slice());
            proof {
                let kp = crate::models::keep(trimmed.take(i as int), |l: Seq<char>| l.len() > 0);
                let kn = crate::models::keep(trimmed.take(i + 1), |l: Seq<char>| l.len() > 0);
                assert(kn == kp.push(t@));
                assert(kn.drop_last() =~= kp);
                if count == 0 {
                    assert(kp.len() == 0);
                    assert(out@ =~= t@);
                } else {
                    assert(out@ =~= join_with(kp, seq!['\n']) + seq!['\n'] + t@);
                }
            }
            count = count + 1;
        }
        i = i + 1;
    }
    assert(trimmed.take(lines@.len() as int) =~= trimmed);
    out
}

// ---------------------------------------------------------------------------
// Sanitising article HTML
// ---------------------------------------------------------------------------

/// The text of a document: tags removed, white space collapsed, trimmed.
pub open spec fn spec_plain_from(decoded: Seq<char>) -> Seq<char> {
    spec_trim(spec_collapse_whitespace(spec_strip_tags(decoded)))
}

/// The readable text of an article: the sanitised document with entities
/// decoded, tags stripped and white space collapsed; when that leaves
/// nothing, the same applied to the document without sanitising.
pub open spec fn spec_sanitize_html(html: Seq<char>) -> Seq<char> {
    if html.len() == 0 {
        Seq::empty()
    } else {
        let main = spec_plain_from(spec_decode_entities(spec_clean_article_html(html)));
        if main.len() > 0 {
            main
        } else {
            spec_plain_from(spec_decode_entities(html))
        }
    }
}

fn plain_from(decoded: &str) -> (r: Vec<char>)
    ensures
        r@ == spec_plain_from(decoded@),
{
    let cs = chars_of(decoded);
    let stripped = strip_tags_chars(cs.as_slice());
    let collapsed = collapse_whitespace(stripped.as_slice());
    trim_chars(collapsed.as_slice())
}

/// The readable text of an article's HTML.
pub fn sanitize_html(html: &str) -> (r: String)
    ensures
        r@ == spec_sanitize_html(html@),
{
    if html.is_empty() {
        return String::new();
    }
    let cleaned = clean_article_html(html);
    let decoded = decode_html_entities(cleaned.as_str());
    let main = plain_from(decoded.as_str());
    if main.len() > 0 {
        return string_of(main.as_slice());
    }
    let decoded_raw = decode_html_entities(html);
    let fallback = plain_from(decoded_raw.as_str());
    string_of(fallback.as_slice())
}

/// Plain text of HTML: tags removed, entities decoded.
pub open spec fn spec_clean_html(html: Seq<char>) -> Seq<char> {
    spec_decode_entities(spec_strip_tags(html))
}

/// Removes the tags of an HTML text and decodes its entities.
pub fn clean_html(html: &str) -> (r: String)
    ensures
        r@ == spec_clean_html(html@),
{
    let stripped = strip_tags(html);
    decode_html_entities(stripped.as_str())
}

/// Feed content as plain text: rendered as text, entities decoded, lines tidied.
pub open spec fn spec_sanitize_feed_content(html: Seq<char>) -> Seq<char> {
    spec_tidy_lines(spec_decode_entities(spec_html_to_plain_text(html)))
}

/// Turns feed content into tidy plain text.
pub fn sanitize_feed_content(html: &str) -> (r: String)
    ensures
        r@ == spec_sanitize_feed_content(html@),
{
    let plain = html_to_plain_text(html);
    let decoded = decode_html_entities(plain.as_str());
    let cs = chars_of(decoded.as_str());
    let t = tidy_lines(cs.as_slice());
    string_of(t.as_slice())
}

/// Text prepared for translation: only paragraphs and line breaks kept,
/// entities decoded, lines tidied.
pub open spec fn spec_sanitize_for_translation(html: Seq<char>) -> Seq<char> {
    spec_tidy_lines(spec_decode_entities(spec_clean_paragraphs_html(html)))
}

/// Prepares text for translation.
pub fn sanitize_for_translation(html: &str) -> (r: String)
    ensures
        r@ == spec_sanitize_for_translation(html@),
{
    let cleaned = clean_paragraphs_html(html);
    let decoded = decode_html_entities(cleaned.as_str());
    let cs = chars_of(decoded.as_str());
    let t = tidy_lines(cs.as_slice());
    string_of(t.as_slice())
}


/// The address tried for a feed's icon: `favicon.ico` at the root of its
/// host, over HTTPS; none without a host.
pub open spec fn spec_favicon_candidate(feed_url: Seq<char>) -> Option<Seq<char>> {
    match spec_extract_domain(feed_url) {
        Some(d) => Some("https://"@ + d + "/favicon.ico"@),
        None => None,
    }
}

/// The address tried for a feed's icon; the application keeps it when the
/// server answers a `HEAD` request for it with success.
pub fn favicon_candidate(feed_url: &str) -> (r: Option<String>)
    ensures
        match spec_favicon_candidate(feed_url@) {
            Some(u) => r matches Some(s) && s@ == u,
            None => r is None,
        },
{
    match extract_domain(feed_url) {
        Some(d) => {
            let mut v = chars_of("https://");
            append_str(&mut v, d.as_str());
            append_str(&mut v, "/favicon.ico");
            Some(string_of(v.as_slice()))
        },
        None => None,
    }
}

} // verus!
