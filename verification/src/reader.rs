//! Turning article HTML into the parts the reader displays: text,
//! paragraphs, lists, quotes, code blocks, images and rules.
use vstd::prelude::*;
use crate::text::{
    append_chars, chars_eq, chars_of, find_from, lemma_find_from_bounds, matches_at,
    spec_find, spec_starts_with, starts_with_chars, string_of,
};
use crate::content::{
    extract_image_src, extract_link_url, extract_main_content, extract_tag_content,
    resolve_url, simplify_tags, spec_extract_image_src, spec_extract_link_url,
    spec_extract_main_content, spec_extract_tag_content, spec_lowercase, spec_resolve_url,
    spec_simplify_tags, spec_strip_page_noise, strip_page_noise, to_lowercase, texts,
};

verus! {

/// A displayed piece of an article.
#[derive(Debug)]
pub enum Part {
    Text(String),
    Heading(u32, String),
    Bold(String),
    Italic(String),
    Link(String, String),
    List(Vec<String>, bool),
    Paragraph(String),
    Quote(String),
    Code(String),
    Image(String),
    LineBreak,
    HorizontalRule,
}

/// What a part shows, as plain text.
pub enum PartView {
    Text(Seq<char>),
    Heading(u32, Seq<char>),
    Bold(Seq<char>),
    Italic(Seq<char>),
    Link(Seq<char>, Seq<char>),
    List(Seq<Seq<char>>, bool),
    Paragraph(Seq<char>),
    Quote(Seq<char>),
    Code(Seq<char>),
    Image(Seq<char>),
    LineBreak,
    HorizontalRule,
}

pub open spec fn string_texts(v: Seq<String>) -> Seq<Seq<char>> {
    v.map_values(|s: String| s@)
}

impl View for Part {
    type V = PartView;

    open spec fn view(&self) -> PartView {
        match self {
            Part::Text(t) => PartView::Text(t@),
            Part::Heading(l, t) => PartView::Heading(*l, t@),
            Part::Bold(t) => PartView::Bold(t@),
            Part::Italic(t) => PartView::Italic(t@),
            Part::Link(t, u) => PartView::Link(t@, u@),
            Part::List(items, o) => PartView::List(string_texts(items@), *o),
            Part::Paragraph(t) => PartView::Paragraph(t@),
            Part::Quote(t) => PartView::Quote(t@),
            Part::Code(t) => PartView::Code(t@),
            Part::Image(u) => PartView::Image(u@),
            Part::LineBreak => PartView::LineBreak,
            Part::HorizontalRule => PartView::HorizontalRule,
        }
    }
}

pub open spec fn part_views(v: Seq<Part>) -> Seq<PartView> {
    v.map_values(|p: Part| p@)
}

/// The state of the parser: the parts so far, pending text, the tag being
/// read, and the open list, quote and code block.
pub struct ParseModel {
    pub parts: Seq<PartView>,
    pub buffer: Seq<char>,
    pub in_tag: bool,
    pub tag_buf: Seq<char>,
    pub in_list: bool,
    pub items: Seq<Seq<char>>,
    pub ordered: bool,
    pub in_quote: bool,
    pub quote_text: Seq<char>,
    pub in_code: bool,
    pub code_text: Seq<char>,
}

pub open spec fn initial_model() -> ParseModel {
    ParseModel {
        parts: Seq::empty(),
        buffer: Seq::empty(),
        in_tag: false,
        tag_buf: Seq::empty(),
        in_list: false,
        items: Seq::empty(),
        ordered: false,
        in_quote: false,
        quote_text: Seq::empty(),
        in_code: false,
        code_text: Seq::empty(),
    }
}

/// The heading level of a digit `1`-`6`.
pub open spec fn heading_level(c: char) -> Option<u32> {
    if c == '1' {
        Some(1)
    } else if c == '2' {
        Some(2)
    } else if c == '3' {
        Some(3)
    } else if c == '4' {
        Some(4)
    } else if c == '5' {
        Some(5)
    } else if c == '6' {
        Some(6)
    } else {
        None
    }
}

/// The element name of a closing tag `</name>` (lower case).
pub open spec fn closing_name(lower: Seq<char>) -> Seq<char> {
    if lower.len() >= 3 {
        lower.subrange(2, lower.len() - 1)
    } else {
        Seq::empty()
    }
}

pub open spec fn push_part(st: ParseModel, p: PartView) -> ParseModel {
    ParseModel { parts: st.parts.push(p), ..st }
}

/// A closing tag: `</ul>`/`</ol>` emit the open list, `</blockquote>` the
/// quote, `</code>`/`</pre>` the code block, `</p>` the pending text as a
/// paragraph.
pub open spec fn close_tag(name: Seq<char>, st: ParseModel) -> ParseModel {
    if name == "ul"@ || name == "ol"@ {
        if st.in_list {
            ParseModel {
                parts: st.parts.push(PartView::List(st.items, st.ordered)),
                items: Seq::empty(),
                in_list: false,
                ..st
            }
        } else {
            st
        }
    } else if name == "blockquote"@ {
        if st.in_quote {
            ParseModel {
                parts: st.parts.push(PartView::Quote(st.quote_text)),
                quote_text: Seq::empty(),
                in_quote: false,
                ..st
            }
        } else {
            st
        }
    } else if name == "code"@ || name == "pre"@ {
        if st.in_code {
            ParseModel {
                parts: st.parts.push(PartView::Code(st.code_text)),
                code_text: Seq::empty(),
                in_code: false,
                ..st
            }
        } else {
            st
        }
    } else if name == "p"@ {
        if st.buffer.len() > 0 {
            ParseModel {
                parts: st.parts.push(PartView::Paragraph(st.buffer)),
                buffer: Seq::empty(),
                ..st
            }
        } else {
            st
        }
    } else {
        st
    }
}

/// An opening tag, tested by the prefixes of its lower-case form in order.
pub open spec fn open_tag(tag: Seq<char>, lower: Seq<char>, st: ParseModel, base: Seq<char>) -> ParseModel {
    if spec_starts_with(lower, "<h"@) {
        match (if lower.len() > 2 { heading_level(lower[2]) } else { None }) {
            Some(l) => match spec_extract_tag_content(tag) {
                Some(c) => push_part(st, PartView::Heading(l, c)),
                None => st,
            },
            None => st,
        }
    } else if spec_starts_with(lower, "<b"@) || spec_starts_with(lower, "<strong"@) {
        match spec_extract_tag_content(tag) {
            Some(c) => push_part(st, PartView::Bold(c)),
            None => st,
        }
    } else if spec_starts_with(lower, "<i"@) || spec_starts_with(lower, "<em"@) {
        match spec_extract_tag_content(tag) {
            Some(c) => push_part(st, PartView::Italic(c)),
            None => st,
        }
    } else if spec_starts_with(lower, "<a "@) {
        match spec_extract_tag_content(tag) {
            Some(t) => match spec_extract_link_url(tag) {
                Some(u) => push_part(st, PartView::Link(t, spec_resolve_url(u, base))),
                None => st,
            },
            None => st,
        }
    } else if spec_starts_with(lower, "<ul"@) {
        ParseModel { in_list: true, ordered: false, ..st }
    } else if spec_starts_with(lower, "<ol"@) {
        ParseModel { in_list: true, ordered: true, ..st }
    } else if spec_starts_with(lower, "<li"@) {
        if st.in_list {
            ParseModel { items: st.items.push(Seq::empty()), ..st }
        } else {
            st
        }
    } else if spec_starts_with(lower, "<blockquote"@) {
        ParseModel { in_quote: true, ..st }
    } else if spec_starts_with(lower, "<pre"@) || spec_starts_with(lower, "<code"@) {
        ParseModel { in_code: true, ..st }
    } else if spec_starts_with(lower, "<p"@) {
        st
    } else if spec_starts_with(lower, "<img"@) {
        match spec_extract_image_src(tag) {
            Some(src) => push_part(st, PartView::Image(spec_resolve_url(src, base))),
            None => st,
        }
    } else if spec_starts_with(lower, "<br"@) {
        push_part(st, PartView::LineBreak)
    } else if spec_starts_with(lower, "<hr"@) {
        push_part(st, PartView::HorizontalRule)
    } else {
        st
    }
}

/// A complete tag applied to the parser state, given its lower-case form.
pub open spec fn spec_process_tag(tag: Seq<char>, lower: Seq<char>, st: ParseModel, base: Seq<char>) -> ParseModel {
    if spec_starts_with(lower, "</"@) {
        close_tag(closing_name(lower), st)
    } else {
        open_tag(tag, lower, st, base)
    }
}

/// Pending text handed to the open list item, quote or code block, or
/// emitted as text.
pub open spec fn flush_text(st: ParseModel) -> ParseModel {
    if st.buffer.len() == 0 {
        st
    } else if st.in_list {
        ParseModel {
            items: if st.items.len() > 0 {
                st.items.update(st.items.len() - 1, st.items.last() + st.buffer)
            } else {
                st.items
            },
            buffer: Seq::empty(),
            ..st
        }
    } else if st.in_quote {
        ParseModel { quote_text: st.quote_text + st.buffer, buffer: Seq::empty(), ..st }
    } else if st.in_code {
        ParseModel { code_text: st.code_text + st.buffer, buffer: Seq::empty(), ..st }
    } else {
        ParseModel { parts: st.parts.push(PartView::Text(st.buffer)), buffer: Seq::empty(), ..st }
    }
}

/// One character of the text fed to the parser.
pub open spec fn parse_step(st: ParseModel, c: char, base: Seq<char>) -> ParseModel {
    if st.in_tag {
        let tb = st.tag_buf.push(c);
        if c == '>' {
            let st2 = spec_process_tag(tb, spec_lowercase(tb), st, base);
            ParseModel { in_tag: false, tag_buf: Seq::empty(), ..st2 }
        } else {
            ParseModel { tag_buf: tb, ..st }
        }
    } else if c == '<' {
        let st2 = flush_text(st);
        ParseModel { in_tag: true, tag_buf: st2.tag_buf.push(c), ..st2 }
    } else {
        ParseModel { buffer: st.buffer.push(c), ..st }
    }
}

pub open spec fn parse_run(s: Seq<char>, base: Seq<char>) -> ParseModel
    decreases s.len(),
{
    if s.len() == 0 {
        initial_model()
    } else {
        parse_step(parse_run(s.drop_last(), base), s.last(), base)
    }
}

/// The parts left open at the end: pending text, then the open list, quote
/// and code block.
pub open spec fn finish_parts(st: ParseModel) -> Seq<PartView> {
    let a = if st.buffer.len() > 0 {
        st.parts.push(PartView::Text(st.buffer))
    } else {
        st.parts
    };
    let b = if st.in_list {
        a.push(PartView::List(st.items, st.ordered))
    } else {
        a
    };
    let c = if st.in_quote {
        b.push(PartView::Quote(st.quote_text))
    } else {
        b
    };
    if st.in_code {
        c.push(PartView::Code(st.code_text))
    } else {
        c
    }
}

/// The displayed parts of an HTML text; relative links and images are
/// resolved against `base`.
pub open spec fn spec_parse_html(s: Seq<char>, base: Seq<char>) -> Seq<PartView> {
    finish_parts(parse_run(s, base))
}

/// The displayed parts of article content: scripts, styles and comments
/// removed, tags simplified, the main content picked, then parsed.
pub open spec fn spec_article_parts(content: Seq<char>, base: Seq<char>) -> Seq<PartView> {
    spec_parse_html(
        spec_extract_main_content(spec_simplify_tags(spec_strip_page_noise(content))),
        base,
    )
}

/// The parser's working state.
pub struct HtmlParser {
    pub parts: Vec<Part>,
    pub buffer: Vec<char>,
    pub in_tag: bool,
    pub tag_buf: Vec<char>,
    pub in_list: bool,
    pub items: Vec<Vec<char>>,
    pub ordered: bool,
    pub in_quote: bool,
    pub quote_text: Vec<char>,
    pub in_code: bool,
    pub code_text: Vec<char>,
}

impl View for HtmlParser {
    type V = ParseModel;

    open spec fn view(&self) -> ParseModel {
        ParseModel {
            parts: part_views(self.parts@),
            buffer: self.buffer@,
            in_tag: self.in_tag,
            tag_buf: self.tag_buf@,
            in_list: self.in_list,
            items: texts(self.items@),
            ordered: self.ordered,
            in_quote: self.in_quote,
            quote_text: self.quote_text@,
            in_code: self.in_code,
            code_text: self.code_text@,
        }
    }
}

/// The strings of a list of character vectors.
fn strings_of(v: &Vec<Vec<char>>) -> (r: Vec<String>)
    ensures
        string_texts(r@) == texts(v@),
{
    let mut out: Vec<String> = Vec::new();
    let mut i: usize = 0;
    while i < v.len()
        invariant
            i <= v@.len(),
            string_texts(out@) == texts(v@).take(i as int),
        decreases v@.len() - i,
    {
        let s = string_of(v[i].as_slice());
        let ghost before = out@;
        out.push(s);
        proof {
            assert(string_texts(out@) =~= string_texts(before).push(v@[i as int]@));
            assert(texts(v@).take(i + 1) =~= texts(v@).take(i as int).push(v@[i as int]@));
        }
        i = i + 1;
    }
    assert(texts(v@).take(v@.len() as int) =~= texts(v@));
    out
}

/// A copy of a character vector.
fn copy_chars(v: &Vec<char>) -> (r: Vec<char>)
    ensures
        r@ == v@,
{
    let mut out: Vec<char> = Vec::new();
    append_chars(&mut out, v.as_slice());
    out
}

/// A heading level from the third character of a tag.
fn heading_level_exec(c: char) -> (r: Option<u32>)
    ensures
        r == heading_level(c),
{
    if c == '1' {
        Some(1)
    } else if c == '2' {
        Some(2)
    } else if c == '3' {
        Some(3)
    } else if c == '4' {
        Some(4)
    } else if c == '5' {
        Some(5)
    } else if c == '6' {
        Some(6)
    } else {
        None
    }
}

fn lit_eq(a: &[char], lit: &str) -> (r: bool)
    ensures
        r == (a@ == lit@),
{
    let l = chars_of(lit);
    chars_eq(a, l.as_slice())
}

fn lit_prefix(a: &[char], lit: &str) -> (r: bool)
    ensures
        r == spec_starts_with(a@, lit@),
{
    let l = chars_of(lit);
    starts_with_chars(a, l.as_slice())
}

impl HtmlParser {
    /// An empty parser.
    pub fn new() -> (p: Self)
        ensures
            p@ == initial_model(),
    {
        let p = HtmlParser {
            parts: Vec::new(),
            buffer: Vec::new(),
            in_tag: false,
            tag_buf: Vec::new(),
            in_list: false,
            items: Vec::new(),
            ordered: false,
            in_quote: false,
            quote_text: Vec::new(),
            in_code: false,
            code_text: Vec::new(),
        };
        assert(p@.parts =~= Seq::<PartView>::empty());
        assert(p@.items =~= Seq::<Seq<char>>::empty());
        p
    }

    fn push(&mut self, p: Part)
        ensures
            final(self)@ == push_part(old(self)@, p@),
    {
        let ghost before = self.parts@;
        self.parts.push(p);
        proof {
            assert(part_views(self.parts@) =~= part_views(before).push(p@));
        }
    }

    fn close(&mut self, name: &[char])
        ensures
            final(self)@ == close_tag(name@, old(self)@),
    {
        if lit_eq(name, "ul") || lit_eq(name, "ol") {
            if self.in_list {
                let items = strings_of(&self.items);
                self.push(Part::List(items, self.ordered));
                self.items = Vec::new();
                self.in_list = false;
                assert(texts(self.items@) =~= Seq::<Seq<char>>::empty());
            }
        } else if lit_eq(name, "blockquote") {
            if self.in_quote {
                let t = string_of(self.quote_text.as_slice());
                self.push(Part::Quote(t));
                self.quote_text = Vec::new();
                self.in_quote = false;
            }
        } else if lit_eq(name, "code") || lit_eq(name, "pre") {
            if self.in_code {
                let t = string_of(self.code_text.as_slice());
                self.push(Part::Code(t));
                self.code_text = Vec::new();
                self.in_code = false;
            }
        } else if lit_eq(name, "p") {
            if self.buffer.len() > 0 {
                let t = string_of(self.buffer.as_slice());
                self.push(Part::Paragraph(t));
                self.buffer = Vec::new();
            }
        }
    }

    fn open(&mut self, tag: &str, lower: &[char], base_url: &str)
        ensures
            final(self)@ == open_tag(tag@, lower@, old(self)@, base_url@),
    {
        if lit_prefix(lower, "<h") {
            let level = if lower.len() > 2 {
                heading_level_exec(lower[2])
            } else {
                None
            };
            match level {
                Some(l) => match extract_tag_content(tag) {
                    Some(c) => self.push(Part::Heading(l, c)),
                    None => {},
                },
                None => {},
            }
        } else if lit_prefix(lower, "<b") || lit_prefix(lower, "<strong") {
            match extract_tag_content(tag) {
                Some(c) => self.push(Part::Bold(c)),
                None => {},
            }
        } else if lit_prefix(lower, "<i") || lit_prefix(lower, "<em") {
            match extract_tag_content(tag) {
                Some(c) => self.push(Part::Italic(c)),
                None => {},
            }
        } else if lit_prefix(lower, "<a ") {
            match extract_tag_content(tag) {
                Some(t) => match extract_link_url(tag) {
                    Some(u) => {
                        let abs = resolve_url(u, base_url);
                        self.push(Part::Link(t, abs));
                    },
                    None => {},
                },
                None => {},
            }
        } else if lit_prefix(lower, "<ul") {
            self.in_list = true;
            self.ordered = false;
        } else if lit_prefix(lower, "<ol") {
            self.in_list = true;
            self.ordered = true;
        } else if lit_prefix(lower, "<li") {
            if self.in_list {
                let ghost before = self.items@;
                self.items.push(Vec::new());
                proof {
                    assert(texts(self.items@) =~= texts(before).push(Seq::<char>::empty()));
                }
            }
        } else if lit_prefix(lower, "<blockquote") {
            self.in_quote = true;
        } else if lit_prefix(lower, "<pre") || lit_prefix(lower, "<code") {
            self.in_code = true;
        } else if lit_prefix(lower, "<p") {
        } else if lit_prefix(lower, "<img") {
            match extract_image_src(tag) {
                Some(src) => {
                    let abs = resolve_url(src, base_url);
                    self.push(Part::Image(abs));
                },
                None => {},
            }
        } else if lit_prefix(lower, "<br") {
            self.push(Part::LineBreak);
        } else if lit_prefix(lower, "<hr") {
            self.push(Part::HorizontalRule);
        }
    }

    /// Applies a complete tag, given its lower-case form.
    pub fn process_tag_lowered(&mut self, tag: &str, lower: &str, base_url: &str)
        ensures
            final(self)@ == spec_process_tag(tag@, lower@, old(self)@, base_url@),
    {
        let l = chars_of(lower);
        if lit_prefix(l.as_slice(), "</") {
            let name: Vec<char> = if l.len() >= 3 {
                crate::text::slice_chars(l.as_slice(), 2, l.len() - 1)
            } else {
                Vec::new()
            };
            self.close(name.as_slice());
        } else {
            self.open(tag, l.as_slice(), base_url);
        }
    }

    /// Applies a complete tag to the parser state.
    pub fn process_tag(&mut self, tag: &str, base_url: &str)
        ensures
            final(self)@ == spec_process_tag(tag@, spec_lowercase(tag@), old(self)@, base_url@),
    {
        let lower = to_lowercase(tag);
        self.process_tag_lowered(tag, lower.as_str(), base_url);
    }

    fn flush(&mut self)
        ensures
            final(self)@ == flush_text(old(self)@),
    {
        if self.buffer.len() == 0 {
            return;
        }
        if self.in_list {
            if self.items.len() > 0 {
                let ghost before = self.items@;
                let mut last = self.items.pop().unwrap();
                append_chars(&mut last, self.buffer.as_slice());
                self.items.push(last);
                proof {
                    assert(texts(self.items@) =~= texts(before).update(
                        before.len() - 1,
                        texts(before).last() + self.buffer@,
                    ));
                }
            }
            self.buffer = Vec::new();
        } else if self.in_quote {
            append_chars(&mut self.quote_text, self.buffer.as_slice());
            self.buffer = Vec::new();
        } else if self.in_code {
            append_chars(&mut self.code_text, self.buffer.as_slice());
            self.buffer = Vec::new();
        } else {
            let t = string_of(self.buffer.as_slice());
            self.push(Part::Text(t));
            self.buffer = Vec::new();
        }
    }

    /// The parts, with whatever is still open emitted at the end.
    pub fn finish(self) -> (r: Vec<Part>)
        ensures
            part_views(r@) == finish_parts(self@),
    {
        let mut p = self;
        let ghost st = p@;
        if p.buffer.len() > 0 {
            let t = string_of(p.buffer.as_slice());
            p.push(Part::Text(t));
        }
        if p.in_list {
            let items = strings_of(&p.items);
            p.push(Part::List(items, p.ordered));
        }
        if p.in_quote {
            let t = string_of(p.quote_text.as_slice());
            p.push(Part::Quote(t));
        }
        if p.in_code {
            let t = string_of(p.code_text.as_slice());
            p.push(Part::Code(t));
        }
        p.parts
    }
}

/// A tag read by the parser: it starts with `<` and holds no `>`.
pub open spec fn open_tag_text(t: Seq<char>) -> bool {
    t.len() >= 1 && t[0] == '<' && forall|j: int| 0 <= j < t.len() ==> t[j] != '>'
}

/// A tag closed at its first `>` has no content of its own.
proof fn lemma_tag_has_no_content(t: Seq<char>)
    requires
        open_tag_text(t),
    ensures
        spec_extract_tag_content(t.push('>')) is None,
{
    let s = t.push('>');
    lemma_find_from_bounds(s, seq!['>'], 0);
    match spec_find(s, seq!['>']) {
        None => {},
        Some(gt) => {
            assert(s.subrange(gt, gt + 1) =~= seq!['>']);
            assert(s[gt] == s.subrange(gt, gt + 1)[0]);
            assert(gt == t.len());
            crate::content::lemma_rfind_bounds(s, "</"@);
        },
    }
}

/// Parses HTML into displayed parts; relative links and images are resolved
/// against `base_url`.
pub fn parse_html(text: &str, base_url: &str) -> (r: Vec<Part>)
    ensures
        part_views(r@) == spec_parse_html(text@, base_url@),
{
    let t = chars_of(text);
    let mut p = HtmlParser::new();
    let mut i: usize = 0;
    while i < t.len()
        invariant
            i <= t@.len(),
            t@ == text@,
            p@ == parse_run(t@.take(i as int), base_url@),
            p.in_tag ==> open_tag_text(p.tag_buf@),
            !p.in_tag ==> p.tag_buf@.len() == 0,
        decreases t@.len() - i,
    {
        proof {
            assert(t@.take(i + 1).drop_last() =~= t@.take(i as int));
        }
        let c = t[i];
        if p.in_tag {
            if c == '>' {
                proof {
                    lemma_tag_has_no_content(p.tag_buf@);
                }
                p.tag_buf.push(c);
                let tag = string_of(p.tag_buf.as_slice());
                p.process_tag(tag.as_str(), base_url);
                p.in_tag = false;
                p.tag_buf = Vec::new();
            } else {
                p.tag_buf.push(c);
            }
        } else if c == '<' {
            p.flush();
            p.in_tag = true;
            p.tag_buf.push(c);
        } else {
            p.buffer.push(c);
        }
        i = i + 1;
    }
    assert(t@.take(t@.len() as int) =~= t@);
    p.finish()
}

/// The displayed parts of article content: scripts, styles and comments
/// removed, tags simplified, the main content picked, then parsed against
/// the article's address.
pub fn article_parts(content: &str, base_url: &str) -> (r: Vec<Part>)
    ensures
        part_views(r@) == spec_article_parts(content@, base_url@),
{
    let c = chars_of(content);
    let a = strip_page_noise(c.as_slice());
    let b = simplify_tags(a.as_slice());
    let s = string_of(b.as_slice());
    let m = extract_main_content(s.as_str());
    parse_html(m.as_str(), base_url)
}

} // verus!
