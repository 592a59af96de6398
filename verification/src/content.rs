//! Preparing web pages and article HTML for display: removing scripts,
//! styles and comments, finding the main content, reading attributes and
//! resolving links.
use vstd::prelude::*;
use crate::text::{
    append_chars, append_str, chars_eq, chars_of, find_chars, find_char, find_chars_from, is_whitespace, is_ws,
    matches_at, matches_at_exec, rfind_chars, slice_chars, spec_find, spec_rfind,
    spec_starts_with, split_chars, split_on, starts_with_chars, string_of, find_from,
    lemma_find_from_bounds,
};
use crate::models::keep;
use crate::markup::join_with;
use crate::syndication::{regex_capture, spec_regex_capture};

verus! {

// ---------------------------------------------------------------------------
// Lower case (std)
// ---------------------------------------------------------------------------

/// What `str::to_lowercase` returns for a text.
pub uninterp spec fn spec_lowercase(s: Seq<char>) -> Seq<char>;

/// ASCII lower case of one character.
pub open spec fn ascii_lower(c: char) -> char {
    if 'A' <= c && c <= 'Z' {
        ((c as u32) + 32) as char
    } else {
        c
    }
}

pub open spec fn is_ascii_text(s: Seq<char>) -> bool {
    forall|i: int| 0 <= i < s.len() ==> (s[i] as u32) < 128
}

/// `str::to_lowercase`: the Unicode lower case of a text; on ASCII text it
/// maps `A`-`Z` to `a`-`z` and keeps every other character.
#[verifier::external_body]
pub(crate) fn to_lowercase(s: &str) -> (r: String)
    ensures
        r@ == spec_lowercase(s@),
        is_ascii_text(s@) ==> r@ == s@.map_values(|c: char| ascii_lower(c)),
{
    s.to_lowercase()
}

// ---------------------------------------------------------------------------
// Removing blocks
// ---------------------------------------------------------------------------

/// Removal of every `open ... close` block, always restarting from the
/// beginning; `extra` more characters after `close` are removed too, and when
/// they are missing or not single-byte the text is cut at the block instead.
pub open spec fn spec_remove_blocks(s: Seq<char>, open: Seq<char>, close: Seq<char>, extra: nat) -> Seq<
    char,
>
    decreases s.len(),
{
    match spec_find(s, open) {
        None => s,
        Some(st) => {
            let rest = s.subrange(st, s.len() as int);
            match spec_find(rest, close) {
                None => s,
                Some(e) => {
                    let end = st + e + close.len() + extra;
                    if close.len() > 0 && 0 <= st && 0 <= e && end <= s.len() && (extra == 0 || (s[end
                        - 1] as u32) < 128) {
                        spec_remove_blocks(
                            s.subrange(0, st) + s.subrange(end, s.len() as int),
                            open,
                            close,
                            extra,
                        )
                    } else {
                        s.subrange(0, st)
                    }
                },
            }
        },
    }
}

/// Removes blocks delimited by `open` and `close`.
pub fn remove_blocks(text: &[char], open: &[char], close: &[char], extra: usize) -> (r: Vec<char>)
    requires
        extra <= 1,
        close@.len() > 0,
    ensures
        r@ == spec_remove_blocks(text@, open@, close@, extra as nat),
    decreases text@.len(),
{
    match find_chars(text, open) {
        None => slice_chars(text, 0, text.len()),
        Some(st) => {
            proof {
                lemma_find_from_bounds(text@, open@, 0);
            }
            let rest = slice_chars(text, st, text.len());
            match find_chars(rest.as_slice(), close) {
                None => slice_chars(text, 0, text.len()),
                Some(e) => {
                    proof {
                        lemma_find_from_bounds(rest@, close@, 0);
                    }
                    let n = text.len();
                    if extra <= n - st - e - close.len() && (extra == 0 || (text[st + e + close.len() + extra - 1] as u32) < 128) {
                        let end = st + e + close.len() + extra;
                        let mut next = slice_chars(text, 0, st);
                        let tail = slice_chars(text, end, n);
                        append_chars(&mut next, tail.as_slice());
                        remove_blocks(next.as_slice(), open, close, extra)
                    } else {
                        slice_chars(text, 0, st)
                    }
                },
            }
        },
    }
}

/// Removes scripts, styles and comments from page content.
pub open spec fn spec_strip_page_noise(s: Seq<char>) -> Seq<char> {
    spec_remove_blocks(
        spec_remove_blocks(spec_remove_blocks(s, "<script"@, "</script>"@, 0), "<style"@, "</style>"@, 0),
        "<!--"@,
        "-->"@,
        1,
    )
}

/// Removes `<script>` and `<style>` blocks and comments.
pub fn strip_page_noise(text: &[char]) -> (r: Vec<char>)
    ensures
        r@ == spec_strip_page_noise(text@),
{
    let a = chars_of("<script");
    let b = chars_of("</script>");
    let c = chars_of("<style");
    let d = chars_of("</style>");
    let e = chars_of("<!--");
    let f = chars_of("-->");
    proof {
        reveal_strlit("</script>");
        reveal_strlit("</style>");
        reveal_strlit("-->");
    }
    let t1 = remove_blocks(text, a.as_slice(), b.as_slice(), 0);
    let t2 = remove_blocks(t1.as_slice(), c.as_slice(), d.as_slice(), 0);
    remove_blocks(t2.as_slice(), e.as_slice(), f.as_slice(), 1)
}

// ---------------------------------------------------------------------------
// Tags
// ---------------------------------------------------------------------------

/// The text between the end of the opening tag and the last `</` of a
/// complete `<...>` fragment.
pub open spec fn spec_extract_tag_content(tag: Seq<char>) -> Option<Seq<char>> {
    if tag.len() == 0 || tag[0] != '<' || tag.last() != '>' {
        None
    } else {
        match spec_find(tag, seq!['>']) {
            None => None,
            Some(gt) => match spec_rfind(tag, "</"@) {
                None => None,
                Some(end) => if gt + 1 >= end {
                    None
                } else {
                    Some(tag.subrange(gt + 1, end))
                },
            },
        }
    }
}

/// The content of a tag fragment such as `<b>text</b>`.
pub fn extract_tag_content(tag: &str) -> (r: Option<String>)
    ensures
        match spec_extract_tag_content(tag@) {
            Some(c) => r matches Some(s) && s@ == c,
            None => r is None,
        },
{
    let t = chars_of(tag);
    let n = t.len();
    if n == 0 || t[0] != '<' || t[n - 1] != '>' {
        return None;
    }
    let close = chars_of("</");
    match find_char(t.as_slice(), '>') {
        None => None,
        Some(gt) => match rfind_chars(t.as_slice(), close.as_slice()) {
            None => None,
            Some(end) => {
                proof {
                    lemma_find_from_bounds(t@, seq!['>'], 0);
                    lemma_rfind_bounds(t@, close@);
                }
                if gt + 1 >= end {
                    None
                } else {
                    let c = slice_chars(t.as_slice(), gt + 1, end);
                    Some(string_of(c.as_slice()))
                }
            },
        },
    }
}

pub proof fn lemma_rfind_from_bounds(s: Seq<char>, pat: Seq<char>, k: int)
    ensures
        crate::text::rfind_from(s, pat, k) matches Some(i) ==> i <= k && matches_at(s, pat, i),
    decreases k + 1,
{
    if k >= 0 && !matches_at(s, pat, k) {
        lemma_rfind_from_bounds(s, pat, k - 1);
    }
}

pub proof fn lemma_rfind_bounds(s: Seq<char>, pat: Seq<char>)
    ensures
        spec_rfind(s, pat) matches Some(i) ==> 0 <= i && i + pat.len() <= s.len(),
{
    lemma_rfind_from_bounds(s, pat, s.len() - pat.len());
}

/// The link target of an `<a ...>` tag: the value right after `href=`;
/// when it starts with a quote it runs to the next equal quote, otherwise to
/// the next space.
pub open spec fn spec_extract_link_url(tag: Seq<char>) -> Option<Seq<char>> {
    match spec_find(tag, "href="@) {
        None => None,
        Some(h) => {
            let hs = h + 5;
            if hs >= tag.len() {
                None
            } else {
                let q = tag[hs];
                let quoted = q == '"' || q == '\'';
                let cs = if quoted {
                    hs + 1
                } else {
                    hs
                };
                let stop = if quoted {
                    q
                } else {
                    ' '
                };
                let tail = tag.subrange(cs, tag.len() as int);
                match spec_find(tail, seq![stop]) {
                    Some(e) => Some(tail.subrange(0, e)),
                    None => None,
                }
            }
        },
    }
}

/// The link target of an `<a ...>` tag.
pub fn extract_link_url(tag: &str) -> (r: Option<String>)
    ensures
        match spec_extract_link_url(tag@) {
            Some(u) => r matches Some(s) && s@ == u,
            None => r is None,
        },
{
    let t = chars_of(tag);
    let pat = chars_of("href=");
    proof {
        reveal_strlit("href=");
    }
    match find_chars(t.as_slice(), pat.as_slice()) {
        None => None,
        Some(h) => {
            proof {
                lemma_find_from_bounds(t@, pat@, 0);
            }
            let hs = h + 5;
            if hs >= t.len() {
                return None;
            }
            let q = t[hs];
            let quoted = q == '"' || q == '\'';
            let cs = if quoted {
                hs + 1
            } else {
                hs
            };
            let stop = if quoted {
                q
            } else {
                ' '
            };
            let tail = slice_chars(t.as_slice(), cs, t.len());
            match find_char(tail.as_slice(), stop) {
                Some(e) => {
                    proof {
                        lemma_find_from_bounds(tail@, seq![stop], 0);
                    }
                    let u = slice_chars(tail.as_slice(), 0, e);
                    Some(string_of(u.as_slice()))
                },
                None => None,
            }
        },
    }
}

/// The patterns of an image's `src`: double-quoted, single-quoted, bare.
pub open spec fn src_double_pattern() -> Seq<char> {
    "src\\s*=\\s*\"([^\"]+)"@
}

pub open spec fn src_single_pattern() -> Seq<char> {
    "src\\s*=\\s*'([^']+)"@
}

pub open spec fn src_bare_pattern() -> Seq<char> {
    "src\\s*=\\s*([^\\s>]+)"@
}

/// The `src` of an image tag: the first capture of the double-quoted
/// pattern, else of the single-quoted one, else of the bare one.
pub open spec fn spec_extract_image_src(tag: Seq<char>) -> Option<Seq<char>> {
    match spec_regex_capture(src_double_pattern(), tag) {
        Some(v) => Some(v),
        None => match spec_regex_capture(src_single_pattern(), tag) {
            Some(v) => Some(v),
            None => spec_regex_capture(src_bare_pattern(), tag),
        },
    }
}

/// The `src` of an image tag.
pub fn extract_image_src(tag: &str) -> (r: Option<String>)
    ensures
        match spec_extract_image_src(tag@) {
            Some(v) => r matches Some(s) && s@ == v,
            None => r is None,
        },
{
    match regex_capture("src\\s*=\\s*\"([^\"]+)", tag) {
        Some(v) => Some(v),
        None => match regex_capture("src\\s*=\\s*'([^']+)", tag) {
            Some(v) => Some(v),
            None => regex_capture("src\\s*=\\s*([^\\s>]+)", tag),
        },
    }
}

// ---------------------------------------------------------------------------
// Resolving links
// ---------------------------------------------------------------------------

/// The texts of a list of character vectors.
pub open spec fn texts(v: Seq<Vec<char>>) -> Seq<Seq<char>> {
    v.map_values(|p: Vec<char>| p@)
}

/// One path segment applied to a list of directories: `..` goes up (never
/// past the top), `.` and empty segments are skipped, others are appended.
pub open spec fn apply_segment(parts: Seq<Seq<char>>, seg: Seq<char>) -> Seq<Seq<char>> {
    if seg == seq!['.', '.'] {
        if parts.len() > 0 {
            parts.drop_last()
        } else {
            parts
        }
    } else if seg != seq!['.'] && seg.len() > 0 {
        parts.push(seg)
    } else {
        parts
    }
}

pub open spec fn apply_segments(parts: Seq<Seq<char>>, segs: Seq<Seq<char>>) -> Seq<Seq<char>>
    decreases segs.len(),
{
    if segs.len() == 0 {
        parts
    } else {
        apply_segment(apply_segments(parts, segs.drop_last()), segs.last())
    }
}

/// The directory part of a path: up to and including its last `/`; empty
/// when it has none.
pub open spec fn dir_part(path: Seq<char>) -> Seq<char> {
    match spec_rfind(path, "/"@) {
        Some(k) => path.subrange(0, k + 1),
        None => Seq::empty(),
    }
}

/// The host of an address without its scheme: up to the first `/`.
pub open spec fn host_part(rest: Seq<char>) -> Seq<char> {
    match spec_find(rest, "/"@) {
        Some(j) => rest.subrange(0, j),
        None => rest,
    }
}

/// The path of an address without its scheme: from the first `/` on.
pub open spec fn path_part(rest: Seq<char>) -> Seq<char> {
    match spec_find(rest, "/"@) {
        Some(j) => rest.subrange(j, rest.len() as int),
        None => Seq::empty(),
    }
}

/// The relative path walked from the non-empty directories.
pub open spec fn walked(dir: Seq<char>, url: Seq<char>) -> Seq<char> {
    join_with(apply_segments(keep(split_on(dir, '/'), |p: Seq<char>| p.len() > 0), split_on(url, '/')), seq!['/'])
}

/// A link made absolute against the address of the page it appears on.
pub open spec fn spec_resolve_url(url: Seq<char>, base: Seq<char>) -> Seq<char> {
    if spec_starts_with(url, "http://"@) || spec_starts_with(url, "https://"@) {
        url
    } else if spec_starts_with(url, "//"@) && spec_find(base, "://"@) is Some {
        base.subrange(0, spec_find(base, "://"@)->0 + 1) + url
    } else if spec_starts_with(url, "/"@) && spec_find(base, "//"@) is Some {
        let d = spec_find(base, "//"@)->0;
        match spec_find(base.subrange(d + 2, base.len() as int), "/"@) {
            Some(p) => base.subrange(0, d + 2 + p) + url,
            None => base + url,
        }
    } else if spec_rfind(base, "/"@) is Some {
        match spec_find(base, "://"@) {
            Some(i) => {
                let rest = base.subrange(i + 3, base.len() as int);
                base.subrange(0, i + 3) + host_part(rest) + seq!['/'] + walked(dir_part(path_part(rest)), url)
            },
            None => walked(dir_part(base), url),
        }
    } else {
        url
    }
}

/// The pieces joined by a separator.
pub fn join_pieces(parts: &Vec<Vec<char>>, sep: &[char]) -> (r: Vec<char>)
    ensures
        r@ == join_with(texts(parts@), sep@),
{
    let mut out: Vec<char> = Vec::new();
    let mut i: usize = 0;
    while i < parts.len()
        invariant
            i <= parts@.len(),
            out@ == join_with(texts(parts@).take(i as int), sep@),
        decreases parts@.len() - i,
    {
        proof {
            assert(texts(parts@).take(i + 1).drop_last() =~= texts(parts@).take(i as int));
        }
        if i > 0 {
            append_chars(&mut out, sep);
        }
        append_chars(&mut out, parts[i].as_slice());
        proof {
            if i == 0 {
                assert(out@ =~= texts(parts@).take(1)[0]);
            }
        }
        i = i + 1;
    }
    assert(texts(parts@).take(parts@.len() as int) =~= texts(parts@));
    out
}

/// The non-empty pieces of a text split at `/`.
fn nonempty_pieces(s: &[char]) -> (r: Vec<Vec<char>>)
    ensures
        texts(r@) == keep(split_on(s@, '/'), |p: Seq<char>| p.len() > 0),
{
    let pieces = split_chars(s, '/');
    let ghost all = split_on(s@, '/');
    let mut out: Vec<Vec<char>> = Vec::new();
    let mut i: usize = 0;
    while i < pieces.len()
        invariant
            pieces@.len() == all.len(),
            forall|k: int| 0 <= k < pieces@.len() ==> #[trigger] pieces@[k]@ == all[k],
            i <= pieces@.len(),
            texts(out@) == keep(all.take(i as int), |p: Seq<char>| p.len() > 0),
        decreases pieces@.len() - i,
    {
        proof {
            assert(all.take(i + 1).drop_last() =~= all.take(i as int));
        }
        if pieces[i].len() > 0 {
            let p = slice_chars(pieces[i].as_slice(), 0, pieces[i].len());
            assert(p@ =~= all[i as int]);
            let ghost before = out@;
            out.push(p);
            proof {
                assert(texts(out@) =~= texts(before).push(all[i as int]));
            }
        }
        i = i + 1;
    }
    assert(all.take(pieces@.len() as int) =~= all);
    out
}

/// Applies the segments of a relative path to a list of directories.
fn walk_segments(dirs: Vec<Vec<char>>, url: &[char]) -> (r: Vec<Vec<char>>)
    ensures
        texts(r@) == apply_segments(texts(dirs@), split_on(url@, '/')),
{
    let segs = split_chars(url, '/');
    let ghost all = split_on(url@, '/');
    let dots = ['.', '.'];
    let dot = ['.'];
    let mut parts = dirs;
    let ghost start = texts(dirs@);
    let mut i: usize = 0;
    while i < segs.len()
        invariant
            segs@.len() == all.len(),
            forall|k: int| 0 <= k < segs@.len() ==> #[trigger] segs@[k]@ == all[k],
            i <= segs@.len(),
            dots@ == seq!['.', '.'],
            dot@ == seq!['.'],
            texts(parts@) == apply_segments(start, all.take(i as int)),
        decreases segs@.len() - i,
    {
        proof {
            assert(all.take(i + 1).drop_last() =~= all.take(i as int));
        }
        let seg = segs[i].as_slice();
        if chars_eq(seg, dots.as_slice()) {
            if parts.len() > 0 {
                parts.pop();
                proof {
                    assert(texts(parts@) =~= apply_segments(start, all.take(i as int)).drop_last());
                }
            }
        } else if !chars_eq(seg, dot.as_slice()) && seg.len() > 0 {
            let p = slice_chars(seg, 0, seg.len());
            assert(p@ =~= all[i as int]);
            let ghost before = parts@;
            parts.push(p);
            proof {
                assert(texts(parts@) =~= texts(before).push(all[i as int]));
            }
        }
        i = i + 1;
    }
    assert(all.take(segs@.len() as int) =~= all);
    parts
}

/// Makes a link found in a page absolute against the page's address.
pub fn resolve_url(url: String, base_url: &str) -> (r: String)
    ensures
        r@ == spec_resolve_url(url@, base_url@),
{
    let u = chars_of(url.as_str());
    let b = chars_of(base_url);
    let http = chars_of("http://");
    let https = chars_of("https://");
    let dslash = chars_of("//");
    let css = chars_of("://");
    let slash = chars_of("/");
    proof {
        reveal_strlit("://");
        reveal_strlit("//");
        reveal_strlit("/");
    }
    if starts_with_chars(u.as_slice(), http.as_slice()) || starts_with_chars(u.as_slice(), https.as_slice()) {
        return url;
    }
    if starts_with_chars(u.as_slice(), dslash.as_slice()) {
        match find_chars(b.as_slice(), css.as_slice()) {
            Some(p) => {
                proof {
                    lemma_find_from_bounds(b@, css@, 0);
                }
                assert(css@.len() == 3 && p + 3 <= b@.len() && b@.len() == b.len());
                let mut out = slice_chars(b.as_slice(), 0, p + 1);
                append_chars(&mut out, u.as_slice());
                return string_of(out.as_slice());
            },
            None => {},
        }
    }
    if starts_with_chars(u.as_slice(), slash.as_slice()) {
        match find_chars(b.as_slice(), dslash.as_slice()) {
            Some(d) => {
                proof {
                    lemma_find_from_bounds(b@, dslash@, 0);
                }
                assert(dslash@.len() == 2 && d + 2 <= b@.len() && b@.len() == b.len());
                let rest = slice_chars(b.as_slice(), d + 2, b.len());
                match find_chars(rest.as_slice(), slash.as_slice()) {
                    Some(p) => {
                        proof {
                            lemma_find_from_bounds(rest@, slash@, 0);
                        }
                        let mut out = slice_chars(b.as_slice(), 0, d + 2 + p);
                        append_chars(&mut out, u.as_slice());
                        return string_of(out.as_slice());
                    },
                    None => {
                        let mut out = slice_chars(b.as_slice(), 0, b.len());
                        append_chars(&mut out, u.as_slice());
                        return string_of(out.as_slice());
                    },
                }
            },
            None => {},
        }
    }
    match rfind_chars(b.as_slice(), slash.as_slice()) {
        Some(_) => {
            assert(slash@ == seq!['/']);
            match find_chars(b.as_slice(), css.as_slice()) {
                Some(i) => {
                    proof {
                        lemma_find_from_bounds(b@, css@, 0);
                    }
                    assert(css@.len() == 3 && i + 3 <= b@.len() && b@.len() == b.len());
                    let rest = slice_chars(b.as_slice(), i + 3, b.len());
                    let (host, path) = match find_chars(rest.as_slice(), slash.as_slice()) {
                        Some(j) => {
                            proof {
                                lemma_find_from_bounds(rest@, slash@, 0);
                            }
                            (slice_chars(rest.as_slice(), 0, j), slice_chars(rest.as_slice(), j, rest.len()))
                        },
                        None => (slice_chars(rest.as_slice(), 0, rest.len()), Vec::new()),
                    };
                    assert(host@ == host_part(rest@));
                    assert(path@ == path_part(rest@));
                    let dir = dir_of(path.as_slice());
                    let w = walk_joined(dir.as_slice(), u.as_slice());
                    let mut out = slice_chars(b.as_slice(), 0, i + 3);
                    append_chars(&mut out, host.as_slice());
                    out.push('/');
                    append_chars(&mut out, w.as_slice());
                    proof {
                        assert(out@ =~= b@.subrange(0, i + 3) + host_part(rest@) + seq!['/'] + walked(dir_part(path_part(rest@)), u@));
                    }
                    string_of(out.as_slice())
                },
                None => {
                    let dir = dir_of(b.as_slice());
                    let w = walk_joined(dir.as_slice(), u.as_slice());
                    string_of(w.as_slice())
                },
            }
        },
        None => url,
    }
}

/// The directory part of a path.
fn dir_of(path: &[char]) -> (r: Vec<char>)
    ensures
        r@ == dir_part(path@),
{
    let slash = ['/'];
    proof {
        reveal_strlit("/");
    }
    assert(slash@ == "/"@);
    match rfind_chars(path, slash.as_slice()) {
        Some(k) => {
            proof {
                lemma_rfind_bounds(path@, slash@);
            }
            assert(slash@.len() == 1);
            let n = path.len();
            assert(k + 1 <= n);
            slice_chars(path, 0, k + 1)
        },
        None => Vec::new(),
    }
}

/// A relative path walked from the non-empty directories of a directory
/// part, joined by `/`.
fn walk_joined(dir: &[char], url: &[char]) -> (r: Vec<char>)
    ensures
        r@ == walked(dir@, url@),
{
    let dirs = nonempty_pieces(dir);
    let parts = walk_segments(dirs, url);
    let slash = ['/'];
    assert(slash@ == seq!['/']);
    join_pieces(&parts, slash.as_slice())
}

// ---------------------------------------------------------------------------
// Simplifying tags
// ---------------------------------------------------------------------------

/// The state of the attribute filter: the output so far, inside the
/// attribute list, inside a quoted value, the quote, finished.
pub type TagState = (Seq<char>, bool, bool, char, bool);

/// One character of a tag fed to the attribute filter. Attribute names are
/// never recorded (the name buffer only ever holds the trimmed, lower-cased
/// empty name), so no attribute is written back: characters inside the
/// attribute list only move the quote state.
pub open spec fn tag_step(st: TagState, c: char) -> TagState {
    let (out, in_attr, in_quote, q, done) = st;
    if done {
        st
    } else if in_attr {
        if c == '=' && !in_quote {
            st
        } else if (c == '"' || c == '\'') && !in_quote {
            (out, in_attr, true, c, done)
        } else if c == q && in_quote {
            (out, in_attr, false, q, done)
        } else if !in_quote && (c == ' ' || c == '>') {
            (out, c != '>', in_quote, q, done)
        } else {
            st
        }
    } else {
        (out.push(c), c == ' ', in_quote, q, c == '>')
    }
}

pub open spec fn tag_run(s: Seq<char>) -> TagState
    decreases s.len(),
{
    if s.len() == 0 {
        (Seq::empty(), false, false, '"', false)
    } else {
        tag_step(tag_run(s.drop_last()), s.last())
    }
}

/// A tag with its attributes removed, given the tag's lower-case form:
/// `<br`, `<hr` and `<img` tags are kept whole.
pub open spec fn spec_simplify_tag(tag: Seq<char>, lower: Seq<char>) -> Seq<char> {
    if spec_starts_with(lower, "<br"@) || spec_starts_with(lower, "<hr"@) || spec_starts_with(
        lower,
        "<img"@,
    ) {
        tag
    } else {
        tag_run(tag).0
    }
}

/// Removes the attributes of a tag, given the tag's lower-case form.
pub fn simplify_tag(tag: &str, lower: &str) -> (r: String)
    ensures
        r@ == spec_simplify_tag(tag@, lower@),
{
    let l = chars_of(lower);
    let br = chars_of("<br");
    let hr = chars_of("<hr");
    let img = chars_of("<img");
    if starts_with_chars(l.as_slice(), br.as_slice()) || starts_with_chars(l.as_slice(), hr.as_slice())
        || starts_with_chars(l.as_slice(), img.as_slice()) {
        let t = chars_of(tag);
        return string_of(t.as_slice());
    }
    let t = chars_of(tag);
    let mut out: Vec<char> = Vec::new();
    let mut in_attr = false;
    let mut in_quote = false;
    let mut q = '"';
    let mut done = false;
    let mut i: usize = 0;
    while i < t.len()
        invariant
            i <= t@.len(),
            tag_run(t@.take(i as int)) == (out@, in_attr, in_quote, q, done),
        decreases t@.len() - i,
    {
        proof {
            assert(t@.take(i + 1).drop_last() =~= t@.take(i as int));
        }
        let c = t[i];
        if done {
        } else if in_attr {
            if c == '=' && !in_quote {
            } else if (c == '"' || c == '\'') && !in_quote {
                in_quote = true;
                q = c;
            } else if c == q && in_quote {
                in_quote = false;
            } else if !in_quote && (c == ' ' || c == '>') {
                in_attr = c != '>';
            }
        } else {
            out.push(c);
            in_attr = c == ' ';
            done = c == '>';
        }
        i = i + 1;
    }
    assert(t@.take(t@.len() as int) =~= t@);
    string_of(out.as_slice())
}

/// Removes the attributes of a tag (other than `<br>`, `<hr>` and `<img>`).
pub fn process_html_tag(tag: &str) -> (r: String)
    ensures
        r@ == spec_simplify_tag(tag@, spec_lowercase(tag@)),
{
    let lower = to_lowercase(tag);
    simplify_tag(tag, lower.as_str())
}

/// The state of tag simplification over a text: output, inside a tag, the
/// tag read so far.
pub type SimplifyState = (Seq<char>, bool, Seq<char>);

pub open spec fn simplify_step(st: SimplifyState, c: char) -> SimplifyState {
    let (out, in_tag, buf) = st;
    if in_tag {
        if c == '>' {
            (out + spec_simplify_tag(buf.push(c), spec_lowercase(buf.push(c))), false, Seq::empty())
        } else {
            (out, true, buf.push(c))
        }
    } else if c == '<' {
        (out, true, buf.push(c))
    } else {
        (out.push(c), false, buf)
    }
}

pub open spec fn simplify_run(s: Seq<char>) -> SimplifyState
    decreases s.len(),
{
    if s.len() == 0 {
        (Seq::empty(), false, Seq::empty())
    } else {
        simplify_step(simplify_run(s.drop_last()), s.last())
    }
}

/// The text with every complete tag simplified; an unfinished tag at the
/// end is dropped.
pub open spec fn spec_simplify_tags(s: Seq<char>) -> Seq<char> {
    simplify_run(s).0
}

/// Simplifies every tag of a text.
pub fn simplify_tags(text: &[char]) -> (r: Vec<char>)
    ensures
        r@ == spec_simplify_tags(text@),
{
    let mut out: Vec<char> = Vec::new();
    let mut in_tag = false;
    let mut buf: Vec<char> = Vec::new();
    let mut i: usize = 0;
    while i < text.len()
        invariant
            i <= text@.len(),
            simplify_run(text@.take(i as int)) == (out@, in_tag, buf@),
        decreases text@.len() - i,
    {
        proof {
            assert(text@.take(i + 1).drop_last() =~= text@.take(i as int));
        }
        let c = text[i];
        if in_tag {
            buf.push(c);
            if c == '>' {
                let tag = string_of(buf.as_slice());
                let done = process_html_tag(tag.as_str());
                append_str(&mut out, done.as_str());
                buf = Vec::new();
                in_tag = false;
            }
        } else if c == '<' {
            in_tag = true;
            buf.push(c);
        } else {
            out.push(c);
        }
        i = i + 1;
    }
    assert(text@.take(text@.len() as int) =~= text@);
    out
}

// ---------------------------------------------------------------------------
// Main content
// ---------------------------------------------------------------------------

/// The opening tags that mark a page's main content, in the order they are
/// tried, each with the element name that closes it.
pub open spec fn main_tag_candidates() -> Seq<(Seq<char>, Seq<char>)> {
    seq![
        ("<main"@, "main"@),
        ("<article"@, "article"@),
        ("<div class=\"main\""@, "div"@),
        ("<div id=\"main\""@, "div"@),
        ("<div class=\"content\""@, "div"@),
        ("<div id=\"content\""@, "div"@),
        ("<div class=\"article\""@, "div"@),
        ("<div class=\"post\""@, "div"@),
        ("<div class=\"blog\""@, "div"@),
    ]
}

/// The end of the element whose content starts at `cursor`, `depth`
/// elements deep: every `<name` opens one more, every `</name>` closes one.
pub open spec fn element_end(html: Seq<char>, cursor: int, depth: int, name: Seq<char>) -> Option<int>
    decreases html.len() - cursor,
{
    if cursor < 0 || cursor >= html.len() {
        None
    } else {
        match spec_find(html.subrange(cursor, html.len() as int), seq!['<']) {
            None => None,
            Some(lt) => {
                let ts = cursor + lt;
                let rem = html.subrange(ts, html.len() as int);
                let end_tag = seq!['<', '/'] + name + seq!['>'];
                if lt < 0 || ts >= html.len() {
                    None
                } else if spec_starts_with(rem, seq!['<'] + name) {
                    element_end(html, ts + 1, depth + 1, name)
                } else if spec_starts_with(rem, end_tag) {
                    if depth - 1 == 0 {
                        Some(ts + end_tag.len())
                    } else {
                        element_end(html, ts + 1, depth - 1, name)
                    }
                } else {
                    element_end(html, ts + 1, depth, name)
                }
            },
        }
    }
}

/// The main element found with one candidate opening tag, if complete.
pub open spec fn main_element(html: Seq<char>, open: Seq<char>, name: Seq<char>) -> Option<Seq<char>> {
    match spec_find(html, open) {
        None => None,
        Some(start) => match spec_find(html.subrange(start, html.len() as int), seq!['>']) {
            None => None,
            Some(gt) => match element_end(html, start + gt + 1, 1, name) {
                None => None,
                Some(end) => Some(html.subrange(start, end)),
            },
        },
    }
}

/// The first main element found, trying the candidates from `k` on.
pub open spec fn main_from(html: Seq<char>, cands: Seq<(Seq<char>, Seq<char>)>, k: int) -> Option<Seq<char>>
    decreases cands.len() - k,
{
    if k < 0 || k >= cands.len() {
        None
    } else {
        match main_element(html, cands[k].0, cands[k].1) {
            Some(m) => Some(m),
            None => main_from(html, cands, k + 1),
        }
    }
}

/// The page's main element (`<main>`, `<article>` or a content `<div>`),
/// or the whole page when none is complete.
pub open spec fn spec_extract_main_content(html: Seq<char>) -> Seq<char> {
    match main_from(html, main_tag_candidates(), 0) {
        Some(m) => m,
        None => html,
    }
}

proof fn lemma_element_end_bounds(html: Seq<char>, cursor: int, depth: int, name: Seq<char>)
    ensures
        element_end(html, cursor, depth, name) matches Some(e) ==> cursor < e <= html.len(),
    decreases html.len() - cursor,
{
    if 0 <= cursor < html.len() {
        let tail = html.subrange(cursor, html.len() as int);
        lemma_find_from_bounds(tail, seq!['<'], 0);
        match spec_find(tail, seq!['<']) {
            None => {},
            Some(lt) => {
                let ts = cursor + lt;
                let end_tag = seq!['<', '/'] + name + seq!['>'];
                if lt >= 0 {
                    lemma_element_end_bounds(html, ts + 1, depth + 1, name);
                    lemma_element_end_bounds(html, ts + 1, depth - 1, name);
                    lemma_element_end_bounds(html, ts + 1, depth, name);
                }
            },
        }
    }
}

/// Where the element opened before `cursor` ends.
fn element_end_exec(html: &[char], cursor: usize, name: &[char]) -> (r: Option<usize>)
    requires
        1 <= cursor <= html@.len(),
    ensures
        match element_end(html@, cursor as int, 1, name@) {
            Some(e) => r == Some(e as usize),
            None => r is None,
        },
{
    let mut end_tag: Vec<char> = Vec::new();
    end_tag.push('<');
    end_tag.push('/');
    append_chars(&mut end_tag, name);
    end_tag.push('>');
    let mut open: Vec<char> = Vec::new();
    open.push('<');
    append_chars(&mut open, name);
    assert(end_tag@ =~= seq!['<', '/'] + name@ + seq!['>']);
    assert(open@ =~= seq!['<'] + name@);
    let n = html.len();
    let mut cur = cursor;
    let mut depth: usize = 1;
    while cur < n
        invariant
            n == html@.len(),
            1 <= cursor <= cur <= n,
            1 <= depth <= cur - cursor + 1,
            end_tag@ == seq!['<', '/'] + name@ + seq!['>'],
            open@ == seq!['<'] + name@,
            element_end(html@, cursor as int, 1, name@) == element_end(html@, cur as int, depth as int, name@),
        decreases n - cur,
    {
        let tail = slice_chars(html, cur, n);
        match find_char(tail.as_slice(), '<') {
            None => {
                return None;
            },
            Some(lt) => {
                proof {
                    lemma_find_from_bounds(tail@, seq!['<'], 0);
                }
                let ts = cur + lt;
                let rem = slice_chars(html, ts, n);
                if starts_with_chars(rem.as_slice(), open.as_slice()) {
                    depth = depth + 1;
                } else if starts_with_chars(rem.as_slice(), end_tag.as_slice()) {
                    if depth == 1 {
                        proof {
                            lemma_element_end_bounds(html@, cur as int, depth as int, name@);
                        }
                        return Some(ts + end_tag.len());
                    }
                    depth = depth - 1;
                }
                cur = ts + 1;
            },
        }
    }
    None
}

/// The main element found with one candidate opening tag.
fn main_element_exec(html: &[char], open: &[char], name: &[char]) -> (r: Option<Vec<char>>)
    ensures
        match main_element(html@, open@, name@) {
            Some(m) => r matches Some(v) && v@ == m,
            None => r is None,
        },
{
    match find_chars(html, open) {
        None => None,
        Some(start) => {
            proof {
                lemma_find_from_bounds(html@, open@, 0);
            }
            let tail = slice_chars(html, start, html.len());
            match find_char(tail.as_slice(), '>') {
                None => None,
                Some(gt) => {
                    proof {
                        lemma_find_from_bounds(tail@, seq!['>'], 0);
                    }
                    match element_end_exec(html, start + gt + 1, name) {
                        None => None,
                        Some(end) => {
                            proof {
                                lemma_element_end_bounds(html@, start + gt + 1, 1, name@);
                            }
                            Some(slice_chars(html, start, end))
                        },
                    }
                },
            }
        },
    }
}

/// Finds the page's main content and returns it, or the whole page.
pub fn extract_main_content(html: &str) -> (r: String)
    ensures
        r@ == spec_extract_main_content(html@),
{
    let h = chars_of(html);
    let mut cands: Vec<(Vec<char>, Vec<char>)> = Vec::new();
    cands.push((chars_of("<main"), chars_of("main")));
    cands.push((chars_of("<article"), chars_of("article")));
    cands.push((chars_of("<div class=\"main\""), chars_of("div")));
    cands.push((chars_of("<div id=\"main\""), chars_of("div")));
    cands.push((chars_of("<div class=\"content\""), chars_of("div")));
    cands.push((chars_of("<div id=\"content\""), chars_of("div")));
    cands.push((chars_of("<div class=\"article\""), chars_of("div")));
    cands.push((chars_of("<div class=\"post\""), chars_of("div")));
    cands.push((chars_of("<div class=\"blog\""), chars_of("div")));
    let ghost spec_cands = main_tag_candidates();
    assert(cands@.len() == spec_cands.len());
    assert(forall|k: int| 0 <= k < cands@.len() ==> #[trigger] cands@[k].0@ == spec_cands[k].0 && cands@[k].1@ == spec_cands[k].1);
    let mut k: usize = 0;
    while k < cands.len()
        invariant
            k <= cands@.len(),
            cands@.len() == spec_cands.len(),
            spec_cands == main_tag_candidates(),
            h@ == html@,
            forall|j: int| 0 <= j < cands@.len() ==> #[trigger] cands@[j].0@ == spec_cands[j].0 && cands@[j].1@ == spec_cands[j].1,
            main_from(html@, spec_cands, 0) == main_from(html@, spec_cands, k as int),
        decreases cands@.len() - k,
    {
        let found = main_element_exec(h.as_slice(), cands[k].0.as_slice(), cands[k].1.as_slice());
        match found {
            Some(m) => {
                return string_of(m.as_slice());
            },
            None => {},
        }
        k = k + 1;
    }
    string_of(h.as_slice())
}

} // verus!
