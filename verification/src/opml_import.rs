//! Importing an OPML subscription list: the document is parsed by the
//! `opml` crate; its outlines are walked (the last top-level outline first,
//! each outline before the ones inside it, in their order), every group
//! outline gives a group and every `rss` outline without children gives a
//! subscription in the group around it. A subscription whose address is
//! already subscribed, or was given earlier in the walk, is left out. The
//! application stores the groups and subscriptions in the order given.
use vstd::prelude::*;
use crate::text::{chars_of, spec_trim, str_eq, string_of, trim_str};
use crate::models::Feed;

verus! {

/// The `opml` crate's outline element.
#[verifier::external_type_specification]
#[verifier::external_body]
pub struct ExOutline(opml::Outline);

/// An outline of an OPML document: what the import reads of it.
#[derive(Debug)]
pub struct OpmlOutline {
    pub text: String,
    /// The `type` attribute.
    pub kind: Option<String>,
    pub title: Option<String>,
    pub xml_url: Option<String>,
    pub html_url: Option<String>,
    pub outlines: Vec<OpmlOutline>,
}

/// An outline, its texts taken as characters.
pub struct OutlineView {
    pub text: Seq<char>,
    pub kind: Option<Seq<char>>,
    pub title: Option<Seq<char>>,
    pub xml_url: Option<Seq<char>>,
    pub html_url: Option<Seq<char>>,
    pub outlines: Seq<OutlineView>,
}

pub open spec fn opt_text(o: Option<String>) -> Option<Seq<char>> {
    match o {
        Some(s) => Some(s@),
        None => None,
    }
}

pub open spec fn empty_outline() -> OutlineView {
    OutlineView { text: Seq::empty(), kind: None, title: None, xml_url: None, html_url: None, outlines: Seq::empty() }
}

/// The view of an outline and of those inside it.
pub open spec fn outline_view(o: OpmlOutline) -> OutlineView
    decreases o,
{
    OutlineView {
        text: o.text@,
        kind: opt_text(o.kind),
        title: opt_text(o.title),
        xml_url: opt_text(o.xml_url),
        html_url: opt_text(o.html_url),
        outlines: Seq::new(
            o.outlines@.len(),
            |i: int| if 0 <= i < o.outlines@.len() { outline_view(o.outlines@[i]) } else { empty_outline() },
        ),
    }
}

/// The views of a list of outlines.
pub open spec fn outline_views(v: Seq<OpmlOutline>) -> Seq<OutlineView> {
    Seq::new(v.len(), |i: int| outline_view(v[i]))
}

/// The top-level outlines of the body of an OPML document, as the `opml`
/// crate reads it; `None` when it refuses the document.
pub uninterp spec fn opml_body(content: Seq<char>) -> Option<Seq<OutlineView>>;

/// An outline of the `opml` crate as the import reads it (a copy, one for
/// one, of its text, type, title, feed and page addresses, and children;
/// the `type` field is read through its serialized form, under its name in
/// the document).
#[verifier::external_body]
fn outline_of(o: &opml::Outline) -> (r: OpmlOutline) {
    OpmlOutline {
        text: o.text.clone(),
        kind: serde_json::to_value(o).ok().and_then(|v| v.get("type").and_then(|t| t.as_str().map(String::from))),
        title: o.title.clone(),
        xml_url: o.xml_url.clone(),
        html_url: o.html_url.clone(),
        outlines: o.outlines.iter().map(outline_of).collect(),
    }
}

/// `opml::OPML::from_str`: the top-level outlines of the document's body,
/// or the text of the crate's error. The crate refuses malformed XML, a
/// version other than 1.0, 1.1 and 2.0, and a body without outlines; the
/// outlines it gives are `opml_body` of the text. The error text is not
/// stated.
#[verifier::external_body]
fn parse_opml(content: &str) -> (r: Result<Vec<OpmlOutline>, String>)
    ensures
        match r {
            Ok(v) => opml_body(content@) == Some(outline_views(v@)) && v@.len() > 0,
            Err(_) => opml_body(content@) is None,
        },
{
    match opml::OPML::from_str(content) {
        Ok(doc) => Ok(doc.body.outlines.iter().map(outline_of).collect()),
        Err(e) => Err(e.to_string()),
    }
}

/// What the walk finds in an outline.
pub enum OpmlEntry {
    /// A group outline's name.
    Group(String),
    /// A subscription: its title, address, group and page address.
    Feed(String, String, String, String),
}

/// An entry, its texts taken as characters.
pub enum OpmlEntryView {
    Group(Seq<char>),
    Feed(Seq<char>, Seq<char>, Seq<char>, Seq<char>),
}

impl View for OpmlEntry {
    type V = OpmlEntryView;

    open spec fn view(&self) -> OpmlEntryView {
        match self {
            OpmlEntry::Group(g) => OpmlEntryView::Group(g@),
            OpmlEntry::Feed(t, u, g, l) => OpmlEntryView::Feed(t@, u@, g@, l@),
        }
    }
}

pub open spec fn entry_views(v: Seq<OpmlEntry>) -> Seq<OpmlEntryView> {
    Seq::new(v.len(), |i: int| v[i]@)
}

/// A subscription outline: an `rss` outline without children.
pub open spec fn is_feed_outline(o: OutlineView) -> bool {
    o.outlines.len() == 0 && o.kind == Some("rss"@)
}

/// The title of a subscription outline: its title, else its text, else
/// `未知标题`.
pub open spec fn feed_title(o: OutlineView) -> Seq<char> {
    match o.title {
        Some(t) => t,
        None => if o.text.len() > 0 { o.text } else { "未知标题"@ },
    }
}

/// The name of a group outline: its title, else its text, else `未分组`.
pub open spec fn group_name(o: OutlineView) -> Seq<char> {
    match o.title {
        Some(t) => t,
        None => if o.text.len() > 0 { o.text } else { "未分组"@ },
    }
}

/// What one outline gives by itself in group `g`: a subscription outline
/// with an address gives the subscription (title, address and group
/// trimmed); a group outline gives its name unless that is empty.
pub open spec fn own_entries(o: OutlineView, g: Seq<char>) -> Seq<OpmlEntryView> {
    if is_feed_outline(o) {
        match o.xml_url {
            Some(u) => seq![OpmlEntryView::Feed(
                spec_trim(feed_title(o)),
                spec_trim(u),
                spec_trim(g),
                match o.html_url { Some(l) => l, None => Seq::empty() },
            )],
            None => Seq::empty(),
        }
    } else if group_name(o).len() > 0 {
        seq![OpmlEntryView::Group(group_name(o))]
    } else {
        Seq::empty()
    }
}

/// What a list of outlines in group `g` gives: each outline's own entries,
/// then (for a group outline) those of the outlines inside it, in their
/// group; then the next outline's.
pub open spec fn walk(os: Seq<OutlineView>, g: Seq<char>) -> Seq<OpmlEntryView>
    decreases os,
{
    if os.len() == 0 {
        Seq::empty()
    } else {
        let o = os[0];
        own_entries(o, g) + (if is_feed_outline(o) {
            Seq::empty()
        } else {
            walk(o.outlines, group_name(o))
        }) + walk(os.drop_first(), g)
    }
}

/// What the top-level outlines give: the last one first, outside any group.
pub open spec fn walk_document(roots: Seq<OutlineView>) -> Seq<OpmlEntryView> {
    walk(roots.reverse(), Seq::empty())
}

fn feed_title_of(o: &OpmlOutline) -> (r: String)
    ensures
        r@ == feed_title(outline_view(*o)),
{
    match &o.title {
        Some(t) => t.clone(),
        None => if o.text.as_str().is_empty() { "未知标题".to_string() } else { o.text.clone() },
    }
}

fn group_name_of(o: &OpmlOutline) -> (r: String)
    ensures
        r@ == group_name(outline_view(*o)),
{
    match &o.title {
        Some(t) => t.clone(),
        None => if o.text.as_str().is_empty() { "未分组".to_string() } else { o.text.clone() },
    }
}

fn is_feed_outline_exec(o: &OpmlOutline) -> (r: bool)
    ensures
        r == is_feed_outline(outline_view(*o)),
{
    let rss = match &o.kind {
        Some(k) => str_eq(k.as_str(), "rss"),
        None => false,
    };
    proof {
        if o.kind is Some {
            assert(opt_text(o.kind) == Some(o.kind->0@));
        }
    }
    o.outlines.len() == 0 && rss
}

/// Adds the entries of a list of outlines in group `g`.
fn walk_exec(os: &Vec<OpmlOutline>, g: &str, out: &mut Vec<OpmlEntry>)
    ensures
        entry_views(final(out)@) == entry_views(old(out)@) + walk(outline_views(os@), g@),
    decreases os@, 0int,
{
    let ghost start = entry_views(out@);
    let ghost all = outline_views(os@);
    let mut k: usize = 0;
    assert(all.skip(0) =~= all);
    while k < os.len()
        invariant
            k <= os@.len(),
            all == outline_views(os@),
            start + walk(all, g@) == entry_views(out@) + walk(all.skip(k as int), g@),
        decreases os@.len() - k,
    {
        let o = &os[k];
        let ghost ov = outline_view(*o);
        proof {
            assert(all.skip(k as int)[0] == ov);
            assert(all.skip(k as int).drop_first() =~= all.skip(k + 1));
        }
        let ghost before = entry_views(out@);
        let feed = is_feed_outline_exec(o);
        if feed {
            match &o.xml_url {
                Some(u) => {
                    let title = trim_str(feed_title_of(o).as_str());
                    let url = trim_str(u.as_str());
                    let group = trim_str(g);
                    let link = match &o.html_url {
                        Some(l) => l.clone(),
                        None => String::new(),
                    };
                    out.push(OpmlEntry::Feed(title, url, group, link));
                },
                None => {},
            }
            proof {
                assert(entry_views(out@) =~= before + own_entries(ov, g@));
            }
        } else {
            let name = group_name_of(o);
            if !name.as_str().is_empty() {
                out.push(OpmlEntry::Group(name.clone()));
            }
            proof {
                assert(entry_views(out@) =~= before + own_entries(ov, g@));
                assert(outline_views(o.outlines@) =~= ov.outlines);
            }
            walk_children(o, name.as_str(), out);
        }
        proof {
            assert(entry_views(out@) =~= before + own_entries(ov, g@) + (if is_feed_outline(ov) {
                Seq::empty()
            } else {
                walk(ov.outlines, group_name(ov))
            }));
        }
        k = k + 1;
    }
    proof {
        assert(all.skip(os@.len() as int) =~= Seq::<OutlineView>::empty());
    }
}

/// Adds the entries of the outlines inside `o`, in group `name`.
fn walk_children(o: &OpmlOutline, name: &str, out: &mut Vec<OpmlEntry>)
    ensures
        entry_views(final(out)@) == entry_views(old(out)@) + walk(outline_view(*o).outlines, name@),
    decreases o.outlines@, 1int,
{
    proof {
        assert(outline_views(o.outlines@) =~= outline_view(*o).outlines);
    }
    walk_exec(&o.outlines, name, out);
}


/// Adds the entries of one outline (and of those inside it) in no group.
fn walk_one(o: &OpmlOutline, out: &mut Vec<OpmlEntry>)
    ensures
        entry_views(final(out)@) == entry_views(old(out)@) + walk(seq![outline_view(*o)], Seq::empty()),
{
    let ghost before = entry_views(out@);
    let ghost ov = outline_view(*o);
    let feed = is_feed_outline_exec(o);
    if feed {
        match &o.xml_url {
            Some(u) => {
                let title = trim_str(feed_title_of(o).as_str());
                let url = trim_str(u.as_str());
                let none = String::new();
                let group = trim_str(none.as_str());
                let link = match &o.html_url {
                    Some(l) => l.clone(),
                    None => String::new(),
                };
                out.push(OpmlEntry::Feed(title, url, group, link));
            },
            None => {},
        }
        proof {
            assert(entry_views(out@) =~= before + own_entries(ov, Seq::empty()));
        }
    } else {
        let name = group_name_of(o);
        if !name.as_str().is_empty() {
            out.push(OpmlEntry::Group(name.clone()));
        }
        proof {
            assert(entry_views(out@) =~= before + own_entries(ov, Seq::empty()));
        }
        walk_children(o, name.as_str(), out);
    }
    proof {
        reveal_with_fuel(walk, 2);
        assert(seq![ov].drop_first() =~= Seq::<OutlineView>::empty());
        assert(entry_views(out@) =~= before + walk(seq![ov], Seq::empty()));
    }
}

/// The entries of a document's top-level outlines, the last one first.
pub fn document_entries(roots: &Vec<OpmlOutline>) -> (r: Vec<OpmlEntry>)
    ensures
        entry_views(r@) == walk_document(outline_views(roots@)),
{
    let mut reversed: Vec<OpmlOutline> = Vec::new();
    let ghost views = outline_views(roots@);
    let mut out: Vec<OpmlEntry> = Vec::new();
    let mut k: usize = roots.len();
    let ghost done: Seq<OpmlEntryView> = Seq::empty();
    proof {
        assert(entry_views(out@) =~= Seq::<OpmlEntryView>::empty());
        assert(views.reverse().skip(0) =~= views.reverse());
    }
    while k > 0
        invariant
            k <= roots@.len(),
            views == outline_views(roots@),
            walk(views.reverse(), Seq::empty())
                == entry_views(out@) + walk(views.reverse().skip(roots@.len() - k), Seq::empty()),
        decreases k,
    {
        let ghost before = entry_views(out@);
        let o = &roots[k - 1];
        let ghost rest = views.reverse().skip(roots@.len() - k);
        proof {
            assert(views[k - 1] == outline_view(roots@[k - 1]));
            assert(views.reverse()[roots@.len() - k] == views[k - 1]);
            assert(rest[0] == outline_view(*o));
            assert(rest.drop_first() =~= views.reverse().skip(roots@.len() - (k - 1)));
        }
        walk_one(o, &mut out);
        proof {
            assert(entry_views(out@) == before + walk(seq![outline_view(*o)], Seq::empty()));
            assert(walk(seq![outline_view(*o)], Seq::empty()) =~= own_entries(outline_view(*o), Seq::empty()) + (if is_feed_outline(outline_view(*o)) {
                Seq::empty()
            } else {
                walk(outline_view(*o).outlines, group_name(outline_view(*o)))
            })) by {
                reveal_with_fuel(walk, 2);
                assert(seq![outline_view(*o)].drop_first() =~= Seq::<OutlineView>::empty());
            }
        }
        k = k - 1;
    }
    proof {
        assert(views.reverse().skip(roots@.len() as int) =~= Seq::<OutlineView>::empty());
    }
    out
}


/// The entries that are imported: every group, and each subscription whose
/// address is not in `seen` (the addresses subscribed to, then those of the
/// subscriptions imported before it).
pub open spec fn fresh_entries(es: Seq<OpmlEntryView>, seen: Seq<Seq<char>>) -> Seq<OpmlEntryView>
    decreases es.len(),
{
    if es.len() == 0 {
        Seq::empty()
    } else {
        match es[0] {
            OpmlEntryView::Group(g) => seq![es[0]] + fresh_entries(es.drop_first(), seen),
            OpmlEntryView::Feed(t, u, g, l) => if seen.contains(u) {
                fresh_entries(es.drop_first(), seen)
            } else {
                seq![es[0]] + fresh_entries(es.drop_first(), seen.push(u))
            },
        }
    }
}

pub open spec fn texts_of(v: Seq<String>) -> Seq<Seq<char>> {
    Seq::new(v.len(), |i: int| v[i]@)
}

pub(crate) fn contains_text(v: &Vec<String>, t: &str) -> (r: bool)
    ensures
        r == texts_of(v@).contains(t@),
{
    let mut k: usize = 0;
    while k < v.len()
        invariant
            k <= v@.len(),
            forall|j: int| 0 <= j < k ==> texts_of(v@)[j] != t@,
        decreases v@.len() - k,
    {
        if str_eq(v[k].as_str(), t) {
            assert(texts_of(v@)[k as int] == t@);
            return true;
        }
        k = k + 1;
    }
    false
}

fn clone_entry(e: &OpmlEntry) -> (r: OpmlEntry)
    ensures
        r@ == e@,
{
    match e {
        OpmlEntry::Group(g) => OpmlEntry::Group(g.clone()),
        OpmlEntry::Feed(t, u, g, l) => OpmlEntry::Feed(t.clone(), u.clone(), g.clone(), l.clone()),
    }
}

/// The entries of `es` that are imported when `existing` are the addresses
/// already subscribed to.
pub fn import_entries(es: &Vec<OpmlEntry>, existing: &Vec<String>) -> (r: Vec<OpmlEntry>)
    ensures
        entry_views(r@) == fresh_entries(entry_views(es@), texts_of(existing@)),
{
    let ghost all = entry_views(es@);
    let mut seen: Vec<String> = Vec::new();
    let mut k: usize = 0;
    while k < existing.len()
        invariant
            k <= existing@.len(),
            seen@ == existing@.take(k as int),
        decreases existing@.len() - k,
    {
        seen.push(existing[k].clone());
        assert(seen@ =~= existing@.take(k + 1));
        k = k + 1;
    }
    assert(existing@.take(existing@.len() as int) =~= existing@);
    assert(texts_of(seen@) == texts_of(existing@));
    let mut out: Vec<OpmlEntry> = Vec::new();
    let mut i: usize = 0;
    proof {
        assert(all.skip(0) =~= all);
        assert(entry_views(out@) =~= Seq::<OpmlEntryView>::empty());
    }
    while i < es.len()
        invariant
            i <= es@.len(),
            all == entry_views(es@),
            fresh_entries(all, texts_of(existing@))
                == entry_views(out@) + fresh_entries(all.skip(i as int), texts_of(seen@)),
        decreases es@.len() - i,
    {
        let ghost before = entry_views(out@);
        let ghost rest = all.skip(i as int);
        proof {
            assert(rest[0] == es@[i as int]@);
            assert(rest.drop_first() =~= all.skip(i + 1));
        }
        match &es[i] {
            OpmlEntry::Group(_) => {
                out.push(clone_entry(&es[i]));
                proof {
                    assert(entry_views(out@) =~= before + seq![rest[0]]);
                }
            },
            OpmlEntry::Feed(_, u, _, _) => {
                if !contains_text(&seen, u.as_str()) {
                    out.push(clone_entry(&es[i]));
                    let ghost old_seen = texts_of(seen@);
                    seen.push(u.clone());
                    proof {
                        assert(entry_views(out@) =~= before + seq![rest[0]]);
                        assert(texts_of(seen@) =~= old_seen.push(u@));
                    }
                }
            },
        }
        i = i + 1;
    }
    proof {
        assert(all.skip(es@.len() as int) =~= Seq::<OpmlEntryView>::empty());
        assert(entry_views(out@) + Seq::<OpmlEntryView>::empty() =~= entry_views(out@));
    }
    out
}

/// What importing an OPML document does when `existing` are the addresses
/// already subscribed to: `None` when the `opml` crate refuses it, else the
/// groups and new subscriptions of its outlines, in order.
pub open spec fn spec_opml_import(content: Seq<char>, existing: Seq<Seq<char>>) -> Option<Seq<OpmlEntryView>> {
    match opml_body(content) {
        Some(roots) => Some(fresh_entries(walk_document(roots), existing)),
        None => None,
    }
}

/// The groups and subscriptions to store from an OPML document, or the
/// `opml` crate's error.
pub fn opml_import_plan(content: &str, existing: &Vec<String>) -> (r: Result<Vec<OpmlEntry>, String>)
    ensures
        match r {
            Ok(v) => spec_opml_import(content@, texts_of(existing@)) == Some(entry_views(v@)),
            Err(_) => spec_opml_import(content@, texts_of(existing@)) is None,
        },
{
    match parse_opml(content) {
        Ok(roots) => {
            let es = document_entries(&roots);
            Ok(import_entries(&es, existing))
        },
        Err(e) => Err(e),
    }
}

/// The subscription stored for an imported entry: updated automatically,
/// with notifications, not translated, with no description or language.
pub open spec fn imported_feed_ok(f: Feed, title: Seq<char>, url: Seq<char>, group: Seq<char>, link: Seq<char>) -> bool {
    &&& f.id == 0
    &&& f.title@ == title
    &&& f.url@ == url
    &&& f.group@ == group
    &&& f.group_id is None
    &&& f.last_updated is None
    &&& f.description@ == Seq::<char>::empty()
    &&& f.language@ == Seq::<char>::empty()
    &&& f.link@ == link
    &&& f.favicon is None
    &&& f.auto_update
    &&& f.enable_notification
    &&& !f.ai_auto_translate
}

/// The subscription stored for an imported entry.
pub fn imported_feed(title: String, url: String, group: String, link: String) -> (f: Feed)
    ensures
        imported_feed_ok(f, title@, url@, group@, link@),
{
    Feed {
        id: 0,
        title,
        url,
        group,
        group_id: None,
        last_updated: None,
        description: String::new(),
        language: String::new(),
        link,
        favicon: None,
        auto_update: true,
        enable_notification: true,
        ai_auto_translate: false,
    }
}

} // verus!
