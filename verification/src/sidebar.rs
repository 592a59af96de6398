//! The subscription list of the reader window: the subscriptions grouped by
//! group name, the groups in ascending order of their names (the unnamed
//! group first), each group's subscriptions in ascending order of title.
use vstd::prelude::*;
use crate::text::{chars_eq, chars_of, string_of};
use crate::content::texts;
use crate::models::{keep, Feed};
use crate::export::{groups_of, groups_sorted};
use crate::feeds::groups_seen;
use crate::order::{is_stable_order, stable_order, TextKey};

verus! {

/// `r` is `a` sorted stably by title, in ascending order.
pub open spec fn feeds_by_title(a: Seq<Feed>, r: Seq<Feed>) -> bool {
    exists|keys: Seq<TextKey>, p: Seq<usize>|
        #![trigger is_stable_order(keys, p, false)]
        keys.len() == a.len() && (forall|i: int| 0 <= i < a.len() ==> keys[i].chars@ == a[i].title@)
            && is_stable_order(keys, p, false) && r.len() == p.len()
            && (forall|i: int| 0 <= i < r.len() ==> r[i] == a[p[i] as int])
}

/// The subscriptions sorted stably by title.
pub fn sort_feeds_by_title(a: &[Feed]) -> (r: Vec<Feed>)
    ensures
        feeds_by_title(a@, r@),
{
    let mut keys: Vec<TextKey> = Vec::new();
    let mut i: usize = 0;
    while i < a.len()
        invariant
            i <= a@.len(),
            keys@.len() == i,
            forall|k: int| 0 <= k < i ==> keys@[k].chars@ == a@[k].title@,
        decreases a@.len() - i,
    {
        keys.push(TextKey { chars: chars_of(a[i].title.as_str()) });
        i = i + 1;
    }
    let p = stable_order(keys.as_slice(), false);
    let mut r: Vec<Feed> = Vec::new();
    let mut j: usize = 0;
    while j < p.len()
        invariant
            j <= p@.len(),
            is_stable_order(keys@, p@, false),
            keys@.len() == a@.len(),
            r@.len() == j,
            forall|k: int| 0 <= k < j ==> r@[k] == a@[p@[k] as int],
        decreases p@.len() - j,
    {
        r.push(a[p[j]].clone());
        j = j + 1;
    }
    r
}

/// The subscriptions of a group, in order.
pub open spec fn in_group(feeds: Seq<Feed>, g: Seq<char>) -> Seq<Feed> {
    keep(feeds, |f: Feed| f.group@ == g)
}

fn members(feeds: &[Feed], g: &[char]) -> (r: Vec<Feed>)
    ensures
        r@ == in_group(feeds@, g@),
{
    let mut out: Vec<Feed> = Vec::new();
    let mut k: usize = 0;
    while k < feeds.len()
        invariant
            k <= feeds@.len(),
            out@ == in_group(feeds@.take(k as int), g@),
        decreases feeds@.len() - k,
    {
        proof {
            assert(feeds@.take(k + 1).drop_last() =~= feeds@.take(k as int));
        }
        let name = chars_of(feeds[k].group.as_str());
        if chars_eq(name.as_slice(), g) {
            out.push(feeds[k].clone());
        }
        k = k + 1;
    }
    assert(feeds@.take(feeds@.len() as int) =~= feeds@);
    out
}

/// The subscription list: for groups `gs` (the groups of the feeds in
/// ascending order of name), each group's name and its subscriptions by
/// title.
pub open spec fn sidebar_ok(feeds: Seq<Feed>, r: Seq<(String, Vec<Feed>)>) -> bool {
    exists|gs: Seq<Seq<char>>|
        #![trigger groups_sorted(feeds, gs)]
        groups_sorted(feeds, gs) && r.len() == gs.len() && (forall|i: int|
            0 <= i < r.len() ==> (#[trigger] r[i]).0@ == gs[i] && feeds_by_title(in_group(feeds, gs[i]), r[i].1@))
}

/// The subscription list of the window.
pub fn sidebar_groups(feeds: &[Feed]) -> (r: Vec<(String, Vec<Feed>)>)
    ensures
        sidebar_ok(feeds@, r@),
{
    let gs = groups_of(feeds);
    let mut keys: Vec<TextKey> = Vec::new();
    let mut i: usize = 0;
    while i < gs.len()
        invariant
            i <= gs@.len(),
            keys@.len() == i,
            forall|j: int| 0 <= j < i ==> keys@[j].chars@ == gs@[j]@,
        decreases gs@.len() - i,
    {
        let c = crate::text::slice_chars(gs[i].as_slice(), 0, gs[i].len());
        assert(c@ =~= gs@[i as int]@);
        keys.push(TextKey { chars: c });
        i = i + 1;
    }
    let p = stable_order(keys.as_slice(), false);
    let ghost sorted: Seq<Seq<char>> = Seq::new(p@.len(), |i: int| groups_seen(feeds@)[p@[i] as int]);
    let mut out: Vec<(String, Vec<Feed>)> = Vec::new();
    let mut k: usize = 0;
    while k < p.len()
        invariant
            k <= p@.len(),
            p@.len() == gs@.len(),
            keys@.len() == gs@.len(),
            texts(gs@) == groups_seen(feeds@),
            forall|j: int| 0 <= j < keys@.len() ==> keys@[j].chars@ == gs@[j]@,
            is_stable_order(keys@, p@, false),
            sorted == Seq::new(p@.len(), |i: int| groups_seen(feeds@)[p@[i] as int]),
            out@.len() == k,
            forall|j: int| 0 <= j < k ==> (#[trigger] out@[j]).0@ == sorted[j] && feeds_by_title(in_group(feeds@, sorted[j]), out@[j].1@),
        decreases p@.len() - k,
    {
        let idx = p[k];
        proof {
            assert(texts(gs@)[idx as int] == gs@[idx as int]@);
        }
        let g = &gs[idx];
        let m = members(feeds, g.as_slice());
        let sorted_members = sort_feeds_by_title(m.as_slice());
        out.push((string_of(g.as_slice()), sorted_members));
        k = k + 1;
    }
    proof {
        assert(groups_sorted(feeds@, sorted)) by {
            assert(keys@.len() == groups_seen(feeds@).len());
            assert(forall|i: int| 0 <= i < keys@.len() ==> keys@[i].chars@ == groups_seen(feeds@)[i]) by {
                assert forall|i: int| 0 <= i < keys@.len() implies keys@[i].chars@ == groups_seen(feeds@)[i] by {
                    assert(texts(gs@)[i] == gs@[i]@);
                }
            }
        }
    }
    out
}

} // verus!
