//! Stable sorting by a key, as done by `sort_by` on article lists.
//!
//! A stable sort is characterised by the permutation it applies: position `i`
//! of the result holds element `p[i]` of the input, and `p` lists every input
//! position once, ordered by key and, among equal keys, by input position.
use vstd::prelude::*;

verus! {

/// A key with a strict total order.
pub trait SortKey: Sized {
    spec fn key_lt(self, other: Self) -> bool;

    spec fn key_eq(self, other: Self) -> bool;

    fn exec_lt(&self, other: &Self) -> (r: bool)
        ensures
            r == self.key_lt(*other),
    ;

    fn exec_eq(&self, other: &Self) -> (r: bool)
        ensures
            r == self.key_eq(*other),
    ;

    proof fn lemma_order(a: Self, b: Self, c: Self)
        ensures
            !a.key_lt(a),
            a.key_eq(a),
            a.key_eq(b) ==> b.key_eq(a),
            a.key_eq(b) && b.key_eq(c) ==> a.key_eq(c),
            a.key_lt(b) && b.key_lt(c) ==> a.key_lt(c),
            a.key_lt(b) && b.key_eq(c) ==> a.key_lt(c),
            a.key_eq(b) && b.key_lt(c) ==> a.key_lt(c),
            a.key_lt(b) ==> !b.key_lt(a) && !a.key_eq(b),
            a.key_lt(b) || b.key_lt(a) || a.key_eq(b),
    ;
}

impl SortKey for i64 {
    open spec fn key_lt(self, other: Self) -> bool {
        self < other
    }

    open spec fn key_eq(self, other: Self) -> bool {
        self == other
    }

    fn exec_lt(&self, other: &Self) -> (r: bool) {
        *self < *other
    }

    fn exec_eq(&self, other: &Self) -> (r: bool) {
        *self == *other
    }

    proof fn lemma_order(a: Self, b: Self, c: Self) {
    }
}

/// Lexicographic order of character sequences (the order of `str::cmp`).
pub open spec fn seq_lt(a: Seq<char>, b: Seq<char>) -> bool
    decreases a.len(),
{
    if a.len() == 0 {
        b.len() > 0
    } else if b.len() == 0 {
        false
    } else if a[0] != b[0] {
        a[0] < b[0]
    } else {
        seq_lt(a.drop_first(), b.drop_first())
    }
}

pub proof fn lemma_seq_lt_irrefl(a: Seq<char>)
    ensures
        !seq_lt(a, a),
    decreases a.len(),
{
    if a.len() > 0 {
        lemma_seq_lt_irrefl(a.drop_first());
    }
}

pub proof fn lemma_seq_lt_total(a: Seq<char>, b: Seq<char>)
    ensures
        seq_lt(a, b) ==> !seq_lt(b, a) && a != b,
        seq_lt(a, b) || seq_lt(b, a) || a == b,
    decreases a.len(),
{
    lemma_seq_lt_irrefl(a);
    if a.len() > 0 && b.len() > 0 {
        lemma_seq_lt_total(a.drop_first(), b.drop_first());
        if a[0] == b[0] && a.drop_first() == b.drop_first() {
            assert(a.len() == b.len());
            assert forall|i: int| 0 <= i < a.len() implies a[i] == b[i] by {
                if i > 0 {
                    assert(a[i] == a.drop_first()[i - 1]);
                    assert(b[i] == b.drop_first()[i - 1]);
                }
            }
            assert(a =~= b);
        }
    } else if a.len() == 0 && b.len() == 0 {
        assert(a =~= b);
    }
}

pub proof fn lemma_seq_lt_trans(a: Seq<char>, b: Seq<char>, c: Seq<char>)
    ensures
        seq_lt(a, b) && seq_lt(b, c) ==> seq_lt(a, c),
    decreases a.len(),
{
    if a.len() > 0 && b.len() > 0 && c.len() > 0 {
        lemma_seq_lt_trans(a.drop_first(), b.drop_first(), c.drop_first());
    }
}

pub proof fn lemma_seq_lt_order(a: Seq<char>, b: Seq<char>, c: Seq<char>)
    ensures
        !seq_lt(a, a),
        seq_lt(a, b) && seq_lt(b, c) ==> seq_lt(a, c),
        seq_lt(a, b) ==> !seq_lt(b, a) && a != b,
        seq_lt(a, b) || seq_lt(b, a) || a == b,
{
    lemma_seq_lt_irrefl(a);
    lemma_seq_lt_total(a, b);
    lemma_seq_lt_trans(a, b, c);
}

/// A text key: the characters of a string.
pub struct TextKey {
    pub chars: Vec<char>,
}

impl SortKey for TextKey {
    open spec fn key_lt(self, other: Self) -> bool {
        seq_lt(self.chars@, other.chars@)
    }

    open spec fn key_eq(self, other: Self) -> bool {
        self.chars@ == other.chars@
    }

    fn exec_lt(&self, other: &Self) -> (r: bool) {
        let a = &self.chars;
        let b = &other.chars;
        let mut i: usize = 0;
        assert(a@.skip(0) =~= a@);
        assert(b@.skip(0) =~= b@);
        while i < a.len() && i < b.len() && a[i] == b[i]
            invariant
                i <= a@.len(),
                i <= b@.len(),
                forall|j: int| 0 <= j < i ==> a@[j] == b@[j],
                seq_lt(a@, b@) == seq_lt(a@.skip(i as int), b@.skip(i as int)),
            decreases a@.len() - i,
        {
            proof {
                assert(a@.skip(i as int).drop_first() =~= a@.skip(i + 1));
                assert(b@.skip(i as int).drop_first() =~= b@.skip(i + 1));
            }
            i = i + 1;
        }
        if i == a.len() {
            i < b.len()
        } else if i == b.len() {
            false
        } else {
            a[i] < b[i]
        }
    }

    fn exec_eq(&self, other: &Self) -> (r: bool) {
        crate::text::chars_eq(self.chars.as_slice(), other.chars.as_slice())
    }

    proof fn lemma_order(a: Self, b: Self, c: Self) {
        lemma_seq_lt_order(a.chars@, b.chars@, c.chars@);
        lemma_seq_lt_order(b.chars@, c.chars@, a.chars@);
        lemma_seq_lt_order(c.chars@, a.chars@, b.chars@);
        lemma_seq_lt_order(b.chars@, a.chars@, c.chars@);
    }
}

/// Position `i` (key `ki`) precedes position `j` (key `kj`) in the sorted
/// result: by key, ascending or descending, and by position among equal keys.
pub open spec fn precedes<K: SortKey>(ki: K, i: int, kj: K, j: int, descending: bool) -> bool {
    if descending {
        kj.key_lt(ki) || (ki.key_eq(kj) && i < j)
    } else {
        ki.key_lt(kj) || (ki.key_eq(kj) && i < j)
    }
}

/// `p` lists each of `0..n` exactly once.
pub open spec fn is_permutation(p: Seq<usize>, n: nat) -> bool {
    &&& p.len() == n
    &&& forall|i: int| 0 <= i < p.len() ==> (p[i] as int) < n
    &&& forall|i: int, j: int| 0 <= i < j < p.len() ==> p[i] != p[j]
}

/// `p` orders the positions of `keys` as a stable sort does.
pub open spec fn is_stable_order<K: SortKey>(keys: Seq<K>, p: Seq<usize>, descending: bool) -> bool {
    &&& is_permutation(p, keys.len())
    &&& forall|i: int, j: int|
        0 <= i < j < p.len() ==> #[trigger] precedes(
            keys[p[i] as int],
            p[i] as int,
            keys[p[j] as int],
            p[j] as int,
            descending,
        )
}

pub proof fn lemma_precedes_order<K: SortKey>(
    a: K,
    i: int,
    b: K,
    j: int,
    c: K,
    k: int,
    descending: bool,
)
    ensures
        precedes(a, i, b, j, descending) && precedes(b, j, c, k, descending) ==> precedes(
            a,
            i,
            c,
            k,
            descending,
        ),
        i != j ==> (precedes(a, i, b, j, descending) || precedes(b, j, a, i, descending)),
        precedes(a, i, b, j, descending) ==> !precedes(b, j, a, i, descending),
{
    K::lemma_order(a, b, c);
    K::lemma_order(b, c, a);
    K::lemma_order(c, a, b);
    K::lemma_order(b, a, c);
    K::lemma_order(a, c, b);
    K::lemma_order(c, b, a);
}

/// Whether position `i` precedes position `j`.
pub fn precedes_exec<K: SortKey>(keys: &[K], i: usize, j: usize, descending: bool) -> (r: bool)
    requires
        i < keys@.len(),
        j < keys@.len(),
    ensures
        r == precedes(keys@[i as int], i as int, keys@[j as int], j as int, descending),
{
    let lt = if descending {
        keys[j].exec_lt(&keys[i])
    } else {
        keys[i].exec_lt(&keys[j])
    };
    lt || (keys[i].exec_eq(&keys[j]) && i < j)
}

/// The positions of `keys` in stable sorted order.
pub fn stable_order<K: SortKey>(keys: &[K], descending: bool) -> (p: Vec<usize>)
    ensures
        is_stable_order(keys@, p@, descending),
{
    let n = keys.len();
    let mut p: Vec<usize> = Vec::new();
    let mut k: usize = 0;
    while k < n
        invariant
            n == keys@.len(),
            k <= n,
            p@.len() == k,
            forall|i: int| 0 <= i < p@.len() ==> (p@[i] as int) < k,
            forall|i: int, j: int| 0 <= i < j < p@.len() ==> p@[i] != p@[j],
            forall|i: int, j: int|
                0 <= i < j < p@.len() ==> #[trigger] precedes(
                    keys@[p@[i] as int],
                    p@[i] as int,
                    keys@[p@[j] as int],
                    p@[j] as int,
                    descending,
                ),
        decreases n - k,
    {
        // the insertion point: after every position that precedes k
        let mut pos: usize = 0;
        while pos < p.len() && precedes_exec(keys, p[pos], k, descending)
            invariant
                n == keys@.len(),
                k < n,
                pos <= p@.len(),
                p@.len() == k,
                forall|i: int| 0 <= i < p@.len() ==> (p@[i] as int) < k,
                forall|i: int|
                    0 <= i < pos ==> precedes(
                        keys@[p@[i] as int],
                        p@[i] as int,
                        keys@[k as int],
                        k as int,
                        descending,
                    ),
            decreases p@.len() - pos,
        {
            pos = pos + 1;
        }
        let ghost old_p = p@;
        proof {
            if pos < p@.len() {
                let e = p@[pos as int];
                K::lemma_order(keys@[e as int], keys@[k as int], keys@[e as int]);
                assert(precedes(keys@[k as int], k as int, keys@[e as int], e as int, descending));
            }
        }
        p.insert(pos, k);
        proof {
            assert(p@ == old_p.insert(pos as int, k));
            assert forall|i: int, j: int| 0 <= i < j < p@.len() implies #[trigger] precedes(
                keys@[p@[i] as int],
                p@[i] as int,
                keys@[p@[j] as int],
                p@[j] as int,
                descending,
            ) by {
                if i < pos && j < pos {
                    assert(p@[i] == old_p[i] && p@[j] == old_p[j]);
                } else if i < pos && j == pos {
                } else if i < pos && j > pos {
                    assert(p@[i] == old_p[i] && p@[j] == old_p[j - 1]);
                    assert(precedes(
                        keys@[old_p[i] as int],
                        old_p[i] as int,
                        keys@[old_p[j - 1] as int],
                        old_p[j - 1] as int,
                        descending,
                    ));
                } else if i == pos {
                    assert(p@[j] == old_p[j - 1]);
                    let e0 = old_p[pos as int];
                    let e = old_p[j - 1];
                    if j - 1 > pos {
                        assert(precedes(
                            keys@[e0 as int],
                            e0 as int,
                            keys@[e as int],
                            e as int,
                            descending,
                        ));
                        lemma_precedes_order(
                            keys@[k as int],
                            k as int,
                            keys@[e0 as int],
                            e0 as int,
                            keys@[e as int],
                            e as int,
                            descending,
                        );
                    }
                } else {
                    assert(p@[i] == old_p[i - 1] && p@[j] == old_p[j - 1]);
                    assert(precedes(
                        keys@[old_p[i - 1] as int],
                        old_p[i - 1] as int,
                        keys@[old_p[j - 1] as int],
                        old_p[j - 1] as int,
                        descending,
                    ));
                }
            }
            assert forall|i: int, j: int| 0 <= i < j < p@.len() implies p@[i] != p@[j] by {
                if i < pos && j < pos {
                } else if i < pos && j == pos {
                } else if i < pos {
                    assert(p@[j] == old_p[j - 1]);
                } else if i == pos {
                    assert(p@[j] == old_p[j - 1]);
                } else {
                    assert(p@[i] == old_p[i - 1] && p@[j] == old_p[j - 1]);
                }
            }
        }
        k = k + 1;
    }
    p
}

} // verus!
