//! The cache of fetched article pages, with per-entry expiry.
//!
//! Reading and writing the cache file is done by the application; the cache
//! reports its size so that a caller can tell when an entry has been dropped.
use vstd::prelude::*;
use crate::text::str_eq;

verus! {

/// One cached page.
#[derive(Debug)]
pub struct CacheEntry {
    /// The page content.
    pub content: String,
    /// When the entry was written (Unix seconds).
    pub timestamp: u64,
    /// When the entry expires (Unix seconds); never when absent.
    pub expires_at: Option<u64>,
}

impl Clone for CacheEntry {
    fn clone(&self) -> (r: Self)
        ensures
            r == *self,
    {
        CacheEntry { content: self.content.clone(), timestamp: self.timestamp, expires_at: self.expires_at }
    }
}

/// A key and its entry.
#[derive(Debug)]
pub struct CacheSlot {
    pub key: String,
    pub entry: CacheEntry,
}

/// The default lifetime of an entry: seven days.
pub const DEFAULT_CACHE_TTL: u64 = 604800;

/// The page cache.
#[derive(Debug)]
pub struct CacheManager {
    slots: Vec<CacheSlot>,
    cache_ttl: u64,
}

/// An entry has expired at `now` when its expiry instant lies before `now`.
pub open spec fn is_expired(e: CacheEntry, now: u64) -> bool {
    e.expires_at matches Some(x) && x < now
}

/// The entry written at `now` with lifetime `ttl`; a zero lifetime never expires.
pub open spec fn entry_at(content: String, now: u64, ttl: u64) -> CacheEntry {
    CacheEntry {
        content,
        timestamp: now,
        expires_at: if ttl > 0 {
            Some(if now + ttl > u64::MAX {
                u64::MAX
            } else {
                (now + ttl) as u64
            })
        } else {
            None
        },
    }
}

pub open spec fn slots_unique(s: Seq<CacheSlot>) -> bool {
    forall|i: int, j: int| 0 <= i < j < s.len() ==> s[i].key@ != s[j].key@
}

pub open spec fn has_key(s: Seq<CacheSlot>, k: Seq<char>) -> bool {
    exists|i: int| 0 <= i < s.len() && s[i].key@ == k
}

pub open spec fn slot_of(s: Seq<CacheSlot>, k: Seq<char>) -> int {
    choose|i: int| 0 <= i < s.len() && s[i].key@ == k
}

/// The cache as a map from keys to entries.
pub open spec fn slots_map(s: Seq<CacheSlot>) -> Map<Seq<char>, CacheEntry> {
    Map::new(|k: Seq<char>| has_key(s, k), |k: Seq<char>| s[slot_of(s, k)].entry)
}

pub proof fn lemma_slot_of(s: Seq<CacheSlot>, i: int)
    requires
        slots_unique(s),
        0 <= i < s.len(),
    ensures
        slot_of(s, s[i].key@) == i,
        slots_map(s).contains_key(s[i].key@),
        slots_map(s)[s[i].key@] == s[i].entry,
{
    let k = s[i].key@;
    assert(has_key(s, k));
    let j = slot_of(s, k);
    if j != i {
        if j < i {
            assert(s[j].key@ != s[i].key@);
        } else {
            assert(s[i].key@ != s[j].key@);
        }
    }
}

impl CacheManager {
    /// The entries must have distinct keys.
    pub closed spec fn wf(&self) -> bool {
        slots_unique(self.slots@)
    }

    /// The cached entries by key.
    pub closed spec fn view(&self) -> Map<Seq<char>, CacheEntry> {
        slots_map(self.slots@)
    }

    /// A well-formed cache holds finitely many entries.
    pub proof fn lemma_view_finite(&self)
        requires
            self.wf(),
        ensures
            self.view().dom().finite(),
    {
        lemma_slots_len(self.slots@);
    }

    /// The lifetime given to entries written without one.
    pub closed spec fn ttl(&self) -> u64 {
        self.cache_ttl
    }

    /// An empty cache; entries live seven days unless another lifetime is given.
    pub fn new(cache_ttl: Option<u64>) -> (c: Self)
        ensures
            c.wf(),
            c.view() == Map::<Seq<char>, CacheEntry>::empty(),
            c.ttl() == match cache_ttl {
                Some(t) => t,
                None => DEFAULT_CACHE_TTL,
            },
    {
        let ttl = match cache_ttl {
            Some(t) => t,
            None => DEFAULT_CACHE_TTL,
        };
        let c = CacheManager { slots: Vec::new(), cache_ttl: ttl };
        assert(c.view() =~= Map::<Seq<char>, CacheEntry>::empty());
        c
    }

    /// The slot holding a key.
    fn find(&self, key: &str) -> (r: Option<usize>)
        requires
            self.wf(),
        ensures
            r is None ==> !self.view().contains_key(key@),
            r matches Some(i) ==> i < self.slots@.len() && self.slots@[i as int].key@ == key@,
    {
        let mut i: usize = 0;
        while i < self.slots.len()
            invariant
                i <= self.slots@.len(),
                forall|j: int| 0 <= j < i ==> self.slots@[j].key@ != key@,
            decreases self.slots@.len() - i,
        {
            if str_eq(self.slots[i].key.as_str(), key) {
                return Some(i);
            }
            i = i + 1;
        }
        None
    }

    /// Writes an entry for a key, replacing any entry it had.
    fn put(&mut self, key: &str, entry: CacheEntry)
        requires
            old(self).wf(),
        ensures
            final(self).wf(),
            final(self).view() == old(self).view().insert(key@, entry),
            final(self).cache_ttl == old(self).cache_ttl,
    {
        let ghost e = entry;
        match self.find(key) {
            Some(i) => {
                let ghost before = self.slots@;
                let k = self.slots[i].key.clone();
                self.slots.set(i, CacheSlot { key: k, entry });
                proof {
                    let after = self.slots@;
                    assert(slots_unique(after)) by {
                        assert forall|a: int, b: int| 0 <= a < b < after.len() implies after[a].key@
                            != after[b].key@ by {
                            assert(after[a].key@ == before[a].key@);
                            assert(after[b].key@ == before[b].key@);
                        }
                    }
                    assert forall|k2: Seq<char>| #[trigger] has_key(after, k2) == has_key(before, k2) by {
                        if has_key(after, k2) {
                            let j = choose|j: int| 0 <= j < after.len() && after[j].key@ == k2;
                            assert(before[j].key@ == k2);
                        }
                        if has_key(before, k2) {
                            let j = choose|j: int| 0 <= j < before.len() && before[j].key@ == k2;
                            assert(after[j].key@ == k2);
                        }
                    }
                    assert(slots_map(after) =~= slots_map(before).insert(key@, e)) by {
                        assert forall|k2: Seq<char>| #[trigger] slots_map(after).contains_key(k2)
                            implies slots_map(after)[k2] == slots_map(before).insert(key@, e)[k2] by {
                            let j = choose|j: int| 0 <= j < after.len() && after[j].key@ == k2;
                            lemma_slot_of(after, j);
                            if j != i {
                                lemma_slot_of(before, j);
                            }
                        }
                        lemma_slot_of(after, i as int);
                    }
                }
            },
            None => {
                let ghost before = self.slots@;
                self.slots.push(CacheSlot { key: String::from_str(key), entry });
                proof {
                    let after = self.slots@;
                    assert(!has_key(before, key@)) by {
                        if has_key(before, key@) {
                            let j = choose|j: int| 0 <= j < before.len() && before[j].key@ == key@;
                            assert(slots_map(before).contains_key(key@));
                        }
                    }
                    assert(slots_unique(after)) by {
                        assert forall|a: int, b: int| 0 <= a < b < after.len() implies after[a].key@
                            != after[b].key@ by {
                            if b == before.len() {
                                assert(after[a] == before[a]);
                            } else {
                                assert(after[a] == before[a] && after[b] == before[b]);
                            }
                        }
                    }
                    assert(slots_map(after) =~= slots_map(before).insert(key@, e)) by {
                        assert forall|k2: Seq<char>| #[trigger]
                            slots_map(after).contains_key(k2) == slots_map(before).insert(
                                key@,
                                e,
                            ).contains_key(k2) by {
                            if has_key(after, k2) {
                                let j = choose|j: int| 0 <= j < after.len() && after[j].key@ == k2;
                                if j < before.len() {
                                    assert(before[j] == after[j]);
                                }
                            }
                            if has_key(before, k2) {
                                let j = choose|j: int| 0 <= j < before.len() && before[j].key@ == k2;
                                assert(after[j] == before[j]);
                            }
                            if k2 == key@ {
                                assert(after[before.len() as int].key@ == key@);
                            }
                        }
                        assert forall|k2: Seq<char>| #[trigger] slots_map(after).contains_key(k2)
                            implies slots_map(after)[k2] == slots_map(before).insert(key@, e)[k2] by {
                            let j = choose|j: int| 0 <= j < after.len() && after[j].key@ == k2;
                            lemma_slot_of(after, j);
                            if j < before.len() {
                                assert(before[j] == after[j]);
                                lemma_slot_of(before, j);
                            }
                        }
                    }
                }
            },
        }
    }

    /// Removes the slot at `i`.
    fn remove_slot(&mut self, i: usize)
        requires
            old(self).wf(),
            i < old(self).slots@.len(),
        ensures
            final(self).wf(),
            final(self).view() == old(self).view().remove(old(self).slots@[i as int].key@),
            final(self).slots@.len() + 1 == old(self).slots@.len(),
            final(self).slots@ == old(self).slots@.remove(i as int),
            final(self).cache_ttl == old(self).cache_ttl,
    {
        let ghost before = self.slots@;
        let ghost k = before[i as int].key@;
        self.slots.remove(i);
        proof {
            let after = self.slots@;
            assert(after == before.remove(i as int));
            assert(slots_unique(after)) by {
                assert forall|a: int, b: int| 0 <= a < b < after.len() implies after[a].key@
                    != after[b].key@ by {
                    let a0 = if a < i { a } else { a + 1 };
                    let b0 = if b < i { b } else { b + 1 };
                    assert(after[a] == before[a0] && after[b] == before[b0]);
                }
            }
            assert(slots_map(after) =~= slots_map(before).remove(k)) by {
                assert forall|k2: Seq<char>| #[trigger]
                    slots_map(after).contains_key(k2) == slots_map(before).remove(k).contains_key(
                        k2,
                    ) by {
                    if has_key(after, k2) {
                        let j = choose|j: int| 0 <= j < after.len() && after[j].key@ == k2;
                        let j0 = if j < i { j } else { j + 1 };
                        assert(after[j] == before[j0]);
                        assert(has_key(before, k2));
                        assert(j0 != i);
                        assert(k2 != k);
                    }
                    if has_key(before, k2) && k2 != k {
                        let j = choose|j: int| 0 <= j < before.len() && before[j].key@ == k2;
                        assert(j != i);
                        let j1 = if j < i { j } else { j - 1 };
                        assert(after[j1] == before[j]);
                    }
                }
                assert forall|k2: Seq<char>| #[trigger] slots_map(after).contains_key(k2)
                    implies slots_map(after)[k2] == slots_map(before)[k2] by {
                    let j = choose|j: int| 0 <= j < after.len() && after[j].key@ == k2;
                    let j0 = if j < i { j } else { j + 1 };
                    assert(after[j] == before[j0]);
                    lemma_slot_of(after, j);
                    lemma_slot_of(before, j0);
                }
            }
        }
    }

    /// The content cached for a key at instant `now`; an expired entry is
    /// dropped and reported as absent.
    pub fn get_at(&mut self, key: &str, now: u64) -> (r: Option<String>)
        requires
            old(self).wf(),
        ensures
            final(self).wf(),
            final(self).ttl() == old(self).ttl(),
            !old(self).view().contains_key(key@) ==> r is None && final(self).view() == old(
                self,
            ).view(),
            old(self).view().contains_key(key@) && is_expired(old(self).view()[key@], now) ==> r is None
                && final(self).view() == old(self).view().remove(key@),
            old(self).view().contains_key(key@) && !is_expired(old(self).view()[key@], now) ==> r
                == Some(old(self).view()[key@].content) && final(self).view() == old(self).view(),
    {
        match self.find(key) {
            None => None,
            Some(i) => {
                proof {
                    lemma_slot_of(self.slots@, i as int);
                }
                let expired = match self.slots[i].entry.expires_at {
                    Some(x) => x < now,
                    None => false,
                };
                if expired {
                    self.remove_slot(i);
                    None
                } else {
                    Some(self.slots[i].entry.content.clone())
                }
            },
        }
    }

    /// The content cached for a key, read at the current time.
    pub fn get(&mut self, key: &str) -> (r: Option<String>)
        requires
            old(self).wf(),
        ensures
            final(self).wf(),
            final(self).ttl() == old(self).ttl(),
            !old(self).view().contains_key(key@) ==> r is None && final(self).view() == old(
                self,
            ).view(),
            r matches Some(c) ==> old(self).view().contains_key(key@) && c == old(
                self,
            ).view()[key@].content && final(self).view() == old(self).view(),
            r is None && old(self).view().contains_key(key@) ==> final(self).view() == old(
                self,
            ).view().remove(key@),
            old(self).view().contains_key(key@) && old(self).view()[key@].expires_at is None ==> r
                == Some(old(self).view()[key@].content),
    {
        let now = Self::current_timestamp();
        self.get_at(key, now)
    }

    /// Writes content for a key at instant `now`; it lives `custom_ttl`
    /// seconds, or the cache's lifetime when none is given.
    pub fn set_at(&mut self, key: &str, content: String, custom_ttl: Option<u64>, now: u64)
        requires
            old(self).wf(),
        ensures
            final(self).wf(),
            final(self).ttl() == old(self).ttl(),
            final(self).view() == old(self).view().insert(
                key@,
                entry_at(
                    content,
                    now,
                    effective_ttl(custom_ttl, old(self).ttl()),
                ),
            ),
            final(self).view().len() == old(self).view().len() + (if old(self).view().contains_key(key@) {
                0int
            } else {
                1int
            }),
    {
        proof {
            self.lemma_view_finite();
        }
        let ttl = match custom_ttl {
            Some(t) => t,
            None => self.cache_ttl,
        };
        let expires_at = if ttl > 0 {
            Some(now.saturating_add(ttl))
        } else {
            None
        };
        self.put(key, CacheEntry { content, timestamp: now, expires_at });
    }

    /// Writes content for a key at the current time.
    pub fn set(&mut self, key: &str, content: String, custom_ttl: Option<u64>)
        requires
            old(self).wf(),
        ensures
            final(self).wf(),
            final(self).ttl() == old(self).ttl(),
            exists|now: u64|
                final(self).view() == old(self).view().insert(
                    key@,
                    #[trigger] entry_at(
                        content,
                        now,
                        effective_ttl(custom_ttl, old(self).ttl()),
                    ),
                ),
            final(self).view().len() == old(self).view().len() + (if old(self).view().contains_key(key@) {
                0int
            } else {
                1int
            }),
    {
        let now = Self::current_timestamp();
        self.set_at(key, content, custom_ttl, now);
    }

    /// Drops every entry expired at instant `now`; returns how many were
    /// dropped.
    pub fn clean_expired_at(&mut self, now: u64) -> (removed: usize)
        requires
            old(self).wf(),
        ensures
            final(self).wf(),
            final(self).ttl() == old(self).ttl(),
            final(self).view() == unexpired(old(self).view(), now),
            removed == old(self).view().len() - final(self).view().len(),
    {
        let ghost m0 = self.view();
        proof {
            lemma_slots_len(self.slots@);
        }
        let n0 = self.slots.len();
        let mut i: usize = 0;
        while i < self.slots.len()
            invariant
                self.wf(),
                self.slots@.len() <= n0,
                n0 == old(self).slots@.len(),
                self.cache_ttl == old(self).cache_ttl,
                i <= self.slots@.len(),
                forall|j: int| 0 <= j < i ==> !is_expired(#[trigger] self.slots@[j].entry, now),
                forall|k: Seq<char>| #[trigger]
                    self.view().contains_key(k) ==> m0.contains_key(k) && self.view()[k] == m0[k],
                forall|k: Seq<char>| #[trigger]
                    m0.contains_key(k) && !is_expired(m0[k], now) ==> self.view().contains_key(k),
                forall|k: Seq<char>|
                    #[trigger] self.view().contains_key(k) && is_expired(self.view()[k], now)
                        ==> exists|j: int| i <= j < self.slots@.len() && self.slots@[j].key@ == k,
            decreases self.slots@.len() - i,
        {
            let expired = match self.slots[i].entry.expires_at {
                Some(x) => x < now,
                None => false,
            };
            if expired {
                let ghost before = self.slots@;
                let ghost m1 = self.view();
                let ghost k = before[i as int].key@;
                proof {
                    lemma_slot_of(before, i as int);
                }
                self.remove_slot(i);
                proof {
                    let after = self.slots@;
                    assert(after == before.remove(i as int));
                    assert forall|k2: Seq<char>|
                        #[trigger] self.view().contains_key(k2) && is_expired(self.view()[k2], now)
                            implies exists|j: int|
                            i <= j < self.slots@.len() && self.slots@[j].key@ == k2 by {
                        assert(m1.contains_key(k2) && k2 != k);
                        let j = choose|j: int| i <= j < before.len() && before[j].key@ == k2;
                        assert(j != i);
                        assert(after[j - 1] == before[j]);
                    }
                    assert forall|j: int| 0 <= j < i implies !is_expired(
                        #[trigger] self.slots@[j].entry,
                        now,
                    ) by {
                        assert(after[j] == before[j]);
                    }
                }
            } else {
                proof {
                    let s = self.slots@;
                    assert forall|k2: Seq<char>|
                        #[trigger] self.view().contains_key(k2) && is_expired(self.view()[k2], now)
                            implies exists|j: int|
                            i + 1 <= j < self.slots@.len() && self.slots@[j].key@ == k2 by {
                        let j = choose|j: int| i <= j < s.len() && s[j].key@ == k2;
                        lemma_slot_of(s, j);
                        if j == i {
                            assert(self.view()[k2] == s[i as int].entry);
                        }
                    }
                }
                i = i + 1;
            }
        }
        proof {
            let m1 = self.view();
            let m2 = unexpired(m0, now);
            assert forall|k: Seq<char>| #[trigger] m1.contains_key(k) implies !is_expired(m1[k], now) by {
            }
            assert(m1 =~= m2);
            lemma_slots_len(self.slots@);
        }
        n0 - self.slots.len()
    }

    /// Drops every expired entry, reading the current time; returns how many
    /// were dropped (the cache file is rewritten when some were).
    pub fn clean_expired_cache(&mut self) -> (removed: usize)
        requires
            old(self).wf(),
        ensures
            final(self).wf(),
            final(self).ttl() == old(self).ttl(),
            exists|now: u64| final(self).view() == #[trigger] unexpired(old(self).view(), now),
            removed == old(self).view().len() - final(self).view().len(),
    {
        let now = Self::current_timestamp();
        let removed = self.clean_expired_at(now);
        assert(self.view() == unexpired(old(self).view(), now));
        removed
    }

    /// Drops every entry.
    pub fn clear_all(&mut self)
        requires
            old(self).wf(),
        ensures
            final(self).wf(),
            final(self).ttl() == old(self).ttl(),
            final(self).view() == Map::<Seq<char>, CacheEntry>::empty(),
    {
        self.slots.clear();
        assert(self.view() =~= Map::<Seq<char>, CacheEntry>::empty());
    }

    /// The number of entries.
    pub fn size(&self) -> (n: usize)
        requires
            self.wf(),
        ensures
            n == self.view().len(),
    {
        proof {
            lemma_slots_len(self.slots@);
        }
        self.slots.len()
    }

    /// The entries, to be written to the cache file.
    pub fn entries(&self) -> (r: Vec<CacheSlot>)
        requires
            self.wf(),
        ensures
            slots_unique(r@),
            slots_map(r@) == self.view(),
    {
        let mut r: Vec<CacheSlot> = Vec::new();
        let mut i: usize = 0;
        while i < self.slots.len()
            invariant
                i <= self.slots@.len(),
                r@ == self.slots@.take(i as int),
            decreases self.slots@.len() - i,
        {
            r.push(CacheSlot { key: self.slots[i].key.clone(), entry: self.slots[i].entry.clone() });
            assert(self.slots@.take(i + 1) =~= self.slots@.take(i as int).push(self.slots@[i as int]));
            i = i + 1;
        }
        assert(self.slots@.take(self.slots@.len() as int) =~= self.slots@);
        r
    }

    /// Replaces the entries with those read from the cache file; a later
    /// entry for the same key wins.
    pub fn load_entries(&mut self, entries: Vec<CacheSlot>)
        requires
            old(self).wf(),
        ensures
            final(self).wf(),
            final(self).ttl() == old(self).ttl(),
            slots_unique(entries@) ==> final(self).view() == slots_map(entries@),
    {
        self.slots = Vec::new();
        assert(self.view() =~= Map::<Seq<char>, CacheEntry>::empty());
        let mut i: usize = 0;
        while i < entries.len()
            invariant
                self.wf(),
                self.cache_ttl == old(self).cache_ttl,
                i <= entries@.len(),
                slots_unique(entries@) ==> self.view() == slots_map(entries@.take(i as int)),
            decreases entries@.len() - i,
        {
            let k = entries[i].key.clone();
            let e = entries[i].entry.clone();
            self.put(k.as_str(), e);
            proof {
                if slots_unique(entries@) {
                    let t = entries@.take(i as int);
                    let t1 = entries@.take(i + 1);
                    assert(t1 == t.push(entries@[i as int]));
                    assert(slots_map(t1) =~= slots_map(t).insert(k@, e)) by {
                        assert forall|k2: Seq<char>| #[trigger]
                            slots_map(t1).contains_key(k2) == slots_map(t).insert(k@, e).contains_key(
                                k2,
                            ) by {
                            if has_key(t1, k2) {
                                let j = choose|j: int| 0 <= j < t1.len() && t1[j].key@ == k2;
                                if j < t.len() {
                                    assert(t[j] == t1[j]);
                                }
                            }
                            if has_key(t, k2) {
                                let j = choose|j: int| 0 <= j < t.len() && t[j].key@ == k2;
                                assert(t1[j] == t[j]);
                            }
                            if k2 == k@ {
                                assert(t1[i as int].key@ == k@);
                            }
                        }
                        assert forall|k2: Seq<char>| #[trigger] slots_map(t1).contains_key(k2)
                            implies slots_map(t1)[k2] == slots_map(t).insert(k@, e)[k2] by {
                            let j = choose|j: int| 0 <= j < t1.len() && t1[j].key@ == k2;
                            assert(slots_unique(t1));
                            lemma_slot_of(t1, j);
                            if j < t.len() {
                                assert(t[j] == t1[j]);
                                assert(slots_unique(t));
                                lemma_slot_of(t, j);
                            }
                        }
                    }
                }
            }
            i = i + 1;
        }
        assert(entries@.take(entries@.len() as int) =~= entries@);
    }

    /// The current Unix time in seconds (zero if the clock is before the epoch).
    #[verifier::external_body]
    fn current_timestamp() -> u64 {
        std::time::SystemTime::now()
            .duration_since(std::time::UNIX_EPOCH)
            .unwrap_or(std::time::Duration::from_secs(0))
            .as_secs()
    }
}

/// The lifetime used for a write: the given one, else the cache's.
pub open spec fn effective_ttl(custom_ttl: Option<u64>, ttl: u64) -> u64 {
    match custom_ttl {
        Some(t) => t,
        None => ttl,
    }
}

/// The entries of `m` that have not expired at `now`.
pub open spec fn unexpired(m: Map<Seq<char>, CacheEntry>, now: u64) -> Map<Seq<char>, CacheEntry> {
    m.restrict(m.dom().filter(|k: Seq<char>| !is_expired(m[k], now)))
}

pub proof fn lemma_slots_len(s: Seq<CacheSlot>)
    requires
        slots_unique(s),
    ensures
        slots_map(s).len() == s.len(),
        slots_map(s).dom().finite(),
    decreases s.len(),
{
    if s.len() == 0 {
        assert(slots_map(s).dom() =~= Set::<Seq<char>>::empty());
    } else {
        let t = s.drop_last();
        assert(slots_unique(t));
        lemma_slots_len(t);
        let k = s.last().key@;
        assert(slots_map(s).dom() =~= slots_map(t).dom().insert(k)) by {
            assert forall|k2: Seq<char>| #[trigger] has_key(s, k2) == (has_key(t, k2) || k2 == k) by {
                if has_key(s, k2) {
                    let j = choose|j: int| 0 <= j < s.len() && s[j].key@ == k2;
                    if j < t.len() {
                        assert(t[j] == s[j]);
                    }
                }
                if has_key(t, k2) {
                    let j = choose|j: int| 0 <= j < t.len() && t[j].key@ == k2;
                    assert(s[j] == t[j]);
                }
                if k2 == k {
                    assert(s[s.len() - 1].key@ == k);
                }
            }
        }
        assert(!has_key(t, k)) by {
            if has_key(t, k) {
                let j = choose|j: int| 0 <= j < t.len() && t[j].key@ == k;
                assert(s[j].key@ == k);
            }
        }
    }
}

} // verus!
