//! Bounded in-memory cache of parsed documentation trees, keyed by
//! `(package, version)`, with time-based expiry and least-recently-used
//! eviction. Time is supplied by the caller as a millisecond count, so
//! every behaviour is a function of plain values.

use vstd::prelude::*;
use std::sync::Arc;
use crate::docmodel::DocTree;
use crate::docsrs::DocsRsError;
use crate::text::str_eq;

verus! {

/// Relies on `Arc::clone`: the returned handle refers to the same
/// allocation, so it equals the original value.
#[verifier::external_body]
fn clone_arc(v: &Arc<DocTree>) -> (r: Arc<DocTree>)
    ensures
        r == *v,
{
    Arc::clone(v)
}

/// One cached documentation tree with its bookkeeping timestamps.
pub struct CacheEntry {
    pub package: String,
    pub version: String,
    pub tree: Arc<DocTree>,
    pub fetched_at: u64,
    pub last_accessed: u64,
}

/// Whether an entry is stored under the given key.
pub open spec fn spec_key_eq(e: CacheEntry, p: Seq<char>, v: Seq<char>) -> bool {
    e.package@ == p && e.version@ == v
}

/// Position of the first entry stored under the key, `s.len()` if none is.
pub open spec fn spec_find_key(s: Seq<CacheEntry>, p: Seq<char>, v: Seq<char>) -> int
    decreases s.len(),
{
    if s.len() == 0 {
        0
    } else if spec_key_eq(s[0], p, v) {
        0
    } else {
        1 + spec_find_key(s.drop_first(), p, v)
    }
}

pub proof fn lemma_find_key_props(s: Seq<CacheEntry>, p: Seq<char>, v: Seq<char>)
    ensures
        0 <= spec_find_key(s, p, v) <= s.len(),
        spec_find_key(s, p, v) < s.len() ==> spec_key_eq(s[spec_find_key(s, p, v)], p, v),
        forall|j: int| 0 <= j < spec_find_key(s, p, v) ==> !spec_key_eq(#[trigger] s[j], p, v),
    decreases s.len(),
{
    if s.len() > 0 && !spec_key_eq(s[0], p, v) {
        lemma_find_key_props(s.drop_first(), p, v);
        assert forall|j: int| 0 <= j < spec_find_key(s, p, v) implies !spec_key_eq(
            #[trigger] s[j],
            p,
            v,
        ) by {
            if j > 0 {
                assert(s.drop_first()[j - 1] == s[j]);
            }
        }
    }
}

pub proof fn lemma_find_key_is(s: Seq<CacheEntry>, p: Seq<char>, v: Seq<char>, i: int)
    requires
        0 <= i < s.len(),
        spec_key_eq(s[i], p, v),
        forall|j: int| 0 <= j < i ==> !spec_key_eq(#[trigger] s[j], p, v),
    ensures
        spec_find_key(s, p, v) == i,
{
    lemma_find_key_props(s, p, v);
}

pub proof fn lemma_find_key_absent(s: Seq<CacheEntry>, p: Seq<char>, v: Seq<char>)
    requires
        forall|j: int| 0 <= j < s.len() ==> !spec_key_eq(#[trigger] s[j], p, v),
    ensures
        spec_find_key(s, p, v) == s.len(),
{
    lemma_find_key_props(s, p, v);
}

/// Whether an entry fetched at `e.fetched_at` is still fresh at `now`
/// under the freshness window `ttl`.
pub open spec fn spec_fresh(e: CacheEntry, ttl: u64, now: u64) -> bool {
    now <= e.fetched_at + ttl
}

/// The entries that survive an expiry sweep at `now`, in order.
pub open spec fn spec_purge(s: Seq<CacheEntry>, ttl: u64, now: u64) -> Seq<CacheEntry>
    decreases s.len(),
{
    if s.len() == 0 {
        Seq::<CacheEntry>::empty()
    } else {
        spec_purge(s.drop_last(), ttl, now) + (if spec_fresh(s.last(), ttl, now) {
            seq![s.last()]
        } else {
            Seq::<CacheEntry>::empty()
        })
    }
}

pub proof fn lemma_purge_take(s: Seq<CacheEntry>, ttl: u64, now: u64, i: int)
    requires
        0 <= i < s.len(),
    ensures
        spec_purge(s.take(i + 1), ttl, now) == spec_purge(s.take(i), ttl, now) + (if spec_fresh(
            s[i],
            ttl,
            now,
        ) {
            seq![s[i]]
        } else {
            Seq::<CacheEntry>::empty()
        }),
{
    assert(s.take(i + 1).drop_last() =~= s.take(i));
    assert(s.take(i + 1).last() == s[i]);
}

pub proof fn lemma_purge_absent(s: Seq<CacheEntry>, ttl: u64, now: u64, p: Seq<char>, v: Seq<char>)
    requires
        forall|j: int| 0 <= j < s.len() ==> !spec_key_eq(#[trigger] s[j], p, v),
    ensures
        forall|k: int|
            0 <= k < spec_purge(s, ttl, now).len() ==> !spec_key_eq(
                #[trigger] spec_purge(s, ttl, now)[k],
                p,
                v,
            ),
    decreases s.len(),
{
    if s.len() > 0 {
        let dl = s.drop_last();
        assert(forall|j: int| 0 <= j < dl.len() ==> !spec_key_eq(#[trigger] dl[j], p, v));
        lemma_purge_absent(dl, ttl, now, p, v);
        let pu = spec_purge(s, ttl, now);
        let pd = spec_purge(dl, ttl, now);
        assert forall|k: int| 0 <= k < pu.len() implies !spec_key_eq(#[trigger] pu[k], p, v) by {
            if k < pd.len() {
                assert(pu[k] == pd[k]);
            } else {
                assert(pu[k] == s.last());
            }
        }
    }
}

/// All keys occur at most once.
pub open spec fn spec_keys_unique(s: Seq<CacheEntry>) -> bool {
    forall|i: int, j: int|
        #![trigger s[i], s[j]]
        0 <= i < j < s.len() ==> !spec_key_eq(s[j], s[i].package@, s[i].version@)
}

pub proof fn lemma_purge_unique(s: Seq<CacheEntry>, ttl: u64, now: u64)
    requires
        spec_keys_unique(s),
    ensures
        spec_keys_unique(spec_purge(s, ttl, now)),
    decreases s.len(),
{
    if s.len() > 0 {
        let dl = s.drop_last();
        assert(spec_keys_unique(dl)) by {
            assert(forall|i: int, j: int|
                #![trigger s[i], s[j]]
                0 <= i < j < dl.len() ==> !spec_key_eq(s[j], s[i].package@, s[i].version@));
        }
        lemma_purge_unique(dl, ttl, now);
        if spec_fresh(s.last(), ttl, now) {
            assert(forall|j: int|
                0 <= j < dl.len() ==> !spec_key_eq(
                    #[trigger] dl[j],
                    s.last().package@,
                    s.last().version@,
                )) by {
                assert(forall|j: int|
                    0 <= j < dl.len() ==> !spec_key_eq(
                        #[trigger] s[s.len() - 1],
                        s[j].package@,
                        s[j].version@,
                    ));
            }
            lemma_purge_absent(dl, ttl, now, s.last().package@, s.last().version@);
            let pu = spec_purge(s, ttl, now);
            let pd = spec_purge(dl, ttl, now);
            assert forall|i: int, j: int|
                #![trigger pu[i], pu[j]]
                0 <= i < j < pu.len() implies !spec_key_eq(
                pu[j],
                pu[i].package@,
                pu[i].version@,
            ) by {
                if j < pd.len() {
                    assert(pu[i] == pd[i] && pu[j] == pd[j]);
                } else {
                    assert(pu[j] == s.last());
                    assert(pu[i] == pd[i]);
                    assert(!spec_key_eq(s.last(), pd[i].package@, pd[i].version@));
                }
            }
        }
    }
}

/// Position of the entry with the smallest `last_accessed`, earliest first
/// on ties.
pub open spec fn spec_min_lru(s: Seq<CacheEntry>) -> int
    decreases s.len(),
{
    if s.len() <= 1 {
        0
    } else {
        let m = spec_min_lru(s.drop_last());
        if s.last().last_accessed < s[m].last_accessed {
            s.len() - 1
        } else {
            m
        }
    }
}

pub proof fn lemma_min_lru_props(s: Seq<CacheEntry>)
    requires
        s.len() > 0,
    ensures
        0 <= spec_min_lru(s) < s.len(),
        forall|j: int|
            0 <= j < s.len() ==> s[spec_min_lru(s)].last_accessed <= #[trigger] s[j].last_accessed,
    decreases s.len(),
{
    if s.len() > 1 {
        lemma_min_lru_props(s.drop_last());
        assert forall|j: int| 0 <= j < s.len() implies s[spec_min_lru(s)].last_accessed
            <= #[trigger] s[j].last_accessed by {
            if j < s.len() - 1 {
                assert(s.drop_last()[j] == s[j]);
            }
        }
    }
}

pub proof fn lemma_min_lru_take(s: Seq<CacheEntry>, i: int)
    requires
        1 <= i < s.len(),
    ensures
        spec_min_lru(s.take(i + 1)) == (if s[i].last_accessed < s[spec_min_lru(
            s.take(i),
        )].last_accessed {
            i
        } else {
            spec_min_lru(s.take(i))
        }),
{
    assert(s.take(i + 1).drop_last() =~= s.take(i));
    assert(s.take(i + 1).last() == s[i]);
    lemma_min_lru_props(s.take(i));
    assert(s.take(i + 1)[spec_min_lru(s.take(i))] == s.take(i)[spec_min_lru(s.take(i))]);
}

/// The state after storing `e`: the existing entry under its key is
/// replaced in place, or `e` is appended.
pub open spec fn spec_upsert(s: Seq<CacheEntry>, e: CacheEntry) -> Seq<CacheEntry> {
    let i = spec_find_key(s, e.package@, e.version@);
    if i < s.len() {
        s.update(i, e)
    } else {
        s.push(e)
    }
}

/// The state after a full insert at `now`: expired entries are purged,
/// the least-recently-used entry is evicted when the cache is at capacity
/// and the key is new, and the entry is stored.
pub open spec fn spec_insert(
    s: Seq<CacheEntry>,
    max: nat,
    ttl: u64,
    now: u64,
    e: CacheEntry,
) -> Seq<CacheEntry> {
    let purged = spec_purge(s, ttl, now);
    let room = if purged.len() >= max && purged.len() > 0 && spec_find_key(
        purged,
        e.package@,
        e.version@,
    ) == purged.len() {
        purged.remove(spec_min_lru(purged))
    } else {
        purged
    };
    spec_upsert(room, e)
}

/// The entry a lookup under the key yields at `now`: nothing when the key
/// is absent or the entry has expired.
pub open spec fn spec_lookup(
    s: Seq<CacheEntry>,
    ttl: u64,
    p: Seq<char>,
    v: Seq<char>,
    now: u64,
) -> Option<CacheEntry> {
    let i = spec_find_key(s, p, v);
    if i == s.len() {
        None
    } else if !spec_fresh(s[i], ttl, now) {
        None
    } else {
        Some(s[i])
    }
}

/// An entry with its `last_accessed` stamp renewed.
pub open spec fn spec_touched(e: CacheEntry, now: u64) -> CacheEntry {
    CacheEntry {
        package: e.package,
        version: e.version,
        tree: e.tree,
        fetched_at: e.fetched_at,
        last_accessed: now,
    }
}

/// Cache for parsed documentation trees.
///
/// Keyed by `(package, version)`. Supports TTL expiration and LRU
/// eviction; the caller supplies the current time.
pub struct DocsCache {
    max_entries: usize,
    ttl: u64,
    entries: Vec<CacheEntry>,
}

impl DocsCache {
    /// The configured capacity.
    pub closed spec fn spec_max_entries(&self) -> nat {
        self.max_entries as nat
    }

    /// The configured freshness window.
    pub closed spec fn spec_ttl(&self) -> u64 {
        self.ttl
    }

    /// The stored entries, in insertion order.
    pub closed spec fn spec_entries(&self) -> Seq<CacheEntry> {
        self.entries@
    }

    /// Every key is stored at most once.
    pub closed spec fn wf(&self) -> bool {
        spec_keys_unique(self.entries@)
    }

    /// Create a new cache with the given capacity and TTL.
    pub fn new(max_entries: usize, ttl: u64) -> (r: DocsCache)
        ensures
            r.spec_max_entries() == max_entries as nat,
            r.spec_ttl() == ttl,
            r.spec_entries() == Seq::<CacheEntry>::empty(),
            r.wf(),
    {
        let r = DocsCache { max_entries, ttl, entries: Vec::new() };
        proof {
            assert(r.entries@ =~= Seq::<CacheEntry>::empty());
        }
        r
    }

    /// Position of the first entry under the key, or the entry count.
    fn find_key(&self, package: &str, version: &str) -> (r: usize)
        ensures
            r as int == spec_find_key(self.entries@, package@, version@),
            r <= self.entries@.len(),
    {
        let ghost s = self.entries@;
        let n: usize = self.entries.len();
        let mut i: usize = 0;
        while i < n
            invariant
                n == s.len(),
                s == self.entries@,
                i <= n,
                forall|j: int| 0 <= j < i ==> !spec_key_eq(#[trigger] s[j], package@, version@),
            decreases n - i,
        {
            let pe = str_eq(self.entries[i].package.as_str(), package);
            let ve = str_eq(self.entries[i].version.as_str(), version);
            if pe && ve {
                proof {
                    lemma_find_key_is(s, package@, version@, i as int);
                }
                return i;
            }
            i = i + 1;
        }
        proof {
            lemma_find_key_absent(s, package@, version@);
        }
        n
    }

    /// Get a cached tree, if present and not expired.
    ///
    /// An expired entry is removed, not merely ignored; a hit renews the
    /// entry's `last_accessed` stamp.
    pub fn get(&mut self, package: &str, version: &str, now: u64) -> (r: Option<Arc<DocTree>>)
        ensures
            final(self).spec_max_entries() == old(self).spec_max_entries(),
            final(self).spec_ttl() == old(self).spec_ttl(),
            ({
                let s = old(self).spec_entries();
                let i = spec_find_key(s, package@, version@);
                match spec_lookup(s, old(self).spec_ttl(), package@, version@, now) {
                    Some(e) => r == Some(e.tree) && final(self).spec_entries() == s.update(
                        i,
                        spec_touched(e, now),
                    ),
                    None => r is None && final(self).spec_entries() == (if i < s.len() {
                        s.remove(i)
                    } else {
                        s
                    }),
                }
            }),
            old(self).wf() ==> final(self).wf(),
    {
        let ghost s = self.entries@;
        let i = self.find_key(package, version);
        proof {
            lemma_find_key_props(s, package@, version@);
        }
        if i == self.entries.len() {
            return None;
        }
        let fa = self.entries[i].fetched_at;
        let expired = now > fa && now - fa > self.ttl;
        if expired {
            self.entries.remove(i);
            proof {
                if old(self).wf() {
                    lemma_remove_unique(s, i as int);
                }
            }
            return None;
        }
        let e = self.entries.remove(i);
        let t = clone_arc(&e.tree);
        let e2 = CacheEntry {
            package: e.package,
            version: e.version,
            tree: e.tree,
            fetched_at: e.fetched_at,
            last_accessed: now,
        };
        self.entries.insert(i, e2);
        proof {
            assert(self.entries@ =~= s.update(i as int, spec_touched(s[i as int], now)));
            if old(self).wf() {
                lemma_update_same_key_unique(s, i as int, spec_touched(s[i as int], now));
            }
        }
        Some(t)
    }

    /// Insert a tree into the cache: purge expired entries, evict the
    /// least-recently-used entry if the cache is full and the key is new,
    /// then store the entry with fresh timestamps.
    #[verifier::rlimit(80)]
    pub fn insert(&mut self, package: String, version: String, tree: Arc<DocTree>, now: u64)
        ensures
            final(self).spec_max_entries() == old(self).spec_max_entries(),
            final(self).spec_ttl() == old(self).spec_ttl(),
            final(self).spec_entries() == spec_insert(
                old(self).spec_entries(),
                old(self).spec_max_entries(),
                old(self).spec_ttl(),
                now,
                (CacheEntry { package, version, tree, fetched_at: now, last_accessed: now }),
            ),
            old(self).wf() ==> final(self).wf(),
    {
        let ghost s0 = self.entries@;
        let ghost ttl = self.ttl;
        let e = CacheEntry { package, version, tree, fetched_at: now, last_accessed: now };
        let ghost ge = e;
        // Purge expired entries in place.
        let ghost orig = self.entries@;
        let mut i: usize = 0;
        let ghost k: int = 0;
        proof {
            assert(orig.take(0) =~= Seq::<CacheEntry>::empty());
            assert(self.entries@ =~= spec_purge(orig.take(0), ttl, now) + orig.skip(0));
        }
        #[verifier::loop_isolation(false)]
        while i < self.entries.len()
            invariant
                0 <= k <= orig.len(),
                i as int == spec_purge(orig.take(k), ttl, now).len(),
                self.entries@ =~= spec_purge(orig.take(k), ttl, now) + orig.skip(k),
                self.entries@.len() == i + orig.len() - k,
                self.ttl == ttl,
                self.max_entries == old(self).max_entries,
            decreases orig.len() - k,
        {
            proof {
                assert(self.entries@[i as int] == orig.skip(k)[0]);
                assert(orig.skip(k)[0] == orig[k]);
                lemma_purge_take(orig, ttl, now, k);
                assert(orig.skip(k).drop_first() =~= orig.skip(k + 1));
            }
            let fa = self.entries[i].fetched_at;
            let fresh = !(now > fa && now - fa > self.ttl);
            if fresh {
                i = i + 1;
            } else {
                self.entries.remove(i);
            }
            proof {
                k = k + 1;
                assert(self.entries@ =~= spec_purge(orig.take(k), ttl, now) + orig.skip(k));
            }
        }
        proof {
            assert(orig.take(orig.len() as int) =~= orig);
            assert(orig.skip(orig.len() as int).len() == 0);
            assert(self.entries@ =~= spec_purge(orig, ttl, now));
            if old(self).wf() {
                lemma_purge_unique(orig, ttl, now);
            }
        }
        let ghost purged = spec_purge(orig, ttl, now);
        // Evict the least-recently-used entry if the cache is full and the
        // incoming key is not already present.
        let existing = self.find_key(e.package.as_str(), e.version.as_str());
        let at_capacity = self.entries.len() >= self.max_entries && self.entries.len() > 0;
        let ghost evicting = purged.len() >= old(self).max_entries as nat && purged.len() > 0
            && spec_find_key(purged, ge.package@, ge.version@) == purged.len();
        if at_capacity && existing == self.entries.len() {
            let mut m: usize = 0;
            let mut j: usize = 1;
            proof {
                assert(purged.take(1).len() == 1);
                assert(spec_min_lru(purged.take(1)) == 0);
            }
            #[verifier::loop_isolation(false)]
            while j < self.entries.len()
                invariant
                    1 <= j <= purged.len(),
                    m < j,
                    m as int == spec_min_lru(purged.take(j as int)),
                decreases purged.len() - j,
            {
                proof {
                    lemma_min_lru_take(purged, j as int);
                    lemma_min_lru_props(purged.take(j as int));
                    assert(purged.take(j as int)[m as int] == purged[m as int]);
                    assert(purged.take(j as int + 1)[m as int] == purged[m as int]);
                    assert(purged.take(j as int + 1)[j as int] == purged[j as int]);
                }
                if self.entries[j].last_accessed < self.entries[m].last_accessed {
                    m = j;
                }
                j = j + 1;
            }
            proof {
                assert(purged.take(purged.len() as int) =~= purged);
                lemma_min_lru_props(purged);
            }
            self.entries.remove(m);
            proof {
                if old(self).wf() {
                    lemma_remove_unique(purged, m as int);
                }
            }
        }
        // Store the entry, replacing any entry already under the key.
        let ghost room = self.entries@;
        proof {
            assert(room =~= (if evicting {
                purged.remove(spec_min_lru(purged))
            } else {
                purged
            }));
        }
        let idx = self.find_key(e.package.as_str(), e.version.as_str());
        proof {
            lemma_find_key_props(room, ge.package@, ge.version@);
        }
        let at = idx < self.entries.len();
        if at {
            self.entries.remove(idx);
            self.entries.insert(idx, e);
            proof {
                assert(self.entries@ =~= room.update(idx as int, ge));
                if old(self).wf() {
                    lemma_update_same_key_unique(room, idx as int, ge);
                }
            }
        } else {
            self.entries.push(e);
            proof {
                if old(self).wf() {
                    assert forall|a: int, b: int|
                        #![trigger self.entries@[a], self.entries@[b]]
                        0 <= a < b < self.entries@.len() implies !spec_key_eq(
                        self.entries@[b],
                        self.entries@[a].package@,
                        self.entries@[a].version@,
                    ) by {
                        if b < room.len() {
                            assert(self.entries@[a] == room[a] && self.entries@[b] == room[b]);
                        } else {
                            assert(self.entries@[b] == ge);
                            assert(self.entries@[a] == room[a]);
                        }
                    }
                }
            }
        }
        proof {
            assert(self.entries@ =~= spec_insert(
                s0,
                old(self).max_entries as nat,
                ttl,
                now,
                ge,
            ));
        }
    }
}

proof fn lemma_remove_unique(s: Seq<CacheEntry>, i: int)
    requires
        0 <= i < s.len(),
        spec_keys_unique(s),
    ensures
        spec_keys_unique(s.remove(i)),
{
    let r = s.remove(i);
    assert forall|a: int, b: int|
        #![trigger r[a], r[b]]
        0 <= a < b < r.len() implies !spec_key_eq(
        r[b],
        r[a].package@,
        r[a].version@,
    ) by {
        let a2 = if a < i { a } else { a + 1 };
        let b2 = if b < i { b } else { b + 1 };
        assert(r[a] == s[a2]);
        assert(r[b] == s[b2]);
    }
}

proof fn lemma_update_same_key_unique(s: Seq<CacheEntry>, i: int, e: CacheEntry)
    requires
        0 <= i < s.len(),
        spec_keys_unique(s),
        e.package@ == s[i].package@,
        e.version@ == s[i].version@,
    ensures
        spec_keys_unique(s.update(i, e)),
{
    let u = s.update(i, e);
    assert forall|a: int, b: int|
        #![trigger u[a], u[b]]
        0 <= a < b < u.len() implies !spec_key_eq(
        u[b],
        u[a].package@,
        u[a].version@,
    ) by {
        assert(a != i ==> u[a] == s[a]);
        assert(b != i ==> u[b] == s[b]);
    }
}

impl DocsCache {
    /// Complete a get-or-fetch round after a miss: a fetched tree is
    /// cached under the key with fresh timestamps and returned; a fetch
    /// failure caches nothing and propagates unchanged.
    pub fn store_fetched(
        &mut self,
        package: String,
        version: String,
        fetched: Result<DocTree, DocsRsError>,
        now: u64,
    ) -> (r: Result<Arc<DocTree>, DocsRsError>)
        ensures
            final(self).spec_max_entries() == old(self).spec_max_entries(),
            final(self).spec_ttl() == old(self).spec_ttl(),
            match fetched {
                Ok(t) => r matches Ok(a) && a == t && final(self).spec_entries() == spec_insert(
                    old(self).spec_entries(),
                    old(self).spec_max_entries(),
                    old(self).spec_ttl(),
                    now,
                    (CacheEntry {
                        package,
                        version,
                        tree: r->Ok_0,
                        fetched_at: now,
                        last_accessed: now,
                    }),
                ),
                Err(e) => r == Err::<Arc<DocTree>, DocsRsError>(e) && final(self).spec_entries()
                    == old(self).spec_entries(),
            },
            old(self).wf() ==> final(self).wf(),
    {
        match fetched {
            Ok(t) => {
                let a = Arc::new(t);
                let a2 = clone_arc(&a);
                self.insert(package, version, a, now);
                Ok(a2)
            },
            Err(e) => Err(e),
        }
    }
}

/// After an insert at `now`, a lookup under the inserted key at any time
/// within the freshness window yields exactly the inserted tree: the
/// result of one fetch is retrievable without another.
pub proof fn lemma_insert_then_lookup(
    s: Seq<CacheEntry>,
    max: nat,
    ttl: u64,
    now: u64,
    e: CacheEntry,
    later: u64,
)
    requires
        e.fetched_at == now,
        e.last_accessed == now,
        later <= now + ttl,
    ensures
        spec_lookup(spec_insert(s, max, ttl, now, e), ttl, e.package@, e.version@, later)
            == Some(e),
{
    let purged = spec_purge(s, ttl, now);
    let room = if purged.len() >= max && purged.len() > 0 && spec_find_key(
        purged,
        e.package@,
        e.version@,
    ) == purged.len() {
        purged.remove(spec_min_lru(purged))
    } else {
        purged
    };
    let s2 = spec_upsert(room, e);
    lemma_find_key_props(room, e.package@, e.version@);
    let i = spec_find_key(room, e.package@, e.version@);
    if i < room.len() {
        assert(s2 == room.update(i, e));
        lemma_find_key_is(s2, e.package@, e.version@, i);
    } else {
        assert(s2 == room.push(e));
        lemma_find_key_is(s2, e.package@, e.version@, room.len() as int);
    }
}

/// A cache at capacity, on the insert of a new distinct key with nothing
/// expired, still holds exactly `max` entries, holds the new key, and no
/// longer holds the key of the previously least-recently-accessed entry.
pub proof fn lemma_capacity_eviction(
    s: Seq<CacheEntry>,
    max: nat,
    ttl: u64,
    now: u64,
    e: CacheEntry,
)
    requires
        max >= 1,
        s.len() == max,
        spec_keys_unique(s),
        forall|j: int| 0 <= j < s.len() ==> spec_fresh(#[trigger] s[j], ttl, now),
        spec_find_key(s, e.package@, e.version@) == s.len(),
    ensures
        spec_insert(s, max, ttl, now, e).len() == max,
        spec_find_key(spec_insert(s, max, ttl, now, e), e.package@, e.version@) < max,
        spec_find_key(
            spec_insert(s, max, ttl, now, e),
            s[spec_min_lru(s)].package@,
            s[spec_min_lru(s)].version@,
        ) == max,
{
    lemma_purge_all_fresh(s, ttl, now);
    assert(spec_purge(s, ttl, now) == s);
    lemma_min_lru_props(s);
    let m = spec_min_lru(s);
    let room = s.remove(m);
    lemma_find_key_props(s, e.package@, e.version@);
    assert(forall|j: int|
        0 <= j < room.len() ==> #[trigger] room[j] == (if j < m {
            s[j]
        } else {
            s[j + 1]
        })) by {
        assert(room =~= s.take(m) + s.skip(m + 1));
    }
    assert(forall|j: int| 0 <= j < room.len() ==> !spec_key_eq(#[trigger] room[j], e.package@,
        e.version@));
    lemma_find_key_absent(room, e.package@, e.version@);
    let s2 = spec_insert(s, max, ttl, now, e);
    assert(s2 == room.push(e));
    assert(s2.len() == max);
    lemma_find_key_is(s2, e.package@, e.version@, room.len() as int);
    let mp = s[m].package@;
    let mv = s[m].version@;
    assert(forall|j: int| 0 <= j < room.len() ==> !spec_key_eq(#[trigger] room[j], mp, mv)) by {
        assert(forall|j: int| 0 <= j < m ==> !spec_key_eq(#[trigger] s[m], s[j].package@,
            s[j].version@));
    }
    assert(!spec_key_eq(e, mp, mv)) by {
        assert(!spec_key_eq(s[m], e.package@, e.version@));
    }
    assert(forall|j: int| 0 <= j < s2.len() ==> !spec_key_eq(#[trigger] s2[j], mp, mv));
    lemma_find_key_absent(s2, mp, mv);
}

pub proof fn lemma_purge_all_fresh(s: Seq<CacheEntry>, ttl: u64, now: u64)
    requires
        forall|j: int| 0 <= j < s.len() ==> spec_fresh(#[trigger] s[j], ttl, now),
    ensures
        spec_purge(s, ttl, now) == s,
    decreases s.len(),
{
    if s.len() > 0 {
        assert(forall|j: int|
            0 <= j < s.drop_last().len() ==> spec_fresh(#[trigger] s.drop_last()[j], ttl, now));
        lemma_purge_all_fresh(s.drop_last(), ttl, now);
        assert(spec_purge(s, ttl, now) =~= s);
    } else {
        assert(spec_purge(s, ttl, now) =~= s);
    }
}

/// An entry queried past its freshness window yields nothing, and after
/// the purging `get` the key is gone entirely, so a second query also
/// yields nothing.
pub proof fn lemma_expired_entry_removed(
    s: Seq<CacheEntry>,
    ttl: u64,
    p: Seq<char>,
    v: Seq<char>,
    now: u64,
    later: u64,
)
    requires
        spec_keys_unique(s),
        spec_find_key(s, p, v) < s.len(),
        !spec_fresh(s[spec_find_key(s, p, v)], ttl, now),
    ensures
        spec_lookup(s, ttl, p, v, now) is None,
        spec_find_key(s.remove(spec_find_key(s, p, v)), p, v) == s.remove(
            spec_find_key(s, p, v),
        ).len(),
        spec_lookup(s.remove(spec_find_key(s, p, v)), ttl, p, v, later) is None,
{
    lemma_find_key_props(s, p, v);
    let i = spec_find_key(s, p, v);
    let r = s.remove(i);
    assert(forall|j: int|
        0 <= j < r.len() ==> #[trigger] r[j] == (if j < i {
            s[j]
        } else {
            s[j + 1]
        })) by {
        assert(r =~= s.take(i) + s.skip(i + 1));
    }
    assert(forall|j: int| 0 <= j < r.len() ==> !spec_key_eq(#[trigger] r[j], p, v)) by {
        assert(forall|j: int| i < j < s.len() ==> !spec_key_eq(#[trigger] s[j], s[i].package@,
            s[i].version@));
    }
    lemma_find_key_absent(r, p, v);
}


pub proof fn lemma_purge_len(s: Seq<CacheEntry>, ttl: u64, now: u64)
    ensures
        spec_purge(s, ttl, now).len() <= s.len(),
    decreases s.len(),
{
    if s.len() > 0 {
        lemma_purge_len(s.drop_last(), ttl, now);
    }
}

/// A lookup never yields a stale entry: whatever it returns is within the
/// freshness window at the queried time.
pub proof fn lemma_lookup_fresh(
    s: Seq<CacheEntry>,
    ttl: u64,
    p: Seq<char>,
    v: Seq<char>,
    now: u64,
)
    ensures
        spec_lookup(s, ttl, p, v, now) matches Some(e) ==> now <= e.fetched_at + ttl,
{
}

/// The cache never exceeds its capacity: an insert into a cache holding at
/// most `max` entries leaves at most `max` entries.
pub proof fn lemma_insert_capacity(
    s: Seq<CacheEntry>,
    max: nat,
    ttl: u64,
    now: u64,
    e: CacheEntry,
)
    requires
        max >= 1,
        s.len() <= max,
    ensures
        spec_insert(s, max, ttl, now, e).len() <= max,
{
    lemma_purge_len(s, ttl, now);
    let purged = spec_purge(s, ttl, now);
    if purged.len() >= max && purged.len() > 0 && spec_find_key(purged, e.package@, e.version@)
        == purged.len() {
        let m = spec_min_lru(purged);
        lemma_min_lru_props(purged);
        let room = purged.remove(m);
        lemma_find_key_props(purged, e.package@, e.version@);
        assert(forall|j: int|
            0 <= j < room.len() ==> #[trigger] room[j] == (if j < m {
                purged[j]
            } else {
                purged[j + 1]
            })) by {
            assert(room =~= purged.take(m) + purged.skip(m + 1));
        }
        assert(forall|j: int|
            0 <= j < room.len() ==> !spec_key_eq(#[trigger] room[j], e.package@, e.version@));
        lemma_find_key_absent(room, e.package@, e.version@);
    } else {
        let room = purged;
        lemma_find_key_props(room, e.package@, e.version@);
    }
}

} // verus!
