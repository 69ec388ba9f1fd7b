//! The fact cache: a capacity-bounded, least-recently-used store of fact
//! records keyed by (path, modification time, mode).

use vstd::prelude::*;

use crate::analyze::types::{AnalysisMode, AnalysisResult, AnalysisResultV};

verus! {

/// Cache identity: one file, at one modification time, in one mode. Any
/// change to any component is a different key.
#[derive(Hash, Eq, PartialEq, Debug, Clone)]
pub struct CacheKey {
    pub path: String,
    pub modified: u64,
    pub mode: AnalysisMode,
}

pub ghost struct CacheKeyV {
    pub path: Seq<char>,
    pub modified: int,
    pub mode: AnalysisMode,
}

impl View for CacheKey {
    type V = CacheKeyV;

    open spec fn view(&self) -> CacheKeyV {
        CacheKeyV { path: self.path@, modified: self.modified as int, mode: self.mode }
    }
}

pub open spec fn cache_key_v(path: Seq<char>, modified: int, mode: AnalysisMode) -> CacheKeyV {
    CacheKeyV { path, modified, mode }
}

#[verifier::external_type_specification]
#[verifier::external_body]
#[verifier::reject_recursive_types(K)]
#[verifier::reject_recursive_types(V)]
#[verifier::reject_recursive_types(S)]
pub struct ExLruCache<K, V, S>(lru::LruCache<K, V, S>);

/// What the store holds, most recently used first. Entries are kept
/// reference-counted so repeated hits never duplicate large records.
pub uninterp spec fn lru_entries(c: lru::LruCache<CacheKey, std::sync::Arc<AnalysisResult>, std::collections::hash_map::RandomState>) -> Seq<
    (CacheKeyV, AnalysisResultV),
>;

/// The bound the store was created with.
pub uninterp spec fn lru_capacity(c: lru::LruCache<CacheKey, std::sync::Arc<AnalysisResult>, std::collections::hash_map::RandomState>) -> int;

// The pure model of the store's behaviour, shared by the trusted contracts
// below and by the laws at the end of this file.

/// Index of the entry holding `k`, scanning from the most recent.
pub open spec fn cache_find(es: Seq<(CacheKeyV, AnalysisResultV)>, k: CacheKeyV) -> Option<int>
    decreases es.len(),
{
    if es.len() == 0 {
        None
    } else if es[0].0 == k {
        Some(0)
    } else {
        match cache_find(es.drop_first(), k) {
            Some(i) => Some(i + 1),
            None => None,
        }
    }
}

pub open spec fn cache_lookup(es: Seq<(CacheKeyV, AnalysisResultV)>, k: CacheKeyV) -> Option<
    AnalysisResultV,
> {
    match cache_find(es, k) {
        Some(i) => Some(es[i].1),
        None => None,
    }
}

/// The store after a lookup: a hit moves its entry to the front.
pub open spec fn cache_after_get(es: Seq<(CacheKeyV, AnalysisResultV)>, k: CacheKeyV) -> Seq<
    (CacheKeyV, AnalysisResultV),
> {
    match cache_find(es, k) {
        Some(i) => seq![es[i]] + (es.take(i) + es.skip(i + 1)),
        None => es,
    }
}

/// The store after an insert: an existing key is replaced and moved to the
/// front; a fresh key enters at the front, evicting the least recently used
/// entry when the store is full.
pub open spec fn cache_put(
    es: Seq<(CacheKeyV, AnalysisResultV)>,
    cap: int,
    k: CacheKeyV,
    v: AnalysisResultV,
) -> Seq<(CacheKeyV, AnalysisResultV)> {
    match cache_find(es, k) {
        Some(i) => seq![(k, v)] + (es.take(i) + es.skip(i + 1)),
        None => if es.len() >= cap {
            seq![(k, v)] + es.drop_last()
        } else {
            seq![(k, v)] + es
        },
    }
}

pub open spec fn keys_distinct(es: Seq<(CacheKeyV, AnalysisResultV)>) -> bool {
    forall|i: int, j: int| 0 <= i < j < es.len() ==> (#[trigger] es[i]).0 != (#[trigger] es[j]).0
}

/// What `cache_find` returns: the first index holding the key, if any.
pub proof fn lemma_find_first(es: Seq<(CacheKeyV, AnalysisResultV)>, k: CacheKeyV)
    ensures
        (match cache_find(es, k) {
            Some(i) => 0 <= i < es.len() && es[i].0 == k && (forall|j: int|
                0 <= j < i ==> (#[trigger] es[j]).0 != k),
            None => forall|j: int| 0 <= j < es.len() ==> (#[trigger] es[j]).0 != k,
        }),
    decreases es.len(),
{
    if es.len() > 0 && es[0].0 != k {
        lemma_find_first(es.drop_first(), k);
        match cache_find(es.drop_first(), k) {
            Some(i) => {
                assert(es.drop_first()[i] == es[i + 1]);
                assert forall|j: int| 0 <= j < i + 1 implies (#[trigger] es[j]).0 != k by {
                    if j > 0 {
                        assert(es.drop_first()[j - 1] == es[j]);
                    }
                }
            },
            None => {
                assert forall|j: int| 0 <= j < es.len() implies (#[trigger] es[j]).0 != k by {
                    if j > 0 {
                        assert(es.drop_first()[j - 1] == es[j]);
                    }
                }
            },
        }
    }
}

/// A key present at `j` and nowhere earlier is found at `j`.
pub proof fn lemma_find_at(es: Seq<(CacheKeyV, AnalysisResultV)>, k: CacheKeyV, j: int)
    requires
        0 <= j < es.len(),
        es[j].0 == k,
        forall|i: int| 0 <= i < j ==> (#[trigger] es[i]).0 != k,
    ensures
        cache_find(es, k) == Some(j),
    decreases j,
{
    if j > 0 {
        lemma_find_at(es.drop_first(), k, j - 1);
    }
}

proof fn lemma_promote_distinct(es: Seq<(CacheKeyV, AnalysisResultV)>, i: int)
    requires
        keys_distinct(es),
        0 <= i < es.len(),
    ensures
        keys_distinct(seq![es[i]] + (es.take(i) + es.skip(i + 1))),
        (seq![es[i]] + (es.take(i) + es.skip(i + 1))).len() == es.len(),
{
    let es2 = seq![es[i]] + (es.take(i) + es.skip(i + 1));
    assert forall|p: int, q: int| 0 <= p < q < es2.len() implies (#[trigger] es2[p]).0 != (
    #[trigger] es2[q]).0 by {
        let op = if p == 0 {
            i
        } else if p <= i {
            p - 1
        } else {
            p
        };
        let oq = if q <= i {
            q - 1
        } else {
            q
        };
        assert(es2[p] == es[op]);
        assert(es2[q] == es[oq]);
        assert(op != oq);
    }
}

proof fn lemma_put_replace_distinct(
    es: Seq<(CacheKeyV, AnalysisResultV)>,
    i: int,
    k: CacheKeyV,
    v: AnalysisResultV,
)
    requires
        keys_distinct(es),
        0 <= i < es.len(),
        es[i].0 == k,
    ensures
        keys_distinct(seq![(k, v)] + (es.take(i) + es.skip(i + 1))),
        (seq![(k, v)] + (es.take(i) + es.skip(i + 1))).len() == es.len(),
{
    let es2 = seq![(k, v)] + (es.take(i) + es.skip(i + 1));
    assert forall|p: int, q: int| 0 <= p < q < es2.len() implies (#[trigger] es2[p]).0 != (
    #[trigger] es2[q]).0 by {
        let oq = if q <= i {
            q - 1
        } else {
            q
        };
        assert(es2[q] == es[oq]);
        if p == 0 {
            assert(es2[p].0 == es[i].0);
            assert(oq != i);
        } else {
            let op = if p <= i {
                p - 1
            } else {
                p
            };
            assert(es2[p] == es[op]);
            assert(op != oq);
        }
    }
}

/// The store's shape survives any lookup.
pub proof fn lemma_after_get_wf(es: Seq<(CacheKeyV, AnalysisResultV)>, k: CacheKeyV)
    requires
        keys_distinct(es),
    ensures
        keys_distinct(cache_after_get(es, k)),
        cache_after_get(es, k).len() == es.len(),
{
    lemma_find_first(es, k);
    if cache_find(es, k) is Some {
        let i = cache_find(es, k)->Some_0;
        lemma_promote_distinct(es, i);
    }
}

/// The store's shape survives any insert, and it never grows past the
/// capacity.
pub proof fn lemma_put_wf(
    es: Seq<(CacheKeyV, AnalysisResultV)>,
    cap: int,
    k: CacheKeyV,
    v: AnalysisResultV,
)
    requires
        keys_distinct(es),
        es.len() <= cap,
        cap >= 1,
    ensures
        keys_distinct(cache_put(es, cap, k, v)),
        cache_put(es, cap, k, v).len() <= cap,
{
    lemma_find_first(es, k);
    match cache_find(es, k) {
        Some(i) => {
            lemma_put_replace_distinct(es, i, k, v);
        },
        None => {
            if es.len() >= cap {
                let es2 = seq![(k, v)] + es.drop_last();
                assert forall|p: int, q: int| 0 <= p < q < es2.len() implies (
                #[trigger] es2[p]).0 != (#[trigger] es2[q]).0 by {
                    if p == 0 {
                        assert(es2[q] == es[q - 1]);
                    } else {
                        assert(es2[p] == es[p - 1]);
                        assert(es2[q] == es[q - 1]);
                    }
                }
            } else {
                let es2 = seq![(k, v)] + es;
                assert forall|p: int, q: int| 0 <= p < q < es2.len() implies (
                #[trigger] es2[p]).0 != (#[trigger] es2[q]).0 by {
                    if p == 0 {
                        assert(es2[q] == es[q - 1]);
                    } else {
                        assert(es2[p] == es[p - 1]);
                        assert(es2[q] == es[q - 1]);
                    }
                }
            }
        },
    }
}

// The trusted boundary to the outside store.

/// Relies on lru::LruCache::new: an empty store bounded at `cap` entries.
#[verifier::external_body]
fn lru_new(cap: usize) -> (c: lru::LruCache<CacheKey, std::sync::Arc<AnalysisResult>, std::collections::hash_map::RandomState>)
    requires
        1 <= cap,
    ensures
        lru_entries(c) == Seq::<(CacheKeyV, AnalysisResultV)>::empty(),
        lru_capacity(c) == cap as int,
{
    lru::LruCache::with_hasher(
        std::num::NonZeroUsize::new(cap).unwrap(),
        std::collections::hash_map::RandomState::new(),
    )
}

/// Relies on lru::LruCache::get: a hit moves the entry to the front of the
/// recency order and hands back the stored record (cloned here); a miss
/// leaves the store unchanged.
#[verifier::external_body]
fn lru_get(c: &mut lru::LruCache<CacheKey, std::sync::Arc<AnalysisResult>, std::collections::hash_map::RandomState>, key: &CacheKey) -> (r: Option<
    AnalysisResult,
>)
    ensures
        lru_capacity(*final(c)) == lru_capacity(*old(c)),
        lru_entries(*final(c)) == cache_after_get(lru_entries(*old(c)), key@),
        (match r {
            Some(v) => cache_lookup(lru_entries(*old(c)), key@) == Some(v@),
            None => cache_lookup(lru_entries(*old(c)), key@) is None,
        }),
{
    c.get(key).map(|a| (**a).clone())
}

/// Relies on lru::LruCache::put: an existing key's entry is replaced and
/// moved to the front; a fresh key is inserted at the front, evicting the
/// least recently used entry once the store is at capacity.
#[verifier::external_body]
fn lru_put(c: &mut lru::LruCache<CacheKey, std::sync::Arc<AnalysisResult>, std::collections::hash_map::RandomState>, key: CacheKey, value: &AnalysisResult)
    ensures
        lru_capacity(*final(c)) == lru_capacity(*old(c)),
        lru_entries(*final(c)) == cache_put(
            lru_entries(*old(c)),
            lru_capacity(*old(c)),
            key@,
            value@,
        ),
{
    c.put(key, std::sync::Arc::new(value.clone()));
}

/// The fact cache. Callers hand in the key components as plain values; the
/// whole store's behaviour is specified over `entries`, most recent first.
pub struct AnalysisCache {
    store: lru::LruCache<CacheKey, std::sync::Arc<AnalysisResult>, std::collections::hash_map::RandomState>,
    max_size: usize,
}

impl AnalysisCache {
    pub closed spec fn entries(&self) -> Seq<(CacheKeyV, AnalysisResultV)> {
        lru_entries(self.store)
    }

    pub closed spec fn capacity(&self) -> int {
        lru_capacity(self.store)
    }

    pub open spec fn wf(&self) -> bool {
        &&& self.capacity() >= 1
        &&& self.entries().len() <= self.capacity()
        &&& keys_distinct(self.entries())
    }

    /// A requested capacity of zero is invalid and falls back to the
    /// default of 100; construction never fails.
    pub fn new(max_size: usize) -> (r: Self)
        ensures
            r.wf(),
            r.entries() == Seq::<(CacheKeyV, AnalysisResultV)>::empty(),
            r.capacity() == if max_size == 0 {
                100int
            } else {
                max_size as int
            },
    {
        let cap: usize = if max_size == 0 {
            100
        } else {
            max_size
        };
        AnalysisCache { store: lru_new(cap), max_size }
    }

    /// Look one key up; a hit returns an independent copy of the stored
    /// record and refreshes the entry's recency.
    pub fn get(&mut self, path: &str, modified: u64, mode: &AnalysisMode) -> (r: Option<
        AnalysisResult,
    >)
        requires
            old(self).wf(),
        ensures
            final(self).wf(),
            final(self).capacity() == old(self).capacity(),
            final(self).entries() == cache_after_get(
                old(self).entries(),
                cache_key_v(path@, modified as int, *mode),
            ),
            (match r {
                Some(v) => cache_lookup(
                    old(self).entries(),
                    cache_key_v(path@, modified as int, *mode),
                ) == Some(v@),
                None => cache_lookup(
                    old(self).entries(),
                    cache_key_v(path@, modified as int, *mode),
                ) is None,
            }),
    {
        let key = CacheKey { path: String::from_str(path), modified, mode: *mode };
        let r = lru_get(&mut self.store, &key);
        proof {
            lemma_after_get_wf(old(self).entries(), key@);
        }
        r
    }

    /// Store one record under its key.
    pub fn put(&mut self, path: String, modified: u64, mode: &AnalysisMode, result: &AnalysisResult)
        requires
            old(self).wf(),
        ensures
            final(self).wf(),
            final(self).capacity() == old(self).capacity(),
            final(self).entries() == cache_put(
                old(self).entries(),
                old(self).capacity(),
                cache_key_v(path@, modified as int, *mode),
                result@,
            ),
    {
        let ghost path_v = path@;
        let key = CacheKey { path, modified, mode: *mode };
        proof {
            assert(key@ == cache_key_v(path_v, modified as int, *mode));
        }
        lru_put(&mut self.store, key, result);
        proof {
            lemma_put_wf(
                old(self).entries(),
                old(self).capacity(),
                cache_key_v(path_v, modified as int, *mode),
                result@,
            );
        }
    }
}

impl Default for AnalysisCache {
    /// The default cache holds 100 entries.
    fn default() -> (r: Self)
        ensures
            r.wf(),
            r.entries() == Seq::<(CacheKeyV, AnalysisResultV)>::empty(),
            r.capacity() == 100,
    {
        Self::new(100)
    }
}

// The laws of the store.

/// Law: after storing a record, looking the identical key up returns that
/// record, whatever the store held before.
pub proof fn lemma_cache_identity(
    es: Seq<(CacheKeyV, AnalysisResultV)>,
    cap: int,
    k: CacheKeyV,
    v: AnalysisResultV,
)
    requires
        cap >= 1,
    ensures
        cache_lookup(cache_put(es, cap, k, v), k) == Some(v),
{
    let es2 = cache_put(es, cap, k, v);
    assert(es2[0] == (k, v));
    assert(cache_find(es2, k) == Some(0int));
}

/// Law: a key absent from the store is still absent after a record is
/// stored under a different key, so changing any one of path, time or mode
/// misses.
pub proof fn lemma_cache_distinct_key_miss(
    es: Seq<(CacheKeyV, AnalysisResultV)>,
    cap: int,
    k: CacheKeyV,
    v: AnalysisResultV,
    k2: CacheKeyV,
)
    requires
        cap >= 1,
        k2 != k,
        cache_find(es, k2) is None,
    ensures
        cache_lookup(cache_put(es, cap, k, v), k2) is None,
{
    lemma_find_first(es, k2);
    lemma_find_first(es, k);
    let es2 = cache_put(es, cap, k, v);
    assert forall|j: int| 0 <= j < es2.len() implies (#[trigger] es2[j]).0 != k2 by {
        if j > 0 {
            match cache_find(es, k) {
                Some(i) => {
                    let oj = if j <= i {
                        j - 1
                    } else {
                        j
                    };
                    assert(es2[j] == es[oj]);
                },
                None => {
                    assert(es2[j] == es[j - 1]);
                },
            }
        }
    }
    lemma_find_first(es2, k2);
    if cache_find(es2, k2) is Some {
        let i = cache_find(es2, k2)->Some_0;
        assert(es2[i].0 != k2);
    }
}

/// Law: storing a fresh key into a full store keeps every entry but the
/// least recently used one, which is evicted; the evicted key then misses
/// and every other key still hits.
pub proof fn lemma_cache_eviction(
    es: Seq<(CacheKeyV, AnalysisResultV)>,
    cap: int,
    k: CacheKeyV,
    v: AnalysisResultV,
)
    requires
        cap >= 1,
        es.len() == cap,
        keys_distinct(es),
        cache_find(es, k) is None,
    ensures
        cache_put(es, cap, k, v) == seq![(k, v)] + es.drop_last(),
        cache_lookup(cache_put(es, cap, k, v), es.last().0) is None,
        forall|j: int| 0 <= j < es.len() - 1 ==> cache_lookup(
            cache_put(es, cap, k, v),
            (#[trigger] es[j]).0,
        ) == Some(es[j].1),
{
    lemma_find_first(es, k);
    let es2 = cache_put(es, cap, k, v);
    assert(es2 == seq![(k, v)] + es.drop_last());
    let lru_key = es.last().0;
    assert forall|j: int| 0 <= j < es2.len() implies (#[trigger] es2[j]).0 != lru_key by {
        if j == 0 {
            assert(es[es.len() - 1].0 == lru_key);
        } else {
            assert(es2[j] == es[j - 1]);
            assert(es[j - 1].0 != es[es.len() - 1].0);
        }
    }
    lemma_find_first(es2, lru_key);
    if cache_find(es2, lru_key) is Some {
        let i = cache_find(es2, lru_key)->Some_0;
        assert(es2[i].0 != lru_key);
    }
    assert forall|j: int| 0 <= j < es.len() - 1 implies cache_lookup(es2, (#[trigger] es[j]).0)
        == Some(es[j].1) by {
        assert(es2[j + 1] == es[j]);
        assert forall|i: int| 0 <= i < j + 1 implies (#[trigger] es2[i]).0 != es[j].0 by {
            if i > 0 {
                assert(es2[i] == es[i - 1]);
            }
        }
        lemma_find_at(es2, es[j].0, j + 1);
    }
}


/// Law: a lookup of one key moves nothing in or out, so every other key's
/// record is exactly where it was.
pub proof fn lemma_cache_get_preserves_other(
    es: Seq<(CacheKeyV, AnalysisResultV)>,
    k: CacheKeyV,
    k2: CacheKeyV,
)
    requires
        keys_distinct(es),
        k2 != k,
    ensures
        cache_lookup(cache_after_get(es, k), k2) == cache_lookup(es, k2),
{
    lemma_find_first(es, k);
    lemma_find_first(es, k2);
    match cache_find(es, k) {
        None => {},
        Some(i) => {
            let es2 = seq![es[i]] + (es.take(i) + es.skip(i + 1));
            match cache_find(es, k2) {
                None => {
                    assert forall|p: int| 0 <= p < es2.len() implies (#[trigger] es2[p]).0 != k2 by {
                        let op = if p == 0 {
                            i
                        } else if p <= i {
                            p - 1
                        } else {
                            p
                        };
                        assert(es2[p] == es[op]);
                    }
                    lemma_find_first(es2, k2);
                    if cache_find(es2, k2) is Some {
                        let q = cache_find(es2, k2)->Some_0;
                        assert(es2[q].0 != k2);
                    }
                },
                Some(j) => {
                    let nj = if j < i {
                        j + 1
                    } else {
                        j
                    };
                    assert(es2[nj] == es[j]);
                    assert forall|p: int| 0 <= p < nj implies (#[trigger] es2[p]).0 != k2 by {
                        let op = if p == 0 {
                            i
                        } else if p <= i {
                            p - 1
                        } else {
                            p
                        };
                        assert(es2[p] == es[op]);
                        if p != 0 && op >= j {
                            assert(es[op].0 != es[j].0);
                        }
                    }
                    lemma_find_at(es2, k2, nj);
                },
            }
        },
    }
}

/// Law: an insert under one key touches no other key's record, except that
/// a fresh insert into a full store evicts the least recently used entry.
/// So a record survives any run of fewer-than-capacity distinct inserts
/// after it was stored or last looked up.
pub proof fn lemma_cache_put_preserves_other(
    es: Seq<(CacheKeyV, AnalysisResultV)>,
    cap: int,
    k: CacheKeyV,
    v: AnalysisResultV,
    k2: CacheKeyV,
)
    requires
        keys_distinct(es),
        es.len() <= cap,
        cap >= 1,
        k2 != k,
        es.len() >= cap && cache_find(es, k) is None ==> es.last().0 != k2,
    ensures
        cache_lookup(cache_put(es, cap, k, v), k2) == cache_lookup(es, k2),
{
    lemma_find_first(es, k);
    lemma_find_first(es, k2);
    match cache_find(es, k) {
        Some(i) => {
            let es2 = seq![(k, v)] + (es.take(i) + es.skip(i + 1));
            match cache_find(es, k2) {
                None => {
                    assert forall|p: int| 0 <= p < es2.len() implies (#[trigger] es2[p]).0 != k2 by {
                        if p != 0 {
                            let op = if p <= i {
                                p - 1
                            } else {
                                p
                            };
                            assert(es2[p] == es[op]);
                        }
                    }
                    lemma_find_first(es2, k2);
                    if cache_find(es2, k2) is Some {
                        let q = cache_find(es2, k2)->Some_0;
                        assert(es2[q].0 != k2);
                    }
                },
                Some(j) => {
                    assert(j != i);
                    let nj = if j < i {
                        j + 1
                    } else {
                        j
                    };
                    assert(es2[nj] == es[j]);
                    assert forall|p: int| 0 <= p < nj implies (#[trigger] es2[p]).0 != k2 by {
                        if p != 0 {
                            let op = if p <= i {
                                p - 1
                            } else {
                                p
                            };
                            assert(es2[p] == es[op]);
                            if op >= j {
                                assert(es[op].0 != es[j].0);
                            }
                        }
                    }
                    lemma_find_at(es2, k2, nj);
                },
            }
        },
        None => {
            let es2 = cache_put(es, cap, k, v);
            match cache_find(es, k2) {
                None => {
                    assert forall|p: int| 0 <= p < es2.len() implies (#[trigger] es2[p]).0 != k2 by {
                        if p != 0 {
                            assert(es2[p] == es[p - 1]);
                        }
                    }
                    lemma_find_first(es2, k2);
                    if cache_find(es2, k2) is Some {
                        let q = cache_find(es2, k2)->Some_0;
                        assert(es2[q].0 != k2);
                    }
                },
                Some(j) => {
                    if es.len() >= cap {
                        assert(es[j].0 != es[es.len() - 1].0 || j == es.len() - 1);
                        assert(j < es.len() - 1);
                    }
                    assert(es2[j + 1] == es[j]);
                    assert forall|p: int| 0 <= p < j + 1 implies (#[trigger] es2[p]).0 != k2 by {
                        if p != 0 {
                            assert(es2[p] == es[p - 1]);
                        }
                    }
                    lemma_find_at(es2, k2, j + 1);
                },
            }
        },
    }
}
} // verus!
