//! A local-memory key/value cache with per-entry expiry.
//!
//! The cache is a value of its own; the clock is read by the caller and handed
//! in as `now`, in seconds since the Unix epoch. An entry's `expires_at` of `0`
//! means that it never expires.

use vstd::prelude::*;
use crate::text::{i64_to_string, int_str, owned, parse_i64, parse_i64_str, str_eq};

verus! {

/// An entry is live at `now` when it never expires or expires later.
pub open spec fn is_live(expires_at: u64, now: u64) -> bool {
    expires_at == 0 || expires_at > now
}

/// The expiry stamp for a timeout given at `now`: `0` (never) for a zero
/// timeout, else `now + timeout_secs`.
pub open spec fn expiry_for(now: u64, timeout_secs: u64) -> int {
    if timeout_secs == 0 { 0 } else { now + timeout_secs }
}

/// The entries of `m` that are live at `now`.
pub open spec fn evicted(m: Map<Seq<char>, (Seq<char>, u64)>, now: u64) -> Map<Seq<char>, (Seq<char>, u64)> {
    Map::new(|k: Seq<char>| m.contains_key(k) && is_live(m[k].1, now), |k: Seq<char>| m[k])
}

/// The value stored under `key` in `m`, if any.
pub open spec fn lookup(m: Map<Seq<char>, (Seq<char>, u64)>, key: Seq<char>) -> Option<Seq<char>> {
    if m.contains_key(key) { Some(m[key].0) } else { None }
}

struct CacheEntry {
    key: String,
    value: String,
    expires_at: u64,
}

/// A key/value store of strings; each entry carries its expiry stamp.
pub struct LocMemCache {
    entries: Vec<CacheEntry>,
}

spec fn entries_map(s: Seq<CacheEntry>) -> Map<Seq<char>, (Seq<char>, u64)>
    decreases s.len(),
{
    if s.len() == 0 {
        Map::empty()
    } else {
        entries_map(s.drop_last()).insert(s.last().key@, (s.last().value@, s.last().expires_at))
    }
}

spec fn keys_unique(s: Seq<CacheEntry>) -> bool {
    forall|i: int, j: int| 0 <= i < j < s.len() ==> s[i].key@ != s[j].key@
}

proof fn lemma_entries_map_keys(s: Seq<CacheEntry>)
    requires
        keys_unique(s),
    ensures
        forall|k: Seq<char>| #[trigger] entries_map(s).contains_key(k) <==> exists|i: int| 0 <= i < s.len() && s[i].key@ == k,
        forall|i: int| 0 <= i < s.len() ==> #[trigger] entries_map(s)[s[i].key@] == (s[i].value@, s[i].expires_at),
    decreases s.len(),
{
    if s.len() > 0 {
        let p = s.drop_last();
        let last = s.last();
        assert(keys_unique(p));
        lemma_entries_map_keys(p);
        assert(forall|i: int| 0 <= i < p.len() ==> p[i] == s[i]);
        assert(entries_map(s) == entries_map(p).insert(last.key@, (last.value@, last.expires_at)));
        assert forall|k: Seq<char>| #[trigger] entries_map(s).contains_key(k) <==> exists|i: int| 0 <= i < s.len() && s[i].key@ == k by {
            if k == last.key@ {
                assert(s[s.len() - 1].key@ == k);
            } else {
                if entries_map(p).contains_key(k) {
                    let i = choose|i: int| 0 <= i < p.len() && p[i].key@ == k;
                    assert(s[i].key@ == k);
                }
                if exists|i: int| 0 <= i < s.len() && s[i].key@ == k {
                    let i = choose|i: int| 0 <= i < s.len() && s[i].key@ == k;
                    assert(i != s.len() - 1);
                    assert(p[i].key@ == k);
                }
            }
        }
        assert forall|i: int| 0 <= i < s.len() implies #[trigger] entries_map(s)[s[i].key@] == (s[i].value@, s[i].expires_at) by {
            if i < s.len() - 1 {
                assert(p[i] == s[i]);
                assert(s[i].key@ != last.key@);
                assert(entries_map(p)[p[i].key@] == (p[i].value@, p[i].expires_at));
            }
        }
    }
}

proof fn lemma_entries_map_update(s: Seq<CacheEntry>, i: int, e: CacheEntry)
    requires
        keys_unique(s),
        0 <= i < s.len(),
        s[i].key@ == e.key@,
    ensures
        keys_unique(s.update(i, e)),
        entries_map(s.update(i, e)) == entries_map(s).insert(e.key@, (e.value@, e.expires_at)),
{
    let t = s.update(i, e);
    assert(keys_unique(t));
    lemma_entries_map_keys(s);
    lemma_entries_map_keys(t);
    assert forall|k: Seq<char>| #[trigger] entries_map(t).contains_key(k) == entries_map(s).insert(e.key@, (e.value@, e.expires_at)).contains_key(k) by {
        if entries_map(t).contains_key(k) {
            let j = choose|j: int| 0 <= j < t.len() && t[j].key@ == k;
            if j != i {
                assert(s[j].key@ == k);
            }
        }
        if entries_map(s).contains_key(k) {
            let j = choose|j: int| 0 <= j < s.len() && s[j].key@ == k;
            assert(t[j].key@ == k);
        }
        if k == e.key@ {
            assert(t[i].key@ == k);
        }
    }
    assert forall|k: Seq<char>| #[trigger] entries_map(t).contains_key(k) implies entries_map(t)[k] == entries_map(s).insert(e.key@, (e.value@, e.expires_at))[k] by {
        let j = choose|j: int| 0 <= j < t.len() && t[j].key@ == k;
        assert(entries_map(t)[t[j].key@] == (t[j].value@, t[j].expires_at));
        if j != i {
            assert(entries_map(s)[s[j].key@] == (s[j].value@, s[j].expires_at));
        }
    }
    assert(entries_map(t) =~= entries_map(s).insert(e.key@, (e.value@, e.expires_at)));
}

proof fn lemma_entries_map_remove(s: Seq<CacheEntry>, i: int)
    requires
        keys_unique(s),
        0 <= i < s.len(),
    ensures
        keys_unique(s.remove(i)),
        entries_map(s.remove(i)) == entries_map(s).remove(s[i].key@),
{
    let t = s.remove(i);
    assert forall|a: int, b: int| 0 <= a < b < t.len() implies t[a].key@ != t[b].key@ by {
        let a2 = if a < i { a } else { a + 1 };
        let b2 = if b < i { b } else { b + 1 };
        assert(t[a] == s[a2] && t[b] == s[b2]);
    }
    lemma_entries_map_keys(s);
    lemma_entries_map_keys(t);
    let m = entries_map(s).remove(s[i].key@);
    assert forall|k: Seq<char>| #[trigger] entries_map(t).contains_key(k) == m.contains_key(k) by {
        if entries_map(t).contains_key(k) {
            let j = choose|j: int| 0 <= j < t.len() && t[j].key@ == k;
            let j2 = if j < i { j } else { j + 1 };
            assert(s[j2].key@ == k);
            assert(j2 != i);
        }
        if m.contains_key(k) {
            let j = choose|j: int| 0 <= j < s.len() && s[j].key@ == k;
            assert(j != i);
            let j2 = if j < i { j } else { j - 1 };
            assert(t[j2].key@ == k);
        }
    }
    assert forall|k: Seq<char>| #[trigger] entries_map(t).contains_key(k) implies entries_map(t)[k] == m[k] by {
        let j = choose|j: int| 0 <= j < t.len() && t[j].key@ == k;
        let j2 = if j < i { j } else { j + 1 };
        assert(t[j] == s[j2]);
        assert(entries_map(t)[t[j].key@] == (t[j].value@, t[j].expires_at));
        assert(entries_map(s)[s[j2].key@] == (s[j2].value@, s[j2].expires_at));
    }
    assert(entries_map(t) =~= m);
}

impl View for LocMemCache {
    type V = Map<Seq<char>, (Seq<char>, u64)>;

    closed spec fn view(&self) -> Map<Seq<char>, (Seq<char>, u64)> {
        entries_map(self.entries@)
    }
}

impl LocMemCache {
    /// The store is well formed: no key is held twice.
    pub closed spec fn wf(&self) -> bool {
        keys_unique(self.entries@)
    }

    /// An empty cache.
    pub fn new() -> (r: Self)
        ensures
            r.wf(),
            r@ == Map::<Seq<char>, (Seq<char>, u64)>::empty(),
    {
        LocMemCache { entries: Vec::new() }
    }

    /// The index of the entry for `key`, if there is one.
    fn position(&self, key: &str) -> (r: Option<usize>)
        requires
            self.wf(),
        ensures
            match r {
                Some(i) => i < self.entries@.len() && self.entries@[i as int].key@ == key@,
                None => !self@.contains_key(key@),
            },
    {
        let mut i: usize = 0;
        while i < self.entries.len()
            invariant
                i <= self.entries@.len(),
                forall|j: int| 0 <= j < i ==> self.entries@[j].key@ != key@,
            decreases self.entries.len() - i,
        {
            if str_eq(self.entries[i].key.as_str(), key) {
                return Some(i);
            }
            i = i + 1;
        }
        proof { lemma_entries_map_keys(self.entries@); }
        None
    }

    /// Stores `value` under `key` with the given expiry stamp.
    fn put(&mut self, key: &str, value: &str, expires_at: u64)
        requires
            old(self).wf(),
        ensures
            final(self).wf(),
            final(self)@ == old(self)@.insert(key@, (value@, expires_at)),
    {
        let e = CacheEntry { key: owned(key), value: owned(value), expires_at };
        match self.position(key) {
            Some(i) => {
                proof { lemma_entries_map_update(self.entries@, i as int, e); }
                self.entries.set(i, e);
            },
            None => {
                proof { lemma_entries_map_keys(self.entries@); }
                let ghost before = self.entries@;
                self.entries.push(e);
                assert(self.entries@.drop_last() =~= before);
                assert forall|a: int, b: int| 0 <= a < b < self.entries@.len() implies
                    self.entries@[a].key@ != self.entries@[b].key@ by {
                    if b == before.len() {
                        assert(entries_map(before).contains_key(before[a].key@));
                    }
                }
            },
        }
    }

    /// Drops the entry for `key`, if any.
    fn drop_key(&mut self, key: &str)
        requires
            old(self).wf(),
        ensures
            final(self).wf(),
            final(self)@ == old(self)@.remove(key@),
    {
        match self.position(key) {
            Some(i) => {
                proof { lemma_entries_map_remove(self.entries@, i as int); }
                self.entries.remove(i);
            },
            None => {
                assert(self@.remove(key@) =~= self@);
            },
        }
    }

    /// Drops every entry that is not live at `now`.
    fn evict_expired(&mut self, now: u64)
        requires
            old(self).wf(),
        ensures
            final(self).wf(),
            final(self)@ == evicted(old(self)@, now),
    {
        let ghost s = self.entries@;
        let mut kept: Vec<CacheEntry> = Vec::new();
        let mut i: usize = 0;
        while i < self.entries.len()
            invariant
                self.entries@ == s,
                keys_unique(s),
                i <= s.len(),
                keys_unique(kept@),
                entries_map(kept@) == evicted(entries_map(s.take(i as int)), now),
                forall|x: int| 0 <= x < kept@.len() ==> exists|y: int| 0 <= y < i && #[trigger] kept@[x].key@ == s[y].key@,
            decreases s.len() - i,
        {
            let e = &self.entries[i];
            let ghost prefix = s.take(i as int);
            assert(s.take(i + 1).drop_last() =~= prefix);
            assert(keys_unique(prefix));
            proof { lemma_entries_map_keys(prefix); }
            assert(!entries_map(prefix).contains_key(s[i as int].key@));
            if e.expires_at == 0 || e.expires_at > now {
                let ghost before = kept@;
                kept.push(CacheEntry { key: e.key.clone(), value: e.value.clone(), expires_at: e.expires_at });
                assert(kept@.drop_last() =~= before);
                assert forall|a: int, b: int| 0 <= a < b < kept@.len() implies kept@[a].key@ != kept@[b].key@ by {
                    if b == before.len() {
                        let y = choose|y: int| 0 <= y < i && #[trigger] before[a].key@ == s[y].key@;
                    }
                }
                assert forall|x: int| 0 <= x < kept@.len() implies exists|y: int| 0 <= y < i + 1 && #[trigger] kept@[x].key@ == s[y].key@ by {
                    if x < before.len() {
                        let y = choose|y: int| 0 <= y < i && #[trigger] before[x].key@ == s[y].key@;
                        assert(kept@[x].key@ == s[y].key@);
                    } else {
                        assert(kept@[x].key@ == s[i as int].key@);
                    }
                }
                assert(entries_map(kept@) =~= evicted(entries_map(s.take(i + 1)), now));
            } else {
                assert(entries_map(kept@) =~= evicted(entries_map(s.take(i + 1)), now));
            }
            i = i + 1;
        }
        assert(s.take(s.len() as int) =~= s);
        self.entries = kept;
    }
}

/// The stored value under `key`, read from the live entries at `now`.
fn live_value(cache: &mut LocMemCache, key: &str, now: u64) -> (r: Option<String>)
    requires
        old(cache).wf(),
    ensures
        final(cache).wf(),
        final(cache)@ == evicted(old(cache)@, now),
        match r {
            Some(v) => lookup(final(cache)@, key@) == Some(v@),
            None => lookup(final(cache)@, key@) is None,
        },
{
    cache.evict_expired(now);
    match cache.position(key) {
        Some(i) => {
            proof { lemma_entries_map_keys(cache.entries@); }
            Some(cache.entries[i].value.clone())
        },
        None => None,
    }
}

/// Stores `value` under `key` for `timeout_secs` seconds from `now`; a zero
/// timeout stores it for good.
pub fn cache_set(cache: &mut LocMemCache, key: &str, value: &str, timeout_secs: u64, now: u64)
    requires
        old(cache).wf(),
        timeout_secs == 0 || now + timeout_secs <= u64::MAX,
    ensures
        final(cache).wf(),
        final(cache)@ == old(cache)@.insert(key@, (value@, expiry_for(now, timeout_secs) as u64)),
{
    let expires_at: u64 = if timeout_secs == 0 { 0 } else { now + timeout_secs };
    cache.put(key, value, expires_at);
}

/// The value under `key` at `now`, if one is live; expired entries are
/// dropped on the way.
pub fn cache_get(cache: &mut LocMemCache, key: &str, now: u64) -> (r: Option<String>)
    requires
        old(cache).wf(),
    ensures
        final(cache).wf(),
        final(cache)@ == evicted(old(cache)@, now),
        match r {
            Some(v) => lookup(evicted(old(cache)@, now), key@) == Some(v@),
            None => lookup(evicted(old(cache)@, now), key@) is None,
        },
{
    live_value(cache, key, now)
}

/// Drops the entry under `key`, if any.
pub fn cache_delete(cache: &mut LocMemCache, key: &str)
    requires
        old(cache).wf(),
    ensures
        final(cache).wf(),
        final(cache)@ == old(cache)@.remove(key@),
{
    cache.drop_key(key);
}

/// Drops every entry.
pub fn cache_clear(cache: &mut LocMemCache)
    ensures
        final(cache).wf(),
        final(cache)@ == Map::<Seq<char>, (Seq<char>, u64)>::empty(),
{
    cache.entries = Vec::new();
}

/// What `cache_get_or_set` answers and leaves when the value it would make is
/// `made`: the live value under `key` with the store as eviction left it, or
/// `made`, newly stored for `timeout_secs` seconds.
pub open spec fn got_or_set(
    m: Map<Seq<char>, (Seq<char>, u64)>,
    key: Seq<char>,
    made: Seq<char>,
    timeout_secs: u64,
    now: u64,
) -> (Seq<char>, Map<Seq<char>, (Seq<char>, u64)>) {
    match lookup(evicted(m, now), key) {
        Some(v) => (v, evicted(m, now)),
        None => (made, evicted(m, now).insert(key, (made, expiry_for(now, timeout_secs) as u64))),
    }
}

/// The live value under `key` at `now`; when there is none, the value that
/// `default_fn` makes, which is then stored for `timeout_secs` seconds.
pub fn cache_get_or_set<F: FnOnce() -> String>(
    cache: &mut LocMemCache,
    key: &str,
    default_fn: F,
    timeout_secs: u64,
    now: u64,
) -> (r: String)
    requires
        old(cache).wf(),
        timeout_secs == 0 || now + timeout_secs <= u64::MAX,
        default_fn.requires(()),
    ensures
        final(cache).wf(),
        match lookup(evicted(old(cache)@, now), key@) {
            Some(v) => r@ == v && final(cache)@ == evicted(old(cache)@, now),
            None => default_fn.ensures((), r)
                && final(cache)@ == evicted(old(cache)@, now).insert(
                    key@,
                    (r@, expiry_for(now, timeout_secs) as u64),
                ),
        },
        (r@, final(cache)@) == got_or_set(old(cache)@, key@, r@, timeout_secs, now),
{
    if let Some(value) = cache_get(cache, key, now) {
        return value;
    }
    let value = default_fn();
    cache_set(cache, key, value.as_str(), timeout_secs, now);
    value
}

/// What `cache_add` answers and leaves: with no live entry under `key`,
/// `true` and the value stored; else `false` and the store as eviction left it.
pub open spec fn added(
    m: Map<Seq<char>, (Seq<char>, u64)>,
    key: Seq<char>,
    value: Seq<char>,
    timeout_secs: u64,
    now: u64,
) -> (bool, Map<Seq<char>, (Seq<char>, u64)>) {
    if lookup(evicted(m, now), key) is None {
        (true, evicted(m, now).insert(key, (value, expiry_for(now, timeout_secs) as u64)))
    } else {
        (false, evicted(m, now))
    }
}

/// Stores `value` under `key` only when no live entry holds the key;
/// answers whether it stored.
pub fn cache_add(cache: &mut LocMemCache, key: &str, value: &str, timeout_secs: u64, now: u64) -> (r: bool)
    requires
        old(cache).wf(),
        timeout_secs == 0 || now + timeout_secs <= u64::MAX,
    ensures
        final(cache).wf(),
        r == (lookup(evicted(old(cache)@, now), key@) is None),
        r ==> final(cache)@ == evicted(old(cache)@, now).insert(key@, (value@, expiry_for(now, timeout_secs) as u64)),
        !r ==> final(cache)@ == evicted(old(cache)@, now),
        (r, final(cache)@) == added(old(cache)@, key@, value@, timeout_secs, now),
{
    if cache_has(cache, key, now) {
        return false;
    }
    cache_set(cache, key, value, timeout_secs, now);
    true
}

/// The value `key` holds, read as an `i64`, if it is live and reads as one.
pub open spec fn stored_int(m: Map<Seq<char>, (Seq<char>, u64)>, key: Seq<char>) -> Option<int> {
    match lookup(m, key) {
        Some(v) => parse_i64(v),
        None => None,
    }
}

/// Adding `delta` to the stored integer under `key` stays within `i64`.
pub open spec fn incr_fits(m: Map<Seq<char>, (Seq<char>, u64)>, key: Seq<char>, delta: int) -> bool {
    stored_int(m, key) is Some ==> i64::MIN <= stored_int(m, key)->0 + delta <= i64::MAX
}

/// What `cache_incr` answers and leaves: with a live integer `n` under `key`,
/// `n + delta`, stored for good as text; else nothing, and the store as
/// eviction left it.
pub open spec fn incremented(
    m: Map<Seq<char>, (Seq<char>, u64)>,
    key: Seq<char>,
    delta: int,
    now: u64,
) -> (Option<int>, Map<Seq<char>, (Seq<char>, u64)>) {
    match stored_int(evicted(m, now), key) {
        Some(n) => (Some(n + delta), evicted(m, now).insert(key, (int_str(n + delta), 0u64))),
        None => (None, evicted(m, now)),
    }
}

/// Adds `delta` to the integer stored under `key` and stores the sum for good;
/// `None` when the key holds no live integer.
pub fn cache_incr(cache: &mut LocMemCache, key: &str, delta: i64, now: u64) -> (r: Option<i64>)
    requires
        old(cache).wf(),
        incr_fits(evicted(old(cache)@, now), key@, delta as int),
    ensures
        final(cache).wf(),
        match stored_int(evicted(old(cache)@, now), key@) {
            Some(n) => r == Some((n + delta) as i64)
                && final(cache)@ == evicted(old(cache)@, now).insert(key@, (int_str(n + delta), 0u64)),
            None => r is None && final(cache)@ == evicted(old(cache)@, now),
        },
        (match r { Some(x) => Some(x as int), None => None::<int> }, final(cache)@) == incremented(old(cache)@, key@, delta as int, now),
{
    let val = match cache_get(cache, key, now) {
        Some(v) => v,
        None => {
            return None;
        },
    };
    let num = match parse_i64_str(val.as_str()) {
        Some(n) => n,
        None => {
            return None;
        },
    };
    let new_val = num + delta;
    let text = i64_to_string(new_val);
    cache_set(cache, key, text.as_str(), 0, now);
    Some(new_val)
}

/// Subtracts `delta` from the integer stored under `key`, as `cache_incr`
/// with `-delta`.
pub fn cache_decr(cache: &mut LocMemCache, key: &str, delta: i64, now: u64) -> (r: Option<i64>)
    requires
        old(cache).wf(),
        delta != i64::MIN,
        incr_fits(evicted(old(cache)@, now), key@, -delta),
    ensures
        final(cache).wf(),
        match stored_int(evicted(old(cache)@, now), key@) {
            Some(n) => r == Some((n - delta) as i64)
                && final(cache)@ == evicted(old(cache)@, now).insert(key@, (int_str(n - delta), 0u64)),
            None => r is None && final(cache)@ == evicted(old(cache)@, now),
        },
{
    cache_incr(cache, key, -delta, now)
}

/// A live entry holds `key` at `now`.
pub fn cache_has(cache: &mut LocMemCache, key: &str, now: u64) -> (r: bool)
    requires
        old(cache).wf(),
    ensures
        final(cache).wf(),
        final(cache)@ == evicted(old(cache)@, now),
        r == (lookup(evicted(old(cache)@, now), key@) is Some),
{
    cache_get(cache, key, now).is_some()
}

/// The live value under `key`, or `default` when there is none.
pub fn cache_get_or_default(cache: &mut LocMemCache, key: &str, default: &str, now: u64) -> (r: String)
    requires
        old(cache).wf(),
    ensures
        final(cache).wf(),
        final(cache)@ == evicted(old(cache)@, now),
        r@ == match lookup(evicted(old(cache)@, now), key@) {
            Some(v) => v,
            None => default@,
        },
{
    match cache_get(cache, key, now) {
        Some(v) => v,
        None => owned(default),
    }
}

/// A value stored under a key is read back while its entry is live: after
/// `cache_set` with expiry stamp `expires_at`, `cache_get` at any `now` at
/// which that stamp is live answers the stored value.
pub proof fn law_get_after_set(m: Map<Seq<char>, (Seq<char>, u64)>, key: Seq<char>, value: Seq<char>, expires_at: u64, now: u64)
    requires
        is_live(expires_at, now),
    ensures
        lookup(evicted(m.insert(key, (value, expires_at)), now), key) == Some(value),
{
}

/// Storing under one key leaves what every other key reads unchanged.
pub proof fn law_set_keeps_other_keys(
    m: Map<Seq<char>, (Seq<char>, u64)>,
    key: Seq<char>,
    other: Seq<char>,
    value: Seq<char>,
    expires_at: u64,
    now: u64,
)
    requires
        key != other,
    ensures
        lookup(evicted(m.insert(key, (value, expires_at)), now), other) == lookup(evicted(m, now), other),
{
}

/// A deleted key reads as absent at any time.
pub proof fn law_get_after_delete(m: Map<Seq<char>, (Seq<char>, u64)>, key: Seq<char>, now: u64)
    ensures
        lookup(evicted(m.remove(key), now), key) is None,
{
}

/// After `cache_clear` no key reads as present.
pub proof fn law_get_after_clear(key: Seq<char>, now: u64)
    ensures
        lookup(evicted(Map::<Seq<char>, (Seq<char>, u64)>::empty(), now), key) is None,
{
}

/// An entry stored with a zero timeout never expires.
pub proof fn law_zero_timeout_never_expires(m: Map<Seq<char>, (Seq<char>, u64)>, key: Seq<char>, value: Seq<char>, now: u64, later: u64)
    ensures
        lookup(evicted(m.insert(key, (value, expiry_for(now, 0) as u64)), later), key) == Some(value),
{
}

/// Dropping expired entries twice at the same time drops nothing more.
pub proof fn law_eviction_idempotent(m: Map<Seq<char>, (Seq<char>, u64)>, now: u64)
    ensures
        evicted(evicted(m, now), now) == evicted(m, now),
{
    assert(evicted(evicted(m, now), now) =~= evicted(m, now));
}

/// A value set with a timeout is read back at any time before the timeout
/// runs out, and with a zero timeout at any time at all; once it has run out,
/// the key reads as absent.
pub proof fn law_get_within_timeout(
    m: Map<Seq<char>, (Seq<char>, u64)>,
    key: Seq<char>,
    value: Seq<char>,
    timeout_secs: u64,
    set_at: u64,
    later: u64,
)
    requires
        timeout_secs == 0 || set_at + timeout_secs <= u64::MAX,
    ensures
        timeout_secs == 0 || later < set_at + timeout_secs ==> lookup(
            evicted(m.insert(key, (value, expiry_for(set_at, timeout_secs) as u64)), later),
            key,
        ) == Some(value),
        timeout_secs > 0 && later >= set_at + timeout_secs ==> lookup(
            evicted(m.insert(key, (value, expiry_for(set_at, timeout_secs) as u64)), later),
            key,
        ) is None,
{
}

/// `cache_add` on a key that a live entry holds answers `false` and leaves the
/// value read under it as it was; on any other key it answers `true` and the
/// key then reads the added value.
pub proof fn law_add(
    m: Map<Seq<char>, (Seq<char>, u64)>,
    key: Seq<char>,
    value: Seq<char>,
    timeout_secs: u64,
    now: u64,
)
    requires
        timeout_secs == 0 || now + timeout_secs <= u64::MAX,
    ensures
        added(m, key, value, timeout_secs, now).0 == (lookup(evicted(m, now), key) is None),
        lookup(evicted(m, now), key) is Some ==> lookup(
            evicted(added(m, key, value, timeout_secs, now).1, now),
            key,
        ) == lookup(evicted(m, now), key),
        lookup(evicted(m, now), key) is None ==> lookup(
            evicted(added(m, key, value, timeout_secs, now).1, now),
            key,
        ) == Some(value),
{
    law_eviction_idempotent(m, now);
}

/// `cache_incr` on a live integer `n` answers `n + delta`, and the key reads
/// the text of that sum from then on; on a missing, expired or non-integer
/// entry it answers nothing and every key reads as before.
pub proof fn law_incr(m: Map<Seq<char>, (Seq<char>, u64)>, key: Seq<char>, delta: int, now: u64, later: u64, other: Seq<char>)
    ensures
        stored_int(evicted(m, now), key) matches Some(n) ==> {
            &&& incremented(m, key, delta, now).0 == Some(n + delta)
            &&& lookup(evicted(incremented(m, key, delta, now).1, later), key) == Some(int_str(n + delta))
        },
        stored_int(evicted(m, now), key) is None ==> {
            &&& incremented(m, key, delta, now).0 is None
            &&& lookup(evicted(incremented(m, key, delta, now).1, now), other) == lookup(evicted(m, now), other)
        },
{
    law_eviction_idempotent(m, now);
}

/// A second `cache_get_or_set` on the same key at the same time answers what
/// the first answered, whatever value it would make; so the maker of the
/// second call is not used.
pub proof fn law_get_or_set_twice(
    m: Map<Seq<char>, (Seq<char>, u64)>,
    key: Seq<char>,
    first: Seq<char>,
    second: Seq<char>,
    timeout_secs: u64,
    now: u64,
)
    requires
        timeout_secs == 0 || now + timeout_secs <= u64::MAX,
    ensures
        got_or_set(got_or_set(m, key, first, timeout_secs, now).1, key, second, timeout_secs, now).0
            == got_or_set(m, key, first, timeout_secs, now).0,
        got_or_set(got_or_set(m, key, first, timeout_secs, now).1, key, second, timeout_secs, now).1
            == evicted(got_or_set(m, key, first, timeout_secs, now).1, now),
{
    law_eviction_idempotent(m, now);
}

/// One cache operation with its arguments, as the functions of this module
/// take them.
pub enum CacheOp {
    Store { key: Seq<char>, value: Seq<char>, timeout_secs: u64, now: u64 },
    Get { key: Seq<char>, now: u64 },
    Delete { key: Seq<char> },
    Clear,
    Add { key: Seq<char>, value: Seq<char>, timeout_secs: u64, now: u64 },
    Incr { key: Seq<char>, delta: i64, now: u64 },
}

/// The store after `op`, as the contract of the function that performs it
/// states (`cache_set`, `cache_get`, `cache_delete`, `cache_clear`,
/// `cache_add`, `cache_incr`).
pub open spec fn after_op(m: Map<Seq<char>, (Seq<char>, u64)>, op: CacheOp) -> Map<Seq<char>, (Seq<char>, u64)> {
    match op {
        CacheOp::Store { key, value, timeout_secs, now } => m.insert(key, (value, expiry_for(now, timeout_secs) as u64)),
        CacheOp::Get { key, now } => evicted(m, now),
        CacheOp::Delete { key } => m.remove(key),
        CacheOp::Clear => Map::empty(),
        CacheOp::Add { key, value, timeout_secs, now } => added(m, key, value, timeout_secs, now).1,
        CacheOp::Incr { key, delta, now } => incremented(m, key, delta as int, now).1,
    }
}

/// The store after the operations `ops`, in order.
pub open spec fn after_ops(m: Map<Seq<char>, (Seq<char>, u64)>, ops: Seq<CacheOp>) -> Map<Seq<char>, (Seq<char>, u64)>
    decreases ops.len(),
{
    if ops.len() == 0 { m } else { after_op(after_ops(m, ops.drop_last()), ops.last()) }
}

/// `op` neither clears the store nor writes or deletes `key`, and happens
/// while an entry stamped `expires_at` is live.
pub open spec fn leaves_entry(op: CacheOp, key: Seq<char>, expires_at: u64) -> bool {
    match op {
        CacheOp::Store { key: k, now, .. } => k != key && is_live(expires_at, now),
        CacheOp::Get { now, .. } => is_live(expires_at, now),
        CacheOp::Delete { key: k } => k != key,
        CacheOp::Clear => false,
        CacheOp::Add { key: k, now, .. } => k != key && is_live(expires_at, now),
        CacheOp::Incr { key: k, now, .. } => k != key && is_live(expires_at, now),
    }
}

/// Law: an entry stays as it was stored through any sequence of operations
/// that neither clear the store nor touch its key while it is live, so a get
/// at any time it is still live reads its value.
pub proof fn law_entry_survives(
    m: Map<Seq<char>, (Seq<char>, u64)>,
    key: Seq<char>,
    value: Seq<char>,
    expires_at: u64,
    ops: Seq<CacheOp>,
    later: u64,
)
    requires
        m.contains_key(key),
        m[key] == (value, expires_at),
        forall|i: int| 0 <= i < ops.len() ==> leaves_entry(#[trigger] ops[i], key, expires_at),
    ensures
        after_ops(m, ops).contains_key(key),
        after_ops(m, ops)[key] == (value, expires_at),
        is_live(expires_at, later) ==> lookup(evicted(after_ops(m, ops), later), key) == Some(value),
    decreases ops.len(),
{
    if ops.len() > 0 {
        let prev = ops.drop_last();
        assert forall|i: int| 0 <= i < prev.len() implies leaves_entry(#[trigger] prev[i], key, expires_at) by {
            assert(prev[i] == ops[i]);
        }
        law_entry_survives(m, key, value, expires_at, prev, later);
        assert(leaves_entry(ops[ops.len() - 1], key, expires_at));
        assert(ops.last() == ops[ops.len() - 1]);
    }
}

} // verus!
