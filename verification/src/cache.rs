//! The credential cache: values that are handed out only while they are
//! fresh. The clock is the caller's: every operation that depends on the time
//! takes it as `now`, in milliseconds on a clock that does not run backwards.

use crate::text::same_text;
use crate::types::{CacheConfig, CacheStats, PortInfo, PortInfoView};
use vstd::prelude::*;
use vstd::string::*;

verus! {

/// The key under which the token is cached.
pub const CSRF_TOKEN_KEY: &'static str = "csrf_token";

/// The key under which the port bundle is cached.
pub const PORTS_INFO_KEY: &'static str = "ports_info";

/// One cached value with its key and the time at which it was stored.
pub struct CacheEntry<V> {
    pub key: String,
    pub value: V,
    pub inserted_at: u64,
}

/// What a cache is, as mathematics: its entries from oldest to newest, each
/// a key, a value and the time of storing, with the time to live in
/// milliseconds and the number of entries that it may hold.
pub struct CacheModel<V> {
    pub entries: Seq<(Seq<char>, V, u64)>,
    pub ttl: nat,
    pub capacity: nat,
}

/// How many entries stand before the first one with the key; the number of
/// all entries where none has the key.
pub open spec fn first_index<V>(entries: Seq<(Seq<char>, V, u64)>, key: Seq<char>) -> int
    decreases entries.len(),
{
    if entries.len() == 0 || entries[0].0 == key {
        0
    } else {
        1 + first_index(entries.drop_first(), key)
    }
}

/// How many of the entries are fresh at `now`.
pub open spec fn live_count<V>(entries: Seq<(Seq<char>, V, u64)>, ttl: nat, now: u64) -> nat
    decreases entries.len(),
{
    if entries.len() == 0 {
        0
    } else {
        live_count(entries.drop_last(), ttl, now) + if now - entries.last().2 <= ttl {
            1nat
        } else {
            0nat
        }
    }
}

impl<V> CacheModel<V> {
    /// No key occurs twice, and the entries are no more than the cache may
    /// hold.
    pub open spec fn wf(self) -> bool {
        &&& self.entries.len() <= self.capacity
        &&& forall|i: int, j: int|
            0 <= i < j < self.entries.len() ==> self.entries[i].0 != self.entries[j].0
    }

    /// An entry stored at `inserted_at` is fresh at `now`: no more than the
    /// time to live has passed since.
    pub open spec fn is_fresh(self, inserted_at: u64, now: u64) -> bool {
        now - inserted_at <= self.ttl
    }

    /// The value under a key at `now`: that of the entry with the key, while
    /// it is fresh.
    pub open spec fn get(self, key: Seq<char>, now: u64) -> Option<V> {
        let at = first_index(self.entries, key);
        if at < self.entries.len() && self.is_fresh(self.entries[at].2, now) {
            Some(self.entries[at].1)
        } else {
            None
        }
    }

    /// The entries without the one that has the key.
    pub open spec fn without(self, key: Seq<char>) -> Seq<(Seq<char>, V, u64)> {
        let at = first_index(self.entries, key);
        if at < self.entries.len() {
            self.entries.remove(at)
        } else {
            self.entries
        }
    }

    /// The cache after a value was stored under a key at `now`: an older
    /// entry with the key is gone, the oldest entries have made room where
    /// the cache was full, and the new entry is the newest. A cache that may
    /// hold nothing stays empty.
    pub open spec fn set(self, key: Seq<char>, value: V, now: u64) -> CacheModel<V> {
        if self.capacity == 0 {
            self
        } else {
            let kept = self.without(key);
            let room = if kept.len() >= self.capacity {
                kept.subrange(kept.len() - self.capacity + 1, kept.len() as int)
            } else {
                kept
            };
            CacheModel { entries: room.push((key, value, now)), ..self }
        }
    }

    /// The cache with every entry gone.
    pub open spec fn clear(self) -> CacheModel<V> {
        CacheModel { entries: Seq::empty(), ..self }
    }

    /// How many entries are fresh at `now`.
    pub open spec fn count(self, now: u64) -> nat {
        live_count(self.entries, self.ttl, now)
    }
}

/// `first_index` is the first place of the key: no entry before it has the
/// key, and where it is a place at all, the entry there has the key.
pub proof fn lemma_first_index<V>(entries: Seq<(Seq<char>, V, u64)>, key: Seq<char>)
    ensures
        0 <= first_index(entries, key) <= entries.len(),
        forall|j: int| 0 <= j < first_index(entries, key) ==> (#[trigger] entries[j]).0 != key,
        first_index(entries, key) < entries.len() ==> entries[first_index(entries, key)].0 == key,
    decreases entries.len(),
{
    if entries.len() == 0 || entries[0].0 == key {
    } else {
        let rest = entries.drop_first();
        lemma_first_index(rest, key);
        assert forall|j: int| 0 <= j < first_index(entries, key) implies (#[trigger] entries[j]).0
            != key by {
            if j > 0 {
                assert(entries[j] == rest[j - 1]);
            }
        }
        if first_index(entries, key) < entries.len() {
            assert(entries[first_index(entries, key)] == rest[first_index(rest, key)]);
        }
    }
}

/// Where no entry before a place has the key and the entry there has it, the
/// place is `first_index`; where no entry at all has the key, `first_index`
/// is the number of entries.
pub proof fn lemma_first_index_is<V>(entries: Seq<(Seq<char>, V, u64)>, key: Seq<char>, at: int)
    requires
        0 <= at <= entries.len(),
        forall|j: int| 0 <= j < at ==> (#[trigger] entries[j]).0 != key,
        at < entries.len() ==> entries[at].0 == key,
    ensures
        first_index(entries, key) == at,
    decreases entries.len(),
{
    if entries.len() == 0 {
    } else if at == 0 {
    } else {
        assert(entries[0].0 != key);
        let rest = entries.drop_first();
        assert forall|j: int| 0 <= j < at - 1 implies (#[trigger] rest[j]).0 != key by {
            assert(rest[j] == entries[j + 1]);
        }
        if at < entries.len() {
            assert(rest[at - 1] == entries[at]);
        }
        lemma_first_index_is(rest, key, at - 1);
    }
}

/// Storing keeps a cache well formed.
pub proof fn lemma_set_keeps_wf<V>(m: CacheModel<V>, key: Seq<char>, value: V, now: u64)
    requires
        m.wf(),
    ensures
        m.set(key, value, now).wf(),
        m.capacity > 0 ==> first_index(m.set(key, value, now).entries, key) == m.set(
            key,
            value,
            now,
        ).entries.len() - 1,
{
    if m.capacity > 0 {
        lemma_first_index(m.entries, key);
        let at = first_index(m.entries, key);
        let kept = m.without(key);
        assert forall|i: int| 0 <= i < kept.len() implies (#[trigger] kept[i]).0 != key by {
            if at < m.entries.len() {
                if i < at {
                    assert(kept[i] == m.entries[i]);
                } else {
                    assert(kept[i] == m.entries[i + 1]);
                }
            } else {
                assert(kept[i] == m.entries[i]);
            }
        }
        assert forall|i: int, j: int| 0 <= i < j < kept.len() implies kept[i].0 != kept[j].0 by {
            if at < m.entries.len() {
                let a = if i < at {
                    i
                } else {
                    i + 1
                };
                let b = if j < at {
                    j
                } else {
                    j + 1
                };
                assert(kept[i] == m.entries[a] && kept[j] == m.entries[b]);
            }
        }
        let room = if kept.len() >= m.capacity {
            kept.subrange(kept.len() - m.capacity + 1, kept.len() as int)
        } else {
            kept
        };
        let after = room.push((key, value, now));
        assert(after == m.set(key, value, now).entries);
        assert forall|i: int| 0 <= i < room.len() implies (#[trigger] after[i]).0 != key by {
            if kept.len() >= m.capacity {
                assert(room[i] == kept[i + kept.len() - m.capacity + 1]);
            }
        }
        assert forall|i: int, j: int| 0 <= i < j < after.len() implies after[i].0 != after[j].0 by {
            if j < room.len() {
                if kept.len() >= m.capacity {
                    let d = kept.len() - m.capacity + 1;
                    assert(room[i] == kept[i + d] && room[j] == kept[j + d]);
                }
            } else {
                assert(after[i].0 != key);
            }
        }
        lemma_first_index_is(after, key, room.len() as int);
    }
}

/// A value that was stored is handed out under its key for as long as it is
/// fresh, and for no longer: once more than the time to live has passed since
/// it was stored, the key has no value.
pub proof fn lemma_set_then_get<V>(m: CacheModel<V>, key: Seq<char>, value: V, stored: u64, now: u64)
    requires
        m.wf(),
    ensures
        now - stored > m.ttl ==> m.set(key, value, stored).get(key, now) is None,
        now - stored <= m.ttl && m.capacity > 0 ==> m.set(key, value, stored).get(key, now)
            == Some(value),
{
    lemma_set_keeps_wf(m, key, value, stored);
    if m.capacity == 0 {
        lemma_first_index(m.entries, key);
        assert(m.entries.len() == 0);
    }
}

/// Storing under one key leaves the value under any other key as it is, as
/// long as the cache has room for the new entry.
pub proof fn lemma_set_keeps_other_keys<V>(
    m: CacheModel<V>,
    key: Seq<char>,
    value: V,
    stored: u64,
    other: Seq<char>,
    now: u64,
)
    requires
        m.wf(),
        other != key,
        m.without(key).len() < m.capacity,
    ensures
        m.set(key, value, stored).get(other, now) == m.get(other, now),
{
    lemma_first_index(m.entries, key);
    lemma_first_index(m.entries, other);
    let at = first_index(m.entries, key);
    let j = first_index(m.entries, other);
    let kept = m.without(key);
    let after = kept.push((key, value, stored));
    assert(after == m.set(key, value, stored).entries);
    if j < m.entries.len() {
        let moved = if at < m.entries.len() && at < j {
            j - 1
        } else {
            j
        };
        assert(after[moved] == m.entries[j]);
        assert forall|i: int| 0 <= i < moved implies (#[trigger] after[i]).0 != other by {
            if at < m.entries.len() && i >= at {
                assert(after[i] == m.entries[i + 1]);
            } else {
                assert(after[i] == m.entries[i]);
            }
        }
        lemma_first_index_is(after, other, moved);
    } else {
        assert forall|i: int| 0 <= i < after.len() implies (#[trigger] after[i]).0 != other by {
            if i < kept.len() {
                if at < m.entries.len() && i >= at {
                    assert(after[i] == m.entries[i + 1]);
                } else {
                    assert(after[i] == m.entries[i]);
                }
            }
        }
        lemma_first_index_is(after, other, after.len() as int);
    }
}

/// Whatever a cache hands out at `now` was stored no longer ago than the
/// time to live.
pub proof fn lemma_expired_is_absent<V>(m: CacheModel<V>, key: Seq<char>, now: u64)
    ensures
        m.get(key, now) is Some ==> exists|i: int|
            0 <= i < m.entries.len() && (#[trigger] m.entries[i]).0 == key && now
                - m.entries[i].2 <= m.ttl && m.get(key, now) == Some(m.entries[i].1),
{
    lemma_first_index(m.entries, key);
    if m.get(key, now) is Some {
        let at = first_index(m.entries, key);
        assert(m.entries[at].0 == key);
    }
}

/// After the cache was cleared no key has a value, whatever the time.
pub proof fn lemma_clear_then_get<V>(m: CacheModel<V>, key: Seq<char>, now: u64)
    ensures
        m.clear().get(key, now) is None,
        m.clear().count(now) == 0,
        m.clear().wf(),
{
}

/// A store of values that are handed out only while they are fresh.
pub struct TtlCache<V> {
    entries: Vec<CacheEntry<V>>,
    ttl_seconds: u64,
    capacity: usize,
}

/// The entries of a vector as the model has them.
pub open spec fn entries_model<V>(entries: Seq<CacheEntry<V>>) -> Seq<(Seq<char>, V, u64)> {
    Seq::new(entries.len(), |i: int| (entries[i].key@, entries[i].value, entries[i].inserted_at))
}

impl<V> View for TtlCache<V> {
    type V = CacheModel<V>;

    closed spec fn view(&self) -> CacheModel<V> {
        CacheModel {
            entries: entries_model(self.entries@),
            ttl: (self.ttl_seconds * 1000) as nat,
            capacity: self.capacity as nat,
        }
    }
}

impl<V> TtlCache<V> {
    #[verifier::type_invariant]
    spec fn well_formed(&self) -> bool {
        self@.wf()
    }

    /// An empty cache whose values live `ttl_seconds` and that holds at most
    /// `max_entries` of them.
    pub fn new(ttl_seconds: u64, max_entries: u64) -> (r: Self)
        ensures
            r@.entries.len() == 0,
            r@.ttl == ttl_seconds * 1000,
            r@.capacity == if max_entries <= usize::MAX {
                max_entries as nat
            } else {
                usize::MAX as nat
            },
    {
        let capacity: usize = if max_entries <= usize::MAX as u64 {
            max_entries as usize
        } else {
            usize::MAX
        };
        TtlCache { entries: Vec::new(), ttl_seconds, capacity }
    }

    /// Where the entry with the key stands; the number of entries where
    /// there is none.
    fn position(&self, key: &str) -> (at: usize)
        ensures
            at == first_index(self@.entries, key@),
            at <= self.entries@.len(),
    {
        let ghost all = self@.entries;
        let mut i: usize = 0;
        while i < self.entries.len()
            invariant
                i <= self.entries@.len(),
                all == entries_model(self.entries@),
                forall|j: int| 0 <= j < i ==> (#[trigger] all[j]).0 != key@,
            decreases self.entries@.len() - i,
        {
            if same_text(self.entries[i].key.as_str(), key) {
                proof {
                    lemma_first_index_is(all, key@, i as int);
                }
                return i;
            }
            i += 1;
        }
        proof {
            lemma_first_index_is(all, key@, i as int);
        }
        i
    }

    /// Whether an entry stored at `inserted_at` is fresh at `now`.
    fn fresh(&self, inserted_at: u64, now: u64) -> (r: bool)
        ensures
            r == self@.is_fresh(inserted_at, now),
    {
        now <= inserted_at || (now - inserted_at) as u128 <= (self.ttl_seconds as u128) * 1000
    }

    /// The value under a key, if there is one and it is fresh at `now`.
    pub fn get(&self, key: &str, now: u64) -> (r: Option<&V>)
        ensures
            match r {
                Some(v) => self@.get(key@, now) == Some(*v),
                None => self@.get(key@, now) is None,
            },
            self@.wf(),
    {
        proof {
            use_type_invariant(self);
        }
        let at = self.position(key);
        if at < self.entries.len() && self.fresh(self.entries[at].inserted_at, now) {
            Some(&self.entries[at].value)
        } else {
            None
        }
    }

    /// Stores a value under a key at `now`.
    pub fn set(&mut self, key: String, value: V, now: u64)
        ensures
            final(self)@ == old(self)@.set(key@, value, now),
    {
        proof {
            use_type_invariant(&*self);
            lemma_set_keeps_wf(self@, key@, value, now);
        }
        if self.capacity == 0 {
            return ;
        }
        let ghost before = self@;
        let at = self.position(key.as_str());
        let mut kept: Vec<CacheEntry<V>> = Vec::new();
        std::mem::swap(&mut kept, &mut self.entries);
        if at < kept.len() {
            kept.remove(at);
        }
        assert(entries_model(kept@) =~= before.without(key@));
        if kept.len() >= self.capacity {
            let ghost full = entries_model(kept@);
            kept.remove(0);
            assert(entries_model(kept@) =~= full.subrange(
                full.len() - self.capacity + 1,
                full.len() as int,
            ));
        }
        let ghost room = entries_model(kept@);
        kept.push(CacheEntry { key, value, inserted_at: now });
        assert(entries_model(kept@) =~= room.push((key@, value, now)));
        self.entries = kept;
    }

    /// Drops every entry.
    pub fn invalidate_all(&mut self)
        ensures
            final(self)@ == old(self)@.clear(),
    {
        self.entries = Vec::new();
        assert(entries_model(self.entries@) =~= Seq::empty());
    }

    /// How many entries are fresh at `now`.
    pub fn entry_count(&self, now: u64) -> (r: u64)
        ensures
            r == self@.count(now),
            self@.wf(),
    {
        proof {
            use_type_invariant(self);
        }
        let ghost all = self@.entries;
        let mut count: u64 = 0;
        let mut i: usize = 0;
        assert(all.subrange(0, 0) =~= Seq::empty());
        while i < self.entries.len()
            invariant
                i <= self.entries@.len(),
                all == entries_model(self.entries@),
                count == live_count(all.subrange(0, i as int), self@.ttl, now),
                count <= i,
            decreases self.entries@.len() - i,
        {
            let ghost upto = all.subrange(0, i + 1);
            proof {
                assert(upto.drop_last() =~= all.subrange(0, i as int));
                assert(upto.last() == all[i as int]);
            }
            if self.fresh(self.entries[i].inserted_at, now) {
                count += 1;
            }
            i += 1;
        }
        assert(all.subrange(0, i as int) =~= all);
        count
    }
}

/// The token cache and the port cache together.
pub struct CacheManager {
    csrf_cache: TtlCache<String>,
    ports_cache: TtlCache<PortInfo>,
}

/// A cached token by its text.
pub open spec fn token_text(t: Option<String>) -> Option<Seq<char>> {
    match t {
        Some(s) => Some(s@),
        None => None,
    }
}

/// A cached bundle by its view.
pub open spec fn ports_view(p: Option<PortInfo>) -> Option<PortInfoView> {
    match p {
        Some(info) => Some(info@),
        None => None,
    }
}

impl CacheManager {
    /// The token cache.
    pub closed spec fn tokens(&self) -> CacheModel<String> {
        self.csrf_cache@
    }

    /// The port cache.
    pub closed spec fn ports(&self) -> CacheModel<PortInfo> {
        self.ports_cache@
    }

    /// Two empty caches with the default time to live and size.
    pub fn new() -> (r: Self)
        ensures
            r.tokens().entries.len() == 0,
            r.ports().entries.len() == 0,
            r.tokens().ttl == 300_000 && r.ports().ttl == 300_000,
            r.tokens().capacity == 100 && r.ports().capacity == 100,
    {
        Self::with_config(CacheConfig::default())
    }

    /// Two empty caches with the given time to live and size.
    pub fn with_config(config: CacheConfig) -> (r: Self)
        ensures
            r.tokens().entries.len() == 0,
            r.ports().entries.len() == 0,
            r.tokens().ttl == config.ttl_seconds * 1000 && r.ports().ttl == config.ttl_seconds * 1000,
            r.tokens().capacity == r.ports().capacity,
            r.tokens().capacity == if config.max_cache_entries <= usize::MAX {
                config.max_cache_entries as nat
            } else {
                usize::MAX as nat
            },
    {
        CacheManager {
            csrf_cache: TtlCache::new(config.ttl_seconds, config.max_cache_entries),
            ports_cache: TtlCache::new(config.ttl_seconds, config.max_cache_entries),
        }
    }

    /// The cached token, if it is fresh at `now`.
    pub fn get_csrf_token(&self, cache_key: &str, now: u64) -> (r: Option<String>)
        ensures
            r == self.tokens().get(cache_key@, now),
            self.tokens().wf(),
    {
        match self.csrf_cache.get(cache_key, now) {
            Some(t) => Some(t.clone()),
            None => None,
        }
    }

    /// Caches a token at `now`.
    pub fn set_csrf_token(&mut self, cache_key: &str, token: String, now: u64)
        ensures
            final(self).tokens() == old(self).tokens().set(cache_key@, token, now),
            final(self).ports() == old(self).ports(),
    {
        self.csrf_cache.set(cache_key.to_owned(), token, now);
    }

    /// The cached port bundle, if it is fresh at `now`.
    pub fn get_ports(&self, cache_key: &str, now: u64) -> (r: Option<PortInfo>)
        ensures
            ports_view(r) == ports_view(self.ports().get(cache_key@, now)),
            self.ports().wf(),
    {
        match self.ports_cache.get(cache_key, now) {
            Some(p) => Some(p.duplicate()),
            None => None,
        }
    }

    /// Caches a port bundle at `now`.
    pub fn set_ports(&mut self, cache_key: &str, ports: PortInfo, now: u64)
        ensures
            final(self).ports() == old(self).ports().set(cache_key@, ports, now),
            final(self).tokens() == old(self).tokens(),
    {
        self.ports_cache.set(cache_key.to_owned(), ports, now);
    }

    /// Empties both caches.
    pub fn clear_all(&mut self)
        ensures
            final(self).tokens() == old(self).tokens().clear(),
            final(self).ports() == old(self).ports().clear(),
    {
        self.csrf_cache.invalidate_all();
        self.ports_cache.invalidate_all();
    }

    /// How many fresh entries each cache holds at `now`.
    pub fn get_stats(&self, now: u64) -> (r: CacheStats)
        ensures
            r.csrf_cache_size == self.tokens().count(now),
            r.ports_cache_size == self.ports().count(now),
            self.tokens().wf(),
            self.ports().wf(),
    {
        CacheStats {
            csrf_cache_size: self.csrf_cache.entry_count(now),
            ports_cache_size: self.ports_cache.entry_count(now),
        }
    }
}

/// Empties both caches of a manager.
pub fn clear_all(cache: &mut CacheManager)
    ensures
        final(cache).tokens() == old(cache).tokens().clear(),
        final(cache).ports() == old(cache).ports().clear(),
{
    cache.clear_all();
}

/// How many fresh entries each cache of a manager holds at `now`.
pub fn get_stats(cache: &CacheManager, now: u64) -> (r: CacheStats)
    ensures
        r.csrf_cache_size == cache.tokens().count(now),
        r.ports_cache_size == cache.ports().count(now),
{
    cache.get_stats(now)
}

} // verus!
