//! A time-boxed DNS cache: hostname to resolved address, with a fixed
//! time-to-live. Viewed abstractly as a map from hostname to cache entry.

use vstd::prelude::*;

verus! {

/// Time-to-live given to entries stored by the coordinator, in seconds.
pub const DNS_TTL_SECONDS: u64 = 300;

/// The mathematical value of a cache entry.
pub ghost struct EntryModel {
    pub ip_address: Seq<char>,
    pub cached_at_ms: u64,
    pub ttl_ms: u64,
}

/// An entry is usable at `now_ms` only while `now_ms - cached_at_ms` is at
/// most its time-to-live; a clock that reads earlier than the creation time
/// also invalidates it.
pub open spec fn entry_valid_at(e: EntryModel, now_ms: u64) -> bool {
    e.cached_at_ms <= now_ms && now_ms - e.cached_at_ms <= e.ttl_ms
}

/// One resolved address with its creation time and time-to-live.
#[derive(Debug, Clone)]
pub struct DnsCacheEntry {
    ip_address: String,
    cached_at_ms: u64,
    ttl_ms: u64,
}

impl DnsCacheEntry {
    pub closed spec fn model(self) -> EntryModel {
        EntryModel {
            ip_address: self.ip_address@,
            cached_at_ms: self.cached_at_ms,
            ttl_ms: self.ttl_ms,
        }
    }

    /// A fresh entry created at `now_ms` with a time-to-live of
    /// `ttl_seconds`.
    pub fn new(ip_address: String, ttl_seconds: u64, now_ms: u64) -> (e: Self)
        requires
            ttl_seconds * 1000 <= u64::MAX,
        ensures
            e.model() == (EntryModel {
                ip_address: ip_address@,
                cached_at_ms: now_ms,
                ttl_ms: (ttl_seconds * 1000) as u64,
            }),
    {
        DnsCacheEntry { ip_address, cached_at_ms: now_ms, ttl_ms: ttl_seconds * 1000 }
    }

    /// Whether the entry has outlived its time-to-live at `now_ms`.
    pub fn is_expired(&self, now_ms: u64) -> (r: bool)
        ensures
            r == !entry_valid_at(self.model(), now_ms),
    {
        if now_ms < self.cached_at_ms {
            true
        } else {
            now_ms - self.cached_at_ms > self.ttl_ms
        }
    }

    /// The resolved address held by the entry.
    pub fn ip_address(&self) -> (r: String)
        ensures
            r@ == self.model().ip_address,
    {
        self.ip_address.clone()
    }
}

/// Hostname-to-entry cache, abstractly a `Map<Seq<char>, EntryModel>`.
pub struct DnsCache {
    entries: Vec<(String, DnsCacheEntry)>,
}

/// No two entries share a hostname.
spec fn unique_keys(s: Seq<(String, DnsCacheEntry)>) -> bool {
    forall|i: int, j: int| 0 <= i < j < s.len() ==> (#[trigger] s[i]).0@ != (#[trigger] s[j]).0@
}

/// The map described by an entry list: later entries overwrite earlier ones.
spec fn entries_map(s: Seq<(String, DnsCacheEntry)>) -> Map<Seq<char>, EntryModel>
    decreases s.len(),
{
    if s.len() == 0 {
        Map::empty()
    } else {
        entries_map(s.drop_last()).insert(s.last().0@, s.last().1.model())
    }
}

proof fn lemma_map_contains(s: Seq<(String, DnsCacheEntry)>, k: Seq<char>)
    ensures
        entries_map(s).contains_key(k) <==> exists|i: int| 0 <= i < s.len() && (#[trigger] s[i]).0@
            == k,
    decreases s.len(),
{
    if s.len() > 0 {
        lemma_map_contains(s.drop_last(), k);
        if s.last().0@ == k {
            assert(s[s.len() - 1].0@ == k);
        } else if exists|i: int| 0 <= i < s.len() && (#[trigger] s[i]).0@ == k {
            let i = choose|i: int| 0 <= i < s.len() && (#[trigger] s[i]).0@ == k;
            assert(s.drop_last()[i] == s[i]);
        }
    }
}

proof fn lemma_map_value(s: Seq<(String, DnsCacheEntry)>, i: int)
    requires
        unique_keys(s),
        0 <= i < s.len(),
    ensures
        entries_map(s).contains_key(s[i].0@),
        entries_map(s)[s[i].0@] == s[i].1.model(),
    decreases s.len(),
{
    if i == s.len() - 1 {
    } else {
        assert(s[i].0@ != s.last().0@);
        assert(s.drop_last()[i] == s[i]);
        lemma_map_value(s.drop_last(), i);
    }
}

proof fn lemma_update_existing(s: Seq<(String, DnsCacheEntry)>, i: int, p: (String, DnsCacheEntry))
    requires
        unique_keys(s),
        0 <= i < s.len(),
        s[i].0@ == p.0@,
    ensures
        unique_keys(s.update(i, p)),
        entries_map(s.update(i, p)) == entries_map(s).insert(p.0@, p.1.model()),
{
    let t = s.update(i, p);
    assert forall|x: int, y: int| 0 <= x < y < t.len() implies (#[trigger] t[x]).0@ != (
    #[trigger] t[y]).0@ by {
        assert(t[x].0@ == s[x].0@);
        assert(t[y].0@ == s[y].0@);
    }
    let lhs = entries_map(t);
    let rhs = entries_map(s).insert(p.0@, p.1.model());
    assert forall|k: Seq<char>| lhs.contains_key(k) <==> rhs.contains_key(k) by {
        lemma_map_contains(t, k);
        lemma_map_contains(s, k);
        if exists|x: int| 0 <= x < s.len() && (#[trigger] s[x]).0@ == k {
            let x = choose|x: int| 0 <= x < s.len() && (#[trigger] s[x]).0@ == k;
            assert(t[x].0@ == k);
        }
        if exists|x: int| 0 <= x < t.len() && (#[trigger] t[x]).0@ == k {
            let x = choose|x: int| 0 <= x < t.len() && (#[trigger] t[x]).0@ == k;
            assert(s[x].0@ == k || k == p.0@);
        }
    }
    assert forall|k: Seq<char>| lhs.contains_key(k) implies lhs[k] == rhs[k] by {
        if k == p.0@ {
            lemma_map_value(t, i);
        } else {
            lemma_map_contains(t, k);
            let x = choose|x: int| 0 <= x < t.len() && (#[trigger] t[x]).0@ == k;
            assert(x != i);
            assert(t[x] == s[x]);
            lemma_map_value(t, x);
            lemma_map_value(s, x);
        }
    }
    assert(lhs =~= rhs);
}

proof fn lemma_remove_at(s: Seq<(String, DnsCacheEntry)>, i: int)
    requires
        unique_keys(s),
        0 <= i < s.len(),
    ensures
        unique_keys(s.remove(i)),
        entries_map(s.remove(i)) == entries_map(s).remove(s[i].0@),
{
    let t = s.remove(i);
    assert forall|x: int, y: int| 0 <= x < y < t.len() implies (#[trigger] t[x]).0@ != (
    #[trigger] t[y]).0@ by {
        let sx: int = if x < i { x } else { x + 1 };
        let sy: int = if y < i { y } else { y + 1 };
        assert(t[x] == s[sx]);
        assert(t[y] == s[sy]);
    }
    let lhs = entries_map(t);
    let rhs = entries_map(s).remove(s[i].0@);
    assert forall|k: Seq<char>| lhs.contains_key(k) <==> rhs.contains_key(k) by {
        lemma_map_contains(t, k);
        lemma_map_contains(s, k);
        if exists|x: int| 0 <= x < s.len() && (#[trigger] s[x]).0@ == k {
            let x = choose|x: int| 0 <= x < s.len() && (#[trigger] s[x]).0@ == k;
            if x != i {
                let tx: int = if x < i { x } else { x - 1 };
                assert(t[tx] == s[x]);
            }
        }
        if exists|x: int| 0 <= x < t.len() && (#[trigger] t[x]).0@ == k {
            let x = choose|x: int| 0 <= x < t.len() && (#[trigger] t[x]).0@ == k;
            let sx: int = if x < i { x } else { x + 1 };
            assert(t[x] == s[sx]);
        }
    }
    assert forall|k: Seq<char>| lhs.contains_key(k) implies lhs[k] == rhs[k] by {
        lemma_map_contains(t, k);
        let x = choose|x: int| 0 <= x < t.len() && (#[trigger] t[x]).0@ == k;
        let sx: int = if x < i { x } else { x + 1 };
        assert(t[x] == s[sx]);
        lemma_map_value(t, x);
        lemma_map_value(s, sx);
    }
    assert(lhs =~= rhs);
}

/// Address returned by a cache lookup at `now_ms`: the stored address only
/// when the hostname is present and its entry is unexpired.
pub open spec fn cache_lookup_spec(
    m: Map<Seq<char>, EntryModel>,
    h: Seq<char>,
    now_ms: u64,
) -> Option<Seq<char>> {
    if m.contains_key(h) && entry_valid_at(m[h], now_ms) {
        Option::Some(m[h].ip_address)
    } else {
        Option::None
    }
}

/// The cache after pre-cleaning a hostname at `now_ms`: its entry is removed
/// when present and expired, and nothing changes otherwise.
pub open spec fn clean_expired_spec(
    m: Map<Seq<char>, EntryModel>,
    h: Seq<char>,
    now_ms: u64,
) -> Map<Seq<char>, EntryModel> {
    if m.contains_key(h) && !entry_valid_at(m[h], now_ms) {
        m.remove(h)
    } else {
        m
    }
}

impl View for DnsCache {
    type V = Map<Seq<char>, EntryModel>;

    closed spec fn view(&self) -> Map<Seq<char>, EntryModel> {
        entries_map(self.entries@)
    }
}

impl DnsCache {
    pub closed spec fn wf(self) -> bool {
        unique_keys(self.entries@)
    }

    /// An empty cache.
    pub fn new() -> (c: Self)
        ensures
            c.wf(),
            c@ == Map::<Seq<char>, EntryModel>::empty(),
    {
        DnsCache { entries: Vec::new() }
    }

    fn find_index(&self, hostname: &String) -> (r: Option<usize>)
        ensures
            match r {
                Option::Some(i) => i < self.entries@.len() && self.entries@[i as int].0@
                    == hostname@,
                Option::None => forall|i: int|
                    0 <= i < self.entries@.len() ==> (#[trigger] self.entries@[i]).0@ != hostname@,
            },
    {
        let mut idx: usize = 0;
        while idx < self.entries.len()
            invariant
                0 <= idx <= self.entries@.len(),
                forall|i: int| 0 <= i < idx ==> (#[trigger] self.entries@[i]).0@ != hostname@,
            decreases self.entries@.len() - idx,
        {
            if self.entries[idx].0 == *hostname {
                return Option::Some(idx);
            }
            idx = idx + 1;
        }
        Option::None
    }

    /// The entry stored for a hostname, expired or not; the cache is not
    /// mutated.
    pub fn get(&self, hostname: &str) -> (r: Option<&DnsCacheEntry>)
        requires
            self.wf(),
        ensures
            match r {
                Option::Some(e) => self@.contains_key(hostname@) && e.model() == self@[hostname@],
                Option::None => !self@.contains_key(hostname@),
            },
    {
        let key = hostname.to_owned();
        match self.find_index(&key) {
            Option::Some(i) => {
                proof {
                    lemma_map_value(self.entries@, i as int);
                }
                Option::Some(&self.entries[i].1)
            },
            Option::None => {
                proof {
                    lemma_map_contains(self.entries@, hostname@);
                }
                Option::None
            },
        }
    }

    /// Store an entry for a hostname, overwriting any existing one.
    pub fn insert(&mut self, hostname: String, entry: DnsCacheEntry)
        requires
            old(self).wf(),
        ensures
            final(self).wf(),
            final(self)@ == old(self)@.insert(hostname@, entry.model()),
    {
        let ghost s = self.entries@;
        match self.find_index(&hostname) {
            Option::Some(i) => {
                let ghost p = (hostname, entry);
                self.entries[i] = (hostname, entry);
                proof {
                    lemma_update_existing(s, i as int, p);
                }
            },
            Option::None => {
                self.entries.push((hostname, entry));
                proof {
                    assert(self.entries@.drop_last() =~= s);
                    assert forall|x: int, y: int|
                        0 <= x < y < self.entries@.len() implies (#[trigger] self.entries@[x]).0@
                        != (#[trigger] self.entries@[y]).0@ by {
                        if y < self.entries@.len() - 1 {
                            assert(self.entries@[x] == s[x]);
                            assert(self.entries@[y] == s[y]);
                        } else {
                            assert(self.entries@[x] == s[x]);
                        }
                    }
                }
            },
        }
    }

    /// Drop the entry for a hostname, if any.
    pub fn remove(&mut self, hostname: &str)
        requires
            old(self).wf(),
        ensures
            final(self).wf(),
            final(self)@ == old(self)@.remove(hostname@),
    {
        let ghost s = self.entries@;
        let key = hostname.to_owned();
        match self.find_index(&key) {
            Option::Some(i) => {
                self.entries.remove(i);
                proof {
                    lemma_remove_at(s, i as int);
                }
            },
            Option::None => {
                proof {
                    lemma_map_contains(s, hostname@);
                    assert(entries_map(s) =~= entries_map(s).remove(hostname@));
                }
            },
        }
    }

    /// The cached address for a hostname when one is stored and unexpired at
    /// `now_ms`; the cache is not mutated.
    pub fn get_valid_ip(&self, hostname: &str, now_ms: u64) -> (r: Option<String>)
        requires
            self.wf(),
        ensures
            match r {
                Option::Some(a) => cache_lookup_spec(self@, hostname@, now_ms) == Option::Some(a@),
                Option::None => cache_lookup_spec(self@, hostname@, now_ms) is None,
            },
    {
        match self.get(hostname) {
            Option::Some(e) => {
                if !e.is_expired(now_ms) {
                    Option::Some(e.ip_address())
                } else {
                    Option::None
                }
            },
            Option::None => Option::None,
        }
    }

    /// Pre-clean a hostname: remove its entry when expired at `now_ms`, do
    /// nothing otherwise.
    pub fn clean_expired(&mut self, hostname: &str, now_ms: u64)
        requires
            old(self).wf(),
        ensures
            final(self).wf(),
            final(self)@ == clean_expired_spec(old(self)@, hostname@, now_ms),
    {
        let expired = match self.get(hostname) {
            Option::Some(e) => e.is_expired(now_ms),
            Option::None => false,
        };
        if expired {
            self.remove(hostname);
        }
    }
}

/// Storing an address and looking the hostname up within the entry's
/// time-to-live returns exactly the stored address.
pub proof fn lemma_store_then_lookup(
    m: Map<Seq<char>, EntryModel>,
    h: Seq<char>,
    a: Seq<char>,
    cached_at_ms: u64,
    ttl_ms: u64,
    lookup_ms: u64,
)
    requires
        cached_at_ms <= lookup_ms,
        lookup_ms - cached_at_ms <= ttl_ms,
    ensures
        cache_lookup_spec(
            m.insert(h, EntryModel { ip_address: a, cached_at_ms, ttl_ms }),
            h,
            lookup_ms,
        ) == Option::Some(a),
{
}

/// Once an entry's time-to-live has elapsed, a validity-checked lookup of
/// its hostname returns nothing.
pub proof fn lemma_lookup_after_ttl(m: Map<Seq<char>, EntryModel>, h: Seq<char>, now_ms: u64)
    requires
        m.contains_key(h) ==> now_ms > m[h].cached_at_ms + m[h].ttl_ms,
    ensures
        cache_lookup_spec(m, h, now_ms) is None,
{
}

/// Pre-cleaning a hostname whose entry is still fresh leaves the cache
/// unchanged.
pub proof fn lemma_evict_fresh_is_noop(m: Map<Seq<char>, EntryModel>, h: Seq<char>, now_ms: u64)
    requires
        m.contains_key(h),
        entry_valid_at(m[h], now_ms),
    ensures
        clean_expired_spec(m, h, now_ms) == m,
{
}

} // verus!
