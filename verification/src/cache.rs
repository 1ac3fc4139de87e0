//! The IP cache: for each domain, the preferred IP address, its measured
//! latency and the time at which the entry expires.
//!
//! The entries live in a `DashMap`. Its contents are named by
//! [`dash_contents`], and every operation that the cache makes on the map is
//! stated over that name. Operations that read the clock have a counterpart
//! ending in `_at` that takes the time as an argument and has an exact
//! contract; the clock-reading operation promises that it behaved exactly as
//! the `_at` operation does at some time.

use dashmap::DashMap;
use vstd::prelude::*;

use crate::clock::Clock;

verus! {

broadcast use vstd::seq_lib::group_seq_properties;

#[verifier::external_type_specification]
#[verifier::external_body]
#[verifier::reject_recursive_types(K)]
#[verifier::reject_recursive_types(V)]
#[verifier::reject_recursive_types(S)]
pub struct ExDashMap<K, V, S>(DashMap<K, V, S>);

/// The model of a cache entry: IP address, latency in milliseconds, and
/// expiry time in milliseconds on the time line of the clock that created
/// it. The expiry may lie past the last time that the clock can count.
pub type EntryModel = (Seq<char>, u32, int);

/// The model of the cache contents: domain to entry.
pub type CacheModel = Map<Seq<char>, EntryModel>;

/// A cached preferred IP address for a domain.
#[derive(Debug, Clone)]
pub struct CacheEntry {
    /// The preferred IP address.
    pub ip: String,
    /// The measured latency in milliseconds.
    pub latency: u32,
    /// The expiry time, in milliseconds on the time line of the clock that
    /// created the entry. It is wider than a time so that a creation time
    /// plus any lifetime fits.
    pub expires_at: u128,
    /// The time, on that time line, at which the entry was created.
    pub created_at: u64,
    /// A monotonic clock started when the entry was created, which tells
    /// the entry's time afterwards.
    pub clock: Clock,
}

impl View for CacheEntry {
    type V = EntryModel;

    open spec fn view(&self) -> EntryModel {
        (self.ip@, self.latency, self.expires_at as int)
    }
}

/// The expiry time of an entry created at `now` with lifetime `ttl`.
pub open spec fn expiry_after(now: u64, ttl: u64) -> int {
    now + ttl
}

/// An entry is expired once the time has reached its expiry time.
pub open spec fn entry_expired(e: EntryModel, now: u64) -> bool {
    now >= e.2
}

/// What a lookup of `domain` at time `now` finds: the entry, if there is
/// one and it has not expired.
pub open spec fn lookup(c: CacheModel, domain: Seq<char>, now: u64) -> Option<EntryModel> {
    if c.contains_key(domain) && !entry_expired(c[domain], now) {
        Some(c[domain])
    } else {
        None
    }
}

/// The contents after a lookup of `domain` at time `now`: an expired entry
/// for the domain is dropped, everything else stays.
pub open spec fn after_lookup(c: CacheModel, domain: Seq<char>, now: u64) -> CacheModel {
    if c.contains_key(domain) && entry_expired(c[domain], now) {
        c.remove(domain)
    } else {
        c
    }
}

/// Whether `domain` has an entry in `c` that has not expired at `now`.
pub open spec fn is_live(c: CacheModel, domain: Seq<char>, now: u64) -> bool {
    c.contains_key(domain) && !entry_expired(c[domain], now)
}

/// The domains whose entries have not expired at `now`.
pub open spec fn live_domains(c: CacheModel, now: u64) -> Set<Seq<char>> {
    c.dom().filter(|d: Seq<char>| is_live(c, d, now))
}

/// The empty cache.
pub open spec fn empty_cache() -> CacheModel {
    Map::empty()
}

/// The contents of a `DashMap` from domains to cache entries, each entry
/// taken by its model.
pub uninterp spec fn dash_contents(m: DashMap<String, CacheEntry>) -> CacheModel;

/// `DashMap::new`: an empty map.
#[verifier::external_body]
fn dash_new() -> (m: DashMap<String, CacheEntry>)
    ensures
        dash_contents(m) == empty_cache(),
{
    DashMap::new()
}

/// `DashMap::get`, with the entry cloned out of the guard: the entry stored
/// for `key`, if any.
#[verifier::external_body]
fn dash_get(m: &DashMap<String, CacheEntry>, key: &str) -> (r: Option<CacheEntry>)
    ensures
        r is Some <==> dash_contents(*m).contains_key(key@),
        r matches Some(e) ==> e@ == dash_contents(*m)[key@],
{
    m.get(key).map(|g| g.value().clone())
}

/// `DashMap::insert`: the map afterwards maps `key` to `value` and is
/// otherwise unchanged. The previous value that it returns is dropped.
#[verifier::external_body]
fn dash_insert(m: &mut DashMap<String, CacheEntry>, key: String, value: CacheEntry)
    ensures
        dash_contents(*final(m)) == dash_contents(*old(m)).insert(key@, value@),
{
    m.insert(key, value);
}

/// `DashMap::remove`: the map afterwards has no entry for `key` and is
/// otherwise unchanged. The removed pair that it returns is dropped.
#[verifier::external_body]
fn dash_remove(m: &mut DashMap<String, CacheEntry>, key: &str)
    ensures
        dash_contents(*final(m)) == dash_contents(*old(m)).remove(key@),
{
    m.remove(key);
}

/// `DashMap::clear`: the map afterwards is empty.
#[verifier::external_body]
fn dash_clear(m: &mut DashMap<String, CacheEntry>)
    ensures
        dash_contents(*final(m)) == empty_cache(),
{
    m.clear();
}

/// `DashMap::len`: the number of entries.
#[verifier::external_body]
fn dash_len(m: &DashMap<String, CacheEntry>) -> (n: usize)
    ensures
        n == dash_contents(*m).len(),
{
    m.len()
}

/// `DashMap::iter`, each entry mapped to a clone of its key: every key of the
/// map, each once, in the order that the iterator walks the shards (which
/// is left open).
#[verifier::external_body]
fn dash_keys(m: &DashMap<String, CacheEntry>) -> (keys: Vec<String>)
    ensures
        keys@.map_values(|k: String| k@).to_set() == dash_contents(*m).dom(),
        keys@.map_values(|k: String| k@).no_duplicates(),
{
    m.iter().map(|e| e.key().clone()).collect()
}

impl CacheEntry {
    /// Creates an entry that expires `ttl_ms` milliseconds from now: its time
    /// line starts at 0 now, so it expires at `ttl_ms`.
    pub fn new(ip: String, latency: u32, ttl_ms: u64) -> (e: CacheEntry)
        ensures
            e@ == (ip@, latency, ttl_ms as int),
            e.created_at == 0,
    {
        Self::new_at(ip, latency, ttl_ms, 0)
    }

    /// Creates an entry at time `now` of a time line that expires `ttl_ms`
    /// milliseconds later.
    pub fn new_at(ip: String, latency: u32, ttl_ms: u64, now: u64) -> (e: CacheEntry)
        ensures
            e@ == (ip@, latency, expiry_after(now, ttl_ms)),
            e.created_at == now,
    {
        let expires_at = now as u128 + ttl_ms as u128;
        CacheEntry { ip, latency, expires_at, created_at: now, clock: Clock::start() }
    }

    /// The IP address, taking the entry apart.
    pub fn into_ip(self) -> (ip: String)
        ensures
            ip@ == self@.0,
    {
        self.ip
    }

    /// The expiry time, in milliseconds on the entry's time line.
    pub fn expires_at(&self) -> (t: u128)
        ensures
            t == self@.2,
    {
        self.expires_at
    }

    /// The entry's time now: its creation time plus the milliseconds that
    /// its monotonic clock has counted since (held at `u64::MAX`).
    pub fn current_time(&self) -> (now: u64)
        ensures
            now >= self.created_at,
    {
        let elapsed = self.clock.millis();
        if self.created_at > u64::MAX - elapsed {
            u64::MAX
        } else {
            self.created_at + elapsed
        }
    }

    /// Whether the entry has expired by now, on its own time line.
    pub fn is_expired(&self) -> (r: bool)
        ensures
            exists|now: u64| now >= self.created_at && r == entry_expired(self@, now),
    {
        let now = self.current_time();
        self.is_expired_at(now)
    }

    /// Whether the entry has expired at time `now`.
    pub fn is_expired_at(&self, now: u64) -> (r: bool)
        ensures
            r == entry_expired(self@, now),
    {
        now as u128 >= self.expires_at
    }
}

/// The domains among `s` whose entries in `c` have not expired at `now`.
pub open spec fn live_among(s: Set<Seq<char>>, c: CacheModel, now: u64) -> Set<Seq<char>> {
    s.filter(|d: Seq<char>| is_live(c, d, now))
}

/// The number of domains in `ks` whose entries in `c` have not expired at
/// `now`, counted along the sequence.
pub open spec fn live_count(ks: Seq<Seq<char>>, c: CacheModel, now: u64) -> nat
    decreases ks.len(),
{
    if ks.len() == 0 {
        0
    } else {
        live_count(ks.drop_last(), c, now) + if is_live(c, ks.last(), now) { 1nat } else { 0nat }
    }
}

/// Counting along a sequence without repeats counts the set of its elements.
proof fn lemma_live_count(ks: Seq<Seq<char>>, c: CacheModel, now: u64)
    requires
        ks.no_duplicates(),
    ensures
        live_count(ks, c, now) == live_among(ks.to_set(), c, now).len(),
        live_among(ks.to_set(), c, now).finite(),
        live_count(ks, c, now) <= ks.len(),
    decreases ks.len(),
{
    broadcast use vstd::set::group_set_axioms;
    if ks.len() == 0 {
        assert(ks.to_set() =~= Set::<Seq<char>>::empty());
        assert(live_among(ks.to_set(), c, now) =~= Set::<Seq<char>>::empty());
    } else {
        let rest = ks.drop_last();
        let x = ks.last();
        assert(rest.no_duplicates());
        lemma_live_count(rest, c, now);
        assert(ks =~= rest.push(x));
        rest.lemma_push_to_set_commute(x);
        vstd::seq_lib::seq_to_set_is_finite(rest);
        assert(!rest.to_set().contains(x)) by {
            if rest.to_set().contains(x) {
                assert(rest.contains(x));
                let j = choose|j: int| 0 <= j < rest.len() && rest[j] == x;
                assert(ks[j] == ks[ks.len() - 1]);
            }
        }
        if is_live(c, x, now) {
            assert(live_among(ks.to_set(), c, now) =~= live_among(rest.to_set(), c, now).insert(x));
        } else {
            assert(live_among(ks.to_set(), c, now) =~= live_among(rest.to_set(), c, now));
        }
    }
}

/// The IP addresses of a lookup result, by view.
pub open spec fn ip_of(r: Option<String>) -> Option<Seq<char>> {
    match r {
        Some(s) => Some(s@),
        None => None,
    }
}

/// The IP address that a lookup of `domain` at `now` finds.
pub open spec fn lookup_ip(c: CacheModel, domain: Seq<char>, now: u64) -> Option<Seq<char>> {
    match lookup(c, domain, now) {
        Some(e) => Some(e.0),
        None => None,
    }
}

/// The entry models of a lookup result.
pub open spec fn entry_of(r: Option<CacheEntry>) -> Option<EntryModel> {
    match r {
        Some(e) => Some(e@),
        None => None,
    }
}

/// Counts of cache entries.
#[derive(Debug, Clone)]
pub struct CacheStats {
    /// All entries, expired ones included.
    pub total: usize,
    /// Entries that have not expired.
    pub active: usize,
}

/// The cache of preferred IP addresses, with the lifetime given to new
/// entries, a monotonic clock started with the cache (its times are the
/// milliseconds since then), and the latest time at which its
/// clock-reading operations ran, which they never go below.
pub struct IpCache {
    inner: DashMap<String, CacheEntry>,
    ttl_ms: u64,
    clock: Clock,
    last_ms: u64,
}

impl View for IpCache {
    type V = CacheModel;

    closed spec fn view(&self) -> CacheModel {
        dash_contents(self.inner)
    }
}

impl IpCache {
    /// The lifetime, in milliseconds, of the entries that the cache creates.
    pub closed spec fn ttl(&self) -> u64 {
        self.ttl_ms
    }

    /// The latest time, in milliseconds since the cache was created, at which a
    /// clock-reading operation of the cache ran (0 before the first).
    pub closed spec fn time(&self) -> u64 {
        self.last_ms
    }

    /// Creates an empty cache whose entries live `ttl_ms` milliseconds.
    pub fn new(ttl_ms: u64) -> (c: IpCache)
        ensures
            c@ == empty_cache(),
            c.ttl() == ttl_ms,
            c.time() == 0,
    {
        IpCache { inner: dash_new(), ttl_ms, clock: Clock::start(), last_ms: 0 }
    }

    /// The cache's time now: the clock's reading, or the cache's latest
    /// time where the clock reads earlier. It becomes the cache's latest
    /// time; the contents stay as they are.
    pub fn now(&mut self) -> (now: u64)
        ensures
            now >= old(self).time(),
            final(self).time() == now,
            final(self)@ == old(self)@,
            final(self).ttl() == old(self).ttl(),
    {
        let now = self.current_time();
        self.last_ms = now;
        now
    }

    /// The clock's reading, or the cache's latest time where the clock reads
    /// earlier, without recording it.
    pub fn current_time(&self) -> (now: u64)
        ensures
            now >= self.time(),
    {
        let t = self.clock.millis();
        if t < self.last_ms {
            self.last_ms
        } else {
            t
        }
    }

    /// The lifetime, in milliseconds, of the entries that the cache creates.
    pub fn ttl_millis(&self) -> (t: u64)
        ensures
            t == self.ttl(),
    {
        self.ttl_ms
    }

    /// The preferred IP for `domain`, if its entry exists and has not
    /// expired at time `now`; an expired entry is removed.
    pub fn get_at(&mut self, domain: &str, now: u64) -> (r: Option<String>)
        ensures
            ip_of(r) == lookup_ip(old(self)@, domain@, now),
            final(self)@ == after_lookup(old(self)@, domain@, now),
            final(self).ttl() == old(self).ttl(),
            final(self).time() == old(self).time(),
    {
        match self.get_entry_at(domain, now) {
            Some(e) => Some(e.ip),
            None => None,
        }
    }

    /// The preferred IP for `domain` now; see [`IpCache::get_at`].
    pub fn get(&mut self, domain: &str) -> (r: Option<String>)
        ensures
            exists|now: u64|
                now >= old(self).time() && final(self).time() == now
                    && ip_of(r) == lookup_ip(old(self)@, domain@, now) && final(self)@ == after_lookup(
                    old(self)@,
                    domain@,
                    now,
                ),
            final(self).ttl() == old(self).ttl(),
    {
        let now = self.now();
        self.get_at(domain, now)
    }

    /// The entry for `domain`, if it exists and has not expired at time
    /// `now`; an expired entry is removed.
    pub fn get_entry_at(&mut self, domain: &str, now: u64) -> (r: Option<CacheEntry>)
        ensures
            entry_of(r) == lookup(old(self)@, domain@, now),
            final(self)@ == after_lookup(old(self)@, domain@, now),
            final(self).ttl() == old(self).ttl(),
            final(self).time() == old(self).time(),
    {
        match dash_get(&self.inner, domain) {
            Some(e) => {
                if !e.is_expired_at(now) {
                    Some(e)
                } else {
                    dash_remove(&mut self.inner, domain);
                    None
                }
            },
            None => None,
        }
    }

    /// The entry for `domain` now; see [`IpCache::get_entry_at`].
    pub fn get_entry(&mut self, domain: &str) -> (r: Option<CacheEntry>)
        ensures
            exists|now: u64|
                now >= old(self).time() && final(self).time() == now
                    && entry_of(r) == lookup(old(self)@, domain@, now) && final(self)@ == after_lookup(
                    old(self)@,
                    domain@,
                    now,
                ),
            final(self).ttl() == old(self).ttl(),
    {
        let now = self.now();
        self.get_entry_at(domain, now)
    }

    /// Records `ip` with `latency` as the preferred IP of `domain` at time
    /// `now`, replacing any entry that the domain had.
    pub fn set_at(&mut self, domain: String, ip: String, latency: u32, now: u64)
        ensures
            final(self)@ == old(self)@.insert(
                domain@,
                (ip@, latency, expiry_after(now, old(self).ttl())),
            ),
            final(self).ttl() == old(self).ttl(),
            final(self).time() == old(self).time(),
    {
        let entry = CacheEntry::new_at(ip, latency, self.ttl_ms, now);
        dash_insert(&mut self.inner, domain, entry);
    }

    /// Records `ip` as the preferred IP of `domain` now; see
    /// [`IpCache::set_at`].
    pub fn set(&mut self, domain: String, ip: String, latency: u32)
        ensures
            exists|now: u64|
                now >= old(self).time() && final(self).time() == now
                    && final(self)@ == old(self)@.insert(
                    domain@,
                    (ip@, latency, #[trigger] expiry_after(now, old(self).ttl())),
                ),
            final(self).ttl() == old(self).ttl(),
    {
        let now = self.now();
        self.set_at(domain, ip, latency, now)
    }

    /// [`IpCache::set_at`] with borrowed strings.
    pub fn put_at(&mut self, domain: &str, ip: &str, latency: u32, now: u64)
        ensures
            final(self)@ == old(self)@.insert(
                domain@,
                (ip@, latency, expiry_after(now, old(self).ttl())),
            ),
            final(self).ttl() == old(self).ttl(),
            final(self).time() == old(self).time(),
    {
        self.set_at(domain.to_owned(), ip.to_owned(), latency, now)
    }

    /// Fills in an entry by hand (for tests or preloading); see
    /// [`IpCache::set`].
    pub fn put(&mut self, domain: &str, ip: &str, latency: u32)
        ensures
            exists|now: u64|
                now >= old(self).time() && final(self).time() == now
                    && final(self)@ == old(self)@.insert(
                    domain@,
                    (ip@, latency, #[trigger] expiry_after(now, old(self).ttl())),
                ),
            final(self).ttl() == old(self).ttl(),
    {
        self.set(domain.to_owned(), ip.to_owned(), latency)
    }

    /// Removes the entry of `domain`, if any.
    pub fn remove(&mut self, domain: &str)
        ensures
            final(self)@ == old(self)@.remove(domain@),
            final(self).ttl() == old(self).ttl(),
            final(self).time() == old(self).time(),
    {
        dash_remove(&mut self.inner, domain);
    }

    /// Counts all entries and those that have not expired at time `now`.
    pub fn stats_at(&self, now: u64) -> (s: CacheStats)
        ensures
            s.total == self@.len(),
            s.active == live_domains(self@, now).len(),
            s.active <= s.total,
            self@.dom().finite(),
    {
        let total = dash_len(&self.inner);
        let keys = dash_keys(&self.inner);
        let ghost c = self@;
        let ghost ks = keys@.map_values(|k: String| k@);
        let mut active: usize = 0;
        let mut i: usize = 0;
        proof {
            ks.unique_seq_to_set();
            lemma_live_count(ks, c, now);
        }
        while i < keys.len()
            invariant
                c == self@,
                ks == keys@.map_values(|k: String| k@),
                ks.no_duplicates(),
                i <= keys.len(),
                active == live_count(ks.take(i as int), c, now),
                live_count(ks, c, now) <= ks.len(),
            decreases keys.len() - i,
        {
            proof {
                assert(ks.take(i + 1).drop_last() =~= ks.take(i as int));
                assert(ks.take(i + 1).last() == keys@[i as int]@);
                assert(ks.take(i as int).no_duplicates());
                lemma_live_count(ks.take(i as int), c, now);
                assert(ks.take(i as int).len() == i);
            }
            let e = dash_get(&self.inner, keys[i].as_str());
            match e {
                Some(entry) => {
                    if !entry.is_expired_at(now) {
                        active = active + 1;
                    }
                },
                None => {},
            }
            i = i + 1;
        }
        proof {
            assert(ks.take(keys.len() as int) =~= ks);
            ks.unique_seq_to_set();
            assert(live_among(ks.to_set(), c, now) == live_domains(c, now));
            vstd::seq_lib::seq_to_set_is_finite(ks);
        }
        CacheStats { total, active }
    }

    /// Counts all entries and those that have not expired now; see
    /// [`IpCache::stats_at`].
    pub fn stats(&self) -> (s: CacheStats)
        ensures
            s.total == self@.len(),
            exists|now: u64| now >= self.time() && s.active == #[trigger] live_domains(self@, now).len(),
            s.active <= s.total,
    {
        let now = self.current_time();
        self.stats_at(now)
    }

    /// Removes every entry.
    pub fn clear(&mut self)
        ensures
            final(self)@ == empty_cache(),
            final(self).ttl() == old(self).ttl(),
            final(self).time() == old(self).time(),
    {
        dash_clear(&mut self.inner);
    }
}

/// A lookup before an entry's expiry finds what was stored: after
/// recording `ip` for `domain` at time `now`, a lookup of `domain` at any
/// time `t` before `now + ttl` gives back `ip` and leaves the contents as
/// they are.
pub proof fn law_lookup_after_set(
    c: CacheModel,
    domain: Seq<char>,
    ip: Seq<char>,
    latency: u32,
    now: u64,
    ttl: u64,
    t: u64,
)
    requires
        t < expiry_after(now, ttl),
    ensures
        lookup_ip(c.insert(domain, (ip, latency, expiry_after(now, ttl))), domain, t) == Some(ip),
        after_lookup(c.insert(domain, (ip, latency, expiry_after(now, ttl))), domain, t) == c.insert(
            domain,
            (ip, latency, expiry_after(now, ttl)),
        ),
{
}

/// Once an entry's lifetime has run out, a lookup finds nothing and removes
/// the entry.
pub proof fn law_lookup_after_expiry(
    c: CacheModel,
    domain: Seq<char>,
    ip: Seq<char>,
    latency: u32,
    now: u64,
    ttl: u64,
    t: u64,
)
    requires
        t >= expiry_after(now, ttl),
    ensures
        lookup_ip(c.insert(domain, (ip, latency, expiry_after(now, ttl))), domain, t) is None,
        after_lookup(c.insert(domain, (ip, latency, expiry_after(now, ttl))), domain, t) == c.remove(
            domain,
        ),
{
    assert(c.insert(domain, (ip, latency, expiry_after(now, ttl))).remove(domain) =~= c.remove(
        domain,
    ));
}

/// A lookup never serves an expired entry: whatever it finds is stored for
/// the domain and has not reached its expiry time.
pub proof fn law_lookup_serves_only_live(c: CacheModel, domain: Seq<char>, now: u64)
    ensures
        lookup_ip(c, domain, now) is Some ==> c.contains_key(domain) && now < c[domain].2
            && lookup_ip(c, domain, now) == Some(c[domain].0),
{
}

/// Recording an IP for one domain changes no lookup of another domain.
pub proof fn law_set_keeps_other_domains(
    c: CacheModel,
    domain: Seq<char>,
    e: EntryModel,
    other: Seq<char>,
    now: u64,
)
    requires
        other != domain,
    ensures
        lookup(c.insert(domain, e), other, now) == lookup(c, other, now),
{
}

/// A lookup never adds an entry, and it changes no entry but the one it
/// looked up.
pub proof fn law_lookup_only_drops(c: CacheModel, domain: Seq<char>, now: u64)
    ensures
        after_lookup(c, domain, now).dom().subset_of(c.dom()),
        forall|k: Seq<char>|
            k != domain && #[trigger] c.contains_key(k) ==> after_lookup(c, domain, now).contains_key(
                k,
            ) && after_lookup(c, domain, now)[k] == c[k],
{
}

/// An expired entry stays expired as time goes on.
pub proof fn law_expiry_is_permanent(e: EntryModel, t1: u64, t2: u64)
    requires
        t1 <= t2,
        entry_expired(e, t1),
    ensures
        entry_expired(e, t2),
{
}

/// A cleared cache holds nothing, so it counts no entries and no live ones.
pub proof fn law_cleared_cache_counts_nothing(now: u64)
    ensures
        empty_cache().len() == 0,
        live_domains(empty_cache(), now).len() == 0,
{
    assert(empty_cache().dom() =~= Set::<Seq<char>>::empty());
    assert(live_domains(empty_cache(), now) =~= Set::<Seq<char>>::empty());
}

/// An operation on the cache contents, as the cache's methods make them.
pub enum CacheOp {
    /// `get`/`get_entry` of a domain at a time.
    Lookup(Seq<char>, u64),
    /// `set`/`put` of a domain's entry.
    Store(Seq<char>, EntryModel),
    /// `remove` of a domain.
    Drop(Seq<char>),
    /// `clear`.
    Clear,
    /// `stats`, which reads and changes nothing.
    Count,
}

/// The contents after one operation.
pub open spec fn apply_op(c: CacheModel, op: CacheOp) -> CacheModel {
    match op {
        CacheOp::Lookup(d, t) => after_lookup(c, d, t),
        CacheOp::Store(d, e) => c.insert(d, e),
        CacheOp::Drop(d) => c.remove(d),
        CacheOp::Clear => empty_cache(),
        CacheOp::Count => c,
    }
}

/// The contents after a series of operations, in order.
pub open spec fn apply_ops(c: CacheModel, ops: Seq<CacheOp>) -> CacheModel
    decreases ops.len(),
{
    if ops.len() == 0 {
        c
    } else {
        apply_op(apply_ops(c, ops.drop_last()), ops.last())
    }
}

/// Whether an operation writes, removes or clears the entry of `d`.
pub open spec fn touches(op: CacheOp, d: Seq<char>) -> bool {
    match op {
        CacheOp::Store(k, _) => k == d,
        CacheOp::Drop(k) => k == d,
        CacheOp::Clear => true,
        _ => false,
    }
}

/// Whether an operation looks `d` up at or after time `expiry`.
pub open spec fn late_lookup(op: CacheOp, d: Seq<char>, expiry: int) -> bool {
    match op {
        CacheOp::Lookup(k, t) => k == d && t >= expiry,
        _ => false,
    }
}

/// Operations that do not write, remove or clear a domain's entry never
/// change it and never extend its lifetime: whatever is left of it is the
/// entry as it was. And it stays stored as long as no lookup of it comes at
/// or after its expiry.
pub proof fn law_untouched_entry_stays(c: CacheModel, ops: Seq<CacheOp>, d: Seq<char>)
    requires
        forall|i: int| 0 <= i < ops.len() ==> !touches(#[trigger] ops[i], d),
    ensures
        apply_ops(c, ops).contains_key(d) ==> c.contains_key(d) && apply_ops(c, ops)[d] == c[d],
        c.contains_key(d) && (forall|i: int| 0 <= i < ops.len() ==> !late_lookup(#[trigger] ops[i], d, c[d].2))
            ==> apply_ops(c, ops).contains_key(d),
    decreases ops.len(),
{
    if ops.len() > 0 {
        let rest = ops.drop_last();
        assert forall|i: int| 0 <= i < rest.len() implies !touches(#[trigger] rest[i], d) by {
            assert(rest[i] == ops[i]);
        }
        law_untouched_entry_stays(c, rest, d);
        assert(!touches(ops[ops.len() - 1], d));
        if c.contains_key(d) && (forall|i: int| 0 <= i < ops.len() ==> !late_lookup(#[trigger] ops[i], d, c[d].2)) {
            assert forall|i: int| 0 <= i < rest.len() implies !late_lookup(#[trigger] rest[i], d, c[d].2) by {
                assert(rest[i] == ops[i]);
            }
            assert(!late_lookup(ops[ops.len() - 1], d, c[d].2));
        }
    }
}

/// A domain recorded at time `now` is found with what was recorded by any
/// lookup before `now + ttl`, whatever other domains were read, written or
/// removed in between, as long as nothing wrote, removed or cleared its own
/// entry; and at or after `now + ttl` it is found no more, however often it
/// was read (reads do not extend an entry's lifetime).
pub proof fn law_lookup_after_set_and_other_ops(
    c: CacheModel,
    domain: Seq<char>,
    ip: Seq<char>,
    latency: u32,
    now: u64,
    ttl: u64,
    ops: Seq<CacheOp>,
    t: u64,
)
    requires
        forall|i: int| 0 <= i < ops.len() ==> !touches(#[trigger] ops[i], domain),
    ensures
        (forall|i: int| 0 <= i < ops.len() ==> !late_lookup(#[trigger] ops[i], domain, expiry_after(now, ttl)))
            && t < expiry_after(now, ttl) ==> lookup_ip(
            apply_ops(c.insert(domain, (ip, latency, expiry_after(now, ttl))), ops),
            domain,
            t,
        ) == Some(ip),
        t >= expiry_after(now, ttl) ==> lookup_ip(
            apply_ops(c.insert(domain, (ip, latency, expiry_after(now, ttl))), ops),
            domain,
            t,
        ) is None,
{
    let c1 = c.insert(domain, (ip, latency, expiry_after(now, ttl)));
    law_untouched_entry_stays(c1, ops, domain);
}

/// Of two records of a domain, the later one wins: the domain is stored
/// once, with the later entry, and every other domain is as it was.
pub proof fn law_last_set_wins(c: CacheModel, domain: Seq<char>, e1: EntryModel, e2: EntryModel, t: u64)
    ensures
        c.insert(domain, e1).insert(domain, e2) == c.insert(domain, e2),
        c.insert(domain, e1).insert(domain, e2).dom() == c.dom().insert(domain),
        !entry_expired(e2, t) ==> lookup(c.insert(domain, e1).insert(domain, e2), domain, t) == Some(e2),
{
    assert(c.insert(domain, e1).insert(domain, e2) =~= c.insert(domain, e2));
    assert(c.insert(domain, e1).insert(domain, e2).dom() =~= c.dom().insert(domain));
}

/// After `clear`, no domain is found until it is recorded again.
pub proof fn law_cleared_cache_finds_nothing(domain: Seq<char>, t: u64)
    ensures
        lookup(empty_cache(), domain, t) is None,
{
}

} // verus!
