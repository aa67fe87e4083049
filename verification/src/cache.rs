//! A keyed response cache with per-entry time-to-live and first-in
//! eviction.

use vstd::prelude::*;
use crate::clock;
use crate::response::{HttpResponse, RespV};
use crate::text;

verus! {

/// How the cache behaves.
#[derive(Debug)]
pub struct CachePolicies {
    pub default_ttl_ms: u64,
    pub max_entries: usize,
    pub cache_by_method: bool,
    pub cache_successful_only: bool,
}

impl CachePolicies {
    /// A copy of these policies.
    pub fn duplicate(&self) -> (r: CachePolicies)
        ensures
            r == *self,
    {
        CachePolicies {
            default_ttl_ms: self.default_ttl_ms,
            max_entries: self.max_entries,
            cache_by_method: self.cache_by_method,
            cache_successful_only: self.cache_successful_only,
        }
    }
}

impl Default for CachePolicies {
    fn default() -> (r: CachePolicies)
        ensures
            r.default_ttl_ms == 300000,
            r.max_entries == 1000,
            r.cache_by_method,
            r.cache_successful_only,
    {
        CachePolicies {
            default_ttl_ms: 300000,
            max_entries: 1000,
            cache_by_method: true,
            cache_successful_only: true,
        }
    }
}

/// One cached entry: key, response, when it was stored, its lifetime.
pub struct EntryV {
    pub key: Seq<char>,
    pub response: RespV,
    pub stored_at: u64,
    pub ttl_ms: u64,
}

/// The key a URL and method are cached under.
pub open spec fn cache_key(by_method: bool, url: Seq<char>, method: Seq<char>) -> Seq<char> {
    if by_method {
        method + "::"@ + url
    } else {
        url
    }
}

/// The entries with every entry keyed `k` removed.
pub open spec fn drop_entry(s: Seq<EntryV>, k: Seq<char>) -> Seq<EntryV>
    decreases s.len(),
{
    if s.len() == 0 {
        Seq::empty()
    } else {
        let rest = drop_entry(s.drop_last(), k);
        if s.last().key == k {
            rest
        } else {
            rest.push(s.last())
        }
    }
}

/// The last entry keyed `k`, if any.
pub open spec fn entry_lookup(s: Seq<EntryV>, k: Seq<char>) -> Option<EntryV>
    decreases s.len(),
{
    if s.len() == 0 {
        None
    } else if s.last().key == k {
        Some(s.last())
    } else {
        entry_lookup(s.drop_last(), k)
    }
}

/// Whether an entry is still fresh at `now`; a clock that moved backwards
/// counts as no time elapsed.
pub open spec fn entry_fresh(e: EntryV, now: u64) -> bool {
    (if now >= e.stored_at {
        now - e.stored_at
    } else {
        0int
    }) < e.ttl_ms
}

/// A keyed store of responses with a hit and miss count.
pub struct ResponseCache {
    entries: Vec<(String, HttpResponse, u64, u64)>,
    hits: u64,
    misses: u64,
    policies: CachePolicies,
}

impl View for ResponseCache {
    type V = Seq<EntryV>;

    closed spec fn view(&self) -> Seq<EntryV> {
        self.entries@.map_values(
            |e: (String, HttpResponse, u64, u64)|
                EntryV { key: e.0@, response: e.1@, stored_at: e.2, ttl_ms: e.3 },
        )
    }
}

/// Aggregate cache statistics.
#[derive(Debug)]
pub struct CacheStats {
    pub hits: u64,
    pub misses: u64,
    pub total_requests: u64,
    pub size: usize,
}

impl CacheStats {
    /// The hit rate as an exact fraction of a percent; an untouched cache
    /// counts as zero.
    pub fn hit_rate(&self) -> (r: (u128, u128))
        ensures
            self.total_requests == 0 ==> r == (0u128, 1u128),
            self.total_requests > 0 ==> r == (
                (self.hits * 100) as u128,
                self.total_requests as u128,
            ),
    {
        if self.total_requests == 0 {
            (0, 1)
        } else {
            ((self.hits as u128) * 100, self.total_requests as u128)
        }
    }
}

impl ResponseCache {
    /// An empty cache with the given policies.
    pub fn new(policies: CachePolicies) -> (r: ResponseCache)
        ensures
            r@ == Seq::<EntryV>::empty(),
            r.spec_hits() == 0,
            r.spec_misses() == 0,
            r.spec_policies() == policies,
    {
        let r = ResponseCache { entries: Vec::new(), hits: 0, misses: 0, policies };
        proof {
            assert(r@ =~= Seq::<EntryV>::empty());
        }
        r
    }

    /// An empty cache with the default policies.
    pub fn with_default_policies() -> (r: ResponseCache)
        ensures
            r@ == Seq::<EntryV>::empty(),
            r.spec_hits() == 0,
            r.spec_misses() == 0,
            r.spec_policies().default_ttl_ms == 300000,
            r.spec_policies().max_entries == 1000,
            r.spec_policies().cache_by_method,
            r.spec_policies().cache_successful_only,
    {
        Self::new(CachePolicies::default())
    }

    /// The hit count so far.
    pub closed spec fn spec_hits(&self) -> u64 {
        self.hits
    }

    /// The miss count so far.
    pub closed spec fn spec_misses(&self) -> u64 {
        self.misses
    }

    /// The active policies.
    pub closed spec fn spec_policies(&self) -> CachePolicies {
        self.policies
    }

    /// The key a URL and method are stored under, per the policies.
    pub fn generate_key(&self, url: &str, method: &str) -> (r: String)
        ensures
            r@ == cache_key(self.spec_policies().cache_by_method, url@, method@),
    {
        if self.policies.cache_by_method {
            let mut k = String::from_str(method);
            k.append("::");
            k.append(url);
            proof {
                assert(k@ =~= method@ + "::"@ + url@);
            }
            k
        } else {
            String::from_str(url)
        }
    }

    /// Looks a response up at the given time: a fresh entry is a hit and
    /// is handed back; a stale one is dropped and counts as a miss.
    #[verifier::loop_isolation(false)]
    pub fn get_at(&mut self, url: &str, method: &str, now: u64) -> (r: Option<HttpResponse>)
        requires
            old(self).spec_hits() < u64::MAX,
            old(self).spec_misses() < u64::MAX,
        ensures
            final(self).spec_policies() == old(self).spec_policies(),
            ({
                let k = cache_key(old(self).spec_policies().cache_by_method, url@, method@);
                match entry_lookup(old(self)@, k) {
                    Some(e) => if entry_fresh(e, now) {
                        r matches Some(resp) && resp@ == e.response && final(self)@ == old(self)@
                            && final(self).spec_hits() == old(self).spec_hits() + 1
                    } else {
                        r is None && final(self)@ == drop_entry(old(self)@, k)
                            && final(self).spec_misses() == old(self).spec_misses() + 1
                    },
                    None => r is None && final(self)@ == old(self)@ && final(self).spec_misses()
                        == old(self).spec_misses() + 1,
                }
            }),
    {
        let key = self.generate_key(url, method);
        let ghost k = key@;
        let mut i = self.entries.len();
        proof {
            assert(self@.subrange(0, i as int) =~= self@);
        }
        while i > 0
            invariant
                0 <= i <= self.entries@.len(),
                self == old(self),
                key@ == k,
                entry_lookup(self@, k) == entry_lookup(self@.subrange(0, i as int), k),
            decreases i,
        {
            let ghost pref = self@.subrange(0, i as int);
            proof {
                assert(pref.drop_last() =~= self@.subrange(0, i - 1));
                assert(pref.last() == self@[i - 1]);
            }
            if text::str_eq(self.entries[i - 1].0.as_str(), key.as_str()) {
                let stored_at = self.entries[i - 1].2;
                let ttl = self.entries[i - 1].3;
                if now.saturating_sub(stored_at) < ttl {
                    self.hits = self.hits + 1;
                    let resp = self.entries[i - 1].1.duplicate();
                    return Some(resp);
                } else {
                    self.remove_key(key.as_str());
                    self.misses = self.misses + 1;
                    return None;
                }
            }
            i = i - 1;
        }
        proof {
            assert(self@.subrange(0, 0) =~= Seq::<EntryV>::empty());
        }
        self.misses = self.misses + 1;
        None
    }

    /// Looks a response up now, by the system clock.
    pub fn get(&mut self, url: &str, method: &str) -> (r: Option<HttpResponse>)
        requires
            old(self).spec_hits() < u64::MAX,
            old(self).spec_misses() < u64::MAX,
        ensures
            final(self).spec_policies() == old(self).spec_policies(),
            r is Some ==> entry_lookup(
                old(self)@,
                cache_key(old(self).spec_policies().cache_by_method, url@, method@),
            ) is Some,
    {
        let now = clock::now_millis();
        self.get_at(url, method, now)
    }

    /// Removes every entry with the given key; the counters stay.
    #[verifier::loop_isolation(false)]
    fn remove_key(&mut self, key: &str)
        ensures
            final(self)@ == drop_entry(old(self)@, key@),
            final(self).spec_hits() == old(self).spec_hits(),
            final(self).spec_misses() == old(self).spec_misses(),
            final(self).spec_policies() == old(self).spec_policies(),
    {
        let n = self.entries.len();
        let mut kept: Vec<(String, HttpResponse, u64, u64)> = Vec::new();
        let mut i: usize = 0;
        proof {
            assert(old(self)@.subrange(0, 0) =~= Seq::<EntryV>::empty());
            assert(drop_entry(old(self)@.subrange(0, 0), key@) =~= kept@.map_values(
                |e: (String, HttpResponse, u64, u64)|
                    EntryV { key: e.0@, response: e.1@, stored_at: e.2, ttl_ms: e.3 },
            ));
        }
        while i < n
            invariant
                0 <= i <= n,
                n == self.entries@.len(),
                self == old(self),
                drop_entry(old(self)@.subrange(0, i as int), key@) =~= kept@.map_values(
                    |e: (String, HttpResponse, u64, u64)|
                        EntryV { key: e.0@, response: e.1@, stored_at: e.2, ttl_ms: e.3 },
                ),
            decreases n - i,
        {
            let ghost pref = old(self)@.subrange(0, i + 1);
            proof {
                assert(pref.drop_last() =~= old(self)@.subrange(0, i as int));
                assert(pref.last() == old(self)@[i as int]);
            }
            if !text::str_eq(self.entries[i].0.as_str(), key) {
                kept.push(
                    (
                        self.entries[i].0.clone(),
                        self.entries[i].1.duplicate(),
                        self.entries[i].2,
                        self.entries[i].3,
                    ),
                );
            }
            proof {
                assert(drop_entry(old(self)@.subrange(0, i + 1), key@) =~= kept@.map_values(
                    |e: (String, HttpResponse, u64, u64)|
                        EntryV { key: e.0@, response: e.1@, stored_at: e.2, ttl_ms: e.3 },
                ));
            }
            i = i + 1;
        }
        self.entries = kept;
        proof {
            assert(old(self)@.subrange(0, n as int) =~= old(self)@);
        }
    }

    /// Stores a response under the default lifetime, at the given time.
    pub fn put_at(&mut self, url: &str, method: &str, response: HttpResponse, now: u64)
        ensures
            final(self).spec_policies() == old(self).spec_policies(),
            put_outcome(
                old(self)@,
                old(self).spec_policies(),
                url@,
                method@,
                response@,
                now,
                old(self).spec_policies().default_ttl_ms,
                final(self)@,
            ),
    {
        let ttl = self.policies.default_ttl_ms;
        self.put_with_ttl_at(url, method, response, ttl, now);
    }

    /// Stores a response under an explicit lifetime, at the given time.
    pub fn put_with_ttl_at(
        &mut self,
        url: &str,
        method: &str,
        response: HttpResponse,
        ttl_ms: u64,
        now: u64,
    )
        ensures
            final(self).spec_policies() == old(self).spec_policies(),
            put_outcome(
                old(self)@,
                old(self).spec_policies(),
                url@,
                method@,
                response@,
                now,
                ttl_ms,
                final(self)@,
            ),
    {
        if self.policies.cache_successful_only && !response.is_success() {
            return;
        }
        let key = self.generate_key(url, method);
        let ghost before_evict = self@;
        if self.entries.len() >= self.policies.max_entries {
            if self.entries.len() > 0 {
                let removed = self.entries.remove(0);
                proof {
                    assert(self@ =~= before_evict.drop_first());
                }
            }
        }
        let ghost base = self@;
        self.remove_key(key.as_str());
        let ghost dropped = self@;
        self.entries.push((key, response, now, ttl_ms));
        proof {
            assert(self@ =~= dropped.push(
                EntryV {
                    key: self.entries@.last().0@,
                    response: self.entries@.last().1@,
                    stored_at: now,
                    ttl_ms,
                },
            ));
        }
    }

    /// Stores a response under the default lifetime, now.
    pub fn put(&mut self, url: &str, method: &str, response: HttpResponse)
        ensures
            final(self).spec_policies() == old(self).spec_policies(),
            exists|now: u64|
                put_outcome(
                    old(self)@,
                    old(self).spec_policies(),
                    url@,
                    method@,
                    response@,
                    now,
                    old(self).spec_policies().default_ttl_ms,
                    final(self)@,
                ),
    {
        let now = clock::now_millis();
        self.put_at(url, method, response, now);
    }

    /// Stores a response under an explicit lifetime, now.
    pub fn put_with_ttl(&mut self, url: &str, method: &str, response: HttpResponse, ttl_ms: u64)
        ensures
            final(self).spec_policies() == old(self).spec_policies(),
            exists|now: u64|
                put_outcome(
                    old(self)@,
                    old(self).spec_policies(),
                    url@,
                    method@,
                    response@,
                    now,
                    ttl_ms,
                    final(self)@,
                ),
    {
        let now = clock::now_millis();
        self.put_with_ttl_at(url, method, response, ttl_ms, now);
    }

    /// Drops the entry for one method, or every method's entry for a URL.
    pub fn invalidate(&mut self, url: &str, method: Option<&str>)
        ensures
            final(self).spec_policies() == old(self).spec_policies(),
            match method {
                Some(m) => final(self)@ == drop_entry(
                    old(self)@,
                    cache_key(old(self).spec_policies().cache_by_method, url@, m@),
                ),
                None => final(self)@ == drop_url_entries(old(self)@, url@),
            },
    {
        match method {
            Some(m) => {
                let key = self.generate_key(url, m);
                self.remove_key(key.as_str());
            },
            None => {
                self.remove_url(url);
            },
        }
    }

    /// Removes every entry whose key ends in `::<url>`.
    #[verifier::loop_isolation(false)]
    fn remove_url(&mut self, url: &str)
        ensures
            final(self)@ == drop_url_entries(old(self)@, url@),
            final(self).spec_hits() == old(self).spec_hits(),
            final(self).spec_misses() == old(self).spec_misses(),
            final(self).spec_policies() == old(self).spec_policies(),
    {
        let mut suffix = String::from_str("::");
        suffix.append(url);
        proof {
            assert(suffix@ =~= "::"@ + url@);
        }
        let n = self.entries.len();
        let mut kept: Vec<(String, HttpResponse, u64, u64)> = Vec::new();
        let mut i: usize = 0;
        proof {
            assert(old(self)@.subrange(0, 0) =~= Seq::<EntryV>::empty());
            assert(drop_url_entries(old(self)@.subrange(0, 0), url@) =~= kept@.map_values(
                |e: (String, HttpResponse, u64, u64)|
                    EntryV { key: e.0@, response: e.1@, stored_at: e.2, ttl_ms: e.3 },
            ));
        }
        while i < n
            invariant
                0 <= i <= n,
                n == self.entries@.len(),
                self == old(self),
                suffix@ == "::"@ + url@,
                drop_url_entries(old(self)@.subrange(0, i as int), url@) =~= kept@.map_values(
                    |e: (String, HttpResponse, u64, u64)|
                        EntryV { key: e.0@, response: e.1@, stored_at: e.2, ttl_ms: e.3 },
                ),
            decreases n - i,
        {
            let ghost pref = old(self)@.subrange(0, i + 1);
            proof {
                assert(pref.drop_last() =~= old(self)@.subrange(0, i as int));
                assert(pref.last() == old(self)@[i as int]);
            }
            if !crate::security::ends_with(self.entries[i].0.as_str(), suffix.as_str()) {
                kept.push(
                    (
                        self.entries[i].0.clone(),
                        self.entries[i].1.duplicate(),
                        self.entries[i].2,
                        self.entries[i].3,
                    ),
                );
            }
            proof {
                assert(drop_url_entries(old(self)@.subrange(0, i + 1), url@)
                    =~= kept@.map_values(
                    |e: (String, HttpResponse, u64, u64)|
                        EntryV { key: e.0@, response: e.1@, stored_at: e.2, ttl_ms: e.3 },
                ));
            }
            i = i + 1;
        }
        self.entries = kept;
        proof {
            assert(old(self)@.subrange(0, n as int) =~= old(self)@);
        }
    }

    /// Empties the cache and resets both counters.
    pub fn clear(&mut self)
        ensures
            final(self)@ == Seq::<EntryV>::empty(),
            final(self).spec_hits() == 0,
            final(self).spec_misses() == 0,
            final(self).spec_policies() == old(self).spec_policies(),
    {
        self.entries = Vec::new();
        self.hits = 0;
        self.misses = 0;
        proof {
            assert(final(self)@ =~= Seq::<EntryV>::empty());
        }
    }

    /// The counters and current size.
    pub fn stats(&self) -> (r: CacheStats)
        requires
            self.spec_hits() + self.spec_misses() <= u64::MAX,
        ensures
            r.hits == self.spec_hits(),
            r.misses == self.spec_misses(),
            r.total_requests == self.spec_hits() + self.spec_misses(),
            r.size == self@.len(),
    {
        CacheStats {
            hits: self.hits,
            misses: self.misses,
            total_requests: self.hits + self.misses,
            size: self.entries.len(),
        }
    }

    /// How many entries are held.
    pub fn size(&self) -> (r: usize)
        ensures
            r == self@.len(),
    {
        self.entries.len()
    }

    /// Replaces the policies.
    pub fn set_policies(&mut self, policies: CachePolicies)
        ensures
            final(self).spec_policies() == policies,
            final(self)@ == old(self)@,
    {
        self.policies = policies;
    }
}

/// What storing produces: nothing when only successes are cached and this
/// response is not one; otherwise the first entry may be evicted when the
/// cache is full, the key's earlier entry is dropped, and the new entry is
/// appended.
pub open spec fn put_outcome(
    before: Seq<EntryV>,
    policies: CachePolicies,
    url: Seq<char>,
    method: Seq<char>,
    resp: RespV,
    now: u64,
    ttl_ms: u64,
    after: Seq<EntryV>,
) -> bool {
    if policies.cache_successful_only && !(200 <= resp.status < 300) {
        after == before
    } else {
        let k = cache_key(policies.cache_by_method, url, method);
        let base = if before.len() >= policies.max_entries && before.len() > 0 {
            before.drop_first()
        } else {
            before
        };
        after == drop_entry(base, k).push(
            EntryV { key: k, response: resp, stored_at: now, ttl_ms },
        )
    }
}

/// The entries whose key does not end in `::<url>`.
pub open spec fn drop_url_entries(s: Seq<EntryV>, url: Seq<char>) -> Seq<EntryV>
    decreases s.len(),
{
    if s.len() == 0 {
        Seq::empty()
    } else {
        let rest = drop_url_entries(s.drop_last(), url);
        if crate::security::has_suffix(s.last().key, "::"@ + url) {
            rest
        } else {
            rest.push(s.last())
        }
    }
}

} // verus!
