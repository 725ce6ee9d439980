//! The addresses that the guest may connect to.

use crate::config::ProxyConfig;
use lru::LruCache;
use std::num::NonZeroUsize;
use vstd::prelude::*;

verus! {

/// Cap on pinned IPs. A single CDN-fronted domain can resolve to dozens of
/// IPs, and configs can list many domains, so keep this generous.
pub const ALLOWED_IPS_CAPACITY: usize = 1024;

/// `lru`'s hasher.
#[verifier::external_type_specification]
#[verifier::external_body]
pub struct ExDefaultHasher(lru::DefaultHasher);

/// `lru`'s cache.
#[verifier::external_type_specification]
#[verifier::external_body]
#[verifier::reject_recursive_types(K)]
#[verifier::reject_recursive_types(V)]
#[verifier::reject_recursive_types(S)]
pub struct ExLruCache<K, V, S>(LruCache<K, V, S>);

/// The keys of a cache, the one used last first.
pub uninterp spec fn cache_keys(cache: LruCache<u32, ()>) -> Seq<u32>;

/// How many keys a cache holds at most.
pub uninterp spec fn cache_limit(cache: LruCache<u32, ()>) -> nat;

/// The keys without one of them.
pub open spec fn without(keys: Seq<u32>, key: u32) -> Seq<u32>
    decreases keys.len(),
{
    if keys.len() == 0 {
        keys
    } else if keys.last() == key {
        without(keys.drop_last(), key)
    } else {
        without(keys.drop_last(), key).push(keys.last())
    }
}

/// The keys after one of them, or a new one, was used: it comes first.
pub open spec fn used(keys: Seq<u32>, key: u32) -> Seq<u32> {
    seq![key] + without(keys, key)
}

/// The keys after one was stored: it comes first, and where there would be too many the
/// one that was not used for longest leaves.
pub open spec fn stored(keys: Seq<u32>, limit: nat, key: u32) -> Seq<u32> {
    if used(keys, key).len() <= limit {
        used(keys, key)
    } else {
        used(keys, key).take(limit as int)
    }
}

/// `LruCache::new`. Trusted: the cache is empty and has that limit, which must not be 0.
#[verifier::external_body]
fn new_cache(limit: usize) -> (r: LruCache<u32, ()>)
    requires
        limit > 0,
    ensures
        cache_keys(r).len() == 0,
        cache_limit(r) == limit,
{
    LruCache::new(NonZeroUsize::new(limit).expect("non-zero capacity"))
}

/// `LruCache::put`. Trusted: the key becomes the one used last, and a full cache that
/// did not hold it loses the one that was not used for longest.
#[verifier::external_body]
fn cache_put(cache: &mut LruCache<u32, ()>, key: u32)
    ensures
        cache_keys(*final(cache)) == stored(cache_keys(*old(cache)), cache_limit(*old(cache)), key),
        cache_limit(*final(cache)) == cache_limit(*old(cache)),
{
    cache.put(key, ());
}

/// `LruCache::get`. Trusted: it tells whether the cache holds the key, which then becomes
/// the one used last.
#[verifier::external_body]
fn cache_get(cache: &mut LruCache<u32, ()>, key: u32) -> (r: bool)
    ensures
        r == cache_keys(*old(cache)).contains(key),
        cache_keys(*final(cache)) == (if cache_keys(*old(cache)).contains(key) {
            used(cache_keys(*old(cache)), key)
        } else {
            cache_keys(*old(cache))
        }),
        cache_limit(*final(cache)) == cache_limit(*old(cache)),
{
    cache.get(&key).is_some()
}

proof fn lemma_without(keys: Seq<u32>, key: u32)
    ensures
        !without(keys, key).contains(key),
        forall|k: u32| k != key ==> without(keys, key).contains(k) == keys.contains(k),
        without(keys, key).len() <= keys.len(),
        keys.contains(key) ==> without(keys, key).len() < keys.len(),
        !keys.contains(key) ==> without(keys, key) == keys,
        keys.no_duplicates() ==> without(keys, key).no_duplicates(),
    decreases keys.len(),
{
    if keys.len() > 0 {
        let init = keys.drop_last();
        let last = keys.last();
        lemma_without(init, key);
        let w = without(init, key);
        assert(keys =~= init.push(last));
        assert forall|k: u32| #[trigger] keys.contains(k) == (init.contains(k) || k == last) by {
            if init.contains(k) {
                let i = choose|i: int| 0 <= i < init.len() && init[i] == k;
                assert(keys[i] == k);
            }
            if keys.contains(k) && k != last {
                let i = choose|i: int| 0 <= i < keys.len() && keys[i] == k;
                assert(init[i] == k);
            }
            assert(keys[keys.len() - 1] == last);
        }
        assert forall|k: u32| #[trigger] w.push(last).contains(k) == (w.contains(k) || k == last) by {
            if w.contains(k) {
                let i = choose|i: int| 0 <= i < w.len() && w[i] == k;
                assert(w.push(last)[i] == k);
            }
            assert(w.push(last)[w.len() as int] == last);
        }
        if keys.no_duplicates() {
            assert(init.no_duplicates());
            if last != key {
                assert(!init.contains(last)) by {
                    if init.contains(last) {
                        let i = choose|i: int| 0 <= i < init.len() && init[i] == last;
                        assert(keys[i] == keys[keys.len() - 1]);
                    }
                }
                assert(!w.contains(last));
            }
        }
    }
}

/// The addresses that the proxy may connect to for the guest, the one used last first.
///
/// Populated by DNS resolution of allowed domains. Bounded, so long-lived sandboxes do
/// not accumulate stale addresses; a lookup counts as use, so addresses in active use
/// stay.
pub struct AllowedIps {
    cache: LruCache<u32, ()>,
}

impl View for AllowedIps {
    type V = Seq<u32>;

    closed spec fn view(&self) -> Seq<u32> {
        cache_keys(self.cache)
    }
}

impl AllowedIps {
    #[verifier::type_invariant]
    spec fn is_bounded(self) -> bool {
        &&& cache_limit(self.cache) == ALLOWED_IPS_CAPACITY
        &&& self@.len() <= ALLOWED_IPS_CAPACITY
        &&& self@.no_duplicates()
    }

    /// No address is allowed yet.
    pub fn new() -> (r: Self)
        ensures
            r@.len() == 0,
    {
        AllowedIps { cache: new_cache(ALLOWED_IPS_CAPACITY) }
    }

    /// Allows an address. Where there are too many, the one that was not used for longest
    /// is allowed no more.
    pub fn allow(&mut self, ip: u32)
        ensures
            final(self)@ == stored(old(self)@, ALLOWED_IPS_CAPACITY as nat, ip),
            final(self)@.len() <= ALLOWED_IPS_CAPACITY,
            final(self)@.no_duplicates(),
    {
        proof {
            use_type_invariant(&*self);
            lemma_stored(self@, ALLOWED_IPS_CAPACITY as nat, ip);
        }
        let mut cache = new_cache(ALLOWED_IPS_CAPACITY);
        std::mem::swap(&mut cache, &mut self.cache);
        cache_put(&mut cache, ip);
        self.cache = cache;
    }

    /// Whether an address is allowed. Asking counts as use.
    pub fn is_allowed(&mut self, ip: u32) -> (r: bool)
        ensures
            r == old(self)@.contains(ip),
            final(self)@ == (if r {
                used(old(self)@, ip)
            } else {
                old(self)@
            }),
    {
        proof {
            use_type_invariant(&*self);
            lemma_stored(self@, ALLOWED_IPS_CAPACITY as nat, ip);
            lemma_without(self@, ip);
        }
        let mut cache = new_cache(ALLOWED_IPS_CAPACITY);
        std::mem::swap(&mut cache, &mut self.cache);
        let r = cache_get(&mut cache, ip);
        self.cache = cache;
        r
    }
}

impl AllowedIps {
    /// Whether the proxy may connect to an address for the guest: to any where the network
    /// policy restricts nothing, and otherwise to those that were allowed, so that the
    /// guest cannot get around the policy with an address of its own.
    pub fn admits(&mut self, config: &ProxyConfig, ip: u32) -> (r: bool)
        ensures
            r == (config.network.allow@.len() == 0 || old(self)@.contains(ip)),
            final(self)@ == (if config.network.allow@.len() > 0 && old(self)@.contains(ip) {
                used(old(self)@, ip)
            } else {
                old(self)@
            }),
    {
        if config.network.allow.len() == 0 {
            true
        } else {
            self.is_allowed(ip)
        }
    }
}

proof fn lemma_stored(keys: Seq<u32>, limit: nat, key: u32)
    requires
        keys.no_duplicates(),
        limit > 0,
    ensures
        used(keys, key).no_duplicates(),
        stored(keys, limit, key).len() <= limit,
        stored(keys, limit, key).no_duplicates(),
        stored(keys, limit, key)[0] == key,
{
    lemma_without(keys, key);
    let w = without(keys, key);
    let u = used(keys, key);
    assert forall|i: int, j: int| 0 <= i < u.len() && 0 <= j < u.len() && i != j implies u[i]
        != u[j] by {
        if i == 0 {
            assert(u[j] == w[j - 1]);
        } else if j == 0 {
            assert(u[i] == w[i - 1]);
        } else {
            assert(u[i] == w[i - 1] && u[j] == w[j - 1]);
        }
    }
}

/// An address that was just allowed or asked for is allowed, and stays so until as many
/// others as the cache holds were used since: storing another moves it back by at most
/// one place.
pub proof fn law_addresses_in_use_stay(keys: Seq<u32>, limit: nat, key: u32, i: int)
    requires
        keys.no_duplicates(),
        limit > 0,
        0 <= i < keys.len(),
        i + 1 < limit,
        keys[i] != key,
    ensures
        stored(keys, limit, key)[0] == key,
        stored(keys, limit, key).contains(keys[i]),
        stored(keys, limit, key)[i] == keys[i] || stored(keys, limit, key)[i + 1] == keys[i],
{
    lemma_stored(keys, limit, key);
    lemma_without_place(keys, key, i);
    let w = without(keys, key);
    let u = used(keys, key);
    assert(u[i] == keys[i] || u[i + 1] == keys[i]) by {
        if i > 0 && i - 1 < w.len() && w[i - 1] == keys[i] {
            assert(u[i] == w[i - 1]);
        } else {
            assert(u[i + 1] == w[i]);
        }
    }
    let s = stored(keys, limit, key);
    lemma_without(keys, key);
    if s.len() > i + 1 && s[i + 1] == keys[i] {
    } else {
        assert(s[i] == keys[i]);
    }
}

proof fn lemma_without_len(keys: Seq<u32>, key: u32)
    requires
        keys.no_duplicates(),
        keys.contains(key),
    ensures
        without(keys, key).len() == keys.len() - 1,
    decreases keys.len(),
{
    let init = keys.drop_last();
    let j = choose|j: int| 0 <= j < keys.len() && keys[j] == key;
    lemma_without(init, key);
    if keys.last() != key {
        assert(init[j] == key);
        lemma_without_len(init, key);
    } else if init.contains(key) {
        let k = choose|k: int| 0 <= k < init.len() && init[k] == key;
        assert(keys[k] == keys[keys.len() - 1]);
    }
}

proof fn lemma_without_place(keys: Seq<u32>, key: u32, i: int)
    requires
        keys.no_duplicates(),
        0 <= i < keys.len(),
        keys[i] != key,
    ensures
        ({
            let w = without(keys, key);
            ||| (i < w.len() && w[i] == keys[i])
            ||| (0 < i <= w.len() && w[i - 1] == keys[i])
        }),
    decreases keys.len(),
{
    let init = keys.drop_last();
    lemma_without(init, key);
    if i < init.len() {
        lemma_without_place(init, key, i);
    } else if init.contains(key) {
        lemma_without_len(init, key);
    }
}

/// Asking for an address changes no answer: the same addresses are allowed, and the one
/// that was asked for comes first.
pub proof fn law_asking_changes_no_answer(keys: Seq<u32>, key: u32, other: u32)
    requires
        keys.no_duplicates(),
        keys.contains(key),
    ensures
        used(keys, key).contains(other) <==> keys.contains(other),
        used(keys, key).len() == keys.len(),
        used(keys, key)[0] == key,
{
    lemma_without(keys, key);
    lemma_without_len(keys, key);
    let u = used(keys, key);
    let w = without(keys, key);
    if keys.contains(other) && other != key {
        let i = choose|i: int| 0 <= i < w.len() && w[i] == other;
        assert(u[i + 1] == other);
    }
    if u.contains(other) {
        let i = choose|i: int| 0 <= i < u.len() && u[i] == other;
        if i > 0 {
            assert(w[i - 1] == other);
        }
    }
    assert(u[0] == key);
}

/// Allowing an address allows it, and no other that was not allowed before. While there is
/// room, every address that was allowed stays so.
pub proof fn law_allowed_addresses_stay_while_there_is_room(
    keys: Seq<u32>,
    limit: nat,
    key: u32,
    other: u32,
)
    requires
        keys.no_duplicates(),
        0 < limit,
        keys.len() <= limit,
    ensures
        stored(keys, limit, key).contains(key),
        stored(keys, limit, key).contains(other) ==> other == key || keys.contains(other),
        keys.len() < limit && keys.contains(other) ==> stored(keys, limit, key).contains(other),
        stored(keys, limit, key).len() <= limit,
{
    lemma_without(keys, key);
    lemma_stored(keys, limit, key);
    let u = used(keys, key);
    let w = without(keys, key);
    let t = stored(keys, limit, key);
    assert(t[0] == key);
    if t.contains(other) {
        let i = choose|i: int| 0 <= i < t.len() && t[i] == other;
        assert(u[i] == other);
        if i > 0 {
            assert(w[i - 1] == other);
        }
    }
    if keys.len() < limit && keys.contains(other) && other != key {
        let i = choose|i: int| 0 <= i < w.len() && w[i] == other;
        assert(u[i + 1] == other);
        assert(t == u);
    }
}

} // verus!
