//! The bounded reverse-IP caches: LRU maps from resolved address to the
//! queried name, held in `lru::LruCache` values behind trusted contracts.
//! The cache contents are named abstractly as maps; the wrappers state of
//! each operation what the crate's source shows.

use vstd::prelude::*;

verus! {

#[verifier::external_type_specification]
#[verifier::external_body]
#[verifier::reject_recursive_types(K)]
#[verifier::reject_recursive_types(V)]
#[verifier::reject_recursive_types(S)]
pub struct ExLruCache<K, V, S>(lru::LruCache<K, V, S>);

pub uninterp spec fn lru4_contents(c: lru::LruCache<u32, Vec<u8>, std::collections::hash_map::RandomState>) -> Map<u32, Seq<u8>>;

pub uninterp spec fn lru4_cap(c: lru::LruCache<u32, Vec<u8>, std::collections::hash_map::RandomState>) -> nat;

pub uninterp spec fn lru6_contents(c: lru::LruCache<u128, Vec<u8>, std::collections::hash_map::RandomState>) -> Map<u128, Seq<u8>>;

pub uninterp spec fn lru6_cap(c: lru::LruCache<u128, Vec<u8>, std::collections::hash_map::RandomState>) -> nat;

/// Relies on lru::LruCache::with_hasher: a fresh cache is empty and holds
/// at most `cap` entries.
#[verifier::external_body]
pub fn lru4_new(cap: usize) -> (r: lru::LruCache<u32, Vec<u8>, std::collections::hash_map::RandomState>)
    requires
        cap >= 1,
    ensures
        (lru4_contents(r) == Map::<u32, Seq<u8>>::empty()),
        lru4_cap(r) == cap,
{
    lru::LruCache::with_hasher(
        core::num::NonZeroUsize::new(cap).unwrap(),
        std::collections::hash_map::RandomState::new(),
    )
}

/// Relies on lru::LruCache::get_or_insert: a present key keeps its value
/// (only its recency moves); an absent key is inserted, evicting the
/// least-recently-used entry only when the cache is full.
#[verifier::external_body]
pub fn lru4_get_or_insert(c: &mut lru::LruCache<u32, Vec<u8>, std::collections::hash_map::RandomState>, k: u32, v: Vec<u8>)
    ensures
        lru4_cap(*final(c)) == lru4_cap(*old(c)),
        lru4_contents(*old(c)).dom().contains(k) ==> lru4_contents(*final(c)) == lru4_contents(
            *old(c),
        ),
        !lru4_contents(*old(c)).dom().contains(k) && lru4_contents(*old(c)).dom().len() < lru4_cap(
            *old(c),
        ) ==> lru4_contents(*final(c)) == lru4_contents(*old(c)).insert(k, v@),
        !lru4_contents(*old(c)).dom().contains(k) && lru4_contents(*old(c)).dom().len()
            >= lru4_cap(*old(c)) ==> exists|e: u32|
            lru4_contents(*old(c)).dom().contains(e) && lru4_contents(*final(c)) == lru4_contents(
                *old(c),
            ).remove(e).insert(k, v@),
{
    let _ = c.get_or_insert(k, move || v);
}

/// Relies on lru::LruCache::len: the number of entries.
#[verifier::external_body]
pub fn lru4_len(c: &lru::LruCache<u32, Vec<u8>, std::collections::hash_map::RandomState>) -> (n: usize)
    ensures
        n == lru4_contents(*c).dom().len(),
{
    c.len()
}

/// Relies on lru::LruCache::peek: reads a key's value without touching
/// recency.
#[verifier::external_body]
pub fn lru4_peek(c: &lru::LruCache<u32, Vec<u8>, std::collections::hash_map::RandomState>, k: u32) -> (r: Option<Vec<u8>>)
    ensures
        match r {
            Some(v) => lru4_contents(*c).dom().contains(k) && v@ == lru4_contents(*c)[k],
            None => !lru4_contents(*c).dom().contains(k),
        },
{
    c.peek(&k).cloned()
}

/// Relies on lru::LruCache::with_hasher: a fresh cache is empty and holds
/// at most `cap` entries.
#[verifier::external_body]
pub fn lru6_new(cap: usize) -> (r: lru::LruCache<u128, Vec<u8>, std::collections::hash_map::RandomState>)
    requires
        cap >= 1,
    ensures
        (lru6_contents(r) == Map::<u128, Seq<u8>>::empty()),
        lru6_cap(r) == cap,
{
    lru::LruCache::with_hasher(
        core::num::NonZeroUsize::new(cap).unwrap(),
        std::collections::hash_map::RandomState::new(),
    )
}

/// Relies on lru::LruCache::get_or_insert: a present key keeps its value;
/// an absent key is inserted, evicting the least-recently-used entry only
/// when the cache is full.
#[verifier::external_body]
pub fn lru6_get_or_insert(c: &mut lru::LruCache<u128, Vec<u8>, std::collections::hash_map::RandomState>, k: u128, v: Vec<u8>)
    ensures
        lru6_cap(*final(c)) == lru6_cap(*old(c)),
        lru6_contents(*old(c)).dom().contains(k) ==> lru6_contents(*final(c)) == lru6_contents(
            *old(c),
        ),
        !lru6_contents(*old(c)).dom().contains(k) && lru6_contents(*old(c)).dom().len() < lru6_cap(
            *old(c),
        ) ==> lru6_contents(*final(c)) == lru6_contents(*old(c)).insert(k, v@),
        !lru6_contents(*old(c)).dom().contains(k) && lru6_contents(*old(c)).dom().len()
            >= lru6_cap(*old(c)) ==> exists|e: u128|
            lru6_contents(*old(c)).dom().contains(e) && lru6_contents(*final(c)) == lru6_contents(
                *old(c),
            ).remove(e).insert(k, v@),
{
    let _ = c.get_or_insert(k, move || v);
}

/// Relies on lru::LruCache::len: the number of entries.
#[verifier::external_body]
pub fn lru6_len(c: &lru::LruCache<u128, Vec<u8>, std::collections::hash_map::RandomState>) -> (n: usize)
    ensures
        n == lru6_contents(*c).dom().len(),
{
    c.len()
}

/// Relies on lru::LruCache::peek: reads a key's value without touching
/// recency.
#[verifier::external_body]
pub fn lru6_peek(c: &lru::LruCache<u128, Vec<u8>, std::collections::hash_map::RandomState>, k: u128) -> (r: Option<Vec<u8>>)
    ensures
        match r {
            Some(v) => lru6_contents(*c).dom().contains(k) && v@ == lru6_contents(*c)[k],
            None => !lru6_contents(*c).dom().contains(k),
        },
{
    c.peek(&k).cloned()
}

} // verus!
