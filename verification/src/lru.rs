//! The recency-ordered store behind the cache: `clru::CLruCache`, weighing each
//! entry by its declared size. Nothing in this file is proved of `clru`: the
//! contracts say what its source shows.
//!
//! The capacity of such a store bounds the number of its entries and their
//! weights together: an entry takes one unit, and one more for each unit of its
//! weight.

use crate::cached_module::CachedModule;
use crate::checksum::Checksum;
use crate::recency::{distinct_keys, lookup, total_weight, touch, without_key, Entry};
use clru::{CLruCache, CLruCacheConfig, WeightScale};
use std::collections::hash_map::RandomState;
use std::num::NonZeroUsize;
use vstd::prelude::*;

verus! {

/// Weighs an entry by the size that was declared for it, whatever its key.
#[derive(Debug)]
pub struct SizeScale;

impl WeightScale<Checksum, CachedModule> for SizeScale {
    #[inline]
    fn weight(&self, _key: &Checksum, value: &CachedModule) -> (weight: usize)
        ensures
            weight == value.size,
    {
        value.size
    }
}

/// What `entries` take of the capacity of a store: one unit for each entry,
/// plus its weight.
pub open spec fn occupancy(entries: Seq<Entry>) -> nat {
    entries.len() + total_weight(entries)
}

/// A store of this capacity has room for one more entry of weight `incoming`
/// beside `entries`.
pub open spec fn has_room(entries: Seq<Entry>, incoming: nat, capacity: nat) -> bool {
    entries.len() + total_weight(entries) + incoming < capacity
}

/// `entries` after the least recently used ones have left a store, one by one
/// from the back, until it has room for an entry of weight `incoming`.
pub open spec fn make_room(entries: Seq<Entry>, incoming: nat, capacity: nat) -> Seq<Entry>
    decreases entries.len(),
{
    if entries.len() == 0 || has_room(entries, incoming, capacity) {
        entries
    } else {
        make_room(entries.drop_last(), incoming, capacity)
    }
}

/// `entries` after a store of this capacity has taken `value` under `key`: the
/// new entry is the most recently used one, an older entry of the same key is
/// gone, and of the others the least recently used have left as far as the
/// store needed room.
pub open spec fn placed(entries: Seq<Entry>, key: Checksum, value: CachedModule, capacity: nat) -> Seq<
    Entry,
> {
    seq![(key, value)] + make_room(without_key(entries, key), value.size as nat, capacity)
}

/// A `clru::CLruCache` from `Checksum` to `CachedModule` that weighs with
/// `SizeScale`. What it holds is known through `lru_entries` and `lru_capacity`
/// alone.
#[verifier::external_body]
pub struct ModuleLru {
    inner: CLruCache<Checksum, CachedModule, RandomState, SizeScale>,
}

/// The entries of the store, the most recently used one first.
pub uninterp spec fn lru_entries(store: ModuleLru) -> Seq<Entry>;

/// The capacity that the store was made with.
pub uninterp spec fn lru_capacity(store: ModuleLru) -> nat;

/// `CLruCache::with_config`, on a `CLruCacheConfig` with this capacity, memory
/// reserved for `reserve` entries and `SizeScale`: an empty store of this
/// capacity. The reserve does not show in what the store holds or admits.
#[verifier::external_body]
pub(crate) fn lru_with_capacity(capacity: usize, reserve: usize) -> (store: ModuleLru)
    requires
        capacity > 0,
    ensures
        lru_entries(store) == Seq::<Entry>::empty(),
        lru_capacity(store) == capacity,
{
    let config = CLruCacheConfig::new(NonZeroUsize::new(capacity).unwrap());
    ModuleLru { inner: CLruCache::with_config(config.with_memory(reserve).with_scale(SizeScale)) }
}

/// `CLruCache::put_with_weight`. An entry whose weight is not below the
/// capacity comes back as the error, and the store stays as it was. Any other
/// entry goes in as the most recently used one: an older entry of its key
/// leaves and is returned, and then the least recently used entries leave, one
/// by one, while the number of entries plus their weight plus the new weight
/// is not below the capacity. `clru` adds these three numbers as `usize`, so
/// their sum has to fit. The keys of a store are distinct, and the contract
/// speaks of such stores.
#[verifier::external_body]
pub(crate) fn lru_put(store: &mut ModuleLru, key: Checksum, value: CachedModule) -> (outcome:
    Result<Option<CachedModule>, Entry>)
    requires
        distinct_keys(lru_entries(*old(store))),
        value.size < lru_capacity(*old(store)) ==> occupancy(lru_entries(*old(store))) + value.size
            <= usize::MAX,
    ensures
        lru_capacity(*final(store)) == lru_capacity(*old(store)),
        value.size >= lru_capacity(*old(store)) ==> {
            &&& outcome == Err::<Option<CachedModule>, Entry>((key, value))
            &&& lru_entries(*final(store)) == lru_entries(*old(store))
        },
        value.size < lru_capacity(*old(store)) ==> {
            &&& outcome == Ok::<Option<CachedModule>, Entry>(lookup(lru_entries(*old(store)), key))
            &&& lru_entries(*final(store)) == placed(
                lru_entries(*old(store)),
                key,
                value,
                lru_capacity(*old(store)),
            )
        },
{
    store.inner.put_with_weight(key, value)
}

/// `CLruCache::get`: the value under this key, where there is one, and its
/// entry becomes the most recently used one. On a miss the store stays as it
/// was.
#[verifier::external_body]
pub(crate) fn lru_get<'a>(store: &'a mut ModuleLru, key: &Checksum) -> (found: Option<
    &'a CachedModule,
>)
    requires
        distinct_keys(lru_entries(*old(store))),
    ensures
        lru_capacity(*final(store)) == lru_capacity(*old(store)),
        lru_entries(*final(store)) == touch(lru_entries(*old(store)), *key),
        match found {
            Some(value) => lookup(lru_entries(*old(store)), *key) == Some(*value),
            None => lookup(lru_entries(*old(store)), *key) is None,
        },
{
    store.inner.get(key)
}

/// `CLruCache::pop`: the entry of this key, where there is one, leaves the
/// store, and its value is returned. The others keep their order.
#[verifier::external_body]
pub(crate) fn lru_pop(store: &mut ModuleLru, key: &Checksum) -> (removed: Option<CachedModule>)
    requires
        distinct_keys(lru_entries(*old(store))),
    ensures
        lru_capacity(*final(store)) == lru_capacity(*old(store)),
        lru_entries(*final(store)) == without_key(lru_entries(*old(store)), *key),
        removed == lookup(lru_entries(*old(store)), *key),
{
    store.inner.pop(key)
}

/// `CLruCache::pop_back`: the least recently used entry leaves the store and
/// is returned. An empty store gives nothing and stays empty.
#[verifier::external_body]
pub(crate) fn lru_pop_back(store: &mut ModuleLru) -> (removed: Option<Entry>)
    ensures
        lru_capacity(*final(store)) == lru_capacity(*old(store)),
        lru_entries(*old(store)).len() == 0 ==> removed is None && lru_entries(*final(store))
            == lru_entries(*old(store)),
        lru_entries(*old(store)).len() > 0 ==> removed == Some(lru_entries(*old(store)).last())
            && lru_entries(*final(store)) == lru_entries(*old(store)).drop_last(),
{
    store.inner.pop_back()
}

/// `CLruCache::len`: the number of entries.
#[verifier::external_body]
pub(crate) fn lru_len(store: &ModuleLru) -> (count: usize)
    ensures
        count == lru_entries(*store).len(),
{
    store.inner.len()
}

/// `CLruCache::weight`: the running total of the weights of the entries, which
/// `SizeScale` takes from their declared sizes.
#[verifier::external_body]
pub(crate) fn lru_weight(store: &ModuleLru) -> (weight: usize)
    ensures
        weight == total_weight(lru_entries(*store)),
{
    store.inner.weight()
}

} // verus!
