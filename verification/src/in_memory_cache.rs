//! The cache itself.

use crate::cached_module::CachedModule;
use crate::checksum::Checksum;
use crate::errors::CacheError;
use crate::lru::{
    lru_capacity, lru_entries, lru_get, lru_len, lru_pop, lru_pop_back, lru_put, lru_weight,
    lru_with_capacity, ModuleLru,
};
use crate::recency::{
    evict_until_fits, lemma_evict_until_fits, lemma_put, lemma_take,
    lemma_total_weight_take, lemma_touch, lemma_without_key, lookup, rejected, stored,
    total_weight, touch, valid, without_key, Entry,
};
use crate::size::Size;
use vstd::prelude::*;
use wasmer::Module;

verus! {

/// An estimate of the least size of a compiled module, in bytes. A new cache
/// reserves memory for as many entries as its budget holds modules of this
/// size, so that it need not grow later. Smaller modules are stored all the
/// same.
pub const MINIMUM_MODULE_SIZE: usize = 250 * 1024;

/// The number of entries that a cache with this budget reserves memory for.
pub fn preallocated_entries(budget: Size) -> (count: usize)
    ensures
        count == budget.0 as int / MINIMUM_MODULE_SIZE as int,
{
    budget.0 / MINIMUM_MODULE_SIZE
}

/// The text that `{:?}` gives for an entry: the bytes of its key, the name of
/// its module and its size, as the `Debug` impls of the three print them.
pub uninterp spec fn debug_text(entry: Entry) -> Seq<char>;

/// `format!` with `{:?}`: a description of an entry that was turned away.
#[verifier::external_body]
fn describe(entry: &Entry) -> (text: String)
    ensures
        text@ == debug_text(*entry),
{
    format!("{:?}", entry)
}

/// Lets the least recently used entries go, one by one, until an entry of
/// this size fits beside the others within the budget.
fn evict_for(modules: &mut ModuleLru, size: usize, budget: usize)
    requires
        size <= budget,
    ensures
        lru_capacity(*final(modules)) == lru_capacity(*old(modules)),
        lru_entries(*final(modules)) == evict_until_fits(
            lru_entries(*old(modules)),
            size as nat,
            budget as nat,
        ),
{
    while lru_weight(modules) > budget - size
        invariant
            size <= budget,
            lru_capacity(*modules) == lru_capacity(*old(modules)),
            evict_until_fits(lru_entries(*modules), size as nat, budget as nat) == evict_until_fits(
                lru_entries(*old(modules)),
                size as nat,
                budget as nat,
            ),
        decreases lru_entries(*modules).len(),
    {
        let _ = lru_pop_back(modules);
    }
}

/// An in-memory module cache
pub struct InMemoryCache {
    modules: Option<ModuleLru>,
    budget: usize,
}

impl InMemoryCache {
    /// The budget in bytes that the cache was made with. A cache with budget 0
    /// is disabled.
    pub closed spec fn budget(&self) -> nat {
        self.budget as nat
    }

    /// The entries of the cache, the most recently used one first.
    pub closed spec fn entries(&self) -> Seq<Entry> {
        match self.modules {
            Some(modules) => lru_entries(modules),
            None => Seq::empty(),
        }
    }

    /// The cache has a store to keep entries in. Without one it is disabled.
    pub closed spec fn enabled(&self) -> bool {
        self.modules is Some
    }

    /// The store, where there is one, takes whatever the budget admits: it was
    /// made with the largest capacity there is, and so never turns an entry
    /// away or lets one go by itself.
    pub closed spec fn unbounded_store(&self) -> bool {
        match self.modules {
            Some(modules) => lru_capacity(modules) == usize::MAX,
            None => true,
        }
    }

    /// The cache is in order: it is enabled exactly where it has a budget, a
    /// disabled cache is empty, no key occurs twice, and the sizes of the
    /// entries add up to no more than the budget.
    pub open spec fn wf(&self) -> bool {
        &&& self.enabled() <==> self.budget() > 0
        &&& self.budget() <= usize::MAX
        &&& self.budget() == 0 ==> self.entries() == Seq::<Entry>::empty()
        &&& valid(self.entries(), self.budget())
        &&& self.unbounded_store()
    }

    /// Creates a new cache with the given size (in bytes)
    /// and pre-allocated entries. With size 0 the cache is disabled and has no
    /// store. Otherwise its store gets the largest capacity there is: the cache
    /// itself keeps the entries within the budget.
    pub fn new(size: Size) -> (cache: Self)
        ensures
            cache.wf(),
            cache.enabled() <==> size.0 > 0,
            cache.budget() == size.0,
            cache.entries() == Seq::<Entry>::empty(),
    {
        let preallocated_entries = preallocated_entries(size);
        InMemoryCache {
            modules: if size.0 > 0 {
                Some(lru_with_capacity(usize::MAX, preallocated_entries))
            } else {
                None
            },
            budget: size.0,
        }
    }

    /// Stores a module under its checksum, with the size declared for it. A
    /// disabled cache stores nothing and succeeds. Otherwise an older entry of
    /// the checksum leaves first. Then an entry whose size is more than the
    /// budget is turned away with an error that describes it, and nothing else
    /// leaves; any other entry becomes the most recently used one, after the
    /// least recently used entries have left as far as room was needed.
    ///
    /// The store behind the cache counts its entries and their sizes in one
    /// `usize`, so the number of entries, their sizes and the new size together
    /// have to stay below `usize::MAX`.
    pub fn store(&mut self, checksum: &Checksum, entry: Module, size: usize) -> (result: Result<
        (),
        CacheError,
    >)
        requires
            old(self).wf(),
            size <= old(self).budget() ==> old(self).entries().len() + total_weight(
                old(self).entries(),
            ) + size < usize::MAX,
        ensures
            final(self).wf(),
            final(self).budget() == old(self).budget(),
            final(self).entries() == stored(
                old(self).entries(),
                old(self).budget(),
                *checksum,
                (CachedModule { module: entry, size }),
            ),
            total_weight(final(self).entries()) <= final(self).budget(),
            result is Err <==> rejected(old(self).budget(), size as nat),
            result matches Err(error) ==> error matches CacheError::StoreFailed { msg } && msg@
                == debug_text((*checksum, CachedModule { module: entry, size })),
    {
        let budget = self.budget;
        if let Some(modules) = &mut self.modules {
            let ghost before = lru_entries(*modules);
            let ghost others = without_key(before, *checksum);
            let ghost kept = evict_until_fits(others, size as nat, budget as nat);
            proof {
                lemma_without_key(before, *checksum);
            }
            let _ = lru_pop(modules, checksum);
            if size > budget {
                return Err(
                    CacheError::store_failed(
                        describe(&(*checksum, CachedModule { module: entry, size })),
                    ),
                );
            }
            evict_for(modules, size, budget);
            proof {
                lemma_evict_until_fits(others, size as nat, budget as nat);
                lemma_take(others, kept.len() as int);
                lemma_total_weight_take(others, kept.len() as int);
                lemma_put(before, *checksum, CachedModule { module: entry, size }, budget as nat);
            }
            match lru_put(modules, *checksum, CachedModule { module: entry, size }) {
                Ok(_) => Ok(()),
                Err(turned_away) => Err(CacheError::store_failed(describe(&turned_away))),
            }
        } else {
            Ok(())
        }
    }

    /// Looks up a module in the cache and creates a new module: a clone of the
    /// one that is stored, with its declared size. A hit makes the entry the
    /// most recently used one. A miss is no error, and changes nothing.
    pub fn load(&mut self, checksum: &Checksum) -> (result: Result<Option<CachedModule>, CacheError>)
        requires
            old(self).wf(),
        ensures
            final(self).wf(),
            final(self).budget() == old(self).budget(),
            final(self).entries() == touch(old(self).entries(), *checksum),
            result == Ok::<Option<CachedModule>, CacheError>(lookup(old(self).entries(), *checksum)),
    {
        if let Some(modules) = &mut self.modules {
            proof {
                lemma_touch(lru_entries(*modules), *checksum);
            }
            match lru_get(modules, checksum) {
                Some(cached) => Ok(Some(cached.clone())),
                None => Ok(None),
            }
        } else {
            Ok(None)
        }
    }

    /// Returns the number of elements in the cache.
    pub fn len(&self) -> (count: usize)
        ensures
            count == self.entries().len(),
    {
        match &self.modules {
            Some(modules) => lru_len(modules),
            None => 0,
        }
    }

    /// Returns cumulative size of all elements in the cache.
    ///
    /// This is based on the values provided with `store`. No actual
    /// memory size is measured here.
    pub fn size(&self) -> (bytes: usize)
        ensures
            bytes == total_weight(self.entries()),
    {
        match &self.modules {
            Some(modules) => lru_weight(modules),
            None => 0,
        }
    }
}

} // verus!
