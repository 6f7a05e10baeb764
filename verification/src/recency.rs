//! The mathematical model of the cache: a sequence of entries with the most
//! recently used one first, and what storing and loading do to it.
//!
//! The budget of a cache bounds the declared sizes of its entries, added up.
//! The number of entries does not count: an entry of the whole budget is stored
//! in a cache that then holds nothing else, and entries of size 0 take no room.

use crate::cached_module::CachedModule;
use crate::checksum::Checksum;
use vstd::prelude::*;

verus! {

/// A key and what is stored under it.
pub type Entry = (Checksum, CachedModule);

/// The sum of the declared sizes of `entries`.
pub open spec fn total_weight(entries: Seq<Entry>) -> nat
    decreases entries.len(),
{
    if entries.len() == 0 {
        0
    } else {
        total_weight(entries.drop_last()) + entries.last().1.size as nat
    }
}

/// No key occurs twice.
pub open spec fn distinct_keys(entries: Seq<Entry>) -> bool {
    forall|i: int, j: int|
        0 <= i < j < entries.len() ==> (#[trigger] entries[i]).0 != (#[trigger] entries[j]).0
}

/// `entries` can be the contents of a cache with this budget.
pub open spec fn valid(entries: Seq<Entry>, budget: nat) -> bool {
    distinct_keys(entries) && total_weight(entries) <= budget
}

/// Some entry has this key.
pub open spec fn has_key(entries: Seq<Entry>, key: Checksum) -> bool {
    exists|i: int| 0 <= i < entries.len() && (#[trigger] entries[i]).0 == key
}

/// The place of the entry with this key, where there is one.
pub open spec fn index_of(entries: Seq<Entry>, key: Checksum) -> int {
    choose|i: int| 0 <= i < entries.len() && (#[trigger] entries[i]).0 == key
}

/// What is stored under this key.
pub open spec fn lookup(entries: Seq<Entry>, key: Checksum) -> Option<CachedModule> {
    if has_key(entries, key) {
        Some(entries[index_of(entries, key)].1)
    } else {
        None
    }
}

/// `entries` without the entry of this key.
pub open spec fn without_key(entries: Seq<Entry>, key: Checksum) -> Seq<Entry> {
    if has_key(entries, key) {
        entries.remove(index_of(entries, key))
    } else {
        entries
    }
}

/// `entries` after a use of this key: its entry, where there is one, has moved
/// to the front, and the others keep their order.
pub open spec fn touch(entries: Seq<Entry>, key: Checksum) -> Seq<Entry> {
    if has_key(entries, key) {
        seq![entries[index_of(entries, key)]] + entries.remove(index_of(entries, key))
    } else {
        entries
    }
}

/// There is room for one more entry of size `incoming` beside `entries`: with
/// it, the sizes stay within the budget.
pub open spec fn fits(entries: Seq<Entry>, incoming: nat, budget: nat) -> bool {
    total_weight(entries) + incoming <= budget
}

/// `entries` after the least recently used ones have left, one by one from the
/// back, until there is room for an entry of size `incoming`.
pub open spec fn evict_until_fits(entries: Seq<Entry>, incoming: nat, budget: nat) -> Seq<Entry>
    decreases entries.len(),
{
    if entries.len() == 0 || fits(entries, incoming, budget) {
        entries
    } else {
        evict_until_fits(entries.drop_last(), incoming, budget)
    }
}

/// `entries` after `value` has been put under `key`: the new entry is the
/// most recently used one, an older entry of the same key is gone, and of the
/// others the least recently used have left as far as room was needed.
pub open spec fn put(entries: Seq<Entry>, key: Checksum, value: CachedModule, budget: nat) -> Seq<
    Entry,
> {
    seq![(key, value)] + evict_until_fits(without_key(entries, key), value.size as nat, budget)
}

/// A cache with this budget turns an entry of this size away: the cache is
/// enabled, and the size alone is more than the budget.
pub open spec fn rejected(budget: nat, size: nat) -> bool {
    budget > 0 && size > budget
}

/// The contents of a cache with this budget after a request to store `value`
/// under `key`. A cache without a budget stores nothing. An entry that is
/// turned away takes an older entry of its key with it, and nothing else
/// leaves.
pub open spec fn stored(entries: Seq<Entry>, budget: nat, key: Checksum, value: CachedModule) -> Seq<
    Entry,
> {
    if budget == 0 {
        entries
    } else if rejected(budget, value.size as nat) {
        without_key(entries, key)
    } else {
        put(entries, key, value, budget)
    }
}

/// What a caller can ask of a cache that changes it.
pub enum Request {
    /// Store this value under this key.
    Store(Checksum, CachedModule),
    /// Load what is stored under this key.
    Load(Checksum),
}

/// The contents of a cache with this budget after one request.
pub open spec fn apply(entries: Seq<Entry>, budget: nat, request: Request) -> Seq<Entry> {
    match request {
        Request::Store(key, value) => stored(entries, budget, key, value),
        Request::Load(key) => touch(entries, key),
    }
}

/// The contents of a cache with this budget that started empty and served
/// `requests`, one after the other.
pub open spec fn replay(budget: nat, requests: Seq<Request>) -> Seq<Entry>
    decreases requests.len(),
{
    if requests.len() == 0 {
        Seq::empty()
    } else {
        apply(replay(budget, requests.drop_last()), budget, requests.last())
    }
}

/// The weight of two sequences joined is the sum of their weights.
pub proof fn lemma_total_weight_concat(front: Seq<Entry>, back: Seq<Entry>)
    ensures
        total_weight(front + back) == total_weight(front) + total_weight(back),
    decreases back.len(),
{
    if back.len() == 0 {
        assert(front + back =~= front);
    } else {
        assert((front + back).drop_last() =~= front + back.drop_last());
        lemma_total_weight_concat(front, back.drop_last());
    }
}

/// The weight of a single entry is its declared size.
pub proof fn lemma_total_weight_single(entry: Entry)
    ensures
        total_weight(seq![entry]) == entry.1.size,
{
    let single = seq![entry];
    assert(single.drop_last() =~= Seq::<Entry>::empty());
    assert(total_weight(single.drop_last()) == 0);
    assert(single.last() == entry);
}

/// Taking an entry out takes its weight out.
pub proof fn lemma_total_weight_remove(entries: Seq<Entry>, i: int)
    requires
        0 <= i < entries.len(),
    ensures
        total_weight(entries.remove(i)) + entries[i].1.size == total_weight(entries),
{
    let front = entries.take(i);
    let back = entries.skip(i + 1);
    assert(entries.remove(i) =~= front + back);
    assert(entries =~= front + (seq![entries[i]] + back));
    lemma_total_weight_concat(front, back);
    lemma_total_weight_concat(seq![entries[i]], back);
    lemma_total_weight_concat(front, seq![entries[i]] + back);
    lemma_total_weight_single(entries[i]);
}

/// The first entries weigh no more than all of them.
pub proof fn lemma_total_weight_take(entries: Seq<Entry>, n: int)
    requires
        0 <= n <= entries.len(),
    ensures
        total_weight(entries.take(n)) <= total_weight(entries),
{
    assert(entries =~= entries.take(n) + entries.skip(n));
    lemma_total_weight_concat(entries.take(n), entries.skip(n));
}

/// With distinct keys, the entry of a key is found where it stands.
pub proof fn lemma_index_of(entries: Seq<Entry>, i: int)
    requires
        distinct_keys(entries),
        0 <= i < entries.len(),
    ensures
        has_key(entries, entries[i].0),
        index_of(entries, entries[i].0) == i,
        lookup(entries, entries[i].0) == Some(entries[i].1),
{
    let key = entries[i].0;
    assert(has_key(entries, key));
    let j = index_of(entries, key);
    assert(0 <= j < entries.len() && entries[j].0 == key);
    if j < i {
        assert(entries[j].0 != entries[i].0);
    }
    if i < j {
        assert(entries[i].0 != entries[j].0);
    }
}

/// Without a key's entry, the keys are still distinct, the key is gone, and
/// every other key has what it had.
pub proof fn lemma_without_key(entries: Seq<Entry>, key: Checksum)
    requires
        distinct_keys(entries),
    ensures
        distinct_keys(without_key(entries, key)),
        !has_key(without_key(entries, key), key),
        forall|other: Checksum|
            other != key ==> lookup(without_key(entries, key), other) == lookup(entries, other),
        without_key(entries, key).len() <= entries.len(),
        total_weight(without_key(entries, key)) <= total_weight(entries),
        has_key(entries, key) ==> without_key(entries, key).len() + 1 == entries.len(),
        has_key(entries, key) ==> total_weight(without_key(entries, key)) + lookup(
            entries,
            key,
        ).unwrap().size == total_weight(entries),
{
    let rest = without_key(entries, key);
    if has_key(entries, key) {
        let at = index_of(entries, key);
        lemma_total_weight_remove(entries, at);
        assert forall|i: int, j: int| 0 <= i < j < rest.len() implies (#[trigger] rest[i]).0 != (
        #[trigger] rest[j]).0 by {
            let from_i = if i < at { i } else { i + 1 };
            let from_j = if j < at { j } else { j + 1 };
            assert(rest[i] == entries[from_i]);
            assert(rest[j] == entries[from_j]);
        }
        if has_key(rest, key) {
            let i = index_of(rest, key);
            let from_i = if i < at { i } else { i + 1 };
            assert(rest[i] == entries[from_i]);
            lemma_index_of(entries, from_i);
        }
        assert forall|other: Checksum| other != key implies lookup(rest, other) == lookup(
            entries,
            other,
        ) by {
            if has_key(entries, other) {
                let i = index_of(entries, other);
                let to_i = if i < at { i } else { i - 1 };
                assert(rest[to_i] == entries[i]);
                lemma_index_of(rest, to_i);
            } else if has_key(rest, other) {
                let i = index_of(rest, other);
                let from_i = if i < at { i } else { i + 1 };
                assert(rest[i] == entries[from_i]);
            }
        }
    }
}

/// A new entry at the front, under a key that is not in use, is found under
/// its key, leaves what every other key has, and adds its weight.
pub proof fn lemma_push_front(entries: Seq<Entry>, key: Checksum, value: CachedModule)
    requires
        distinct_keys(entries),
        !has_key(entries, key),
    ensures
        distinct_keys(seq![(key, value)] + entries),
        lookup(seq![(key, value)] + entries, key) == Some(value),
        forall|other: Checksum|
            other != key ==> lookup(seq![(key, value)] + entries, other) == lookup(entries, other),
        total_weight(seq![(key, value)] + entries) == value.size + total_weight(entries),
{
    let longer = seq![(key, value)] + entries;
    lemma_total_weight_concat(seq![(key, value)], entries);
    lemma_total_weight_single((key, value));
    assert forall|i: int, j: int| 0 <= i < j < longer.len() implies (#[trigger] longer[i]).0 != (
    #[trigger] longer[j]).0 by {
        assert(longer[j] == entries[j - 1]);
        if i > 0 {
            assert(longer[i] == entries[i - 1]);
        }
    }
    assert(longer[0] == (key, value));
    lemma_index_of(longer, 0);
    assert forall|other: Checksum| other != key implies lookup(longer, other) == lookup(
        entries,
        other,
    ) by {
        if has_key(entries, other) {
            let i = index_of(entries, other);
            assert(longer[i + 1] == entries[i]);
            lemma_index_of(longer, i + 1);
        } else if has_key(longer, other) {
            let i = index_of(longer, other);
            assert(longer[i] == entries[i - 1]);
        }
    }
}

/// The first entries have distinct keys where all have, and each of their keys
/// has what it had.
pub proof fn lemma_take(entries: Seq<Entry>, n: int)
    requires
        distinct_keys(entries),
        0 <= n <= entries.len(),
    ensures
        distinct_keys(entries.take(n)),
        forall|key: Checksum|
            has_key(entries.take(n), key) ==> lookup(entries.take(n), key) == lookup(entries, key),
        forall|key: Checksum| !has_key(entries, key) ==> !has_key(entries.take(n), key),
{
    let first = entries.take(n);
    assert forall|i: int, j: int| 0 <= i < j < first.len() implies (#[trigger] first[i]).0 != (
    #[trigger] first[j]).0 by {
        assert(first[i] == entries[i]);
        assert(first[j] == entries[j]);
    }
    assert forall|key: Checksum| has_key(first, key) implies lookup(first, key) == lookup(
        entries,
        key,
    ) by {
        let i = index_of(first, key);
        assert(first[i] == entries[i]);
        lemma_index_of(entries, i);
    }
    assert forall|key: Checksum| !has_key(entries, key) implies !has_key(first, key) by {
        if has_key(first, key) {
            let i = index_of(first, key);
            assert(first[i] == entries[i]);
        }
    }
}

/// Eviction keeps the most recently used entries, in their order, and lets go
/// of no more than it must.
pub proof fn lemma_evict_until_fits(entries: Seq<Entry>, incoming: nat, budget: nat)
    ensures
        ({
            let kept = evict_until_fits(entries, incoming, budget);
            &&& kept.len() <= entries.len()
            &&& kept == entries.take(kept.len() as int)
            &&& incoming <= budget ==> fits(kept, incoming, budget)
            &&& kept.len() < entries.len() ==> !fits(
                entries.take(kept.len() as int + 1),
                incoming,
                budget,
            )
        }),
    decreases entries.len(),
{
    let kept = evict_until_fits(entries, incoming, budget);
    if entries.len() == 0 || fits(entries, incoming, budget) {
        assert(entries.take(entries.len() as int) =~= entries);
    } else {
        let shorter = entries.drop_last();
        lemma_evict_until_fits(shorter, incoming, budget);
        assert(shorter.take(kept.len() as int) =~= entries.take(kept.len() as int));
        if kept.len() < shorter.len() {
            assert(shorter.take(kept.len() as int + 1) =~= entries.take(kept.len() as int + 1));
        } else {
            assert(entries.take(kept.len() as int + 1) =~= entries);
        }
    }
}

/// Putting an entry of a size within the budget leaves valid contents in which
/// the key has the new value, every other key that is still there has what it
/// had, and no key has appeared but the new one.
pub proof fn lemma_put(entries: Seq<Entry>, key: Checksum, value: CachedModule, budget: nat)
    requires
        distinct_keys(entries),
        value.size <= budget,
    ensures
        valid(put(entries, key, value, budget), budget),
        lookup(put(entries, key, value, budget), key) == Some(value),
        forall|other: Checksum|
            other != key && has_key(put(entries, key, value, budget), other) ==> lookup(
                put(entries, key, value, budget),
                other,
            ) == lookup(entries, other),
{
    let rest = without_key(entries, key);
    let kept = evict_until_fits(rest, value.size as nat, budget);
    let after = put(entries, key, value, budget);
    lemma_without_key(entries, key);
    lemma_evict_until_fits(rest, value.size as nat, budget);
    lemma_take(rest, kept.len() as int);
    lemma_push_front(kept, key, value);
    assert forall|other: Checksum| other != key && has_key(after, other) implies lookup(
        after,
        other,
    ) == lookup(entries, other) by {
        assert(lookup(after, other) == lookup(kept, other));
        assert(has_key(kept, other));
    }
}

/// A use of a key changes the order and nothing else: the number of entries,
/// their weight and what each key has stay.
pub proof fn lemma_touch(entries: Seq<Entry>, key: Checksum)
    requires
        distinct_keys(entries),
    ensures
        distinct_keys(touch(entries, key)),
        touch(entries, key).len() == entries.len(),
        total_weight(touch(entries, key)) == total_weight(entries),
        forall|any: Checksum| lookup(touch(entries, key), any) == lookup(entries, any),
{
    if has_key(entries, key) {
        let at = index_of(entries, key);
        let rest = without_key(entries, key);
        lemma_index_of(entries, at);
        lemma_without_key(entries, key);
        lemma_push_front(rest, key, entries[at].1);
        assert(touch(entries, key) =~= seq![(key, entries[at].1)] + rest);
    }
}

} // verus!
