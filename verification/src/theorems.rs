//! What holds of every cache, proved of the model that the contracts of
//! `InMemoryCache` are stated in.

use crate::cached_module::CachedModule;
use crate::checksum::Checksum;
use crate::recency::{
    apply, distinct_keys, evict_until_fits, fits, has_key, index_of, lemma_evict_until_fits,
    lemma_index_of, lemma_push_front, lemma_put, lemma_take, lemma_total_weight_single,
    lemma_total_weight_take, lemma_touch, lemma_without_key, lookup, rejected, replay, stored,
    total_weight, touch, valid, without_key, Entry, Request,
};
use vstd::prelude::*;

verus! {

/// One request leaves valid contents valid: afterwards no key occurs twice,
/// and the sizes of the entries add up to no more than the budget.
pub proof fn theorem_request_keeps_budget(entries: Seq<Entry>, budget: nat, request: Request)
    requires
        valid(entries, budget),
    ensures
        valid(apply(entries, budget, request), budget),
        total_weight(apply(entries, budget, request)) <= budget,
{
    match request {
        Request::Store(key, value) => {
            if budget > 0 {
                if value.size <= budget {
                    lemma_put(entries, key, value, budget);
                } else {
                    lemma_without_key(entries, key);
                }
            }
        },
        Request::Load(key) => {
            lemma_touch(entries, key);
        },
    }
}

/// The contents of a cache that started empty are valid after any requests.
pub proof fn lemma_replay_valid(budget: nat, requests: Seq<Request>)
    ensures
        valid(replay(budget, requests), budget),
        total_weight(replay(budget, requests)) <= budget,
    decreases requests.len(),
{
    if requests.len() > 0 {
        lemma_replay_valid(budget, requests.drop_last());
        theorem_request_keeps_budget(
            replay(budget, requests.drop_last()),
            budget,
            requests.last(),
        );
    }
}

/// Whatever a cache that started empty is asked, in whatever order, and
/// whether a store succeeds or fails: after each request the sizes of its
/// entries add up to no more than its budget.
pub proof fn theorem_budget_holds_after_every_request(budget: nat, requests: Seq<Request>)
    ensures
        forall|n: int|
            0 <= n <= requests.len() ==> valid(#[trigger] replay(budget, requests.take(n)), budget),
        forall|n: int|
            0 <= n <= requests.len() ==> total_weight(#[trigger] replay(budget, requests.take(n)))
                <= budget,
{
    assert forall|n: int| 0 <= n <= requests.len() implies valid(
        #[trigger] replay(budget, requests.take(n)),
        budget,
    ) && total_weight(replay(budget, requests.take(n))) <= budget by {
        lemma_replay_valid(budget, requests.take(n));
    }
}

/// A cache with budget 0 holds nothing, whatever it is asked: it has no
/// entries, their sizes add up to 0, and no key is found in it.
pub proof fn theorem_disabled_cache_stays_empty(requests: Seq<Request>, key: Checksum)
    ensures
        replay(0, requests) == Seq::<Entry>::empty(),
        replay(0, requests).len() == 0,
        total_weight(replay(0, requests)) == 0,
        lookup(replay(0, requests), key) is None,
    decreases requests.len(),
{
    if requests.len() > 0 {
        theorem_disabled_cache_stays_empty(requests.drop_last(), key);
    }
}

/// An entry whose size is more than the budget is turned away, however full
/// the cache is. Its key is not found afterwards, also where the cache held an
/// older entry of it; every other key has what it had.
pub proof fn theorem_oversized_entry_is_turned_away(
    entries: Seq<Entry>,
    budget: nat,
    key: Checksum,
    value: CachedModule,
)
    requires
        valid(entries, budget),
        budget > 0,
        value.size > budget,
    ensures
        rejected(budget, value.size as nat),
        stored(entries, budget, key, value) == without_key(entries, key),
        !has_key(stored(entries, budget, key, value), key),
        lookup(stored(entries, budget, key, value), key) is None,
        forall|other: Checksum|
            other != key ==> lookup(stored(entries, budget, key, value), other) == lookup(
                entries,
                other,
            ),
{
    lemma_without_key(entries, key);
}

/// An entry is turned away for its size alone: one of a size within the
/// budget is stored, however full the cache is and whether or not its key is
/// in the cache. An entry of the whole budget is stored too.
pub proof fn theorem_entry_within_budget_is_stored(
    entries: Seq<Entry>,
    budget: nat,
    key: Checksum,
    value: CachedModule,
)
    requires
        valid(entries, budget),
        budget > 0,
        value.size <= budget,
    ensures
        !rejected(budget, value.size as nat),
        stored(entries, budget, key, value)[0] == (key, value),
        lookup(stored(entries, budget, key, value), key) == Some(value),
{
    lemma_put(entries, key, value, budget);
}

/// Where an entry is stored, the entries that stay beside it are the most
/// recently used ones of those that were there under other keys, in their
/// order, and as many of them as fit: with one more, the sizes and the new
/// size together would be more than the budget. So the entries that leave are
/// the least recently used ones, and the fewest that make room.
pub proof fn theorem_eviction_takes_least_recently_used(
    entries: Seq<Entry>,
    budget: nat,
    key: Checksum,
    value: CachedModule,
)
    requires
        valid(entries, budget),
        budget > 0,
        value.size <= budget,
    ensures
        ({
            let others = without_key(entries, key);
            let after = stored(entries, budget, key, value);
            let kept = after.len() - 1;
            &&& 0 <= kept <= others.len()
            &&& after == seq![(key, value)] + others.take(kept)
            &&& total_weight(others.take(kept)) + value.size <= budget
            &&& total_weight(after) == total_weight(others.take(kept)) + value.size
            &&& kept < others.len() ==> total_weight(others.take(kept + 1)) + value.size > budget
        }),
{
    let others = without_key(entries, key);
    let kept = evict_until_fits(others, value.size as nat, budget);
    lemma_without_key(entries, key);
    lemma_evict_until_fits(others, value.size as nat, budget);
    lemma_take(others, kept.len() as int);
    lemma_push_front(kept, key, value);
}

/// Where the sizes of the entries under other keys and the new size together
/// are within the budget, nothing leaves for the new entry: afterwards the
/// cache holds it in front of all of them.
pub proof fn theorem_nothing_leaves_where_all_fit(
    entries: Seq<Entry>,
    budget: nat,
    key: Checksum,
    value: CachedModule,
)
    requires
        valid(entries, budget),
        budget > 0,
        total_weight(without_key(entries, key)) + value.size <= budget,
    ensures
        ({
            let others = without_key(entries, key);
            let after = stored(entries, budget, key, value);
            &&& after == seq![(key, value)] + others
            &&& after.len() == others.len() + 1
            &&& total_weight(after) == total_weight(others) + value.size
            &&& forall|other: Checksum| other != key ==> lookup(after, other) == lookup(entries, other)
        }),
{
    let others = without_key(entries, key);
    lemma_without_key(entries, key);
    lemma_push_front(others, key, value);
}

/// Three entries under different keys, stored in turn in an empty cache, where
/// the first two fit together and the third fits alone, but not all three: the
/// first, the least recently used one, leaves for the third, and the second
/// leaves as well exactly where it does not fit beside the third.
pub proof fn theorem_third_entry_pushes_out_the_oldest(
    budget: nat,
    first: Entry,
    second: Entry,
    third: Entry,
)
    requires
        first.0 != second.0,
        first.0 != third.0,
        second.0 != third.0,
        first.1.size + second.1.size <= budget,
        third.1.size <= budget,
        first.1.size + second.1.size + third.1.size > budget,
    ensures
        replay(
            budget,
            seq![
                Request::Store(first.0, first.1),
                Request::Store(second.0, second.1),
                Request::Store(third.0, third.1),
            ],
        ) == if second.1.size + third.1.size <= budget {
            seq![third, second]
        } else {
            seq![third]
        },
{
    let one = seq![Request::Store(first.0, first.1)];
    let two = seq![Request::Store(first.0, first.1), Request::Store(second.0, second.1)];
    let three = seq![
        Request::Store(first.0, first.1),
        Request::Store(second.0, second.1),
        Request::Store(third.0, third.1),
    ];
    let none = Seq::<Entry>::empty();
    lemma_total_weight_single(first);
    lemma_total_weight_single(second);
    assert(one.drop_last() =~= Seq::<Request>::empty());
    assert(two.drop_last() =~= one);
    assert(three.drop_last() =~= two);
    assert(replay(budget, one.drop_last()) == none);

    assert(!has_key(none, first.0));
    assert(replay(budget, one) =~= seq![first]);

    let held_one = seq![first];
    assert(!has_key(held_one, second.0)) by {
        if has_key(held_one, second.0) {
            let i = index_of(held_one, second.0);
            assert(held_one[i] == first);
        }
    }
    assert(replay(budget, two) =~= seq![second, first]);

    let held_two = seq![second, first];
    assert(!has_key(held_two, third.0)) by {
        if has_key(held_two, third.0) {
            let i = index_of(held_two, third.0);
            assert(held_two[i] == first || held_two[i] == second);
        }
    }
    assert(held_two.drop_last() =~= seq![second]);
    assert(total_weight(held_two) == first.1.size + second.1.size);
    assert(seq![second].drop_last() =~= none);
    assert(evict_until_fits(none, third.1.size as nat, budget) == none);
    assert(evict_until_fits(seq![second], third.1.size as nat, budget) == if fits(
        seq![second],
        third.1.size as nat,
        budget,
    ) {
        seq![second]
    } else {
        none
    });
    assert(replay(budget, three) =~= if second.1.size + third.1.size <= budget {
        seq![third, second]
    } else {
        seq![third]
    });
}

/// Storing under a key that is in the cache counts the new size in place of
/// the old one: the number of entries does not grow, and their sizes add up to
/// no more than before, less the old size, plus the new one. Where that sum is
/// within the budget, nothing else leaves, and both hold with equality.
pub proof fn theorem_replacement_accounting(
    entries: Seq<Entry>,
    budget: nat,
    key: Checksum,
    value: CachedModule,
)
    requires
        valid(entries, budget),
        budget > 0,
        has_key(entries, key),
        value.size <= budget,
    ensures
        ({
            let after = stored(entries, budget, key, value);
            let before = lookup(entries, key).unwrap();
            &&& after.len() <= entries.len()
            &&& total_weight(after) + before.size <= total_weight(entries) + value.size
            &&& total_weight(entries) + value.size <= budget + before.size ==> {
                &&& after.len() == entries.len()
                &&& total_weight(after) + before.size == total_weight(entries) + value.size
                &&& after == seq![(key, value)] + without_key(entries, key)
            }
        }),
{
    let others = without_key(entries, key);
    let kept = evict_until_fits(others, value.size as nat, budget);
    lemma_without_key(entries, key);
    lemma_evict_until_fits(others, value.size as nat, budget);
    lemma_total_weight_take(others, kept.len() as int);
    lemma_take(others, kept.len() as int);
    lemma_push_front(kept, key, value);
}

/// What is stored is found: after an entry of a size within the budget has
/// been stored, its key has the value that was stored, whatever the cache held
/// before, and a load leaves it so.
pub proof fn theorem_stored_entry_is_found(
    entries: Seq<Entry>,
    budget: nat,
    key: Checksum,
    value: CachedModule,
)
    requires
        valid(entries, budget),
        budget > 0,
        value.size <= budget,
    ensures
        lookup(stored(entries, budget, key, value), key) == Some(value),
        lookup(touch(stored(entries, budget, key, value), key), key) == Some(value),
{
    lemma_put(entries, key, value, budget);
    lemma_touch(stored(entries, budget, key, value), key);
}

/// An entry stored in an empty cache, with a size within the budget, is the
/// one entry afterwards: loading its key gives the value that was stored and
/// changes nothing, the cache has one entry, and its size is the size of that
/// entry.
pub proof fn theorem_round_trip(budget: nat, key: Checksum, value: CachedModule)
    requires
        budget > 0,
        value.size <= budget,
    ensures
        ({
            let after = stored(Seq::<Entry>::empty(), budget, key, value);
            &&& after == seq![(key, value)]
            &&& lookup(after, key) == Some(value)
            &&& touch(after, key) == after
            &&& after.len() == 1
            &&& total_weight(after) == value.size
        }),
{
    let none = Seq::<Entry>::empty();
    let after = stored(none, budget, key, value);
    assert(!has_key(none, key));
    assert(after =~= seq![(key, value)]);
    lemma_total_weight_single((key, value));
    assert(distinct_keys(after));
    lemma_index_of(after, 0);
    assert(after.remove(0) =~= none);
    assert(touch(after, key) =~= after);
}

/// One request brings no key into the cache but the key that it stores.
pub proof fn lemma_request_adds_no_other_key(
    entries: Seq<Entry>,
    budget: nat,
    request: Request,
    key: Checksum,
)
    requires
        valid(entries, budget),
        !has_key(entries, key),
        request matches Request::Store(other, _) ==> other != key,
    ensures
        !has_key(apply(entries, budget, request), key),
{
    let after = apply(entries, budget, request);
    assert(lookup(entries, key) is None);
    match request {
        Request::Store(other, value) => {
            if budget > 0 {
                if value.size <= budget {
                    lemma_put(entries, other, value, budget);
                } else {
                    lemma_without_key(entries, other);
                    assert(lookup(after, key) is None);
                }
            }
        },
        Request::Load(other) => {
            lemma_touch(entries, other);
            assert(lookup(after, key) is None);
        },
    }
}

/// A key that was never stored is not found, in a cache of any budget and
/// after any requests: it has no entry, and a lookup gives nothing.
pub proof fn theorem_unknown_key_is_a_miss(budget: nat, requests: Seq<Request>, key: Checksum)
    requires
        forall|i: int|
            0 <= i < requests.len() ==> (#[trigger] requests[i] matches Request::Store(other, _)
                ==> other != key),
    ensures
        !has_key(replay(budget, requests), key),
        lookup(replay(budget, requests), key) is None,
    decreases requests.len(),
{
    if requests.len() > 0 {
        let earlier = requests.drop_last();
        assert forall|i: int| 0 <= i < earlier.len() implies (#[trigger] earlier[i] matches Request::Store(
            other,
            _,
        ) ==> other != key) by {
            assert(earlier[i] == requests[i]);
        }
        theorem_unknown_key_is_a_miss(budget, earlier, key);
        lemma_replay_valid(budget, earlier);
        assert(requests.last() == requests[requests.len() - 1]);
        lemma_request_adds_no_other_key(replay(budget, earlier), budget, requests.last(), key);
    }
}

} // verus!
