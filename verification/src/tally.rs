//! Counting the threads that stand at a given point of a protocol

use vstd::prelude::*;

verus! {

/// How many entries of `items` equal `item`.
pub open spec fn tally<T>(items: Seq<T>, item: T) -> nat
    decreases items.len(),
{
    if items.len() == 0 {
        0
    } else {
        tally(items.drop_last(), item) + if items.last() == item {
            1nat
        } else {
            0nat
        }
    }
}

/// Replacing one entry moves one unit of count from the old value to the new one.
pub proof fn lemma_tally_update<T>(items: Seq<T>, at: int, to: T, item: T)
    requires
        0 <= at < items.len(),
    ensures
        tally(items.update(at, to), item) + (if items[at] == item {
            1nat
        } else {
            0nat
        }) == tally(items, item) + (if to == item {
            1nat
        } else {
            0nat
        }),
    decreases items.len(),
{
    let updated = items.update(at, to);
    if at == items.len() - 1 {
        assert(updated.drop_last() =~= items.drop_last());
    } else {
        assert(updated.drop_last() =~= items.drop_last().update(at, to));
        lemma_tally_update(items.drop_last(), at, to, item);
    }
}

/// An entry that equals `item` is counted.
pub proof fn lemma_tally_counts<T>(items: Seq<T>, at: int, item: T)
    requires
        0 <= at < items.len(),
        items[at] == item,
    ensures
        tally(items, item) >= 1,
    decreases items.len(),
{
    if at < items.len() - 1 {
        lemma_tally_counts(items.drop_last(), at, item);
    }
}

/// Two different entries that both equal `item` are both counted.
pub proof fn lemma_tally_counts_two<T>(items: Seq<T>, first: int, second: int, item: T)
    requires
        0 <= first < second < items.len(),
        items[first] == item,
        items[second] == item,
    ensures
        tally(items, item) >= 2,
    decreases items.len(),
{
    if second < items.len() - 1 {
        lemma_tally_counts_two(items.drop_last(), first, second, item);
    } else {
        lemma_tally_counts(items.drop_last(), first, item);
    }
}

/// Where no entry equals `item`, the count is zero.
pub proof fn lemma_tally_none<T>(items: Seq<T>, item: T)
    requires
        forall|at: int| 0 <= at < items.len() ==> items[at] != item,
    ensures
        tally(items, item) == 0,
    decreases items.len(),
{
    if items.len() > 0 {
        lemma_tally_none(items.drop_last(), item);
    }
}

/// Where the count is positive, some entry equals `item`.
pub proof fn lemma_tally_finds<T>(items: Seq<T>, item: T) -> (at: int)
    requires
        tally(items, item) > 0,
    ensures
        0 <= at < items.len(),
        items[at] == item,
    decreases items.len(),
{
    if items.last() == item {
        items.len() - 1
    } else {
        lemma_tally_finds(items.drop_last(), item)
    }
}

} // verus!
