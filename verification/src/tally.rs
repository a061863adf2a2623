//! Counting how often each distinct item occurs.

use vstd::prelude::*;

verus! {

/// The position of the first entry for `item`; the number of entries where
/// there is none.
pub open spec fn index_of_first<V>(entries: Seq<(V, nat)>, item: V) -> int
    decreases entries.len(),
{
    if entries.len() == 0 {
        0
    } else if entries[0].0 == item {
        0
    } else {
        1 + index_of_first(entries.drop_first(), item)
    }
}

/// The distinct items of `items`, each with the number of its occurrences, in
/// the order in which they first occur.
pub open spec fn tally<V>(items: Seq<V>) -> Seq<(V, nat)>
    decreases items.len(),
{
    if items.len() == 0 {
        Seq::<(V, nat)>::empty()
    } else {
        let before = tally(items.drop_last());
        let at = index_of_first(before, items.last());
        if at < before.len() {
            before.update(at, (items.last(), before[at].1 + 1))
        } else {
            before.push((items.last(), 1))
        }
    }
}

/// How often `item` occurs in `items`.
pub open spec fn occurrences<V>(items: Seq<V>, item: V) -> nat
    decreases items.len(),
{
    if items.len() == 0 {
        0
    } else if items.last() == item {
        occurrences(items.drop_last(), item) + 1
    } else {
        occurrences(items.drop_last(), item)
    }
}

/// The sum of the counts of `entries`.
pub open spec fn total_count<V>(entries: Seq<(V, nat)>) -> nat
    decreases entries.len(),
{
    if entries.len() == 0 {
        0
    } else {
        total_count(entries.drop_last()) + entries.last().1
    }
}

/// Whether `entries` has an entry for `item`.
pub open spec fn has_entry<V>(entries: Seq<(V, nat)>, item: V) -> bool {
    exists|i: int| 0 <= i < entries.len() && (#[trigger] entries[i]).0 == item
}

/// The first entry for an item is an entry for it, and none stands before it.
pub proof fn lemma_index_of_first<V>(entries: Seq<(V, nat)>, item: V)
    ensures
        0 <= index_of_first(entries, item) <= entries.len(),
        index_of_first(entries, item) < entries.len() ==> entries[index_of_first(
            entries,
            item,
        )].0 == item,
        forall|k: int| 0 <= k < index_of_first(entries, item) ==> (#[trigger] entries[k]).0 != item,
    decreases entries.len(),
{
    if entries.len() > 0 && entries[0].0 != item {
        let rest = entries.drop_first();
        lemma_index_of_first(rest, item);
        assert forall|k: int| 0 <= k < index_of_first(entries, item) implies (
        #[trigger] entries[k]).0 != item by {
            if k > 0 {
                assert(entries[k] == rest[k - 1]);
            }
        }
    }
}

proof fn lemma_occurs_somewhere<V>(items: Seq<V>, item: V)
    requires
        occurrences(items, item) > 0,
    ensures
        exists|k: int| 0 <= k < items.len() && #[trigger] items[k] == item,
    decreases items.len(),
{
    if items.last() == item {
        assert(items[items.len() - 1] == item);
    } else {
        lemma_occurs_somewhere(items.drop_last(), item);
        let k = choose|k: int| 0 <= k < items.len() - 1 && #[trigger] items.drop_last()[k] == item;
        assert(items[k] == item);
    }
}

proof fn lemma_total_count_update<V>(entries: Seq<(V, nat)>, at: int, item: V)
    requires
        0 <= at < entries.len(),
    ensures
        total_count(entries.update(at, (item, entries[at].1 + 1))) == total_count(entries) + 1,
    decreases entries.len(),
{
    let changed = entries.update(at, (item, entries[at].1 + 1));
    if at == entries.len() - 1 {
        assert(changed.drop_last() =~= entries.drop_last());
    } else {
        lemma_total_count_update(entries.drop_last(), at, item);
        assert(changed.drop_last() =~= entries.drop_last().update(
            at,
            (item, entries[at].1 + 1),
        ));
    }
}

/// A tally holds no item twice, holds every item that occurs, gives each the
/// number of its occurrences, and its counts add up to the number of items.
pub proof fn lemma_tally<V>(items: Seq<V>)
    ensures
        forall|i: int, j: int|
            0 <= i < j < tally(items).len() ==> (#[trigger] tally(items)[i]).0 != (
            #[trigger] tally(items)[j]).0,
        forall|i: int|
            0 <= i < tally(items).len() ==> (#[trigger] tally(items)[i]).1 == occurrences(
                items,
                tally(items)[i].0,
            ) && tally(items)[i].1 >= 1,
        forall|k: int| 0 <= k < items.len() ==> has_entry(tally(items), #[trigger] items[k]),
        total_count(tally(items)) == items.len(),
        tally(items).len() <= items.len(),
    decreases items.len(),
{
    if items.len() > 0 {
        let front = items.drop_last();
        let item = items.last();
        let before = tally(front);
        let after = tally(items);
        let at = index_of_first(before, item);
        lemma_tally(front);
        lemma_index_of_first(before, item);
        if at < before.len() {
            lemma_total_count_update(before, at, item);
            assert forall|i: int| 0 <= i < after.len() implies (#[trigger] after[i]).1
                == occurrences(items, after[i].0) && after[i].1 >= 1 by {
                assert(after[i].0 == before[i].0);
                if i != at {
                    if i < at {
                        assert(before[i].0 != before[at].0);
                    } else {
                        assert(before[at].0 != before[i].0);
                    }
                }
            }
            assert forall|k: int| 0 <= k < items.len() implies has_entry(
                after,
                #[trigger] items[k],
            ) by {
                if k < front.len() {
                    assert(has_entry(before, front[k]));
                    let i = choose|i: int|
                        0 <= i < before.len() && (#[trigger] before[i]).0 == front[k];
                    assert(after[i].0 == items[k]);
                } else {
                    assert(after[at].0 == items[k]);
                }
            }
            assert forall|i: int, j: int| 0 <= i < j < after.len() implies (#[trigger] after[i]).0
                != (#[trigger] after[j]).0 by {
                assert(after[i].0 == before[i].0 && after[j].0 == before[j].0);
            }
        } else {
            assert(after.drop_last() =~= before);
            if occurrences(front, item) > 0 {
                lemma_occurs_somewhere(front, item);
                let k = choose|k: int| 0 <= k < front.len() && #[trigger] front[k] == item;
                assert(has_entry(before, front[k]));
                let i = choose|i: int|
                    0 <= i < before.len() && (#[trigger] before[i]).0 == front[k];
                assert(before[i].0 != item);
            }
            assert forall|i: int| 0 <= i < after.len() implies (#[trigger] after[i]).1
                == occurrences(items, after[i].0) && after[i].1 >= 1 by {
                if i < before.len() {
                    assert(after[i] == before[i]);
                    assert(before[i].0 != item);
                }
            }
            assert forall|k: int| 0 <= k < items.len() implies has_entry(
                after,
                #[trigger] items[k],
            ) by {
                if k < front.len() {
                    assert(has_entry(before, front[k]));
                    let i = choose|i: int|
                        0 <= i < before.len() && (#[trigger] before[i]).0 == front[k];
                    assert(after[i].0 == items[k]);
                } else {
                    assert(after[before.len() as int].0 == items[k]);
                }
            }
            assert forall|i: int, j: int| 0 <= i < j < after.len() implies (#[trigger] after[i]).0
                != (#[trigger] after[j]).0 by {
                assert(after[i] == before[i]);
                if j < before.len() {
                    assert(after[j] == before[j]);
                } else {
                    assert(before[i].0 != item);
                }
            }
        }
    }
}

} // verus!
