//! Stable ordering of texts.

use crate::text::{le, lemma_text_le_total, lemma_text_le_transitive, piece_views, text_le};
use vstd::prelude::*;

verus! {

/// Where a new text `key` goes among the positions `order`, which are sorted
/// by their texts in `keys`: behind the last one that does not come after it.
pub open spec fn insert_pos(order: Seq<int>, keys: Seq<Seq<char>>, key: Seq<char>) -> int
    decreases order.len(),
{
    if order.len() == 0 {
        0
    } else if text_le(keys[order.last()], key) {
        order.len() as int
    } else {
        insert_pos(order.drop_last(), keys, key)
    }
}

/// The positions of the first `n` texts of `keys`, sorted by text; of two
/// equal texts the earlier position comes first.
pub open spec fn order_upto(keys: Seq<Seq<char>>, n: nat) -> Seq<int>
    decreases n,
{
    if n == 0 {
        Seq::<int>::empty()
    } else {
        let before = order_upto(keys, (n - 1) as nat);
        before.insert(insert_pos(before, keys, keys[n - 1]), n - 1)
    }
}

/// The positions of `keys` in ascending order of their texts, stably.
pub open spec fn sorted_order(keys: Seq<Seq<char>>) -> Seq<int> {
    order_upto(keys, keys.len())
}

/// The texts of `keys` in ascending order.
pub open spec fn sorted_texts(keys: Seq<Seq<char>>) -> Seq<Seq<char>> {
    sorted_order(keys).map_values(|at: int| keys[at])
}

/// `order` lists each position below `n` once, in ascending order of the
/// texts, and positions with equal texts in ascending order.
pub open spec fn is_stable_order(order: Seq<int>, keys: Seq<Seq<char>>, n: nat) -> bool {
    &&& order.len() == n
    &&& forall|i: int| 0 <= i < order.len() ==> 0 <= #[trigger] order[i] < n
    &&& forall|i: int, j: int| 0 <= i < j < order.len() ==> order[i] != order[j]
    &&& forall|i: int, j: int|
        0 <= i < j < order.len() ==> text_le(#[trigger] keys[order[i]], #[trigger] keys[order[j]])
    &&& forall|i: int, j: int|
        0 <= i < j < order.len() && keys[order[i]] == keys[order[j]] ==> order[i] < order[j]
}

proof fn lemma_text_le_reflexive(a: Seq<char>)
    ensures
        text_le(a, a),
    decreases a.len(),
{
    if a.len() > 0 {
        lemma_text_le_reflexive(a.drop_first());
    }
}

proof fn lemma_insert_pos(order: Seq<int>, keys: Seq<Seq<char>>, key: Seq<char>)
    requires
        forall|i: int| 0 <= i < order.len() ==> 0 <= #[trigger] order[i] < keys.len(),
        forall|i: int, j: int|
            0 <= i < j < order.len() ==> text_le(
                #[trigger] keys[order[i]],
                #[trigger] keys[order[j]],
            ),
    ensures
        0 <= insert_pos(order, keys, key) <= order.len(),
        forall|i: int|
            0 <= i < insert_pos(order, keys, key) ==> text_le(#[trigger] keys[order[i]], key),
        forall|i: int|
            insert_pos(order, keys, key) <= i < order.len() ==> !text_le(
                #[trigger] keys[order[i]],
                key,
            ),
    decreases order.len(),
{
    if order.len() == 0 {
    } else if text_le(keys[order.last()], key) {
        assert forall|i: int| 0 <= i < order.len() implies text_le(
            #[trigger] keys[order[i]],
            key,
        ) by {
            if i < order.len() - 1 {
                lemma_text_le_transitive(keys[order[i]], keys[order.last()], key);
            }
        }
    } else {
        let shorter = order.drop_last();
        assert forall|i: int, j: int| 0 <= i < j < shorter.len() implies text_le(
            #[trigger] keys[shorter[i]],
            #[trigger] keys[shorter[j]],
        ) by {
            assert(shorter[i] == order[i] && shorter[j] == order[j]);
        }
        lemma_insert_pos(shorter, keys, key);
        let p = insert_pos(order, keys, key);
        assert forall|i: int| 0 <= i < p implies text_le(#[trigger] keys[order[i]], key) by {
            assert(order[i] == shorter[i]);
        }
        assert forall|i: int| p <= i < order.len() implies !text_le(
            #[trigger] keys[order[i]],
            key,
        ) by {
            if i < order.len() - 1 {
                assert(order[i] == shorter[i]);
            }
        }
    }
}

/// The order of the first `n` texts is a stable ascending order of them.
pub proof fn lemma_order_upto_is_stable(keys: Seq<Seq<char>>, n: nat)
    requires
        n <= keys.len(),
    ensures
        is_stable_order(order_upto(keys, n), keys, n),
    decreases n,
{
    if n > 0 {
        let before = order_upto(keys, (n - 1) as nat);
        lemma_order_upto_is_stable(keys, (n - 1) as nat);
        lemma_insert_pos(before, keys, keys[n - 1]);
        let key = keys[n - 1];
        let p = insert_pos(before, keys, key);
        let after = before.insert(p, n - 1);
        assert forall|i: int, j: int| 0 <= i < j < after.len() implies text_le(
            #[trigger] keys[after[i]],
            #[trigger] keys[after[j]],
        ) by {
            if j == p {
                assert(after[i] == before[i]);
            } else if i == p {
                assert(after[j] == before[j - 1]);
                lemma_text_le_total(keys[before[j - 1]], key);
            } else {
                let bi = if i < p { i } else { i - 1 };
                let bj = if j < p { j } else { j - 1 };
                assert(after[i] == before[bi] && after[j] == before[bj]);
            }
        }
        assert forall|i: int, j: int|
            0 <= i < j < after.len() && keys[after[i]] == keys[after[j]] implies after[i]
            < after[j] by {
            if j == p {
                assert(after[i] == before[i]);
            } else if i == p {
                assert(after[j] == before[j - 1]);
                lemma_text_le_reflexive(key);
            } else {
                let bi = if i < p { i } else { i - 1 };
                let bj = if j < p { j } else { j - 1 };
                assert(after[i] == before[bi] && after[j] == before[bj]);
            }
        }
        assert forall|i: int, j: int| 0 <= i < j < after.len() implies after[i] != after[j] by {
            let bi = if i < p { i } else { i - 1 };
            let bj = if j < p { j } else { j - 1 };
            if i != p && j != p {
                assert(after[i] == before[bi] && after[j] == before[bj]);
            } else if i == p {
                assert(after[j] == before[bj]);
            } else {
                assert(after[i] == before[bi]);
            }
        }
        assert forall|i: int| 0 <= i < after.len() implies 0 <= #[trigger] after[i] < n by {
            if i != p {
                let bi = if i < p { i } else { i - 1 };
                assert(after[i] == before[bi]);
            }
        }
    }
}

/// The sorted order lists every position once, ascending by text, and equal
/// texts in the order in which they were given.
pub proof fn lemma_sorted_order_is_stable(keys: Seq<Seq<char>>)
    ensures
        is_stable_order(sorted_order(keys), keys, keys.len()),
{
    lemma_order_upto_is_stable(keys, keys.len());
}

/// The positions held by `order`, as integers.
pub open spec fn positions(order: Seq<usize>) -> Seq<int> {
    order.map_values(|at: usize| at as int)
}

/// Sorts the positions of `keys` by their texts, stably.
pub fn sort_order(keys: &Vec<Vec<char>>) -> (order: Vec<usize>)
    ensures
        positions(order@) == sorted_order(piece_views(keys@)),
        order@.len() == keys@.len(),
        forall|i: int| 0 <= i < order@.len() ==> #[trigger] order@[i] < keys@.len(),
{
    let mut order: Vec<usize> = Vec::new();
    let ghost texts = piece_views(keys@);
    let mut n: usize = 0;
    assert(positions(order@) =~= order_upto(texts, 0));
    while n < keys.len()
        invariant
            n <= keys.len(),
            texts == piece_views(keys@),
            positions(order@) == order_upto(texts, n as nat),
            is_stable_order(order_upto(texts, n as nat), texts, n as nat),
        decreases keys.len() - n,
    {
        let ghost before = positions(order@);
        let ghost key = texts[n as int];
        let mut lo: usize = 0;
        let mut hi: usize = order.len();
        while lo < hi
            invariant
                lo <= hi <= order.len(),
                n < keys.len(),
                texts == piece_views(keys@),
                key == texts[n as int],
                before == positions(order@),
                is_stable_order(before, texts, n as nat),
                forall|i: int| 0 <= i < lo ==> text_le(#[trigger] texts[before[i]], key),
                forall|i: int| hi <= i < before.len() ==> !text_le(#[trigger] texts[before[i]], key),
            decreases hi - lo,
        {
            let mid: usize = lo + (hi - lo) / 2;
            assert(before[mid as int] == order@[mid as int] as int);
            if le(&keys[order[mid]], &keys[n]) {
                assert forall|i: int| 0 <= i < mid + 1 implies text_le(
                    #[trigger] texts[before[i]],
                    key,
                ) by {
                    if i < mid {
                        lemma_text_le_transitive(texts[before[i]], texts[before[mid as int]], key);
                    }
                }
                lo = mid + 1;
            } else {
                assert forall|i: int| mid <= i < before.len() implies !text_le(
                    #[trigger] texts[before[i]],
                    key,
                ) by {
                    if i > mid && text_le(texts[before[i]], key) {
                        lemma_text_le_transitive(texts[before[mid as int]], texts[before[i]], key);
                    }
                }
                hi = mid;
            }
        }
        let p: usize = lo;
        proof {
            lemma_insert_pos(before, texts, key);
            let q = insert_pos(before, texts, key);
            if p < q {
                assert(text_le(texts[before[p as int]], key));
            }
            if q < p {
                assert(!text_le(texts[before[q]], key));
            }
            lemma_order_upto_is_stable(texts, (n + 1) as nat);
        }
        order.insert(p, n);
        assert(positions(order@) =~= before.insert(p as int, n as int));
        n += 1;
    }
    proof {
        assert forall|i: int| 0 <= i < order@.len() implies #[trigger] order@[i] < keys@.len() by {
            assert(positions(order@)[i] == order@[i] as int);
        }
    }
    order
}

} // verus!
