//! Sorting by key: the stable order of a run of keys, which is unique, and
//! the sort that arranges items in it.

use crate::models::{item_views, Item, ItemView};
use crate::text::{lemma_order_total, lemma_order_transitive, precedes, sorts_before};
use vstd::prelude::*;
use vstd::set_lib::{lemma_int_range, lemma_subset_equality, set_int_range};

verus! {

/// Whether place `a` comes before place `b` when the places of `keys` are
/// sorted: its key sorts before the other, or the keys are equal and `a` is
/// the earlier place.
pub open spec fn ranks_before(keys: Seq<Seq<char>>, a: int, b: int) -> bool {
    sorts_before(keys[a], keys[b]) || (keys[a] == keys[b] && a < b)
}

/// `order` lists places of `keys`, each of them before those that rank
/// behind it.
pub open spec fn in_key_order(keys: Seq<Seq<char>>, order: Seq<int>) -> bool {
    &&& forall|i: int| 0 <= i < order.len() ==> 0 <= #[trigger] order[i] < keys.len()
    &&& forall|i: int, j: int|
        0 <= i < j < order.len() ==> ranks_before(keys, #[trigger] order[i], #[trigger] order[j])
}

/// `order` is the stable order of `keys`: it lists as many places as there
/// are keys, in key order, places of equal keys as they stand.
pub open spec fn is_key_order(keys: Seq<Seq<char>>, order: Seq<int>) -> bool {
    order.len() == keys.len() && in_key_order(keys, order)
}

/// The stable order of `keys`.
pub open spec fn key_order(keys: Seq<Seq<char>>) -> Seq<int> {
    choose|order: Seq<int>| is_key_order(keys, order)
}

/// The items picked in the given order: place `i` holds the item at place
/// `order[i]` of `items`.
pub open spec fn arranged<T>(items: Seq<T>, order: Seq<int>) -> Seq<T> {
    Seq::new(order.len(), |i: int| items[order[i]])
}

/// The items sorted by the keys that stand at their places, items of equal
/// keys in the order they have.
pub open spec fn sorted_by<T>(keys: Seq<Seq<char>>, items: Seq<T>) -> Seq<T> {
    arranged(items, key_order(keys))
}

/// Ranking before is a strict total order of the places.
pub proof fn lemma_ranks(keys: Seq<Seq<char>>, a: int, b: int)
    ensures
        a != b ==> ranks_before(keys, a, b) || ranks_before(keys, b, a),
        !(ranks_before(keys, a, b) && ranks_before(keys, b, a)),
        !ranks_before(keys, a, a),
{
    lemma_order_total(keys[a], keys[b]);
    lemma_order_total(keys[a], keys[a]);
}

/// Ranking before is transitive.
pub proof fn lemma_ranks_transitive(keys: Seq<Seq<char>>, a: int, b: int, c: int)
    requires
        ranks_before(keys, a, b),
        ranks_before(keys, b, c),
    ensures
        ranks_before(keys, a, c),
{
    if sorts_before(keys[a], keys[b]) && sorts_before(keys[b], keys[c]) {
        lemma_order_transitive(keys[a], keys[b], keys[c]);
    }
}

/// Putting place `m`, which is behind all listed places, in front of the
/// listed places whose keys sort after its key keeps the list in key order.
pub proof fn lemma_insert_in_order(keys: Seq<Seq<char>>, order: Seq<int>, m: int, p: int)
    requires
        in_key_order(keys, order),
        0 <= m < keys.len(),
        forall|i: int| 0 <= i < order.len() ==> #[trigger] order[i] < m,
        0 <= p <= order.len(),
        forall|i: int| p <= i < order.len() ==> sorts_before(keys[m], keys[#[trigger] order[i]]),
        p > 0 ==> !sorts_before(keys[m], keys[order[p - 1]]),
    ensures
        in_key_order(keys, order.insert(p, m)),
        forall|i: int| 0 <= i <= order.len() ==> #[trigger] order.insert(p, m)[i] <= m,
{
    let after = order.insert(p, m);
    assert forall|i: int| 0 <= i < after.len() implies 0 <= #[trigger] after[i] < keys.len()
        && after[i] <= m by {
        if i < p {
            assert(after[i] == order[i]);
        } else if i > p {
            assert(after[i] == order[i - 1]);
        }
    }
    assert forall|i: int, j: int| 0 <= i < j < after.len() implies ranks_before(
        keys,
        #[trigger] after[i],
        #[trigger] after[j],
    ) by {
        if j < p {
            assert(after[i] == order[i] && after[j] == order[j]);
        } else if i > p {
            assert(after[i] == order[i - 1] && after[j] == order[j - 1]);
        } else if i == p {
            assert(after[j] == order[j - 1]);
        } else if j == p {
            assert(after[i] == order[i]);
            lemma_order_total(keys[order[p - 1]], keys[m]);
            assert(ranks_before(keys, order[p - 1], m));
            if i < p - 1 {
                assert(ranks_before(keys, order[i], order[p - 1]));
                lemma_ranks_transitive(keys, order[i], order[p - 1], m);
            }
        } else {
            assert(after[i] == order[i] && after[j] == order[j - 1]);
        }
    }
}

/// The place in a list in key order at which place `m` is to stand: in
/// front of the listed places whose keys sort after its key, and of no
/// other.
pub proof fn lemma_insertion_place(keys: Seq<Seq<char>>, order: Seq<int>, m: int, from: int) -> (p:
    int)
    requires
        0 <= from <= order.len(),
        forall|i: int| from <= i < order.len() ==> sorts_before(keys[m], keys[#[trigger] order[i]]),
    ensures
        0 <= p <= order.len(),
        forall|i: int| p <= i < order.len() ==> sorts_before(keys[m], keys[#[trigger] order[i]]),
        p > 0 ==> !sorts_before(keys[m], keys[order[p - 1]]),
    decreases from,
{
    if from > 0 && sorts_before(keys[m], keys[order[from - 1]]) {
        lemma_insertion_place(keys, order, m, from - 1)
    } else {
        from
    }
}

/// The first `m` places of `keys` can be listed in key order.
pub proof fn lemma_order_of_front(keys: Seq<Seq<char>>, m: int) -> (order: Seq<int>)
    requires
        0 <= m <= keys.len(),
    ensures
        order.len() == m,
        in_key_order(keys, order),
        forall|i: int| 0 <= i < m ==> #[trigger] order[i] < m,
    decreases m,
{
    if m == 0 {
        Seq::empty()
    } else {
        let front = lemma_order_of_front(keys, m - 1);
        let p = lemma_insertion_place(keys, front, m - 1, m - 1);
        lemma_insert_in_order(keys, front, m - 1, p);
        front.insert(p, m - 1)
    }
}

/// Every run of keys has a stable order.
pub proof fn lemma_key_order_exists(keys: Seq<Seq<char>>)
    ensures
        is_key_order(keys, key_order(keys)),
{
    let order = lemma_order_of_front(keys, keys.len() as int);
    assert(is_key_order(keys, order));
}

/// A list of distinct places that is as long as the run of keys holds
/// every place.
pub proof fn lemma_order_holds_every_place(keys: Seq<Seq<char>>, order: Seq<int>, place: int)
    requires
        is_key_order(keys, order),
        0 <= place < keys.len(),
    ensures
        order.contains(place),
{
    let n = keys.len() as int;
    assert forall|i: int, j: int|
        0 <= i < order.len() && 0 <= j < order.len() && i != j implies order[i] != order[j] by {
        lemma_ranks(keys, order[i], order[i]);
        if i < j {
            assert(ranks_before(keys, order[i], order[j]));
        } else {
            assert(ranks_before(keys, order[j], order[i]));
        }
    }
    assert(order.no_duplicates());
    order.unique_seq_to_set();
    lemma_int_range(0, n);
    assert forall|x: int| order.to_set().contains(x) implies set_int_range(0, n).contains(x) by {
        let i = choose|i: int| 0 <= i < order.len() && order[i] == x;
        assert(0 <= order[i] < keys.len());
    }
    assert(order.to_set().subset_of(set_int_range(0, n)));
    vstd::set_lib::lemma_len_subset(order.to_set(), set_int_range(0, n));
    lemma_subset_equality(order.to_set(), set_int_range(0, n));
    assert(set_int_range(0, n).contains(place));
    assert(order.to_set().contains(place));
    assert(order.contains(place));
}

/// Two stable orders of one run of keys agree on their first `m` places.
proof fn lemma_orders_agree(keys: Seq<Seq<char>>, one: Seq<int>, other: Seq<int>, m: int)
    requires
        is_key_order(keys, one),
        is_key_order(keys, other),
        0 <= m <= keys.len(),
    ensures
        forall|i: int| 0 <= i < m ==> one[i] == other[i],
    decreases m,
{
    if m > 0 {
        lemma_orders_agree(keys, one, other, m - 1);
        let at = m - 1;
        let a = one[at];
        let b = other[at];
        if a != b {
            lemma_ranks(keys, a, b);
            lemma_not_misplaced(keys, one, other, at);
            lemma_not_misplaced(keys, other, one, at);
        }
    }
}

/// Where two stable orders agree in front of place `at`, the place that
/// the first lists there does not rank before the one that the second
/// lists there.
proof fn lemma_not_misplaced(keys: Seq<Seq<char>>, one: Seq<int>, other: Seq<int>, at: int)
    requires
        is_key_order(keys, one),
        is_key_order(keys, other),
        0 <= at < keys.len(),
        forall|i: int| 0 <= i < at ==> one[i] == other[i],
    ensures
        !ranks_before(keys, one[at], other[at]),
{
    let a = one[at];
    let b = other[at];
    if ranks_before(keys, a, b) {
        assert(0 <= one[at] < keys.len());
        lemma_order_holds_every_place(keys, other, a);
        let j = choose|j: int| 0 <= j < other.len() && other[j] == a;
        lemma_ranks(keys, a, b);
        lemma_ranks(keys, a, a);
        if j < at {
            assert(one[j] == other[j]);
            assert(ranks_before(keys, one[j], one[at]));
        } else if j > at {
            assert(ranks_before(keys, other[at], other[j]));
        }
    }
}

/// A run of keys has one stable order only.
pub proof fn lemma_key_order_unique(keys: Seq<Seq<char>>, order: Seq<int>)
    requires
        is_key_order(keys, order),
    ensures
        order == key_order(keys),
{
    lemma_orders_agree(keys, order, key_order(keys), keys.len() as int);
    assert(order =~= key_order(keys));
}

/// What sorting by key gives: as many items as before, each item of
/// `items` once, no item behind one whose key sorts after its own, and
/// items of equal keys in the order they had.
pub proof fn lemma_sorted_by<T>(keys: Seq<Seq<char>>, items: Seq<T>)
    requires
        items.len() == keys.len(),
    ensures
        sorted_by(keys, items).len() == items.len(),
        forall|i: int|
            0 <= i < items.len() ==> 0 <= #[trigger] key_order(keys)[i] < items.len()
                && sorted_by(keys, items)[i] == items[key_order(keys)[i]],
        forall|place: int|
            0 <= place < items.len() ==> #[trigger] key_order(keys).contains(place),
        forall|i: int, j: int|
            0 <= i < j < items.len() ==> #[trigger] key_order(keys)[i] != #[trigger] key_order(
                keys,
            )[j],
        forall|i: int, j: int|
            0 <= i < j < items.len() ==> !sorts_before(
                keys[#[trigger] key_order(keys)[j]],
                keys[#[trigger] key_order(keys)[i]],
            ),
        forall|i: int, j: int|
            0 <= i < j < items.len() && keys[key_order(keys)[i]] == keys[key_order(keys)[j]]
                ==> #[trigger] key_order(keys)[i] < #[trigger] key_order(keys)[j],
{
    lemma_key_order_exists(keys);
    let order = key_order(keys);
    assert forall|place: int| 0 <= place < items.len() implies #[trigger] order.contains(
        place,
    ) by {
        lemma_order_holds_every_place(keys, order, place);
    }
    assert forall|i: int, j: int| 0 <= i < j < items.len() implies #[trigger] order[i]
        != #[trigger] order[j] && !sorts_before(keys[order[j]], keys[order[i]]) && (keys[order[i]]
        == keys[order[j]] ==> order[i] < order[j]) by {
        assert(ranks_before(keys, order[i], order[j]));
        lemma_ranks(keys, order[i], order[j]);
        lemma_order_total(keys[order[i]], keys[order[j]]);
    }
}

/// The keys of keyed items, in order.
pub open spec fn keys_of(pairs: Seq<(Vec<char>, Item)>) -> Seq<Seq<char>> {
    Seq::new(pairs.len(), |i: int| pairs[i].0@)
}

/// The items of keyed items, in order.
pub open spec fn items_of(pairs: Seq<(Vec<char>, Item)>) -> Seq<ItemView> {
    Seq::new(pairs.len(), |i: int| pairs[i].1@)
}

/// Sorts items by the keys they come with; items of equal keys keep their
/// order.
pub fn sort_keyed(pairs: Vec<(Vec<char>, Item)>) -> (sorted: Vec<Item>)
    ensures
        item_views(sorted@) == sorted_by(keys_of(pairs@), items_of(pairs@)),
{
    let ghost keys = keys_of(pairs@);
    let ghost items = items_of(pairs@);
    let ghost mut order: Seq<int> = Seq::empty();
    let mut sorted: Vec<Item> = Vec::new();
    let mut sorted_keys: Vec<Vec<char>> = Vec::new();
    for pair in it: pairs
        invariant
            keys == keys_of(it.seq()),
            items == items_of(it.seq()),
            order.len() == it.index(),
            sorted.len() == it.index(),
            sorted_keys.len() == it.index(),
            in_key_order(keys, order),
            forall|i: int| 0 <= i < order.len() ==> #[trigger] order[i] < it.index(),
            forall|i: int| 0 <= i < order.len() ==> (#[trigger] sorted_keys[i])@ == keys[order[i]],
            forall|i: int| 0 <= i < order.len() ==> (#[trigger] sorted[i])@ == items[order[i]],
    {
        let ghost m = it.index();
        let ghost listed = order;
        let (key, item) = pair;
        assert(key@ == keys[m] && item@ == items[m]);
        let mut p: usize = sorted_keys.len();
        while p > 0 && precedes(&key, &sorted_keys[p - 1])
            invariant
                p <= sorted_keys.len(),
                sorted_keys.len() == listed.len(),
                key@ == keys[m],
                forall|i: int|
                    0 <= i < listed.len() ==> (#[trigger] sorted_keys[i])@ == keys[listed[i]],
                forall|i: int|
                    p <= i < listed.len() ==> sorts_before(keys[m], keys[#[trigger] listed[i]]),
            decreases p,
        {
            assert(sorted_keys[p - 1]@ == keys[listed[p - 1]]);
            p -= 1;
        }
        proof {
            if p > 0 {
                assert(sorted_keys[p - 1]@ == keys[listed[p - 1]]);
            }
            lemma_insert_in_order(keys, listed, m, p as int);
            order = listed.insert(p as int, m);
        }
        sorted.insert(p, item);
        sorted_keys.insert(p, key);
        assert forall|i: int| 0 <= i < order.len() implies (#[trigger] sorted_keys[i])@
            == keys[order[i]] && (#[trigger] sorted[i])@ == items[order[i]] && order[i] < m + 1 by {
            if i < p {
                assert(order[i] == listed[i]);
            } else if i > p {
                assert(order[i] == listed[i - 1]);
            }
        }
    }
    proof {
        lemma_key_order_unique(keys, order);
        assert(item_views(sorted@) =~= sorted_by(keys, items));
    }
    sorted
}

} // verus!
