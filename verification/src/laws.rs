//! What holds of the operations taken together, proved over the functions
//! by which their contracts are stated.

use crate::list::{fresh_item, numbered, pending, shown, sort_key, sort_keys};
use crate::models::{ItemView, ListView};
use crate::order::{
    arranged, is_key_order, key_order, lemma_key_order_exists, lemma_key_order_unique,
    lemma_sorted_by, ranks_before, sorted_by,
};
use crate::registry::{
    amended, distinct_ids, holds_at, lemma_amended, lemma_stored_distinct, list_of, place_of,
    rebuilt, removed, stored, stores, EntryView,
};
use crate::service::{
    completed_deleted, item_added, item_deleted, item_edited, item_toggled, list_sorted,
    visibility_toggled,
};
use crate::text::sorts_before;
use vstd::prelude::*;

verus! {

/// Flipping the completion of one place of a list twice gives the list
/// back, whether or not the place holds an item.
pub proof fn lemma_toggle_twice(list: ListView, idx: int)
    ensures
        list.toggled(idx).toggled(idx) == list,
{
    if list.has_item(idx) {
        assert(list.toggled(idx).toggled(idx).items =~= list.items);
    }
}

/// Toggling an item twice gives the registry back: the item has the
/// completion it had, and nothing else has changed. This holds of every id
/// and every place.
pub proof fn lemma_toggle_item_twice(entries: Seq<EntryView>, id: Seq<char>, idx: int)
    requires
        distinct_ids(entries),
    ensures
        item_toggled(item_toggled(entries, id, idx), id, idx) == entries,
{
    if stores(entries, id) {
        let list = list_of(entries, id);
        let at = place_of(entries, id);
        assert(holds_at(entries, id, at));
        lemma_amended(entries, id, list.toggled(idx));
        lemma_toggle_twice(list, idx);
        assert(item_toggled(item_toggled(entries, id, idx), id, idx) =~= entries);
    }
}

/// Flipping the visibility of a list twice gives the registry back.
pub proof fn lemma_toggle_show_completed_twice(entries: Seq<EntryView>, id: Seq<char>)
    requires
        distinct_ids(entries),
    ensures
        visibility_toggled(visibility_toggled(entries, id), id) == entries,
{
    if stores(entries, id) {
        let list = list_of(entries, id);
        let at = place_of(entries, id);
        assert(holds_at(entries, id, at));
        lemma_amended(entries, id, list.visibility_flipped());
        assert(visibility_toggled(visibility_toggled(entries, id), id) =~= entries);
    }
}

/// The registry after the items at the first `n` places of the list stored
/// under `id` were toggled, one after the other.
pub open spec fn toggled_upto(entries: Seq<EntryView>, id: Seq<char>, n: nat) -> Seq<EntryView>
    decreases n,
{
    if n == 0 {
        entries
    } else {
        item_toggled(toggled_upto(entries, id, (n - 1) as nat), id, n - 1)
    }
}

/// After the first `n` items of a list were toggled, the list is still
/// stored under its id, those items have their completion flipped, and the
/// others are as they were.
pub proof fn lemma_toggled_upto(entries: Seq<EntryView>, id: Seq<char>, n: nat)
    requires
        distinct_ids(entries),
        stores(entries, id),
        n <= list_of(entries, id).items.len(),
    ensures
        distinct_ids(toggled_upto(entries, id, n)),
        stores(toggled_upto(entries, id, n), id),
        list_of(toggled_upto(entries, id, n), id).items.len() == list_of(entries, id).items.len(),
        forall|i: int|
            0 <= i < n ==> (#[trigger] list_of(toggled_upto(entries, id, n), id).items[i]).completed
                != list_of(entries, id).items[i].completed,
        forall|i: int|
            n <= i < list_of(entries, id).items.len() ==> #[trigger] list_of(
                toggled_upto(entries, id, n),
                id,
            ).items[i] == list_of(entries, id).items[i],
    decreases n,
{
    if n > 0 {
        let before = toggled_upto(entries, id, (n - 1) as nat);
        lemma_toggled_upto(entries, id, (n - 1) as nat);
        lemma_amended(before, id, list_of(before, id).toggled(n - 1));
    }
}

/// Where every item is completed, nothing is left of the items once the
/// completed ones are taken out.
pub proof fn lemma_none_pending(items: Seq<ItemView>)
    requires
        forall|i: int| 0 <= i < items.len() ==> (#[trigger] items[i]).completed,
    ensures
        items.filter(pending()) == Seq::<ItemView>::empty(),
    decreases items.len(),
{
    reveal(Seq::filter);
    if items.len() > 0 {
        lemma_none_pending(items.drop_last());
        assert(!pending()(items.last()));
    }
    assert(items.filter(pending()) =~= Seq::<ItemView>::empty());
}

/// Of a list whose items are all pending: after every item was toggled,
/// deleting the completed items leaves the list without items, and adding
/// an item then gives a list of that one item, pending.
pub proof fn lemma_complete_all_then_delete(
    entries: Seq<EntryView>,
    id: Seq<char>,
    text: Seq<char>,
)
    requires
        distinct_ids(entries),
        stores(entries, id),
        forall|i: int|
            0 <= i < list_of(entries, id).items.len() ==> !(#[trigger] list_of(
                entries,
                id,
            ).items[i]).completed,
    ensures
        ({
            let done = toggled_upto(entries, id, list_of(entries, id).items.len());
            let cleared = completed_deleted(done, id);
            &&& list_of(cleared, id).items == Seq::<ItemView>::empty()
            &&& list_of(item_added(cleared, id, text), id).items == seq![fresh_item(text)]
        }),
{
    let n = list_of(entries, id).items.len();
    let done = toggled_upto(entries, id, n);
    lemma_toggled_upto(entries, id, n);
    lemma_none_pending(list_of(done, id).items);
    let cleared = completed_deleted(done, id);
    lemma_amended(done, id, list_of(done, id).without_completed());
    lemma_amended(cleared, id, list_of(cleared, id).with_item(text));
    assert(list_of(item_added(cleared, id, text), id).items =~= seq![fresh_item(text)]);
}

/// Hiding completed items is a filter on what is shown, not on what is
/// stored: a list that shows completed items shows every item, and every
/// row that is shown holds the item that is stored at its place.
pub proof fn lemma_visible(list: ListView)
    ensures
        list.show_completed ==> list.visible() == numbered(list.items),
        list.visible().len() <= list.items.len(),
        forall|k: int|
            0 <= k < list.visible().len() ==> {
                let row = #[trigger] list.visible()[k];
                &&& list.has_item(row.0)
                &&& row.1 == list.items[row.0]
                &&& (list.show_completed || !row.1.completed)
            },
        forall|i: int|
            list.has_item(i) && (list.show_completed || !list.items[i].completed)
                ==> list.visible().contains(#[trigger] numbered(list.items)[i]),
{
    let all = numbered(list.items);
    let test = shown(list.show_completed);
    all.lemma_filter_len(test);
    assert forall|k: int| 0 <= k < list.visible().len() implies {
        let row = #[trigger] list.visible()[k];
        &&& list.has_item(row.0)
        &&& row.1 == list.items[row.0]
        &&& (list.show_completed || !row.1.completed)
    } by {
        all.lemma_filter_pred(test, k);
        all.lemma_filter_contains_rev(test, list.visible()[k]);
    }
    assert forall|i: int|
        list.has_item(i) && (list.show_completed
            || !list.items[i].completed) implies list.visible().contains(#[trigger] all[i]) by {
        assert(test(all[i]));
        all.lemma_filter_contains(test, i);
    }
    if list.show_completed {
        lemma_filter_keeps_all(all, test);
    }
}

/// A filter that every item passes keeps the run as it is.
pub proof fn lemma_filter_keeps_all<T>(items: Seq<T>, test: spec_fn(T) -> bool)
    requires
        forall|i: int| 0 <= i < items.len() ==> test(#[trigger] items[i]),
    ensures
        items.filter(test) == items,
    decreases items.len(),
{
    reveal(Seq::filter);
    if items.len() > 0 {
        lemma_filter_keeps_all(items.drop_last(), test);
        assert(items.drop_last().push(items.last()) =~= items);
    }
}

/// An operation that names an id under which nothing is stored leaves the
/// registry as it was.
pub proof fn lemma_absent_id_changes_nothing(
    entries: Seq<EntryView>,
    id: Seq<char>,
    idx: int,
    text: Seq<char>,
)
    requires
        !stores(entries, id),
    ensures
        item_added(entries, id, text) == entries,
        item_edited(entries, id, idx, text) == entries,
        item_deleted(entries, id, idx) == entries,
        item_toggled(entries, id, idx) == entries,
        visibility_toggled(entries, id) == entries,
        completed_deleted(entries, id) == entries,
        list_sorted(entries, id) == entries,
        removed(entries, id) == entries,
{
}

/// An operation that names a place which holds no item leaves the registry
/// as it was.
pub proof fn lemma_absent_item_changes_nothing(
    entries: Seq<EntryView>,
    id: Seq<char>,
    idx: int,
    text: Seq<char>,
)
    requires
        !list_of(entries, id).has_item(idx),
    ensures
        item_edited(entries, id, idx, text) == entries,
        item_deleted(entries, id, idx) == entries,
        item_toggled(entries, id, idx) == entries,
{
    if stores(entries, id) {
        let at = place_of(entries, id);
        assert(holds_at(entries, id, at));
        assert(amended(entries, id, list_of(entries, id)) =~= entries);
    }
}

/// A registry rebuilt from entries holds no id twice, whatever the entries
/// were.
pub proof fn lemma_rebuilt_distinct(entries: Seq<EntryView>)
    ensures
        distinct_ids(rebuilt(entries)),
    decreases entries.len(),
{
    if entries.len() > 0 {
        lemma_rebuilt_distinct(entries.drop_last());
        lemma_stored_distinct(rebuilt(entries.drop_last()), entries.last().id, entries.last().list);
    }
}

/// What was saved is what is loaded: the registry rebuilt from the entries
/// of a registry is that registry, with the same ids in the same order and
/// the same lists.
pub proof fn lemma_saved_then_loaded(entries: Seq<EntryView>)
    requires
        distinct_ids(entries),
    ensures
        rebuilt(entries) == entries,
    decreases entries.len(),
{
    if entries.len() > 0 {
        let front = entries.drop_last();
        let last = entries.last();
        lemma_saved_then_loaded(front);
        assert(!stores(front, last.id)) by {
            if stores(front, last.id) {
                let i = place_of(front, last.id);
                assert(holds_at(front, last.id, i));
                assert(entries[i].id != entries[entries.len() - 1].id);
            }
        }
        assert(stored(front, last.id, last.list) =~= entries);
    } else {
        assert(rebuilt(entries) =~= entries);
    }
}

/// A sorted list holds the items of the list, each of them once, none
/// behind an item whose name in lower case sorts after its own, and items
/// whose names are equal in lower case in the order they had. Place `i` of
/// the sorted list holds the item from place `key_order(..)[i]`.
pub proof fn lemma_sorted_list(list: ListView)
    ensures
        list.sorted().name == list.name,
        list.sorted().show_completed == list.show_completed,
        list.sorted().items.len() == list.items.len(),
        is_key_order(sort_keys(list.items), key_order(sort_keys(list.items))),
        list.sorted().items == arranged(list.items, key_order(sort_keys(list.items))),
        forall|place: int|
            0 <= place < list.items.len() ==> #[trigger] key_order(sort_keys(list.items)).contains(
                place,
            ),
        forall|i: int, j: int|
            0 <= i < j < list.items.len() ==> !sorts_before(
                sort_key(#[trigger] list.sorted().items[j]),
                sort_key(#[trigger] list.sorted().items[i]),
            ),
        forall|i: int, j: int|
            0 <= i < j < list.items.len() && sort_key(list.sorted().items[i]) == sort_key(
                list.sorted().items[j],
            ) ==> #[trigger] key_order(sort_keys(list.items))[i] < #[trigger] key_order(
                sort_keys(list.items),
            )[j],
{
    let keys = sort_keys(list.items);
    let order = key_order(keys);
    lemma_key_order_exists(keys);
    lemma_sorted_by(keys, list.items);
    assert forall|i: int| 0 <= i < list.items.len() implies sort_key(
        #[trigger] list.sorted().items[i],
    ) == keys[order[i]] by {
        assert(0 <= order[i] < keys.len());
    }
}

/// Sorting a sorted list changes nothing.
pub proof fn lemma_sort_twice(list: ListView)
    ensures
        list.sorted().sorted() == list.sorted(),
{
    let keys = sort_keys(list.items);
    let order = key_order(keys);
    lemma_key_order_exists(keys);
    let once = list.sorted();
    let keys_once = sort_keys(once.items);
    let stay = Seq::new(once.items.len(), |i: int| i);
    assert forall|i: int| 0 <= i < once.items.len() implies #[trigger] keys_once[i]
        == keys[order[i]] by {
        assert(0 <= order[i] < keys.len());
    }
    assert forall|i: int, j: int| 0 <= i < j < stay.len() implies ranks_before(
        keys_once,
        #[trigger] stay[i],
        #[trigger] stay[j],
    ) by {
        assert(ranks_before(keys, order[i], order[j]));
    }
    assert(is_key_order(keys_once, stay));
    lemma_key_order_unique(keys_once, stay);
    assert(sorted_by(keys_once, once.items) =~= once.items);
}

/// Sorting the list under an id twice gives what sorting it once gives.
pub proof fn lemma_sort_list_twice(entries: Seq<EntryView>, id: Seq<char>)
    requires
        distinct_ids(entries),
    ensures
        list_sorted(list_sorted(entries, id), id) == list_sorted(entries, id),
{
    if stores(entries, id) {
        let list = list_of(entries, id);
        lemma_amended(entries, id, list.sorted());
        lemma_sort_twice(list);
        assert(list_sorted(list_sorted(entries, id), id) =~= list_sorted(entries, id));
    }
}

/// The registry after an item was added to the list stored under `id` for
/// each of the given names, one after the other.
pub open spec fn added_all(entries: Seq<EntryView>, id: Seq<char>, texts: Seq<Seq<char>>) -> Seq<
    EntryView,
>
    decreases texts.len(),
{
    if texts.len() == 0 {
        entries
    } else {
        item_added(added_all(entries, id, texts.drop_last()), id, texts.last())
    }
}

/// No addition is lost: after items were added for `texts`, one call after
/// the other, the list holds the items it held, followed by one pending
/// item for each of the names, in the order of the calls.
pub proof fn lemma_every_addition_counts(
    entries: Seq<EntryView>,
    id: Seq<char>,
    texts: Seq<Seq<char>>,
)
    requires
        distinct_ids(entries),
        stores(entries, id),
    ensures
        distinct_ids(added_all(entries, id, texts)),
        stores(added_all(entries, id, texts), id),
        list_of(added_all(entries, id, texts), id).items == list_of(entries, id).items
            + texts.map_values(|text: Seq<char>| fresh_item(text)),
        list_of(added_all(entries, id, texts), id).items.len() == list_of(entries, id).items.len()
            + texts.len(),
    decreases texts.len(),
{
    let news = texts.map_values(|text: Seq<char>| fresh_item(text));
    if texts.len() == 0 {
        assert(list_of(entries, id).items + news =~= list_of(entries, id).items);
    } else {
        let before = added_all(entries, id, texts.drop_last());
        lemma_every_addition_counts(entries, id, texts.drop_last());
        lemma_amended(before, id, list_of(before, id).with_item(texts.last()));
        let olds = texts.drop_last().map_values(|text: Seq<char>| fresh_item(text));
        assert(news =~= olds.push(fresh_item(texts.last())));
        assert(list_of(added_all(entries, id, texts), id).items =~= list_of(entries, id).items
            + news);
    }
}

} // verus!
