//! What can be done to one list: the changes as functions on views, and the
//! operations that carry them out.

use crate::models::{item_views, GroceryList, Item, ItemView, ListView};
use crate::order::{items_of, keys_of, sort_keyed, sorted_by};
use crate::text::{chars_of, lowercase_of, to_lowercase};
use vstd::prelude::*;

verus! {

/// A new item: the given name, not completed.
pub open spec fn fresh_item(text: Seq<char>) -> ItemView {
    ItemView { name: text, completed: false }
}

/// The test that an item is still to be done.
pub open spec fn pending() -> spec_fn(ItemView) -> bool {
    |item: ItemView| !item.completed
}

/// The items with their places: `(i, items[i])` for each place `i`.
pub open spec fn numbered(items: Seq<ItemView>) -> Seq<(int, ItemView)> {
    Seq::new(items.len(), |i: int| (i, items[i]))
}

/// The test that a numbered item is shown: every item where completed items
/// are shown, else only those not completed.
pub open spec fn shown(show_completed: bool) -> spec_fn((int, ItemView)) -> bool {
    |row: (int, ItemView)| show_completed || !row.1.completed
}

/// The views of numbered items, in order.
pub open spec fn row_views(rows: Seq<(usize, Item)>) -> Seq<(int, ItemView)> {
    Seq::new(rows.len(), |i: int| (rows[i].0 as int, rows[i].1@))
}

/// The text by which an item is sorted: its name in lower case.
pub open spec fn sort_key(item: ItemView) -> Seq<char> {
    lowercase_of(item.name)
}

/// The sort keys of a run of items, in order.
pub open spec fn sort_keys(items: Seq<ItemView>) -> Seq<Seq<char>> {
    Seq::new(items.len(), |i: int| sort_key(items[i]))
}

impl ListView {
    /// Whether `idx` is the place of an item.
    pub open spec fn has_item(self, idx: int) -> bool {
        0 <= idx < self.items.len()
    }

    /// The list with a new item at its end.
    pub open spec fn with_item(self, text: Seq<char>) -> ListView {
        ListView { items: self.items.push(fresh_item(text)), ..self }
    }

    /// The list with the item at `idx` renamed; unchanged where `idx` is
    /// no item's place.
    pub open spec fn renamed(self, idx: int, text: Seq<char>) -> ListView {
        if self.has_item(idx) {
            ListView {
                items: self.items.update(
                    idx,
                    ItemView { name: text, completed: self.items[idx].completed },
                ),
                ..self
            }
        } else {
            self
        }
    }

    /// The list without the item at `idx`; unchanged where `idx` is no
    /// item's place.
    pub open spec fn without_item(self, idx: int) -> ListView {
        if self.has_item(idx) {
            ListView { items: self.items.remove(idx), ..self }
        } else {
            self
        }
    }

    /// The list with the completion of the item at `idx` flipped; unchanged
    /// where `idx` is no item's place.
    pub open spec fn toggled(self, idx: int) -> ListView {
        if self.has_item(idx) {
            ListView {
                items: self.items.update(
                    idx,
                    ItemView {
                        name: self.items[idx].name,
                        completed: !self.items[idx].completed,
                    },
                ),
                ..self
            }
        } else {
            self
        }
    }

    /// The list with its visibility flag flipped.
    pub open spec fn visibility_flipped(self) -> ListView {
        ListView { show_completed: !self.show_completed, ..self }
    }

    /// The list without its completed items; the others keep their order.
    pub open spec fn without_completed(self) -> ListView {
        ListView { items: self.items.filter(pending()), ..self }
    }

    /// The list with its items sorted by name without regard to case;
    /// items whose names are equal but for case keep their order.
    pub open spec fn sorted(self) -> ListView {
        ListView { items: sorted_by(sort_keys(self.items), self.items), ..self }
    }

    /// The items that a client is shown, each with its place in the list:
    /// all of them where completed items are shown, else those not
    /// completed. The places are those in the stored list, whatever is
    /// hidden.
    pub open spec fn visible(self) -> Seq<(int, ItemView)> {
        numbered(self.items).filter(shown(self.show_completed))
    }
}

impl GroceryList {
    /// An empty list of the given name, which shows completed items.
    pub fn new(name: String) -> (list: GroceryList)
        ensures
            list@ == (ListView { name: name@, items: Seq::empty(), show_completed: true }),
    {
        let list = GroceryList { name, items: Vec::new(), show_completed: true };
        assert(list@.items =~= Seq::empty());
        list
    }

    /// Appends an item of the given name, not completed.
    pub fn push_item(&mut self, text: String)
        ensures
            final(self)@ == old(self)@.with_item(text@),
    {
        self.items.push(Item { name: text, completed: false });
        assert(self@.items =~= old(self)@.items.push(fresh_item(text@)));
    }

    /// Renames the item at `idx`, if there is one.
    pub fn rename_item(&mut self, idx: usize, text: String)
        ensures
            final(self)@ == old(self)@.renamed(idx as int, text@),
    {
        if idx < self.items.len() {
            self.items[idx].name = text;
            assert(self@.items =~= old(self)@.renamed(idx as int, text@).items);
        }
    }

    /// Removes the item at `idx`, if there is one.
    pub fn remove_item(&mut self, idx: usize)
        ensures
            final(self)@ == old(self)@.without_item(idx as int),
    {
        if idx < self.items.len() {
            let _ = self.items.remove(idx);
            assert(self@.items =~= old(self)@.items.remove(idx as int));
        }
    }

    /// Flips the completion of the item at `idx`, if there is one.
    pub fn toggle_item(&mut self, idx: usize)
        ensures
            final(self)@ == old(self)@.toggled(idx as int),
    {
        if idx < self.items.len() {
            let done = self.items[idx].completed;
            self.items[idx].completed = !done;
            assert(self@.items =~= old(self)@.toggled(idx as int).items);
        }
    }

    /// Sorts the items by name without regard to case; items whose names
    /// are equal but for case keep their order.
    pub fn sort_by_name(&mut self)
        ensures
            final(self)@ == old(self)@.sorted(),
    {
        let mut all: Vec<Item> = Vec::new();
        std::mem::swap(&mut all, &mut self.items);
        let ghost before = item_views(all@);
        let mut pairs: Vec<(Vec<char>, Item)> = Vec::new();
        for item in it: all
            invariant
                self.name == old(self).name,
                self.show_completed == old(self).show_completed,
                before == old(self)@.items,
                item_views(it.seq()) == before,
                pairs.len() == it.index(),
                forall|i: int| 0 <= i < pairs.len() ==> (#[trigger] pairs[i]).1@ == before[i],
                forall|i: int|
                    0 <= i < pairs.len() ==> (#[trigger] pairs[i]).0@ == sort_key(before[i]),
        {
            let lower = to_lowercase(item.name.as_str());
            pairs.push((chars_of(lower.as_str()), item));
        }
        assert(keys_of(pairs@) =~= sort_keys(before));
        assert(items_of(pairs@) =~= before);
        self.items = sort_keyed(pairs);
    }

    /// Removes the completed items; the others keep their order.
    pub fn delete_completed(&mut self)
        ensures
            final(self)@ == old(self)@.without_completed(),
    {
        let mut all: Vec<Item> = Vec::new();
        std::mem::swap(&mut all, &mut self.items);
        let ghost before = item_views(all@);
        for item in it: all
            invariant
                self.name == old(self).name,
                self.show_completed == old(self).show_completed,
                before == old(self)@.items,
                item_views(it.seq()) == before,
                item_views(self.items@) == before.take(it.index()).filter(pending()),
        {
            proof {
                let i = it.index();
                assert(before.take(i + 1) =~= before.take(i).push(item@));
                before.take(i).lemma_filter_push(item@, pending());
            }
            let ghost kept = item_views(self.items@);
            if !item.completed {
                self.items.push(item);
                assert(item_views(self.items@) =~= kept.push(item@));
            }
        }
        assert(before.take(before.len() as int) =~= before);
    }

    /// The items that a client is shown, each with its place in the list.
    pub fn visible_items(&self) -> (rows: Vec<(usize, Item)>)
        ensures
            row_views(rows@) == self@.visible(),
    {
        let mut rows: Vec<(usize, Item)> = Vec::new();
        let ghost all = numbered(self@.items);
        let mut i: usize = 0;
        while i < self.items.len()
            invariant
                i <= self.items.len(),
                all == numbered(self@.items),
                row_views(rows@) == all.take(i as int).filter(shown(self.show_completed)),
            decreases self.items.len() - i,
        {
            let ghost found = row_views(rows@);
            proof {
                let row = (i as int, self.items[i as int]@);
                assert(all.take(i + 1) =~= all.take(i as int).push(row));
                all.take(i as int).lemma_filter_push(row, shown(self.show_completed));
            }
            if self.show_completed || !self.items[i].completed {
                rows.push((i, self.items[i].clone()));
                assert(row_views(rows@) =~= found.push((i as int, self.items[i as int]@)));
            }
            i += 1;
        }
        assert(all.take(self.items.len() as int) =~= all);
        rows
    }

    /// Flips whether completed items are shown.
    pub fn toggle_show_completed(&mut self)
        ensures
            final(self)@ == old(self)@.visibility_flipped(),
    {
        self.show_completed = !self.show_completed;
    }
}

} // verus!
