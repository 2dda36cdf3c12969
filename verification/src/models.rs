//! The data held by the service: items, lists, and the forms that carry
//! client input, each with its mathematical view.

use vstd::prelude::*;

verus! {

/// One entry of a list.
#[derive(Debug, PartialEq, Eq)]
pub struct Item {
    pub name: String,
    pub completed: bool,
}

/// What an [`Item`] is to a contract: its name as a sequence of characters,
/// and whether it is completed.
pub struct ItemView {
    pub name: Seq<char>,
    pub completed: bool,
}

impl View for Item {
    type V = ItemView;

    open spec fn view(&self) -> ItemView {
        ItemView { name: self.name@, completed: self.completed }
    }
}

impl Clone for Item {
    fn clone(&self) -> (copy: Self)
        ensures
            copy@ == self@,
    {
        Item { name: self.name.clone(), completed: self.completed }
    }
}

/// A named list of items, with the flag that says whether completed items
/// are shown.
#[derive(Debug, PartialEq, Eq)]
pub struct GroceryList {
    pub name: String,
    pub items: Vec<Item>,
    pub show_completed: bool,
}

/// What a [`GroceryList`] is to a contract.
pub struct ListView {
    pub name: Seq<char>,
    pub items: Seq<ItemView>,
    pub show_completed: bool,
}

/// The views of a run of items, in order.
pub open spec fn item_views(items: Seq<Item>) -> Seq<ItemView> {
    Seq::new(items.len(), |i: int| items[i]@)
}

impl View for GroceryList {
    type V = ListView;

    open spec fn view(&self) -> ListView {
        ListView {
            name: self.name@,
            items: item_views(self.items@),
            show_completed: self.show_completed,
        }
    }
}

impl Clone for GroceryList {
    fn clone(&self) -> (copy: Self)
        ensures
            copy@ == self@,
    {
        let mut items: Vec<Item> = Vec::new();
        let mut i: usize = 0;
        while i < self.items.len()
            invariant
                i <= self.items.len(),
                items.len() == i,
                forall|k: int| 0 <= k < i ==> items[k]@ == self.items[k]@,
            decreases self.items.len() - i,
        {
            items.push(self.items[i].clone());
            i += 1;
        }
        assert(item_views(items@) =~= item_views(self.items@));
        GroceryList { name: self.name.clone(), items, show_completed: self.show_completed }
    }
}

/// The body of a request that creates a list.
#[derive(Debug, PartialEq, Eq)]
pub struct CreateForm {
    pub name: String,
}

/// The body of a request that adds an item or renames one.
#[derive(Debug, PartialEq, Eq)]
pub struct AddItemForm {
    pub item: String,
}

} // verus!
