//! The operations of the service. Each changes the registry in one step;
//! one that names an id under which nothing is stored, or a place that
//! holds no item, changes nothing.

use crate::models::{AddItemForm, CreateForm, GroceryList, ListView};
use crate::registry::{amended, list_of, removed, stored, stores, EntryView, Registry};
use crate::text::{slug_of, slugify};
use vstd::prelude::*;

verus! {

/// A list as it is created: the given name, no items, completed items
/// shown.
pub open spec fn new_list(name: Seq<char>) -> ListView {
    ListView { name, items: Seq::empty(), show_completed: true }
}

/// The registry after a list of the given name was created.
pub open spec fn list_created(entries: Seq<EntryView>, name: Seq<char>) -> Seq<EntryView> {
    stored(entries, slug_of(name), new_list(name))
}

/// The registry after an item of the given name was added to the list
/// stored under `id`.
pub open spec fn item_added(entries: Seq<EntryView>, id: Seq<char>, text: Seq<char>) -> Seq<
    EntryView,
> {
    amended(entries, id, list_of(entries, id).with_item(text))
}

/// The registry after the item at place `idx` of the list stored under
/// `id` was renamed.
pub open spec fn item_edited(
    entries: Seq<EntryView>,
    id: Seq<char>,
    idx: int,
    text: Seq<char>,
) -> Seq<EntryView> {
    amended(entries, id, list_of(entries, id).renamed(idx, text))
}

/// The registry after the item at place `idx` of the list stored under
/// `id` was removed.
pub open spec fn item_deleted(entries: Seq<EntryView>, id: Seq<char>, idx: int) -> Seq<EntryView> {
    amended(entries, id, list_of(entries, id).without_item(idx))
}

/// The registry after the completion of the item at place `idx` of the
/// list stored under `id` was flipped.
pub open spec fn item_toggled(entries: Seq<EntryView>, id: Seq<char>, idx: int) -> Seq<EntryView> {
    amended(entries, id, list_of(entries, id).toggled(idx))
}

/// The registry after the visibility flag of the list stored under `id`
/// was flipped.
pub open spec fn visibility_toggled(entries: Seq<EntryView>, id: Seq<char>) -> Seq<EntryView> {
    amended(entries, id, list_of(entries, id).visibility_flipped())
}

/// The registry after the completed items of the list stored under `id`
/// were removed.
pub open spec fn completed_deleted(entries: Seq<EntryView>, id: Seq<char>) -> Seq<EntryView> {
    amended(entries, id, list_of(entries, id).without_completed())
}

/// The registry after the items of the list stored under `id` were sorted
/// by name without regard to case.
pub open spec fn list_sorted(entries: Seq<EntryView>, id: Seq<char>) -> Seq<EntryView> {
    amended(entries, id, list_of(entries, id).sorted())
}

/// Creates an empty list of the name in `form` and stores it under the id
/// derived from the name, which is returned. A list that was stored under
/// that id is replaced.
pub fn create_list(registry: &mut Registry, form: CreateForm) -> (id: String)
    ensures
        id@ == slug_of(form.name@),
        final(registry)@ == list_created(old(registry)@, form.name@),
{
    let id = slugify(form.name.as_str());
    let list = GroceryList::new(form.name);
    registry.insert(id.clone(), list);
    id
}

/// Appends the item named in `form`, not completed, to the list stored
/// under `id`.
pub fn add_item(registry: &mut Registry, id: &str, form: AddItemForm)
    ensures
        final(registry)@ == item_added(old(registry)@, id@, form.item@),
        !stores(old(registry)@, id@) ==> final(registry)@ == old(registry)@,
{
    if let Some(list) = registry.get_mut(id) {
        list.push_item(form.item);
    }
}

/// Gives the item at place `idx` of the list stored under `id` the name in
/// `form`.
pub fn edit_item(registry: &mut Registry, id: &str, idx: usize, form: AddItemForm)
    ensures
        final(registry)@ == item_edited(old(registry)@, id@, idx as int, form.item@),
        !stores(old(registry)@, id@) ==> final(registry)@ == old(registry)@,
{
    if let Some(list) = registry.get_mut(id) {
        list.rename_item(idx, form.item);
    }
}

/// Removes the item at place `idx` of the list stored under `id`.
pub fn delete_item(registry: &mut Registry, id: &str, idx: usize)
    ensures
        final(registry)@ == item_deleted(old(registry)@, id@, idx as int),
        !stores(old(registry)@, id@) ==> final(registry)@ == old(registry)@,
{
    if let Some(list) = registry.get_mut(id) {
        list.remove_item(idx);
    }
}

/// Flips the completion of the item at place `idx` of the list stored
/// under `id`.
pub fn toggle_item(registry: &mut Registry, id: &str, idx: usize)
    ensures
        final(registry)@ == item_toggled(old(registry)@, id@, idx as int),
        !stores(old(registry)@, id@) ==> final(registry)@ == old(registry)@,
{
    if let Some(list) = registry.get_mut(id) {
        list.toggle_item(idx);
    }
}

/// Flips whether the list stored under `id` shows its completed items.
pub fn toggle_show_completed(registry: &mut Registry, id: &str)
    ensures
        final(registry)@ == visibility_toggled(old(registry)@, id@),
        !stores(old(registry)@, id@) ==> final(registry)@ == old(registry)@,
{
    if let Some(list) = registry.get_mut(id) {
        list.toggle_show_completed();
    }
}

/// Removes the completed items of the list stored under `id`; the others
/// keep their order.
pub fn delete_completed_items(registry: &mut Registry, id: &str)
    ensures
        final(registry)@ == completed_deleted(old(registry)@, id@),
        !stores(old(registry)@, id@) ==> final(registry)@ == old(registry)@,
{
    if let Some(list) = registry.get_mut(id) {
        list.delete_completed();
    }
}

/// Sorts the items of the list stored under `id` by name without regard to
/// case; items whose names are equal but for case keep their order.
pub fn sort_list(registry: &mut Registry, id: &str)
    ensures
        final(registry)@ == list_sorted(old(registry)@, id@),
        !stores(old(registry)@, id@) ==> final(registry)@ == old(registry)@,
{
    if let Some(list) = registry.get_mut(id) {
        list.sort_by_name();
    }
}

/// Removes the list stored under `id` from the registry.
pub fn delete_list(registry: &mut Registry, id: &str)
    ensures
        final(registry)@ == removed(old(registry)@, id@),
        !stores(old(registry)@, id@) ==> final(registry)@ == old(registry)@,
{
    let _ = registry.remove(id);
}

} // verus!
