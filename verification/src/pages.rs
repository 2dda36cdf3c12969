//! What a client is shown: the lists of the registry in brief, and one list
//! with the items that are visible.

use crate::list::row_views;
use crate::models::{Item, ItemView, ListView};
use crate::registry::{list_of, stores, EntryView, Registry};
use vstd::prelude::*;

verus! {

/// A list in brief: its id, its name, and how many items it holds, hidden
/// ones included.
#[derive(Debug, PartialEq, Eq)]
pub struct ListSummary {
    pub id: String,
    pub name: String,
    pub item_count: usize,
}

/// What a [`ListSummary`] is to a contract.
pub struct SummaryView {
    pub id: Seq<char>,
    pub name: Seq<char>,
    pub item_count: nat,
}

impl View for ListSummary {
    type V = SummaryView;

    open spec fn view(&self) -> SummaryView {
        SummaryView { id: self.id@, name: self.name@, item_count: self.item_count as nat }
    }
}

/// The views of a run of summaries, in order.
pub open spec fn summary_views(summaries: Seq<ListSummary>) -> Seq<SummaryView> {
    Seq::new(summaries.len(), |i: int| summaries[i]@)
}

/// The summary of one stored list.
pub open spec fn summary_of(entry: EntryView) -> SummaryView {
    SummaryView { id: entry.id, name: entry.list.name, item_count: entry.list.items.len() }
}

/// The summaries of the stored lists, in the order of the registry.
pub open spec fn summaries_of(entries: Seq<EntryView>) -> Seq<SummaryView> {
    Seq::new(entries.len(), |i: int| summary_of(entries[i]))
}

/// The lists of the registry in brief, in its order.
pub fn lists_view(registry: &Registry) -> (summaries: Vec<ListSummary>)
    ensures
        summary_views(summaries@) == summaries_of(registry@),
{
    let mut summaries: Vec<ListSummary> = Vec::new();
    let n = registry.len();
    let mut i: usize = 0;
    while i < n
        invariant
            n == registry@.len(),
            i <= n,
            summaries.len() == i,
            forall|k: int| 0 <= k < i ==> summaries[k]@ == summary_of(registry@[k]),
        decreases n - i,
    {
        if let Some((id, list)) = registry.entry_at(i) {
            summaries.push(
                ListSummary { id: id.clone(), name: list.name.clone(), item_count: list.items.len() },
            );
        }
        i += 1;
    }
    assert(summary_views(summaries@) =~= summaries_of(registry@));
    summaries
}

/// The first page: a note that there is no list yet, or the lists in
/// brief.
#[derive(Debug, PartialEq, Eq)]
pub enum HomePage {
    Empty,
    Lists(Vec<ListSummary>),
}

/// The first page for the registry: `Empty` where it holds no list, else
/// its lists in brief.
pub fn home(registry: &Registry) -> (page: HomePage)
    ensures
        registry@.len() == 0 ==> page == HomePage::Empty,
        registry@.len() > 0 ==> (page matches HomePage::Lists(summaries) && summary_views(
            summaries@,
        ) == summaries_of(registry@)),
{
    if registry.is_empty() {
        HomePage::Empty
    } else {
        HomePage::Lists(lists_view(registry))
    }
}

/// The page of one list: its name, whether completed items are shown, and
/// the visible items, each with its place in the stored list.
#[derive(Debug, PartialEq, Eq)]
pub struct ListPage {
    pub name: String,
    pub show_completed: bool,
    pub rows: Vec<(usize, Item)>,
}

/// What a [`ListPage`] is to a contract.
pub struct ListPageView {
    pub name: Seq<char>,
    pub show_completed: bool,
    pub rows: Seq<(int, ItemView)>,
}

impl View for ListPage {
    type V = ListPageView;

    open spec fn view(&self) -> ListPageView {
        ListPageView {
            name: self.name@,
            show_completed: self.show_completed,
            rows: row_views(self.rows@),
        }
    }
}

/// The page that shows a list.
pub open spec fn page_of(list: ListView) -> ListPageView {
    ListPageView { name: list.name, show_completed: list.show_completed, rows: list.visible() }
}

/// The page of the list stored under `id`, or `None` where nothing is
/// stored under `id`.
pub fn view_list(registry: &Registry, id: &str) -> (page: Option<ListPage>)
    ensures
        page.is_some() == stores(registry@, id@),
        page.is_some() ==> page.unwrap()@ == page_of(list_of(registry@, id@)),
{
    match registry.get(id) {
        Some(list) => Some(
            ListPage {
                name: list.name.clone(),
                show_completed: list.show_completed,
                rows: list.visible_items(),
            },
        ),
        None => None,
    }
}

} // verus!
