//! The two ends of the durable store: what is written when the registry is
//! saved, and the registry that a start begins with.

use crate::laws::lemma_saved_then_loaded;
use crate::models::GroceryList;
use crate::registry::{pair_views, rebuilt, EntryView, Registry};
use vstd::prelude::*;

verus! {

/// The registry that a start begins with: the lists that were read, each
/// stored under its id in turn, or no lists where nothing could be read.
pub open spec fn loaded(read: Option<Vec<(String, GroceryList)>>) -> Seq<EntryView> {
    match read {
        Some(pairs) => rebuilt(pair_views(pairs@)),
        None => Seq::empty(),
    }
}

/// The registry at start: the lists that were read from the store, each
/// under its id, or no lists where the store was missing or could not be
/// read.
pub fn load_data(read: Option<Vec<(String, GroceryList)>>) -> (registry: Registry)
    ensures
        registry@ == loaded(read),
{
    match read {
        Some(pairs) => Registry::from_entries(pairs),
        None => Registry::new(),
    }
}

/// What is written when the registry is saved: every id with its list, as
/// the registry holds them at the time of the call.
pub fn save_data(registry: &Registry) -> (snapshot: Vec<(String, GroceryList)>)
    ensures
        pair_views(snapshot@) == registry@,
{
    registry.get_all()
}

/// Loads what was just saved: the registry that comes back is the one that
/// was saved.
pub fn reload(registry: &Registry) -> (restored: Registry)
    ensures
        restored@ == registry@,
{
    let snapshot = save_data(registry);
    proof {
        use_type_invariant(registry);
        registry.lemma_distinct();
        lemma_saved_then_loaded(registry@);
    }
    load_data(Some(snapshot))
}

} // verus!
