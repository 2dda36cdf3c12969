//! The registry: the lists of the service under their ids, in the order in
//! which the ids were first stored.

use crate::models::{GroceryList, ListView};
use crate::text::same_text;
use vstd::prelude::*;

verus! {

/// One list of the registry under its id, as contracts see it.
pub struct EntryView {
    pub id: Seq<char>,
    pub list: ListView,
}

/// Whether place `i` holds the list stored under `id`.
pub open spec fn holds_at(entries: Seq<EntryView>, id: Seq<char>, i: int) -> bool {
    0 <= i < entries.len() && entries[i].id == id
}

/// Whether a list is stored under `id`.
pub open spec fn stores(entries: Seq<EntryView>, id: Seq<char>) -> bool {
    exists|i: int| holds_at(entries, id, i)
}

/// The place of the list stored under `id`, where there is one.
pub open spec fn place_of(entries: Seq<EntryView>, id: Seq<char>) -> int {
    choose|i: int| holds_at(entries, id, i)
}

/// The list stored under `id`, where there is one.
pub open spec fn list_of(entries: Seq<EntryView>, id: Seq<char>) -> ListView {
    entries[place_of(entries, id)].list
}

/// No id stands at two places.
pub open spec fn distinct_ids(entries: Seq<EntryView>) -> bool {
    forall|i: int, j: int|
        0 <= i < j < entries.len() ==> (#[trigger] entries[i]).id != (#[trigger] entries[j]).id
}

/// The registry with `list` in place of the list stored under `id`; the
/// registry itself where nothing is stored under `id`.
pub open spec fn amended(entries: Seq<EntryView>, id: Seq<char>, list: ListView) -> Seq<EntryView> {
    if stores(entries, id) {
        entries.update(place_of(entries, id), EntryView { id, list })
    } else {
        entries
    }
}

/// The registry with `list` stored under `id`: in place of the list that
/// was stored under `id`, at its place, or else behind all others.
pub open spec fn stored(entries: Seq<EntryView>, id: Seq<char>, list: ListView) -> Seq<EntryView> {
    if stores(entries, id) {
        entries.update(place_of(entries, id), EntryView { id, list })
    } else {
        entries.push(EntryView { id, list })
    }
}

/// The registry without the list stored under `id`; the registry itself
/// where nothing is stored under `id`.
pub open spec fn removed(entries: Seq<EntryView>, id: Seq<char>) -> Seq<EntryView> {
    if stores(entries, id) {
        entries.remove(place_of(entries, id))
    } else {
        entries
    }
}

/// The registry that holds the given lists, each stored under its id in
/// turn: of two lists with one id the later one stays, at the place of the
/// first.
pub open spec fn rebuilt(entries: Seq<EntryView>) -> Seq<EntryView>
    decreases entries.len(),
{
    if entries.len() == 0 {
        Seq::empty()
    } else {
        stored(rebuilt(entries.drop_last()), entries.last().id, entries.last().list)
    }
}

/// The views of ids with their lists, in order.
pub open spec fn pair_views(pairs: Seq<(String, GroceryList)>) -> Seq<EntryView> {
    Seq::new(pairs.len(), |i: int| EntryView { id: pairs[i].0@, list: pairs[i].1@ })
}

/// Where the ids are distinct, the place that holds an id is its place.
pub proof fn lemma_place(entries: Seq<EntryView>, id: Seq<char>, i: int)
    requires
        distinct_ids(entries),
        holds_at(entries, id, i),
    ensures
        stores(entries, id),
        place_of(entries, id) == i,
        list_of(entries, id) == entries[i].list,
{
    let j = place_of(entries, id);
    assert(holds_at(entries, id, j));
    if i < j {
        assert(entries[i].id != entries[j].id);
    } else if j < i {
        assert(entries[j].id != entries[i].id);
    }
}

/// Putting another list in place of a stored one keeps the ids, their
/// places and their distinctness, and the new list is then the one stored
/// under the id.
pub proof fn lemma_amended(entries: Seq<EntryView>, id: Seq<char>, list: ListView)
    requires
        distinct_ids(entries),
        stores(entries, id),
    ensures
        distinct_ids(amended(entries, id, list)),
        amended(entries, id, list).len() == entries.len(),
        stores(amended(entries, id, list), id),
        place_of(amended(entries, id, list), id) == place_of(entries, id),
        list_of(amended(entries, id, list), id) == list,
{
    let after = amended(entries, id, list);
    let at = place_of(entries, id);
    assert(holds_at(entries, id, at));
    assert forall|i: int, j: int| 0 <= i < j < after.len() implies (#[trigger] after[i]).id != (
    #[trigger] after[j]).id by {
        assert(after[i].id == entries[i].id && after[j].id == entries[j].id);
    }
    assert(holds_at(after, id, at));
    lemma_place(after, id, at);
}

/// Storing a list under an id keeps the ids distinct.
pub proof fn lemma_stored_distinct(entries: Seq<EntryView>, id: Seq<char>, list: ListView)
    requires
        distinct_ids(entries),
    ensures
        distinct_ids(stored(entries, id, list)),
{
    let after = stored(entries, id, list);
    assert forall|i: int, j: int| 0 <= i < j < after.len() implies (#[trigger] after[i]).id != (
    #[trigger] after[j]).id by {
        if stores(entries, id) {
            assert(after[i].id == entries[i].id && after[j].id == entries[j].id);
        } else {
            if j == entries.len() {
                assert(!holds_at(entries, id, i));
                assert(after[i] == entries[i]);
            } else {
                assert(after[i] == entries[i] && after[j] == entries[j]);
            }
        }
    }
}

/// The lists of the service, each under its id.
#[derive(Debug, PartialEq, Eq)]
pub struct Registry {
    ids: Vec<String>,
    lists: Vec<GroceryList>,
}

impl View for Registry {
    type V = Seq<EntryView>;

    closed spec fn view(&self) -> Seq<EntryView> {
        Seq::new(self.ids.len() as nat, |i: int| EntryView { id: self.ids[i]@, list: self.lists[i]@ })
    }
}

impl Registry {
    /// What holds of every registry: each id has its list at the same
    /// place, and no id stands twice.
    #[verifier::type_invariant]
    pub closed spec fn inv(&self) -> bool {
        &&& self.ids.len() == self.lists.len()
        &&& forall|i: int, j: int|
            0 <= i < j < self.ids.len() ==> (#[trigger] self.ids[i])@ != (#[trigger] self.ids[j])@
    }

    /// No id is stored twice.
    pub proof fn lemma_distinct(&self)
        requires
            self.inv(),
        ensures
            distinct_ids(self@),
    {
    }

    /// A registry without lists.
    pub fn new() -> (registry: Registry)
        ensures
            registry@ == Seq::<EntryView>::empty(),
    {
        let registry = Registry { ids: Vec::new(), lists: Vec::new() };
        assert(registry@ =~= Seq::<EntryView>::empty());
        registry
    }

    /// The registry that holds the given lists, each stored under its id
    /// in turn.
    pub fn from_entries(pairs: Vec<(String, GroceryList)>) -> (registry: Registry)
        ensures
            registry@ == rebuilt(pair_views(pairs@)),
    {
        let mut registry = Registry::new();
        let ghost all = pair_views(pairs@);
        for pair in it: pairs
            invariant
                pair_views(it.seq()) == all,
                registry@ == rebuilt(all.take(it.index())),
        {
            proof {
                let i = it.index();
                assert(all.take(i + 1).drop_last() =~= all.take(i));
                assert(all.take(i + 1).last() == (EntryView { id: pair.0@, list: pair.1@ }));
            }
            registry.insert(pair.0, pair.1);
        }
        assert(all.take(all.len() as int) =~= all);
        registry
    }

    /// How many lists are stored.
    pub fn len(&self) -> (n: usize)
        ensures
            n == self@.len(),
    {
        self.ids.len()
    }

    /// Whether no list is stored.
    pub fn is_empty(&self) -> (empty: bool)
        ensures
            empty == (self@.len() == 0),
    {
        self.ids.len() == 0
    }

    /// Whether a list is stored under `id`.
    pub fn contains(&self, id: &str) -> (found: bool)
        ensures
            found == stores(self@, id@),
    {
        self.find(id).is_some()
    }

    /// The list stored under `id`.
    pub fn get(&self, id: &str) -> (found: Option<&GroceryList>)
        ensures
            found.is_some() == stores(self@, id@),
            found.is_some() ==> found.unwrap()@ == list_of(self@, id@),
    {
        match self.find(id) {
            Some(i) => Some(&self.lists[i]),
            None => None,
        }
    }

    /// The id and the list at place `i` of the registry, if `i` is a place
    /// of it.
    pub fn entry_at(&self, i: usize) -> (found: Option<(&String, &GroceryList)>)
        ensures
            found.is_some() == (i < self@.len()),
            found.is_some() ==> self@[i as int] == (EntryView {
                id: found.unwrap().0@,
                list: found.unwrap().1@,
            }),
    {
        proof {
            use_type_invariant(self);
        }
        if i < self.ids.len() {
            Some((&self.ids[i], &self.lists[i]))
        } else {
            None
        }
    }

    /// The ids with their lists, in the order of the registry.
    pub fn get_all(&self) -> (pairs: Vec<(String, GroceryList)>)
        ensures
            pair_views(pairs@) == self@,
    {
        proof {
            use_type_invariant(self);
        }
        let mut pairs: Vec<(String, GroceryList)> = Vec::new();
        let mut i: usize = 0;
        while i < self.ids.len()
            invariant
                self.inv(),
                i <= self.ids.len(),
                pairs.len() == i,
                forall|k: int| 0 <= k < i ==> pair_views(pairs@)[k] == self@[k],
            decreases self.ids.len() - i,
        {
            pairs.push((self.ids[i].clone(), self.lists[i].clone()));
            i += 1;
        }
        assert(pair_views(pairs@) =~= self@);
        pairs
    }

    /// Stores `list` under `id`: in place of the list that was stored under
    /// `id`, or else behind all others.
    pub fn insert(&mut self, id: String, list: GroceryList)
        ensures
            final(self)@ == stored(old(self)@, id@, list@),
    {
        match self.find(id.as_str()) {
            Some(i) => {
                self.lists[i] = list;
                assert(self@ =~= stored(old(self)@, id@, list@));
            },
            None => {
                assert forall|k: int| 0 <= k < self.ids.len() implies (#[trigger] self.ids[k])@
                    != id@ by {
                    assert(!holds_at(self@, id@, k));
                }
                let mut taken = Registry::new();
                std::mem::swap(self, &mut taken);
                let Registry { mut ids, mut lists } = taken;
                ids.push(id);
                lists.push(list);
                *self = Registry { ids, lists };
                assert(self@ =~= stored(old(self)@, id@, list@));
            },
        }
    }

    /// Takes out the list stored under `id`, if there is one, and hands it
    /// back.
    pub fn remove(&mut self, id: &str) -> (taken: Option<GroceryList>)
        ensures
            final(self)@ == removed(old(self)@, id@),
            taken.is_some() == stores(old(self)@, id@),
            taken.is_some() ==> taken.unwrap()@ == list_of(old(self)@, id@),
    {
        match self.find(id) {
            Some(i) => {
                let mut taken = Registry::new();
                std::mem::swap(self, &mut taken);
                let Registry { mut ids, mut lists } = taken;
                let _ = ids.remove(i);
                let list = lists.remove(i);
                *self = Registry { ids, lists };
                assert(self@ =~= removed(old(self)@, id@));
                Some(list)
            },
            None => None,
        }
    }

    /// The place of the list stored under `id`.
    fn find(&self, id: &str) -> (found: Option<usize>)
        ensures
            self.inv(),
            found.is_some() == stores(self@, id@),
            found.is_some() ==> holds_at(self@, id@, found.unwrap() as int),
            found.is_some() ==> place_of(self@, id@) == found.unwrap(),
    {
        proof {
            use_type_invariant(self);
        }
        let mut i: usize = 0;
        while i < self.ids.len()
            invariant
                self.inv(),
                i <= self.ids.len(),
                forall|k: int| 0 <= k < i ==> !holds_at(self@, id@, k),
            decreases self.ids.len() - i,
        {
            if same_text(self.ids[i].as_str(), id) {
                assert(holds_at(self@, id@, i as int));
                return Some(i);
            }
            i += 1;
        }
        None
    }

    /// The list stored under `id`, to be changed in place.
    pub fn get_mut(&mut self, id: &str) -> (found: Option<&mut GroceryList>)
        ensures
            found.is_some() == stores(old(self)@, id@),
            found.is_some() ==> found.unwrap()@ == list_of(old(self)@, id@),
            found.is_some() ==> final(self)@ == amended(old(self)@, id@, final(found.unwrap())@),
            found.is_none() ==> final(self)@ == old(self)@,
    {
        match self.find(id) {
            Some(i) => {
                let list = &mut self.lists[i];
                Some(list)
            },
            None => None,
        }
    }
}

} // verus!
