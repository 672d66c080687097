//! The directory's list of all collections, whatever provider they belong to.

use crate::collection::Collection;
use crate::container::{texts, ItemsChanged, ObservableContainer};
use vstd::prelude::*;

verus! {

/// The URIs of a sequence of collections.
pub open spec fn uris_of(collections: Seq<Collection>) -> Seq<Seq<char>> {
    Seq::new(collections.len(), |i: int| collections[i]@.uri)
}

/// The handles of all collections, in the order in which they were added.
#[derive(Debug)]
pub struct CollectionsModel {
    collections: ObservableContainer,
}

impl View for CollectionsModel {
    type V = Seq<Seq<char>>;

    closed spec fn view(&self) -> Seq<Seq<char>> {
        self.collections@
    }
}

impl CollectionsModel {
    /// An empty list.
    pub fn new() -> (model: CollectionsModel)
        ensures
            model@ == Seq::<Seq<char>>::empty(),
    {
        CollectionsModel { collections: ObservableContainer::new() }
    }

    /// The number of collections in the list.
    pub fn n_items(&self) -> (n: usize)
        ensures
            n == self@.len(),
    {
        self.collections.n_items()
    }

    /// The handle at `position`, if the list is that long.
    pub fn item(&self, position: usize) -> (item: Option<&String>)
        ensures
            position < self@.len() ==> item.is_some() && item.unwrap()@ == self@[position as int],
            position >= self@.len() ==> item.is_none(),
    {
        self.collections.item(position)
    }

    /// Adds the handle of `collection` at the end.
    pub fn append(&mut self, collection: &Collection) -> (change: ItemsChanged)
        ensures
            final(self)@ == old(self)@.push(collection@.uri),
            change == (ItemsChanged { position: old(self)@.len() as usize, removed: 0, added: 1 }),
    {
        self.collections.append(collection.uri().to_owned())
    }

    /// Adds the handles of all of `collections` at the end, in their order,
    /// as one change.
    pub fn splice(&mut self, collections: &Vec<Collection>) -> (change: ItemsChanged)
        ensures
            final(self)@ == old(self)@ + uris_of(collections@),
            change == (ItemsChanged {
                position: old(self)@.len() as usize,
                removed: 0,
                added: collections@.len() as usize,
            }),
    {
        let mut uris: Vec<String> = Vec::new();
        let mut i: usize = 0;
        while i < collections.len()
            invariant
                i <= collections@.len(),
                uris@.len() == i,
                forall|j: int| 0 <= j < i ==> uris@[j]@ == collections@[j]@.uri,
            decreases collections@.len() - i,
        {
            uris.push(collections[i].uri().to_owned());
            i += 1;
        }
        assert(texts(uris@) =~= uris_of(collections@));
        self.collections.splice(uris)
    }

    /// Takes out the handle at `position`.
    pub fn remove(&mut self, position: usize) -> (change: ItemsChanged)
        requires
            position < old(self)@.len(),
        ensures
            final(self)@ == old(self)@.remove(position as int),
            change == (ItemsChanged { position, removed: 1, added: 0 }),
    {
        self.collections.remove(position)
    }

    /// The first position at which `uri` stands in the list.
    pub fn find(&self, uri: &str) -> (position: Option<usize>)
        ensures
            match position {
                Some(p) => self@.index_of_first(uri@) == Some(p as int),
                None => self@.index_of_first(uri@).is_none(),
            },
    {
        self.collections.find(uri)
    }

    /// Takes out the first handle equal to `uri`, if there is one.
    pub fn remove_item(&mut self, uri: &str) -> (change: Option<ItemsChanged>)
        ensures
            final(self)@ == old(self)@.remove_value(uri@),
            match old(self)@.index_of_first(uri@) {
                Some(p) => change == Some(
                    ItemsChanged { position: p as usize, removed: 1, added: 0 },
                ),
                None => change.is_none(),
            },
    {
        self.collections.remove_item(uri)
    }
}

impl Default for CollectionsModel {
    fn default() -> (model: CollectionsModel)
        ensures
            model@ == Seq::<Seq<char>>::empty(),
    {
        CollectionsModel::new()
    }
}

} // verus!
