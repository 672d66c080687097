//! An ordered list of resource handles that reports every change as a
//! position and two counts.

use vstd::prelude::*;

verus! {

/// The report of one change to a list: at `position`, `removed` items went
/// and `added` items came.
#[derive(Clone, Copy, Debug, PartialEq, Eq, Structural)]
pub struct ItemsChanged {
    pub position: usize,
    pub removed: usize,
    pub added: usize,
}

/// The texts of a sequence of strings.
pub open spec fn texts(strings: Seq<String>) -> Seq<Seq<char>> {
    Seq::new(strings.len(), |i: int| strings[i]@)
}

/// The handles of the resources of one kind that a resource holds, in order.
/// A handle is the URI of the resource.
#[derive(Debug)]
pub struct ObservableContainer {
    items: Vec<String>,
}

impl View for ObservableContainer {
    type V = Seq<Seq<char>>;

    closed spec fn view(&self) -> Seq<Seq<char>> {
        texts(self.items@)
    }
}

impl ObservableContainer {
    /// An empty list.
    pub fn new() -> (list: ObservableContainer)
        ensures
            list@ == Seq::<Seq<char>>::empty(),
    {
        let list = ObservableContainer { items: Vec::new() };
        assert(list@ =~= Seq::<Seq<char>>::empty());
        list
    }

    /// The number of handles in the list.
    pub fn n_items(&self) -> (n: usize)
        ensures
            n == self@.len(),
    {
        self.items.len()
    }

    /// The handle at `position`, if the list is that long.
    pub fn item(&self, position: usize) -> (item: Option<&String>)
        ensures
            position < self@.len() ==> item.is_some() && item.unwrap()@ == self@[position as int],
            position >= self@.len() ==> item.is_none(),
    {
        if position < self.items.len() {
            Some(&self.items[position])
        } else {
            None
        }
    }

    /// Adds `uri` at the end.
    pub fn append(&mut self, uri: String) -> (change: ItemsChanged)
        ensures
            final(self)@ == old(self)@.push(uri@),
            change == (ItemsChanged { position: old(self)@.len() as usize, removed: 0, added: 1 }),
    {
        let position = self.items.len();
        self.items.push(uri);
        assert(self@ =~= old(self)@.push(uri@));
        ItemsChanged { position, removed: 0, added: 1 }
    }

    /// Adds all of `uris` at the end, in their order, as one change.
    pub fn splice(&mut self, uris: Vec<String>) -> (change: ItemsChanged)
        ensures
            final(self)@ == old(self)@ + texts(uris@),
            change == (ItemsChanged {
                position: old(self)@.len() as usize,
                removed: 0,
                added: uris@.len() as usize,
            }),
    {
        let position = self.items.len();
        let added = uris.len();
        let mut rest = uris;
        let ghost added_texts = texts(rest@);
        self.items.append(&mut rest);
        assert(self@ =~= old(self)@ + added_texts);
        ItemsChanged { position, removed: 0, added }
    }

    /// Takes out the handle at `position`.
    pub fn remove(&mut self, position: usize) -> (change: ItemsChanged)
        requires
            position < old(self)@.len(),
        ensures
            final(self)@ == old(self)@.remove(position as int),
            change == (ItemsChanged { position, removed: 1, added: 0 }),
    {
        let _ = self.items.remove(position);
        assert(self@ =~= old(self)@.remove(position as int));
        ItemsChanged { position, removed: 1, added: 0 }
    }

    /// The first position at which `uri` stands in the list.
    pub fn find(&self, uri: &str) -> (position: Option<usize>)
        ensures
            match position {
                Some(p) => self@.index_of_first(uri@) == Some(p as int),
                None => self@.index_of_first(uri@).is_none(),
            },
    {
        let wanted = uri.to_owned();
        let mut i: usize = 0;
        while i < self.items.len()
            invariant
                i <= self.items@.len(),
                wanted@ == uri@,
                forall|j: int| 0 <= j < i ==> self@[j] != uri@,
            decreases self.items@.len() - i,
        {
            if self.items[i] == wanted {
                proof {
                    assert(self@[i as int] == uri@);
                    self@.index_of_first_ensures(uri@);
                }
                return Some(i);
            }
            i += 1;
        }
        proof {
            self@.index_of_first_ensures(uri@);
        }
        None
    }

    /// Takes out the first handle equal to `uri`, if there is one.
    pub fn remove_item(&mut self, uri: &str) -> (change: Option<ItemsChanged>)
        ensures
            final(self)@ == old(self)@.remove_value(uri@),
            match old(self)@.index_of_first(uri@) {
                Some(p) => change == Some(
                    ItemsChanged { position: p as usize, removed: 1, added: 0 },
                ),
                None => change.is_none(),
            },
    {
        proof {
            self@.index_of_first_ensures(uri@);
        }
        match self.find(uri) {
            Some(position) => Some(self.remove(position)),
            None => None,
        }
    }

    /// A copy of the handles as they stand now, for walking over them while
    /// the list itself changes.
    pub fn snapshot(&self) -> (uris: Vec<String>)
        ensures
            texts(uris@) == self@,
    {
        let mut uris: Vec<String> = Vec::new();
        let mut i: usize = 0;
        while i < self.items.len()
            invariant
                i <= self.items@.len(),
                uris@.len() == i,
                forall|j: int| 0 <= j < i ==> uris@[j]@ == self.items@[j]@,
            decreases self.items@.len() - i,
        {
            uris.push(self.items[i].clone());
            i += 1;
        }
        assert(texts(uris@) =~= self@);
        uris
    }
}

impl Clone for ObservableContainer {
    fn clone(&self) -> (copy: ObservableContainer)
        ensures
            copy@ == self@,
    {
        let items = self.snapshot();
        ObservableContainer { items }
    }
}

} // verus!
