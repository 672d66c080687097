use crate::collection::Collection;
use crate::container::{ItemsChanged, ObservableContainer};
use crate::resource::Property;
use vstd::prelude::*;

verus! {

/// The root of one account at the backend. It holds the handles of its
/// collections.
#[derive(Debug)]
pub struct Provider {
    uri: String,
    name: String,
    collections: ObservableContainer,
}

/// A provider as text values.
pub struct ProviderView {
    pub uri: Seq<char>,
    pub name: Seq<char>,
    pub collections: Seq<Seq<char>>,
}

impl View for Provider {
    type V = ProviderView;

    closed spec fn view(&self) -> ProviderView {
        ProviderView { uri: self.uri@, name: self.name@, collections: self.collections@ }
    }
}

impl Provider {
    /// A provider without collections.
    pub fn new(uri: &str, name: &str) -> (provider: Provider)
        ensures
            provider@ == (ProviderView {
                uri: uri@,
                name: name@,
                collections: Seq::<Seq<char>>::empty(),
            }),
    {
        Provider {
            uri: uri.to_owned(),
            name: name.to_owned(),
            collections: ObservableContainer::new(),
        }
    }

    pub fn uri(&self) -> (uri: &str)
        ensures
            uri@ == self@.uri,
    {
        self.uri.as_str()
    }

    pub fn name(&self) -> (name: &str)
        ensures
            name@ == self@.name,
    {
        self.name.as_str()
    }

    /// The handles of the provider's collections.
    pub fn collections(&self) -> (collections: &ObservableContainer)
        ensures
            collections@ == self@.collections,
    {
        &self.collections
    }

    /// Takes the name that the backend reports. The result names what
    /// changed: nothing where the provider bears that name already.
    pub fn emit_updated(&mut self, name: &str) -> (changed: Vec<Property>)
        ensures
            final(self)@ == (ProviderView { name: name@, ..old(self)@ }),
            changed@ == if old(self)@.name == name@ {
                Seq::<Property>::empty()
            } else {
                seq![Property::Name]
            },
    {
        let mut changed: Vec<Property> = Vec::new();
        let reported = name.to_owned();
        if self.name != reported {
            self.name = reported;
            changed.push(Property::Name);
        }
        changed
    }

    /// Adds the handle of `collection` at the end of the provider's list.
    pub fn add_collection(&mut self, collection: &Collection) -> (change: ItemsChanged)
        ensures
            final(self)@ == (ProviderView {
                collections: old(self)@.collections.push(collection@.uri),
                ..old(self)@
            }),
            change == (ItemsChanged {
                position: old(self)@.collections.len() as usize,
                removed: 0,
                added: 1,
            }),
    {
        self.collections.append(collection.uri().to_owned())
    }

    /// Takes the handle `uri` out of the provider's list, as is due when that
    /// collection is deleted. The result is `None` where the list does not
    /// hold it.
    pub fn remove_collection(&mut self, uri: &str) -> (change: Option<ItemsChanged>)
        ensures
            final(self)@ == (ProviderView {
                collections: old(self)@.collections.remove_value(uri@),
                ..old(self)@
            }),
            match old(self)@.collections.index_of_first(uri@) {
                Some(p) => change == Some(
                    ItemsChanged { position: p as usize, removed: 1, added: 0 },
                ),
                None => change.is_none(),
            },
    {
        self.collections.remove_item(uri)
    }
}

impl Clone for Provider {
    fn clone(&self) -> (copy: Provider)
        ensures
            copy@ == self@,
    {
        Provider {
            uri: self.uri.clone(),
            name: self.name.clone(),
            collections: self.collections.clone(),
        }
    }
}

} // verus!
