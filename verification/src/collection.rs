use crate::calendar::Calendar;
use crate::color::Rgba;
use crate::container::{ItemsChanged, ObservableContainer};
use crate::request::{Request, RequestView};
use crate::resource::Property;
use vstd::prelude::*;

verus! {

/// A group of calendars of one provider. It holds the handles of its
/// calendars and names its provider by URI.
#[derive(Debug)]
pub struct Collection {
    uri: String,
    provider_uri: String,
    name: String,
    calendars: ObservableContainer,
}

/// A collection as text values.
pub struct CollectionView {
    pub uri: Seq<char>,
    pub provider_uri: Seq<char>,
    pub name: Seq<char>,
    pub calendars: Seq<Seq<char>>,
}

impl View for Collection {
    type V = CollectionView;

    closed spec fn view(&self) -> CollectionView {
        CollectionView {
            uri: self.uri@,
            provider_uri: self.provider_uri@,
            name: self.name@,
            calendars: self.calendars@,
        }
    }
}

impl Collection {
    /// A collection of the provider `provider_uri`, without calendars.
    pub fn new(provider_uri: &str, uri: &str, name: &str) -> (collection: Collection)
        ensures
            collection@ == (CollectionView {
                uri: uri@,
                provider_uri: provider_uri@,
                name: name@,
                calendars: Seq::<Seq<char>>::empty(),
            }),
    {
        Collection {
            uri: uri.to_owned(),
            provider_uri: provider_uri.to_owned(),
            name: name.to_owned(),
            calendars: ObservableContainer::new(),
        }
    }

    pub fn uri(&self) -> (uri: &str)
        ensures
            uri@ == self@.uri,
    {
        self.uri.as_str()
    }

    /// The URI of the provider that the collection belongs to.
    pub fn provider_uri(&self) -> (uri: &str)
        ensures
            uri@ == self@.provider_uri,
    {
        self.provider_uri.as_str()
    }

    pub fn name(&self) -> (name: &str)
        ensures
            name@ == self@.name,
    {
        self.name.as_str()
    }

    /// The handles of the collection's calendars.
    pub fn calendars(&self) -> (calendars: &ObservableContainer)
        ensures
            calendars@ == self@.calendars,
    {
        &self.calendars
    }

    /// Takes the name that the backend reports. The result names what
    /// changed: nothing where the collection bears that name already.
    pub fn emit_updated(&mut self, name: &str) -> (changed: Vec<Property>)
        ensures
            final(self)@ == (CollectionView { name: name@, ..old(self)@ }),
            changed@ == if old(self)@.name == name@ {
                Seq::<Property>::empty()
            } else {
                seq![Property::Name]
            },
    {
        let mut changed: Vec<Property> = Vec::new();
        let reported = name.to_owned();
        if self.name != reported {
            self.name = reported;
            changed.push(Property::Name);
        }
        changed
    }

    /// Adds the handle of `calendar` at the end of the collection's list.
    pub fn add_calendar(&mut self, calendar: &Calendar) -> (change: ItemsChanged)
        ensures
            final(self)@ == (CollectionView {
                calendars: old(self)@.calendars.push(calendar@.uri),
                ..old(self)@
            }),
            change == (ItemsChanged {
                position: old(self)@.calendars.len() as usize,
                removed: 0,
                added: 1,
            }),
    {
        self.calendars.append(calendar.uri().to_owned())
    }

    /// Takes the handle `uri` out of the collection's list, as is due when
    /// that calendar is deleted. The result is `None` where the list does not
    /// hold it.
    pub fn remove_calendar(&mut self, uri: &str) -> (change: Option<ItemsChanged>)
        ensures
            final(self)@ == (CollectionView {
                calendars: old(self)@.calendars.remove_value(uri@),
                ..old(self)@
            }),
            match old(self)@.calendars.index_of_first(uri@) {
                Some(p) => change == Some(
                    ItemsChanged { position: p as usize, removed: 1, added: 0 },
                ),
                None => change.is_none(),
            },
    {
        self.calendars.remove_item(uri)
    }

    /// The request to create a calendar in this collection.
    pub fn create_calendar(&self, name: &str, color: Rgba) -> (request: Request)
        ensures
            request@ == (RequestView::CreateCalendar {
                collection_uri: self@.uri,
                name: name@,
                color,
            }),
    {
        Request::CreateCalendar {
            collection_uri: self.uri.clone(),
            name: name.to_owned(),
            color,
        }
    }
}

impl Clone for Collection {
    fn clone(&self) -> (copy: Collection)
        ensures
            copy@ == self@,
    {
        Collection {
            uri: self.uri.clone(),
            provider_uri: self.provider_uri.clone(),
            name: self.name.clone(),
            calendars: self.calendars.clone(),
        }
    }
}

} // verus!
