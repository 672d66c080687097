use crate::color::Rgba;
use crate::container::{ItemsChanged, ObservableContainer};
use crate::event::Event;
use crate::request::{Request, RequestView};
use crate::resource::Property;
use vstd::prelude::*;

verus! {

/// A calendar of one collection. It holds the handles of its events and
/// names its collection by URI.
#[derive(Debug)]
pub struct Calendar {
    uri: String,
    collection_uri: String,
    name: String,
    color: Option<Rgba>,
    events: ObservableContainer,
}

/// A calendar as text values.
pub struct CalendarView {
    pub uri: Seq<char>,
    pub collection_uri: Seq<char>,
    pub name: Seq<char>,
    pub color: Option<Rgba>,
    pub events: Seq<Seq<char>>,
}

impl CalendarView {
    /// What changes when a calendar of this state is told that it has `name`
    /// and `color`: the name if it differs, then the colour if it differs.
    pub open spec fn changes(self, name: Seq<char>, color: Rgba) -> Seq<Property> {
        let first = if self.name == name {
            Seq::<Property>::empty()
        } else {
            seq![Property::Name]
        };
        if self.color == Some(color) {
            first
        } else {
            first.push(Property::Color)
        }
    }
}

impl View for Calendar {
    type V = CalendarView;

    closed spec fn view(&self) -> CalendarView {
        CalendarView {
            uri: self.uri@,
            collection_uri: self.collection_uri@,
            name: self.name@,
            color: self.color,
            events: self.events@,
        }
    }
}

impl Calendar {
    /// A calendar of the collection `collection_uri`, without events.
    pub fn new(collection_uri: &str, uri: &str, name: &str, color: Rgba) -> (calendar: Calendar)
        ensures
            calendar@ == (CalendarView {
                uri: uri@,
                collection_uri: collection_uri@,
                name: name@,
                color: Some(color),
                events: Seq::<Seq<char>>::empty(),
            }),
    {
        Calendar {
            uri: uri.to_owned(),
            collection_uri: collection_uri.to_owned(),
            name: name.to_owned(),
            color: Some(color),
            events: ObservableContainer::new(),
        }
    }

    pub fn uri(&self) -> (uri: &str)
        ensures
            uri@ == self@.uri,
    {
        self.uri.as_str()
    }

    /// The URI of the collection that the calendar belongs to.
    pub fn collection_uri(&self) -> (uri: &str)
        ensures
            uri@ == self@.collection_uri,
    {
        self.collection_uri.as_str()
    }

    pub fn name(&self) -> (name: &str)
        ensures
            name@ == self@.name,
    {
        self.name.as_str()
    }

    /// The calendar's colour, if it has one.
    pub fn color(&self) -> (color: Option<Rgba>)
        ensures
            color == self@.color,
    {
        self.color
    }

    /// The handles of the calendar's events.
    pub fn events(&self) -> (events: &ObservableContainer)
        ensures
            events@ == self@.events,
    {
        &self.events
    }

    /// The request to change this calendar at the backend. An attribute that
    /// is `None` is to be left as it is.
    pub fn update(&self, name: Option<&str>, color: Option<Rgba>) -> (request: Request)
        ensures
            request@ == (RequestView::UpdateCalendar {
                uri: self@.uri,
                name: match name {
                    Some(n) => Some(n@),
                    None => None,
                },
                color,
            }),
    {
        let name = match name {
            Some(n) => Some(n.to_owned()),
            None => None,
        };
        Request::UpdateCalendar { uri: self.uri.clone(), name, color }
    }

    /// Takes the name and the colour that the backend reports. The result
    /// names what changed, in the order name, colour: an attribute that the
    /// calendar holds already is not named, so a report of what it holds
    /// names nothing.
    pub fn emit_updated(&mut self, name: &str, color: Rgba) -> (changed: Vec<Property>)
        ensures
            final(self)@ == (CalendarView { name: name@, color: Some(color), ..old(self)@ }),
            changed@ == old(self)@.changes(name@, color),
            old(self)@.name == name@ && old(self)@.color == Some(color) ==> changed@.len() == 0
                && final(self)@ == old(self)@,
    {
        let mut changed: Vec<Property> = Vec::new();
        let reported = name.to_owned();
        if self.name != reported {
            self.name = reported;
            changed.push(Property::Name);
        }
        let same_color = match self.color {
            Some(held) => held == color,
            None => false,
        };
        if !same_color {
            self.color = Some(color);
            changed.push(Property::Color);
        }
        changed
    }

    /// The request to delete this calendar at the backend.
    pub fn delete(&self) -> (request: Request)
        ensures
            request@ == (RequestView::DeleteCalendar { uri: self@.uri }),
    {
        Request::DeleteCalendar { uri: self.uri.clone() }
    }

    /// Adds the handle of `event` at the end of the calendar's list.
    pub fn add_event(&mut self, event: &Event) -> (change: ItemsChanged)
        ensures
            final(self)@ == (CalendarView {
                events: old(self)@.events.push(event@.uri),
                ..old(self)@
            }),
            change == (ItemsChanged {
                position: old(self)@.events.len() as usize,
                removed: 0,
                added: 1,
            }),
    {
        self.events.append(event.uri().to_owned())
    }

    /// Takes the handle `uri` out of the calendar's list, as is due when that
    /// event is deleted. The result is `None` where the list does not hold it.
    pub fn remove_event(&mut self, uri: &str) -> (change: Option<ItemsChanged>)
        ensures
            final(self)@ == (CalendarView {
                events: old(self)@.events.remove_value(uri@),
                ..old(self)@
            }),
            match old(self)@.events.index_of_first(uri@) {
                Some(p) => change == Some(
                    ItemsChanged { position: p as usize, removed: 1, added: 0 },
                ),
                None => change.is_none(),
            },
    {
        self.events.remove_item(uri)
    }

    /// The request to create an event in this calendar.
    pub fn create_event(&self, name: &str, description: &str) -> (request: Request)
        ensures
            request@ == (RequestView::CreateEvent {
                calendar_uri: self@.uri,
                name: name@,
                description: description@,
            }),
    {
        Request::CreateEvent {
            calendar_uri: self.uri.clone(),
            name: name.to_owned(),
            description: description.to_owned(),
        }
    }
}

impl Clone for Calendar {
    fn clone(&self) -> (copy: Calendar)
        ensures
            copy@ == self@,
    {
        Calendar {
            uri: self.uri.clone(),
            collection_uri: self.collection_uri.clone(),
            name: self.name.clone(),
            color: self.color,
            events: self.events.clone(),
        }
    }
}

} // verus!
