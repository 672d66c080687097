use crate::pre_resource::pre_event::PreEvent;
use crate::pre_resource::{Attribute, ResolveError, ResolveErrorView};
use crate::resource::Property;
use crate::timeframe::{Timeframe, TimeframeView, ZonedTime};
use std::str::FromStr;
use vstd::prelude::*;

verus! {

/// An event of one calendar, which it names by URI.
#[derive(Debug)]
pub struct Event {
    uri: String,
    calendar_uri: String,
    name: String,
    description: String,
    timeframe: Timeframe,
}

/// An event as text values.
pub struct EventView {
    pub uri: Seq<char>,
    pub calendar_uri: Seq<char>,
    pub name: Seq<char>,
    pub description: Seq<char>,
    pub timeframe: TimeframeView,
}

impl View for Event {
    type V = EventView;

    closed spec fn view(&self) -> EventView {
        EventView {
            uri: self.uri@,
            calendar_uri: self.calendar_uri@,
            name: self.name@,
            description: self.description@,
            timeframe: self.timeframe@,
        }
    }
}

impl Event {
    /// An event of the calendar `calendar_uri`.
    pub fn new(
        calendar_uri: &str,
        uri: &str,
        name: &str,
        description: &str,
        timeframe: &Timeframe,
    ) -> (event: Event)
        ensures
            event@ == (EventView {
                uri: uri@,
                calendar_uri: calendar_uri@,
                name: name@,
                description: description@,
                timeframe: timeframe@,
            }),
    {
        Event {
            uri: uri.to_owned(),
            calendar_uri: calendar_uri.to_owned(),
            name: name.to_owned(),
            description: description.to_owned(),
            timeframe: timeframe.clone(),
        }
    }

    /// The event that the descriptor `pre` stands for, given what came of
    /// reading its start and its end. Where the start could not be read the
    /// event is rejected as malformed, naming the start; else, where the end
    /// could not be read, naming the end.
    pub fn from_parts(
        pre: PreEvent,
        start: Result<ZonedTime, jiff::Error>,
        end: Result<ZonedTime, jiff::Error>,
    ) -> (r: Result<Event, ResolveError>)
        ensures
            match (start, end) {
                (Ok(s), Ok(e)) => r.is_ok() && r.unwrap()@ == (EventView {
                    uri: pre@.uri,
                    calendar_uri: pre@.calendar_uri,
                    name: pre@.name,
                    description: pre@.description,
                    timeframe: TimeframeView { all_day: pre.all_day, start: s, end: e },
                }),
                (Err(_), _) => r.is_err() && r.unwrap_err()@ == (
                ResolveErrorView::MalformedAttribute {
                    uri: pre@.uri,
                    attribute: Attribute::EventStart,
                }),
                (Ok(_), Err(_)) => r.is_err() && r.unwrap_err()@ == (
                ResolveErrorView::MalformedAttribute {
                    uri: pre@.uri,
                    attribute: Attribute::EventEnd,
                }),
            },
    {
        match start {
            Ok(start) => match end {
                Ok(end) => Ok(
                    Event {
                        uri: pre.uri,
                        calendar_uri: pre.calendar_uri,
                        name: pre.name,
                        description: pre.description,
                        timeframe: Timeframe::new(pre.all_day, start, end),
                    },
                ),
                Err(_) => Err(
                    ResolveError::MalformedAttribute {
                        uri: pre.uri,
                        attribute: Attribute::EventEnd,
                    },
                ),
            },
            Err(_) => Err(
                ResolveError::MalformedAttribute { uri: pre.uri, attribute: Attribute::EventStart },
            ),
        }
    }

    /// The event that the descriptor `pre` stands for. Its start and its end
    /// are read as instants with a time zone; which texts can be read
    /// depends on the time zones that the machine knows. An event that comes
    /// out holds what the descriptor holds; a descriptor that is rejected is
    /// rejected as malformed, naming its start or its end.
    pub fn from_descriptor(pre: PreEvent) -> (r: Result<Event, ResolveError>)
        ensures
            match r {
                Ok(event) => {
                    &&& event@.uri == pre@.uri
                    &&& event@.calendar_uri == pre@.calendar_uri
                    &&& event@.name == pre@.name
                    &&& event@.description == pre@.description
                    &&& event@.timeframe.all_day == pre.all_day
                },
                Err(e) => e@ == (ResolveErrorView::MalformedAttribute {
                    uri: pre@.uri,
                    attribute: Attribute::EventStart,
                }) || e@ == (ResolveErrorView::MalformedAttribute {
                    uri: pre@.uri,
                    attribute: Attribute::EventEnd,
                }),
            },
    {
        let start = ZonedTime::from_str(pre.start.as_str());
        let end = ZonedTime::from_str(pre.end.as_str());
        Event::from_parts(pre, start, end)
    }

    pub fn uri(&self) -> (uri: &str)
        ensures
            uri@ == self@.uri,
    {
        self.uri.as_str()
    }

    /// The URI of the calendar that the event belongs to.
    pub fn calendar_uri(&self) -> (uri: &str)
        ensures
            uri@ == self@.calendar_uri,
    {
        self.calendar_uri.as_str()
    }

    pub fn name(&self) -> (name: &str)
        ensures
            name@ == self@.name,
    {
        self.name.as_str()
    }

    pub fn description(&self) -> (description: &str)
        ensures
            description@ == self@.description,
    {
        self.description.as_str()
    }

    pub fn timeframe(&self) -> (timeframe: &Timeframe)
        ensures
            timeframe@ == self@.timeframe,
    {
        &self.timeframe
    }

    /// Takes the name that the backend reports. The result names what
    /// changed: nothing where the event bears that name already.
    pub fn emit_updated(&mut self, name: &str) -> (changed: Vec<Property>)
        ensures
            final(self)@ == (EventView { name: name@, ..old(self)@ }),
            changed@ == if old(self)@.name == name@ {
                Seq::<Property>::empty()
            } else {
                seq![Property::Name]
            },
    {
        let mut changed: Vec<Property> = Vec::new();
        let reported = name.to_owned();
        if self.name != reported {
            self.name = reported;
            changed.push(Property::Name);
        }
        changed
    }
}

impl Clone for Event {
    fn clone(&self) -> (copy: Event)
        ensures
            copy@ == self@,
    {
        Event {
            uri: self.uri.clone(),
            calendar_uri: self.calendar_uri.clone(),
            name: self.name.clone(),
            description: self.description.clone(),
            timeframe: self.timeframe.clone(),
        }
    }
}

} // verus!
