use crate::calendar::{Calendar, CalendarView};
use crate::color::Rgba;
use crate::collection::{Collection, CollectionView};
use crate::container::{ItemsChanged, ObservableContainer};
use crate::event::{Event, EventView};
use crate::pre_resource::{Attribute, PreResource, PreResourceView, ResolveError, ResolveErrorView};
use crate::timeframe::TimeframeView;
use crate::provider::{Provider, ProviderView};
use vstd::prelude::*;

verus! {

/// The four kinds of resource, from the root of the hierarchy to its leaves.
#[derive(Clone, Copy, Debug, PartialEq, Eq, Structural)]
pub enum ResourceKind {
    Provider,
    Collection,
    Calendar,
    Event,
}

impl ResourceKind {
    /// How many levels of the hierarchy lie below a resource of this kind.
    pub open spec fn depth(self) -> nat {
        match self {
            ResourceKind::Provider => 3,
            ResourceKind::Collection => 2,
            ResourceKind::Calendar => 1,
            ResourceKind::Event => 0,
        }
    }

    /// The kind of the resources that one of this kind holds, if it holds any.
    pub open spec fn child(self) -> Option<ResourceKind> {
        match self {
            ResourceKind::Provider => Some(ResourceKind::Collection),
            ResourceKind::Collection => Some(ResourceKind::Calendar),
            ResourceKind::Calendar => Some(ResourceKind::Event),
            ResourceKind::Event => None,
        }
    }
}

/// An attribute of a resource that the backend may report as changed.
#[derive(Clone, Copy, Debug, PartialEq, Eq, Structural)]
pub enum Property {
    Name,
    Color,
}

/// A resource of any kind.
#[derive(Debug)]
pub enum Resource {
    Provider(Provider),
    Collection(Collection),
    Calendar(Calendar),
    Event(Event),
}

/// A resource of any kind as text values.
pub enum ResourceView {
    Provider(ProviderView),
    Collection(CollectionView),
    Calendar(CalendarView),
    Event(EventView),
}

impl View for Resource {
    type V = ResourceView;

    open spec fn view(&self) -> ResourceView {
        match self {
            Resource::Provider(p) => ResourceView::Provider(p@),
            Resource::Collection(c) => ResourceView::Collection(c@),
            Resource::Calendar(c) => ResourceView::Calendar(c@),
            Resource::Event(e) => ResourceView::Event(e@),
        }
    }
}

impl ResourceView {
    pub open spec fn uri(self) -> Seq<char> {
        match self {
            ResourceView::Provider(p) => p.uri,
            ResourceView::Collection(c) => c.uri,
            ResourceView::Calendar(c) => c.uri,
            ResourceView::Event(e) => e.uri,
        }
    }

    pub open spec fn kind(self) -> ResourceKind {
        match self {
            ResourceView::Provider(_) => ResourceKind::Provider,
            ResourceView::Collection(_) => ResourceKind::Collection,
            ResourceView::Calendar(_) => ResourceKind::Calendar,
            ResourceView::Event(_) => ResourceKind::Event,
        }
    }

    /// The URI of the resource that this one belongs to. A provider belongs
    /// to none.
    pub open spec fn parent(self) -> Option<Seq<char>> {
        match self {
            ResourceView::Provider(_) => None,
            ResourceView::Collection(c) => Some(c.provider_uri),
            ResourceView::Calendar(c) => Some(c.collection_uri),
            ResourceView::Event(e) => Some(e.calendar_uri),
        }
    }

    /// The handles that the resource holds, in order. An event holds none.
    pub open spec fn children(self) -> Seq<Seq<char>> {
        match self {
            ResourceView::Provider(p) => p.collections,
            ResourceView::Collection(c) => c.calendars,
            ResourceView::Calendar(c) => c.events,
            ResourceView::Event(_) => Seq::empty(),
        }
    }

    /// The same resource holding `children` in place of its own handles. An
    /// event stays as it is.
    pub open spec fn with_children(self, children: Seq<Seq<char>>) -> ResourceView {
        match self {
            ResourceView::Provider(p) => ResourceView::Provider(
                ProviderView { collections: children, ..p },
            ),
            ResourceView::Collection(c) => ResourceView::Collection(
                CollectionView { calendars: children, ..c },
            ),
            ResourceView::Calendar(c) => ResourceView::Calendar(
                CalendarView { events: children, ..c },
            ),
            ResourceView::Event(e) => ResourceView::Event(e),
        }
    }
}

impl ResourceView {
    pub open spec fn name(self) -> Seq<char> {
        match self {
            ResourceView::Provider(p) => p.name,
            ResourceView::Collection(c) => c.name,
            ResourceView::Calendar(c) => c.name,
            ResourceView::Event(e) => e.name,
        }
    }

    /// The resource once it is told that it has `name` and `color`. Only a
    /// calendar has a colour: the other kinds take the name alone.
    pub open spec fn updated(self, name: Seq<char>, color: Rgba) -> ResourceView {
        match self {
            ResourceView::Provider(p) => ResourceView::Provider(ProviderView { name, ..p }),
            ResourceView::Collection(c) => ResourceView::Collection(CollectionView { name, ..c }),
            ResourceView::Calendar(c) => ResourceView::Calendar(
                CalendarView { name, color: Some(color), ..c },
            ),
            ResourceView::Event(e) => ResourceView::Event(EventView { name, ..e }),
        }
    }

    /// What changes when the resource is told that it has `name` and
    /// `color`: each attribute that it has and that differs, the name first.
    pub open spec fn changes(self, name: Seq<char>, color: Rgba) -> Seq<Property> {
        match self {
            ResourceView::Calendar(c) => c.changes(name, color),
            _ => if self.name() == name {
                Seq::empty()
            } else {
                seq![Property::Name]
            },
        }
    }
}

impl Resource {
    pub fn uri(&self) -> (uri: &str)
        ensures
            uri@ == self@.uri(),
    {
        match self {
            Resource::Provider(p) => p.uri(),
            Resource::Collection(c) => c.uri(),
            Resource::Calendar(c) => c.uri(),
            Resource::Event(e) => e.uri(),
        }
    }

    pub fn kind(&self) -> (kind: ResourceKind)
        ensures
            kind == self@.kind(),
    {
        match self {
            Resource::Provider(_) => ResourceKind::Provider,
            Resource::Collection(_) => ResourceKind::Collection,
            Resource::Calendar(_) => ResourceKind::Calendar,
            Resource::Event(_) => ResourceKind::Event,
        }
    }

    /// The URI of the resource that this one belongs to, if it is no provider.
    pub fn parent_uri(&self) -> (parent: Option<&str>)
        ensures
            match parent {
                Some(p) => self@.parent() == Some(p@),
                None => self@.parent().is_none(),
            },
    {
        match self {
            Resource::Provider(_) => None,
            Resource::Collection(c) => Some(c.provider_uri()),
            Resource::Calendar(c) => Some(c.collection_uri()),
            Resource::Event(e) => Some(e.calendar_uri()),
        }
    }

    /// The list of handles that the resource holds, if it is no event.
    pub fn children(&self) -> (children: Option<&ObservableContainer>)
        ensures
            match children {
                Some(c) => c@ == self@.children(),
                None => self@.kind() == ResourceKind::Event,
            },
    {
        match self {
            Resource::Provider(p) => Some(p.collections()),
            Resource::Collection(c) => Some(c.calendars()),
            Resource::Calendar(c) => Some(c.events()),
            Resource::Event(_) => None,
        }
    }

    /// Takes the handle `uri` out of the list that the resource holds. The
    /// result is `None` where it holds no such handle.
    pub fn remove_child(&mut self, uri: &str) -> (change: Option<ItemsChanged>)
        ensures
            final(self)@ == old(self)@.with_children(old(self)@.children().remove_value(uri@)),
            match old(self)@.children().index_of_first(uri@) {
                Some(p) => change == Some(
                    ItemsChanged { position: p as usize, removed: 1, added: 0 },
                ),
                None => change.is_none(),
            },
    {
        proof {
            old(self)@.children().index_of_first_ensures(uri@);
        }
        match self {
            Resource::Provider(p) => p.remove_collection(uri),
            Resource::Collection(c) => c.remove_calendar(uri),
            Resource::Calendar(c) => c.remove_event(uri),
            Resource::Event(_) => None,
        }
    }
}

impl Resource {
    /// Adds the handle of `child` at the end of the list that the resource
    /// holds, where `child` is of the kind that it holds. Otherwise nothing
    /// changes and the result is `None`.
    pub fn add_child(&mut self, child: &Resource) -> (change: Option<ItemsChanged>)
        ensures
            old(self)@.kind().child() == Some(child@.kind()) ==> final(self)@ == old(
                self,
            )@.with_children(old(self)@.children().push(child@.uri())) && change == Some(
                ItemsChanged {
                    position: old(self)@.children().len() as usize,
                    removed: 0,
                    added: 1,
                },
            ),
            old(self)@.kind().child() != Some(child@.kind()) ==> final(self)@ == old(self)@
                && change.is_none(),
    {
        match self {
            Resource::Provider(p) => match child {
                Resource::Collection(c) => Some(p.add_collection(c)),
                _ => None,
            },
            Resource::Collection(p) => match child {
                Resource::Calendar(c) => Some(p.add_calendar(c)),
                _ => None,
            },
            Resource::Calendar(p) => match child {
                Resource::Event(c) => Some(p.add_event(c)),
                _ => None,
            },
            Resource::Event(_) => None,
        }
    }

    /// Takes the name and the colour that the backend reports, the colour
    /// where the resource is a calendar. The result names what changed: an
    /// attribute that the resource holds already is not named.
    pub fn emit_updated(&mut self, name: &str, color: Rgba) -> (changed: Vec<Property>)
        ensures
            final(self)@ == old(self)@.updated(name@, color),
            changed@ == old(self)@.changes(name@, color),
    {
        match self {
            Resource::Provider(p) => p.emit_updated(name),
            Resource::Collection(c) => c.emit_updated(name),
            Resource::Calendar(c) => c.emit_updated(name, color),
            Resource::Event(e) => e.emit_updated(name),
        }
    }
}

impl PreResourceView {
    /// The resource, holding no handles, that the descriptor stands for. An
    /// event has the time frame `timeframe`; the other kinds have none.
    pub open spec fn node(self, timeframe: TimeframeView) -> ResourceView {
        match self {
            PreResourceView::Provider(p) => ResourceView::Provider(
                ProviderView { uri: p.uri, name: p.name, collections: Seq::empty() },
            ),
            PreResourceView::Collection(c) => ResourceView::Collection(
                CollectionView {
                    uri: c.uri,
                    provider_uri: c.provider_uri,
                    name: c.name,
                    calendars: Seq::empty(),
                },
            ),
            PreResourceView::Calendar(c) => ResourceView::Calendar(
                CalendarView {
                    uri: c.uri,
                    collection_uri: c.collection_uri,
                    name: c.name,
                    color: Some(c.color),
                    events: Seq::empty(),
                },
            ),
            PreResourceView::Event(e) => ResourceView::Event(
                EventView {
                    uri: e.uri,
                    calendar_uri: e.calendar_uri,
                    name: e.name,
                    description: e.description,
                    timeframe,
                },
            ),
        }
    }
}

impl ResourceView {
    /// The time frame of an event.
    pub open spec fn timeframe(self) -> TimeframeView {
        match self {
            ResourceView::Event(e) => e.timeframe,
            _ => arbitrary(),
        }
    }
}

impl Resource {
    /// The resource, holding no handles, that the descriptor `pre` stands
    /// for. A provider, a collection and a calendar always come out. The two
    /// ends of an event are read as instants with a time zone, which depends
    /// on the time zones that the machine knows: an event that comes out
    /// holds what the descriptor holds, and one that is rejected is rejected
    /// as malformed, naming its start or its end.
    pub fn from_descriptor(pre: PreResource) -> (r: Result<Resource, ResolveError>)
        ensures
            match r {
                Ok(node) => {
                    &&& node@ == pre@.node(node@.timeframe())
                    &&& node@.children().len() == 0
                    &&& pre@ matches PreResourceView::Event(e) ==> node@.timeframe().all_day
                        == e.all_day
                },
                Err(e) => pre@ matches PreResourceView::Event(p) && (e@ == (
                ResolveErrorView::MalformedAttribute {
                    uri: p.uri,
                    attribute: Attribute::EventStart,
                }) || e@ == (ResolveErrorView::MalformedAttribute {
                    uri: p.uri,
                    attribute: Attribute::EventEnd,
                })),
            },
    {
        match pre {
            PreResource::Provider(p) => Ok(
                Resource::Provider(Provider::new(p.uri.as_str(), p.name.as_str())),
            ),
            PreResource::Collection(c) => Ok(
                Resource::Collection(
                    Collection::new(c.provider_uri.as_str(), c.uri.as_str(), c.name.as_str()),
                ),
            ),
            PreResource::Calendar(c) => Ok(
                Resource::Calendar(
                    Calendar::new(
                        c.collection_uri.as_str(),
                        c.uri.as_str(),
                        c.name.as_str(),
                        c.color,
                    ),
                ),
            ),
            PreResource::Event(e) => match Event::from_descriptor(e) {
                Ok(event) => Ok(Resource::Event(event)),
                Err(error) => Err(error),
            },
        }
    }
}

impl Clone for Resource {
    fn clone(&self) -> (copy: Resource)
        ensures
            copy@ == self@,
    {
        match self {
            Resource::Provider(p) => Resource::Provider(p.clone()),
            Resource::Collection(c) => Resource::Collection(c.clone()),
            Resource::Calendar(c) => Resource::Calendar(c.clone()),
            Resource::Event(e) => Resource::Event(e.clone()),
        }
    }
}

} // verus!
