//! Finding out what a URI names. The store is asked a fixed series of
//! questions; this module decides which question comes next and what the
//! answers amount to. Putting the questions to the store is left to the caller.

pub mod pre_calendar;
pub mod pre_collection;
pub mod pre_event;
pub mod pre_provider;

use crate::color::Rgba;
use crate::pre_resource::pre_calendar::{PreCalendar, PreCalendarView};
use crate::pre_resource::pre_collection::{PreCollection, PreCollectionView};
use crate::pre_resource::pre_event::{PreEvent, PreEventView};
use crate::pre_resource::pre_provider::{PreProvider, PreProviderView};
use crate::resource::ResourceKind;
use vstd::prelude::*;

verus! {

/// An attribute whose stored text may fail to parse.
#[derive(Clone, Copy, Debug, PartialEq, Eq, Structural)]
pub enum Attribute {
    Color,
    EventStart,
    EventEnd,
}

/// Why a URI could not be resolved. None of these is fatal: the caller skips
/// the URI and goes on.
#[derive(Debug, Clone, PartialEq, Eq)]
pub enum ResolveError {
    /// No kind's check matched, or the store had no answer to a check.
    UnknownResourceType,
    /// The kind was established, but the attributes were gone when asked for.
    VanishedResource,
    /// An attribute of the resource `uri` was there but could not be read.
    MalformedAttribute { uri: String, attribute: Attribute },
    /// The store failed to run a query.
    QueryExecutionFailure,
}

/// A resolution error as text values.
pub enum ResolveErrorView {
    UnknownResourceType,
    VanishedResource,
    MalformedAttribute { uri: Seq<char>, attribute: Attribute },
    QueryExecutionFailure,
}

impl View for ResolveError {
    type V = ResolveErrorView;

    open spec fn view(&self) -> ResolveErrorView {
        match self {
            ResolveError::UnknownResourceType => ResolveErrorView::UnknownResourceType,
            ResolveError::VanishedResource => ResolveErrorView::VanishedResource,
            ResolveError::MalformedAttribute { uri, attribute } => {
                ResolveErrorView::MalformedAttribute { uri: uri@, attribute: *attribute }
            },
            ResolveError::QueryExecutionFailure => ResolveErrorView::QueryExecutionFailure,
        }
    }
}

/// The first row of the query for a provider's attributes.
#[derive(Debug, Clone, PartialEq, Eq)]
pub struct ProviderRow {
    pub name: String,
}

/// The first row of the query for a collection's attributes.
#[derive(Debug, Clone, PartialEq, Eq)]
pub struct CollectionRow {
    pub name: String,
    pub provider: String,
}

/// The first row of the query for a calendar's attributes. `color` is `None`
/// where the stored text is not a colour.
#[derive(Debug, Clone, PartialEq, Eq)]
pub struct CalendarRow {
    pub name: String,
    pub color: Option<Rgba>,
    pub collection: String,
}

/// The first row of the query for an event's attributes.
#[derive(Debug, Clone, PartialEq, Eq)]
pub struct EventRow {
    pub name: String,
    pub description: String,
    pub calendar: String,
    pub all_day: bool,
    pub start: String,
    pub end: String,
}

/// What the store answered to one query.
#[derive(Debug, Clone, PartialEq, Eq)]
pub enum QueryOutcome {
    /// The query could not be run, or its first row could not be fetched.
    Failed,
    /// The query ran and has no row.
    Empty,
    /// The first row of a check for a kind.
    Boolean(bool),
    Provider(ProviderRow),
    Collection(CollectionRow),
    Calendar(CalendarRow),
    Event(EventRow),
}

/// A question to the store about one URI.
#[derive(Clone, Copy, Debug, PartialEq, Eq, Structural)]
pub enum Query {
    /// Is the URI a resource of this kind?
    Ask(ResourceKind),
    /// What are the attributes of the URI, a resource of this kind?
    Select(ResourceKind),
}

impl Query {
    /// The text of the query. The URI is bound to the parameter `uri`.
    pub open spec fn text(self) -> Seq<char> {
        match self {
            Query::Ask(ResourceKind::Event) => "ASK { ~uri a ccm:Event . }"@,
            Query::Ask(ResourceKind::Calendar) => "ASK { ~uri a ccm:Calendar . }"@,
            Query::Ask(ResourceKind::Collection) => "ASK { ~uri a ccm:Collection . }"@,
            Query::Ask(ResourceKind::Provider) => "ASK { ~uri a ccm:Provider . }"@,
            Query::Select(ResourceKind::Event) =>
                "SELECT ?name ?description ?calendar ?all_day ?start ?end WHERE { ~uri a ccm:Event ; ccm:calendar ?calendar ; ccm:eventName ?name ; ccm:eventDescription ?description ; ccm:eventAllDay ?all_day ; ccm:eventStart ?start ; ccm:eventEnd ?end . }"@,
            Query::Select(ResourceKind::Calendar) =>
                "SELECT ?name ?color ?collection WHERE { ~uri a ccm:Calendar ; ccm:collection ?collection ; ccm:calendarName ?name ; ccm:color ?color . }"@,
            Query::Select(ResourceKind::Collection) =>
                "SELECT ?name ?provider WHERE { ~uri a ccm:Collection ; ccm:provider ?provider ; ccm:collectionName ?name . }"@,
            Query::Select(ResourceKind::Provider) =>
                "SELECT ?name WHERE { ~uri a ccm:Provider ; ccm:providerName ?name . }"@,
        }
    }

    /// The text to hand to the store for this query.
    pub fn sparql(&self) -> (text: &'static str)
        ensures
            text@ == self.text(),
    {
        match self {
            Query::Ask(ResourceKind::Event) => "ASK { ~uri a ccm:Event . }",
            Query::Ask(ResourceKind::Calendar) => "ASK { ~uri a ccm:Calendar . }",
            Query::Ask(ResourceKind::Collection) => "ASK { ~uri a ccm:Collection . }",
            Query::Ask(ResourceKind::Provider) => "ASK { ~uri a ccm:Provider . }",
            Query::Select(ResourceKind::Event) =>
                "SELECT ?name ?description ?calendar ?all_day ?start ?end WHERE { ~uri a ccm:Event ; ccm:calendar ?calendar ; ccm:eventName ?name ; ccm:eventDescription ?description ; ccm:eventAllDay ?all_day ; ccm:eventStart ?start ; ccm:eventEnd ?end . }",
            Query::Select(ResourceKind::Calendar) =>
                "SELECT ?name ?color ?collection WHERE { ~uri a ccm:Calendar ; ccm:collection ?collection ; ccm:calendarName ?name ; ccm:color ?color . }",
            Query::Select(ResourceKind::Collection) =>
                "SELECT ?name ?provider WHERE { ~uri a ccm:Collection ; ccm:provider ?provider ; ccm:collectionName ?name . }",
            Query::Select(ResourceKind::Provider) =>
                "SELECT ?name WHERE { ~uri a ccm:Provider ; ccm:providerName ?name . }",
        }
    }
}

/// What a URI was found to name: one descriptor for each kind.
#[derive(Debug, Clone, PartialEq, Eq)]
pub enum PreResource {
    Provider(PreProvider),
    Collection(PreCollection),
    Calendar(PreCalendar),
    Event(PreEvent),
}

/// A resolved descriptor as text values.
pub enum PreResourceView {
    Provider(PreProviderView),
    Collection(PreCollectionView),
    Calendar(PreCalendarView),
    Event(PreEventView),
}

impl View for PreResource {
    type V = PreResourceView;

    open spec fn view(&self) -> PreResourceView {
        match self {
            PreResource::Provider(p) => PreResourceView::Provider(p@),
            PreResource::Collection(p) => PreResourceView::Collection(p@),
            PreResource::Calendar(p) => PreResourceView::Calendar(p@),
            PreResource::Event(p) => PreResourceView::Event(p@),
        }
    }
}

impl PreResourceView {
    /// The kind of resource that the descriptor is of.
    pub open spec fn kind(self) -> ResourceKind {
        match self {
            PreResourceView::Provider(_) => ResourceKind::Provider,
            PreResourceView::Collection(_) => ResourceKind::Collection,
            PreResourceView::Calendar(_) => ResourceKind::Calendar,
            PreResourceView::Event(_) => ResourceKind::Event,
        }
    }

    /// The URI that the descriptor is of.
    pub open spec fn uri(self) -> Seq<char> {
        match self {
            PreResourceView::Provider(p) => p.uri,
            PreResourceView::Collection(p) => p.uri,
            PreResourceView::Calendar(p) => p.uri,
            PreResourceView::Event(p) => p.uri,
        }
    }
}

/// The kind that is checked after `kind`: the most specific kind comes first,
/// so events are checked before calendars, calendars before collections and
/// collections before providers.
pub open spec fn checked_after(kind: ResourceKind) -> Option<ResourceKind> {
    match kind {
        ResourceKind::Event => Some(ResourceKind::Calendar),
        ResourceKind::Calendar => Some(ResourceKind::Collection),
        ResourceKind::Collection => Some(ResourceKind::Provider),
        ResourceKind::Provider => None,
    }
}

/// The descriptor, or the error, that an answer to the query for the
/// attributes of a resource of the given kind stands for.
pub open spec fn selected(kind: ResourceKind, uri: Seq<char>, outcome: QueryOutcome) -> Result<
    PreResourceView,
    ResolveErrorView,
> {
    match kind {
        ResourceKind::Provider => match PreProvider::resolved(uri, outcome) {
            Ok(p) => Ok(PreResourceView::Provider(p)),
            Err(e) => Err(e),
        },
        ResourceKind::Collection => match PreCollection::resolved(uri, outcome) {
            Ok(p) => Ok(PreResourceView::Collection(p)),
            Err(e) => Err(e),
        },
        ResourceKind::Calendar => match PreCalendar::resolved(uri, outcome) {
            Ok(p) => Ok(PreResourceView::Calendar(p)),
            Err(e) => Err(e),
        },
        ResourceKind::Event => match PreEvent::resolved(uri, outcome) {
            Ok(p) => Ok(PreResourceView::Event(p)),
            Err(e) => Err(e),
        },
    }
}

/// A resolution under way: the URI, and the query whose answer is awaited.
pub struct Resolution {
    uri: String,
    pending: Query,
}

/// A resolution under way as text values.
pub struct ResolutionView {
    pub uri: Seq<char>,
    pub pending: Query,
}

impl View for Resolution {
    type V = ResolutionView;

    closed spec fn view(&self) -> ResolutionView {
        ResolutionView { uri: self.uri@, pending: self.pending }
    }
}

/// Where a resolution stands after an answer.
pub enum Step {
    /// Another query has to be answered.
    Pending(Resolution),
    Resolved(PreResource),
    Failed(ResolveError),
}

/// A step as text values.
pub enum StepView {
    Pending(ResolutionView),
    Resolved(PreResourceView),
    Failed(ResolveErrorView),
}

impl View for Step {
    type V = StepView;

    open spec fn view(&self) -> StepView {
        match self {
            Step::Pending(r) => StepView::Pending(r@),
            Step::Resolved(p) => StepView::Resolved(p@),
            Step::Failed(e) => StepView::Failed(e@),
        }
    }
}

impl ResolutionView {
    /// Where the resolution stands once the pending query got `outcome`.
    ///
    /// A check that is answered `true` settles the kind, and the attributes
    /// are asked for next. One that is answered `false` passes on to the next
    /// kind, and after the last kind the resource is unknown. A check without
    /// a row means that the resource has no type, so it is unknown as well.
    /// Any other answer to a check is a failed query. The answer to the query
    /// for the attributes ends the resolution.
    pub open spec fn answer(self, outcome: QueryOutcome) -> StepView {
        match self.pending {
            Query::Ask(kind) => match outcome {
                QueryOutcome::Boolean(true) => StepView::Pending(
                    ResolutionView { uri: self.uri, pending: Query::Select(kind) },
                ),
                QueryOutcome::Boolean(false) => match checked_after(kind) {
                    Some(next) => StepView::Pending(
                        ResolutionView { uri: self.uri, pending: Query::Ask(next) },
                    ),
                    None => StepView::Failed(ResolveErrorView::UnknownResourceType),
                },
                QueryOutcome::Empty => StepView::Failed(ResolveErrorView::UnknownResourceType),
                _ => StepView::Failed(ResolveErrorView::QueryExecutionFailure),
            },
            Query::Select(kind) => match selected(kind, self.uri, outcome) {
                Ok(p) => StepView::Resolved(p),
                Err(e) => StepView::Failed(e),
            },
        }
    }
}

impl PreResource {
    /// Starts to resolve `uri`. The first question is whether it is an event.
    pub fn from_uri(uri: &str) -> (resolution: Resolution)
        ensures
            resolution@ == (ResolutionView {
                uri: uri@,
                pending: Query::Ask(ResourceKind::Event),
            }),
    {
        Resolution { uri: uri.to_owned(), pending: Query::Ask(ResourceKind::Event) }
    }

    /// The kind of resource that the descriptor is of.
    pub fn kind(&self) -> (kind: ResourceKind)
        ensures
            kind == self@.kind(),
    {
        match self {
            PreResource::Provider(_) => ResourceKind::Provider,
            PreResource::Collection(_) => ResourceKind::Collection,
            PreResource::Calendar(_) => ResourceKind::Calendar,
            PreResource::Event(_) => ResourceKind::Event,
        }
    }
}

impl Resolution {
    /// The URI that is being resolved.
    pub fn uri(&self) -> (uri: &str)
        ensures
            uri@ == self@.uri,
    {
        self.uri.as_str()
    }

    /// The query that the store has to answer next.
    pub fn query(&self) -> (query: Query)
        ensures
            query == self@.pending,
    {
        self.pending
    }

    /// Takes the store's answer to the pending query and says where the
    /// resolution stands then.
    pub fn answer(self, outcome: QueryOutcome) -> (step: Step)
        ensures
            step@ == self@.answer(outcome),
    {
        match self.pending {
            Query::Ask(kind) => match outcome {
                QueryOutcome::Boolean(true) => Step::Pending(
                    Resolution { uri: self.uri, pending: Query::Select(kind) },
                ),
                QueryOutcome::Boolean(false) => match kind {
                    ResourceKind::Event => Step::Pending(
                        Resolution { uri: self.uri, pending: Query::Ask(ResourceKind::Calendar) },
                    ),
                    ResourceKind::Calendar => Step::Pending(
                        Resolution {
                            uri: self.uri,
                            pending: Query::Ask(ResourceKind::Collection),
                        },
                    ),
                    ResourceKind::Collection => Step::Pending(
                        Resolution { uri: self.uri, pending: Query::Ask(ResourceKind::Provider) },
                    ),
                    ResourceKind::Provider => Step::Failed(ResolveError::UnknownResourceType),
                },
                QueryOutcome::Empty => Step::Failed(ResolveError::UnknownResourceType),
                _ => Step::Failed(ResolveError::QueryExecutionFailure),
            },
            Query::Select(kind) => match kind {
                ResourceKind::Provider => match PreProvider::from_uri(
                    self.uri.as_str(),
                    outcome,
                ) {
                    Ok(p) => Step::Resolved(PreResource::Provider(p)),
                    Err(e) => Step::Failed(e),
                },
                ResourceKind::Collection => match PreCollection::from_uri(
                    self.uri.as_str(),
                    outcome,
                ) {
                    Ok(p) => Step::Resolved(PreResource::Collection(p)),
                    Err(e) => Step::Failed(e),
                },
                ResourceKind::Calendar => match PreCalendar::from_uri(
                    self.uri.as_str(),
                    outcome,
                ) {
                    Ok(p) => Step::Resolved(PreResource::Calendar(p)),
                    Err(e) => Step::Failed(e),
                },
                ResourceKind::Event => match PreEvent::from_uri(self.uri.as_str(), outcome) {
                    Ok(p) => Step::Resolved(PreResource::Event(p)),
                    Err(e) => Step::Failed(e),
                },
            },
        }
    }
}

} // verus!
