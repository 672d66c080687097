use crate::pre_resource::{QueryOutcome, ResolveError, ResolveErrorView};
use vstd::prelude::*;

verus! {

/// What the store holds about an event. The two ends of its time frame are
/// kept as the store wrote them.
#[derive(Debug, Clone, PartialEq, Eq)]
pub struct PreEvent {
    pub uri: String,
    pub calendar_uri: String,
    pub name: String,
    pub description: String,
    pub all_day: bool,
    pub start: String,
    pub end: String,
}

/// An event descriptor as text values.
pub struct PreEventView {
    pub uri: Seq<char>,
    pub calendar_uri: Seq<char>,
    pub name: Seq<char>,
    pub description: Seq<char>,
    pub all_day: bool,
    pub start: Seq<char>,
    pub end: Seq<char>,
}

impl View for PreEvent {
    type V = PreEventView;

    open spec fn view(&self) -> PreEventView {
        PreEventView {
            uri: self.uri@,
            calendar_uri: self.calendar_uri@,
            name: self.name@,
            description: self.description@,
            all_day: self.all_day,
            start: self.start@,
            end: self.end@,
        }
    }
}

impl PreEvent {
    /// The descriptor, or the error, that an answer to the query for an
    /// event's attributes stands for.
    pub open spec fn resolved(uri: Seq<char>, outcome: QueryOutcome) -> Result<
        PreEventView,
        ResolveErrorView,
    > {
        match outcome {
            QueryOutcome::Event(row) => Ok(
                PreEventView {
                    uri,
                    calendar_uri: row.calendar@,
                    name: row.name@,
                    description: row.description@,
                    all_day: row.all_day,
                    start: row.start@,
                    end: row.end@,
                },
            ),
            QueryOutcome::Empty => Err(ResolveErrorView::VanishedResource),
            _ => Err(ResolveErrorView::QueryExecutionFailure),
        }
    }

    /// Builds the descriptor of the event `uri` from the store's answer to the
    /// query for its attributes. An answer without a row means that the event
    /// vanished after its kind was established; any answer that is not an
    /// event's row counts as a failed query.
    pub fn from_uri(uri: &str, outcome: QueryOutcome) -> (r: Result<PreEvent, ResolveError>)
        ensures
            match r {
                Ok(p) => Self::resolved(uri@, outcome) == Ok::<PreEventView, ResolveErrorView>(p@),
                Err(e) => Self::resolved(uri@, outcome) == Err::<PreEventView, ResolveErrorView>(
                    e@,
                ),
            },
    {
        match outcome {
            QueryOutcome::Event(row) => Ok(
                PreEvent {
                    uri: uri.to_owned(),
                    calendar_uri: row.calendar,
                    name: row.name,
                    description: row.description,
                    all_day: row.all_day,
                    start: row.start,
                    end: row.end,
                },
            ),
            QueryOutcome::Empty => Err(ResolveError::VanishedResource),
            _ => Err(ResolveError::QueryExecutionFailure),
        }
    }
}

} // verus!
