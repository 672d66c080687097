use crate::color::Rgba;
use crate::pre_resource::{Attribute, QueryOutcome, ResolveError, ResolveErrorView};
use vstd::prelude::*;

verus! {

/// What the store holds about a calendar.
#[derive(Debug, Clone, PartialEq, Eq)]
pub struct PreCalendar {
    pub uri: String,
    pub collection_uri: String,
    pub name: String,
    pub color: Rgba,
}

/// A calendar descriptor as text values.
pub struct PreCalendarView {
    pub uri: Seq<char>,
    pub collection_uri: Seq<char>,
    pub name: Seq<char>,
    pub color: Rgba,
}

impl View for PreCalendar {
    type V = PreCalendarView;

    open spec fn view(&self) -> PreCalendarView {
        PreCalendarView {
            uri: self.uri@,
            collection_uri: self.collection_uri@,
            name: self.name@,
            color: self.color,
        }
    }
}

impl PreCalendar {
    /// The descriptor, or the error, that an answer to the query for a
    /// calendar's attributes stands for.
    pub open spec fn resolved(uri: Seq<char>, outcome: QueryOutcome) -> Result<
        PreCalendarView,
        ResolveErrorView,
    > {
        match outcome {
            QueryOutcome::Calendar(row) => match row.color {
                Some(color) => Ok(
                    PreCalendarView {
                        uri,
                        collection_uri: row.collection@,
                        name: row.name@,
                        color,
                    },
                ),
                None => Err(
                    ResolveErrorView::MalformedAttribute { uri, attribute: Attribute::Color },
                ),
            },
            QueryOutcome::Empty => Err(ResolveErrorView::VanishedResource),
            _ => Err(ResolveErrorView::QueryExecutionFailure),
        }
    }

    /// Builds the descriptor of the calendar `uri` from the store's answer to
    /// the query for its attributes. A row whose colour could not be read is
    /// rejected as malformed, naming the colour and the calendar. An answer
    /// without a row means that the calendar vanished after its kind was
    /// established; any answer that is not a calendar's row counts as a
    /// failed query.
    pub fn from_uri(uri: &str, outcome: QueryOutcome) -> (r: Result<PreCalendar, ResolveError>)
        ensures
            match r {
                Ok(p) => Self::resolved(uri@, outcome) == Ok::<PreCalendarView, ResolveErrorView>(
                    p@,
                ),
                Err(e) => Self::resolved(uri@, outcome) == Err::<
                    PreCalendarView,
                    ResolveErrorView,
                >(e@),
            },
    {
        match outcome {
            QueryOutcome::Calendar(row) => match row.color {
                Some(color) => Ok(
                    PreCalendar {
                        uri: uri.to_owned(),
                        collection_uri: row.collection,
                        name: row.name,
                        color,
                    },
                ),
                None => Err(
                    ResolveError::MalformedAttribute {
                        uri: uri.to_owned(),
                        attribute: Attribute::Color,
                    },
                ),
            },
            QueryOutcome::Empty => Err(ResolveError::VanishedResource),
            _ => Err(ResolveError::QueryExecutionFailure),
        }
    }
}

} // verus!
