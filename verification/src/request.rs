//! Requests to the backend. The library only says what is to be asked; the
//! result comes back later as a reported change.

use crate::color::Rgba;
use vstd::prelude::*;

verus! {

/// A change that the backend is asked to make.
#[derive(Debug, Clone, PartialEq, Eq)]
#[allow(inconsistent_fields)]
pub enum Request {
    CreateCalendar { collection_uri: String, name: String, color: Rgba },
    /// An attribute that is `None` is left as it is.
    UpdateCalendar { uri: String, name: Option<String>, color: Option<Rgba> },
    DeleteCalendar { uri: String },
    CreateEvent { calendar_uri: String, name: String, description: String },
}

/// A request as text values.
#[allow(inconsistent_fields)]
pub enum RequestView {
    CreateCalendar { collection_uri: Seq<char>, name: Seq<char>, color: Rgba },
    UpdateCalendar { uri: Seq<char>, name: Option<Seq<char>>, color: Option<Rgba> },
    DeleteCalendar { uri: Seq<char> },
    CreateEvent { calendar_uri: Seq<char>, name: Seq<char>, description: Seq<char> },
}

impl View for Request {
    type V = RequestView;

    open spec fn view(&self) -> RequestView {
        match self {
            Request::CreateCalendar { collection_uri, name, color } => RequestView::CreateCalendar {
                collection_uri: collection_uri@,
                name: name@,
                color: *color,
            },
            Request::UpdateCalendar { uri, name, color } => RequestView::UpdateCalendar {
                uri: uri@,
                name: match name {
                    Some(n) => Some(n@),
                    None => None,
                },
                color: *color,
            },
            Request::DeleteCalendar { uri } => RequestView::DeleteCalendar { uri: uri@ },
            Request::CreateEvent { calendar_uri, name, description } => RequestView::CreateEvent {
                calendar_uri: calendar_uri@,
                name: name@,
                description: description@,
            },
        }
    }
}

} // verus!
