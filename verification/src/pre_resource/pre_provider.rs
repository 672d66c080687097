use crate::pre_resource::{QueryOutcome, ResolveError, ResolveErrorView};
use vstd::prelude::*;

verus! {

/// What the store holds about a provider.
#[derive(Debug, Clone, PartialEq, Eq)]
pub struct PreProvider {
    pub uri: String,
    pub name: String,
}

/// A provider descriptor as text values.
pub struct PreProviderView {
    pub uri: Seq<char>,
    pub name: Seq<char>,
}

impl View for PreProvider {
    type V = PreProviderView;

    open spec fn view(&self) -> PreProviderView {
        PreProviderView { uri: self.uri@, name: self.name@ }
    }
}

impl PreProvider {
    /// The descriptor, or the error, that an answer to the query for a
    /// provider's attributes stands for.
    pub open spec fn resolved(uri: Seq<char>, outcome: QueryOutcome) -> Result<
        PreProviderView,
        ResolveErrorView,
    > {
        match outcome {
            QueryOutcome::Provider(row) => Ok(PreProviderView { uri, name: row.name@ }),
            QueryOutcome::Empty => Err(ResolveErrorView::VanishedResource),
            _ => Err(ResolveErrorView::QueryExecutionFailure),
        }
    }

    /// Builds the descriptor of the provider `uri` from the store's answer to
    /// the query for its attributes. An answer without a row means that the
    /// provider vanished after its kind was established; any answer that is
    /// not a provider's row counts as a failed query.
    pub fn from_uri(uri: &str, outcome: QueryOutcome) -> (r: Result<PreProvider, ResolveError>)
        ensures
            match r {
                Ok(p) => Self::resolved(uri@, outcome) == Ok::<PreProviderView, ResolveErrorView>(
                    p@,
                ),
                Err(e) => Self::resolved(uri@, outcome) == Err::<
                    PreProviderView,
                    ResolveErrorView,
                >(e@),
            },
    {
        match outcome {
            QueryOutcome::Provider(row) => Ok(PreProvider { uri: uri.to_owned(), name: row.name }),
            QueryOutcome::Empty => Err(ResolveError::VanishedResource),
            _ => Err(ResolveError::QueryExecutionFailure),
        }
    }
}

} // verus!
