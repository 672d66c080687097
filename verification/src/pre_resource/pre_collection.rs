use crate::pre_resource::{QueryOutcome, ResolveError, ResolveErrorView};
use vstd::prelude::*;

verus! {

/// What the store holds about a collection.
#[derive(Debug, Clone, PartialEq, Eq)]
pub struct PreCollection {
    pub uri: String,
    pub provider_uri: String,
    pub name: String,
}

/// A collection descriptor as text values.
pub struct PreCollectionView {
    pub uri: Seq<char>,
    pub provider_uri: Seq<char>,
    pub name: Seq<char>,
}

impl View for PreCollection {
    type V = PreCollectionView;

    open spec fn view(&self) -> PreCollectionView {
        PreCollectionView { uri: self.uri@, provider_uri: self.provider_uri@, name: self.name@ }
    }
}

impl PreCollection {
    /// The descriptor, or the error, that an answer to the query for a
    /// collection's attributes stands for.
    pub open spec fn resolved(uri: Seq<char>, outcome: QueryOutcome) -> Result<
        PreCollectionView,
        ResolveErrorView,
    > {
        match outcome {
            QueryOutcome::Collection(row) => Ok(
                PreCollectionView { uri, provider_uri: row.provider@, name: row.name@ },
            ),
            QueryOutcome::Empty => Err(ResolveErrorView::VanishedResource),
            _ => Err(ResolveErrorView::QueryExecutionFailure),
        }
    }

    /// Builds the descriptor of the collection `uri` from the store's answer
    /// to the query for its attributes. An answer without a row means that the
    /// collection vanished after its kind was established; any answer that is
    /// not a collection's row counts as a failed query.
    pub fn from_uri(uri: &str, outcome: QueryOutcome) -> (r: Result<PreCollection, ResolveError>)
        ensures
            match r {
                Ok(p) => Self::resolved(uri@, outcome) == Ok::<
                    PreCollectionView,
                    ResolveErrorView,
                >(p@),
                Err(e) => Self::resolved(uri@, outcome) == Err::<
                    PreCollectionView,
                    ResolveErrorView,
                >(e@),
            },
    {
        match outcome {
            QueryOutcome::Collection(row) => Ok(
                PreCollection { uri: uri.to_owned(), provider_uri: row.provider, name: row.name },
            ),
            QueryOutcome::Empty => Err(ResolveError::VanishedResource),
            _ => Err(ResolveError::QueryExecutionFailure),
        }
    }
}

} // verus!
