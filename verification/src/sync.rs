//! Bringing a resource into the directory from nothing but its URI. The
//! store is asked what the URI names; a resource whose parent is not live
//! waits until the parent is resolved too. The caller puts each query to the
//! store and hands the answer back.

use crate::directory::{AddError, DirectoryView};
use crate::manager::Manager;
use crate::notification::{notes, Notification, NotificationView};
use crate::pre_resource::{
    Attribute, PreResource, PreResourceView, Query, QueryOutcome, Resolution, ResolutionView, ResolveError,
    ResolveErrorView, Step, StepView,
};
use crate::resource::{Resource, ResourceKind, ResourceView};
use crate::timeframe::TimeframeView;
use vstd::prelude::*;

verus! {

/// The views of a sequence of resources.
pub open spec fn resource_views(resources: Seq<Resource>) -> Seq<ResourceView> {
    Seq::new(resources.len(), |i: int| resources[i]@)
}

/// Why a URI was passed over. The directory goes on without it.
#[derive(Debug, Clone, PartialEq, Eq)]
pub enum SyncError {
    /// The URI, or the URI of an ancestor, could not be resolved.
    Resolve(ResolveError),
    /// The directory refused the resource or one of its ancestors.
    Add(AddError),
}

/// The reason for passing over a URI, as text values.
pub enum SyncErrorView {
    Resolve(ResolveErrorView),
    Add(AddError),
}

impl View for SyncError {
    type V = SyncErrorView;

    open spec fn view(&self) -> SyncErrorView {
        match self {
            SyncError::Resolve(e) => SyncErrorView::Resolve(e@),
            SyncError::Add(e) => SyncErrorView::Add(*e),
        }
    }
}

/// The work of bringing one resource into the directory, under way: the
/// resolution that is awaiting an answer, and the resources that wait for
/// their parent, each the child of the next.
pub struct Materialization {
    resolution: Resolution,
    waiting: Vec<Resource>,
}

/// A materialization as text values.
pub struct MaterializationView {
    pub resolution: ResolutionView,
    pub waiting: Seq<ResourceView>,
}

impl View for Materialization {
    type V = MaterializationView;

    closed spec fn view(&self) -> MaterializationView {
        MaterializationView { resolution: self.resolution@, waiting: resource_views(self.waiting@) }
    }
}

/// How the work stands after an answer.
pub enum Progress {
    /// Another query has to be answered.
    Pending(Materialization),
    /// The resource and the ancestors that were missing joined the
    /// directory; this is what observers are to be told.
    Done(Vec<Notification>),
    /// The URI is passed over.
    Skipped(SyncError),
}

/// Progress as text values.
pub enum ProgressView {
    Pending(MaterializationView),
    Done(Seq<NotificationView>),
    Skipped(SyncErrorView),
}

impl View for Progress {
    type V = ProgressView;

    open spec fn view(&self) -> ProgressView {
        match self {
            Progress::Pending(m) => ProgressView::Pending(m@),
            Progress::Done(log) => ProgressView::Done(notes(log@)),
            Progress::Skipped(e) => ProgressView::Skipped(e@),
        }
    }
}

impl Materialization {
    /// No resource that waits holds a handle.
    #[verifier::type_invariant]
    pub closed spec fn fresh(&self) -> bool {
        forall|i: int| 0 <= i < self.waiting@.len() ==> (#[trigger] self.waiting@[i])@.children().len()
            == 0
    }

    /// The URI that the pending query is about.
    pub fn uri(&self) -> (uri: &str)
        ensures
            uri@ == self@.resolution.uri,
    {
        self.resolution.uri()
    }

    /// The query that the store has to answer next.
    pub fn query(&self) -> (query: Query)
        ensures
            query == self@.resolution.pending,
    {
        self.resolution.query()
    }
}

/// The descriptor is of an event, and the work ended by passing it over
/// because its start or its end could not be read.
pub open spec fn passed_over_as_malformed(pre: PreResourceView, progress: ProgressView) -> bool {
    match (pre, progress) {
        (
            PreResourceView::Event(e),
            ProgressView::Skipped(
                SyncErrorView::Resolve(ResolveErrorView::MalformedAttribute { uri, attribute }),
            ),
        ) => uri == e.uri && (attribute == Attribute::EventStart || attribute
            == Attribute::EventEnd),
        _ => false,
    }
}

/// Whether a resource of kind `parent` holds resources of kind `child`.
fn holds(parent: ResourceKind, child: ResourceKind) -> (fits: bool)
    ensures
        fits == (parent.child() == Some(child)),
{
    match parent {
        ResourceKind::Provider => match child {
            ResourceKind::Collection => true,
            _ => false,
        },
        ResourceKind::Collection => match child {
            ResourceKind::Calendar => true,
            _ => false,
        },
        ResourceKind::Calendar => match child {
            ResourceKind::Event => true,
            _ => false,
        },
        ResourceKind::Event => false,
    }
}

/// A log that got the notifications of another log at its end.
proof fn lemma_notes_add(before: Seq<Notification>, added: Seq<Notification>)
    ensures
        notes(before + added) == notes(before) + notes(added),
{
    assert(notes(before + added) =~= notes(before) + notes(added));
}

impl Manager {
    /// Starts to bring the resource `uri` into the directory. The result is
    /// `None` where it is live already; else the first query is pending.
    pub fn materialize(&self, uri: &str) -> (work: Option<Materialization>)
        ensures
            match work {
                Some(m) => !self@.pool.contains_key(uri@) && m@ == (MaterializationView {
                    resolution: ResolutionView {
                        uri: uri@,
                        pending: Query::Ask(ResourceKind::Event),
                    },
                    waiting: Seq::empty(),
                }),
                None => self@.pool.contains_key(uri@),
            },
    {
        match self.find_resource(uri) {
            Some(_) => None,
            None => {
                let m = Materialization { resolution: PreResource::from_uri(uri), waiting: Vec::new() };
                assert(m@.waiting =~= Seq::<ResourceView>::empty());
                Some(m)
            },
        }
    }

    /// Places the resolved resource `node`, for which `waiting` wait: it
    /// waits for its parent, or joins the directory together with them.
    fn place(&mut self, waiting: Vec<Resource>, node: Resource) -> (progress: Progress)
        requires
            old(self).wf(),
            node@.children().len() == 0,
            forall|i: int|
                0 <= i < waiting@.len() ==> (#[trigger] waiting@[i])@.children().len() == 0,
        ensures
            final(self).wf(),
            (final(self)@, progress@) == old(self)@.place(resource_views(waiting@), node@),
    {
        let ghost before = self@;
        let ghost waited = resource_views(waiting@);
        let ghost placed = node@;
        let mut pending = waiting;
        if pending.len() > 0 && !holds(node.kind(), pending[pending.len() - 1].kind()) {
            return Progress::Skipped(SyncError::Add(AddError::MissingParent));
        }
        let wanted: Option<String> = match node.parent_uri() {
            Some(parent_uri) => if self.find_resource(parent_uri).is_none() {
                Some(parent_uri.to_owned())
            } else {
                None
            },
            None => None,
        };
        match wanted {
            Some(parent_uri) => {
                pending.push(node);
                let next = Materialization {
                    resolution: PreResource::from_uri(parent_uri.as_str()),
                    waiting: pending,
                };
                assert(next@.waiting =~= waited.push(placed));
                return Progress::Pending(next);
            },
            None => {},
        }
        let ghost stack = waited.push(placed);
        assert(stack.drop_last() =~= waited);
        let mut log: Vec<Notification> = Vec::new();
        assert(notes(log@) =~= Seq::<NotificationView>::empty());
        match self.register(node) {
            Ok(told) => {
                let mut told = told;
                proof {
                    lemma_notes_add(log@, told@);
                }
                log.append(&mut told);
            },
            Err(e) => {
                return Progress::Skipped(SyncError::Add(e));
            },
        }
        while pending.len() > 0
            invariant
                self.wf(),
                waited == resource_views(waiting@),
                placed == node@,
                before == old(self)@,
                stack == waited.push(placed),
                before.place(waited, placed).0 == before.with_stack(stack).0,
                before.place(waited, placed).1 == match before.with_stack(stack).2 {
                    None => ProgressView::Done(before.with_stack(stack).1),
                    Some(e) => ProgressView::Skipped(SyncErrorView::Add(e)),
                },
                forall|i: int|
                    0 <= i < pending@.len() ==> (#[trigger] pending@[i])@.children().len() == 0,
                before.with_stack(stack) == ({
                    let rest = self@.with_stack(resource_views(pending@));
                    (rest.0, notes(log@) + rest.1, rest.2)
                }),
            decreases pending@.len(),
        {
            let ghost left = self@;
            let ghost stack_left = resource_views(pending@);
            let ghost told_before = notes(log@);
            let next = pending.pop().unwrap();
            assert(stack_left.last() == next@);
            assert(stack_left.drop_last() =~= resource_views(pending@));
            match self.register(next) {
                Ok(told) => {
                    let mut told = told;
                    proof {
                        lemma_notes_add(log@, told@);
                        let rest = self@.with_stack(resource_views(pending@));
                        assert(told_before + (left.addition_log(next@) + rest.1) =~= (told_before
                            + notes(told@)) + rest.1);
                    }
                    log.append(&mut told);
                },
                Err(e) => {
                    assert(left.with_stack(stack_left) == (
                        left,
                        Seq::<NotificationView>::empty(),
                        Some(e),
                    ));
                    return Progress::Skipped(SyncError::Add(e));
                },
            }
        }
        assert(resource_views(pending@) =~= Seq::<ResourceView>::empty());
        assert(notes(log@) + Seq::<NotificationView>::empty() =~= notes(log@));
        Progress::Done(log)
    }

    /// Goes on with the work `m` once the resolution that it awaited has
    /// ended with `resolved`. A resolution that failed passes the URI over.
    /// A resource that was resolved is placed: it waits for its parent, or
    /// joins the directory together with those that waited for it.
    pub fn settle(&mut self, m: Materialization, resolved: Result<Resource, ResolveError>) -> (progress:
        Progress)
        requires
            old(self).wf(),
            resolved matches Ok(node) ==> node@.children().len() == 0,
        ensures
            final(self).wf(),
            match resolved {
                Ok(node) => (final(self)@, progress@) == old(self)@.place(m@.waiting, node@),
                Err(e) => final(self)@ == old(self)@ && progress@ == ProgressView::Skipped(
                    SyncErrorView::Resolve(e@),
                ),
            },
    {
        proof {
            use_type_invariant(&m);
        }
        match resolved {
            Ok(node) => self.place(m.waiting, node),
            Err(e) => Progress::Skipped(SyncError::Resolve(e)),
        }
    }

    /// Goes on with the work `m` once the store answered the pending query
    /// with `outcome`.
    ///
    /// While the resolution is under way, or where it fails, the directory
    /// stays as it is. A descriptor that is resolved is made into a
    /// resource and placed. The two ends of an event are read as instants
    /// with a time zone, which depends on the time zones that the machine
    /// knows: an event that cannot be read is passed over as malformed, and
    /// one that can be read is placed with some time frame that agrees with
    /// the descriptor on whether it takes the whole day.
    pub fn supply(&mut self, m: Materialization, outcome: QueryOutcome) -> (progress: Progress)
        requires
            old(self).wf(),
        ensures
            final(self).wf(),
            match m@.resolution.answer(outcome) {
                StepView::Pending(r) => final(self)@ == old(self)@ && progress@
                    == ProgressView::Pending(
                    MaterializationView { resolution: r, waiting: m@.waiting },
                ),
                StepView::Failed(e) => final(self)@ == old(self)@ && progress@
                    == ProgressView::Skipped(SyncErrorView::Resolve(e)),
                StepView::Resolved(pre) => {
                    ||| final(self)@ == old(self)@ && passed_over_as_malformed(pre, progress@)
                    ||| exists|timeframe: TimeframeView|
                        {
                            &&& pre matches PreResourceView::Event(e) ==> timeframe.all_day
                                == e.all_day
                            &&& (final(self)@, progress@) == old(self)@.place(
                                m@.waiting,
                                #[trigger] pre.node(timeframe),
                            )
                        }
                },
            },
    {
        proof {
            use_type_invariant(&m);
        }
        let Materialization { resolution, waiting } = m;
        match resolution.answer(outcome) {
            Step::Pending(resolution) => Progress::Pending(Materialization { resolution, waiting }),
            Step::Failed(e) => Progress::Skipped(SyncError::Resolve(e)),
            Step::Resolved(pre) => match Resource::from_descriptor(pre) {
                Ok(node) => {
                    let progress = self.place(waiting, node);
                    assert((self@, progress@) == old(self)@.place(
                        m@.waiting,
                        pre@.node(node@.timeframe()),
                    ));
                    progress
                },
                Err(e) => Progress::Skipped(SyncError::Resolve(e)),
            },
        }
    }
}

} // verus!
