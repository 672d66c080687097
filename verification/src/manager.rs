//! The directory itself: the pool of live resources, the list of all
//! collections and the observers of deletions, kept in agreement while
//! resources come and go.

use crate::calendar::Calendar;
use crate::collection::Collection;
use crate::collections_model::CollectionsModel;
use crate::color::Rgba;
use crate::container::{texts, ObservableContainer};
use crate::directory::{
    lemma_left_holder, lemma_partly_without_end, lemma_partly_without_start,
    lemma_partly_without_step, lemma_replaced_wf, lemma_with_wf, lemma_without_leaf_wf, AddError,
    DirectoryView,
};
use crate::event::Event;
use crate::notification::{notes, HandlerId, Notification, NotificationView};
use crate::pool::ResourcePool;
use crate::pre_resource::pre_calendar::PreCalendar;
use crate::pre_resource::pre_collection::PreCollection;
use crate::pre_resource::pre_provider::PreProvider;
use crate::provider::Provider;
use crate::resource::{Property, Resource, ResourceView};
use vstd::hash_map::StringHashMap;
use vstd::prelude::*;

verus! {

/// The directory of all live resources.
pub struct Manager {
    resource_pool: ResourcePool,
    collections_model: CollectionsModel,
    observers: StringHashMap<Vec<HandlerId>>,
    next_handler: u64,
}

impl View for Manager {
    type V = DirectoryView;

    closed spec fn view(&self) -> DirectoryView {
        DirectoryView {
            pool: self.resource_pool@,
            model: self.collections_model@,
            observers: self.observers@.map_values(|list: Vec<HandlerId>| list@),
            next_handler: self.next_handler as nat,
        }
    }
}

/// A copy of a list of observers.
fn copy_handlers(list: &Vec<HandlerId>) -> (copy: Vec<HandlerId>)
    ensures
        copy@ == list@,
{
    let mut copy: Vec<HandlerId> = Vec::new();
    let mut i: usize = 0;
    while i < list.len()
        invariant
            i <= list@.len(),
            copy@ == list@.take(i as int),
        decreases list@.len() - i,
    {
        copy.push(list[i]);
        assert(copy@ =~= list@.take(i as int + 1));
        i += 1;
    }
    assert(list@.take(list@.len() as int) =~= list@);
    copy
}

impl Default for Manager {
    /// An empty directory.
    fn default() -> (manager: Manager)
        ensures
            manager.wf(),
            manager@.pool == Map::<Seq<char>, ResourceView>::empty(),
            manager@.model == Seq::<Seq<char>>::empty(),
    {
        Manager::new()
    }
}

/// A log that got one more notification.
proof fn lemma_notes_push(before: Seq<Notification>, added: Notification)
    ensures
        notes(before.push(added)) == notes(before).push(added@),
{
    assert(notes(before.push(added)) =~= notes(before).push(added@));
}

impl Manager {
    /// The pool and the lists of handles agree. This holds of every
    /// directory that this library hands out.
    pub open spec fn wf(&self) -> bool {
        self@.wf()
    }

    /// An empty directory.
    pub fn new() -> (manager: Manager)
        ensures
            manager.wf(),
            manager@.pool == Map::<Seq<char>, ResourceView>::empty(),
            manager@.model == Seq::<Seq<char>>::empty(),
            manager@.observers == Map::<Seq<char>, Seq<HandlerId>>::empty(),
            manager@.next_handler == 0,
    {
        let manager = Manager {
            resource_pool: ResourcePool::new(),
            collections_model: CollectionsModel::new(),
            observers: StringHashMap::new(),
            next_handler: 0,
        };
        assert(manager@.observers =~= Map::<Seq<char>, Seq<HandlerId>>::empty());
        manager
    }

    /// A copy of the resource that `uri` names, if it is live. The copy
    /// bears the URI that was asked for.
    pub fn find_resource(&self, uri: &str) -> (found: Option<Resource>)
        ensures
            match found {
                Some(resource) => self@.pool.contains_key(uri@) && resource@ == self@.pool[uri@]
                    && resource@.uri() == uri@,
                None => !self@.pool.contains_key(uri@),
            },
    {
        self.resource_pool.get(uri)
    }

    /// The list of all collections.
    pub fn collections_model(&self) -> (model: &CollectionsModel)
        ensures
            model@ == self@.model,
    {
        &self.collections_model
    }

    /// Deletes the resource `uri`, which holds no handles, and notes what
    /// observers are to be told.
    fn remove_leaf(&mut self, uri: &str, log: &mut Vec<Notification>)
        requires
            old(self).wf(),
            old(self)@.pool.contains_key(uri@),
            old(self)@.pool[uri@].children().len() == 0,
        ensures
            final(self).wf(),
            final(self)@ == old(self)@.without_leaf(uri@),
            notes(final(log)@) == notes(old(log)@) + old(self)@.own_log(uri@),
    {
        let ghost before = self@;
        proof {
            lemma_without_leaf_wf(before, uri@);
        }
        let node = self.resource_pool.get(uri);
        match node {
            Some(node) => {
                let handlers = match self.observers.get(uri) {
                    Some(connected) => copy_handlers(connected),
                    None => Vec::new(),
                };
                let fired = Notification::Deleted {
                    uri: uri.to_owned(),
                    kind: node.kind(),
                    handlers,
                };
                proof {
                    lemma_notes_push(log@, fired);
                }
                log.push(fired);
                match node.parent_uri() {
                    Some(parent_uri) => {
                        match self.resource_pool.get(parent_uri) {
                            Some(parent) => {
                                let mut parent = parent;
                                match parent.remove_child(uri) {
                                    Some(change) => {
                                        let left = Notification::ItemsChanged {
                                            owner: parent_uri.to_owned(),
                                            change,
                                        };
                                        proof {
                                            lemma_notes_push(log@, left);
                                        }
                                        log.push(left);
                                    },
                                    None => {},
                                }
                                self.resource_pool.insert(parent);
                            },
                            None => {},
                        }
                    },
                    None => {},
                }
                match self.collections_model.remove_item(uri) {
                    Some(change) => {
                        let left = Notification::ModelChanged { change };
                        proof {
                            lemma_notes_push(log@, left);
                        }
                        log.push(left);
                    },
                    None => {},
                }
                self.resource_pool.remove(uri);
                self.observers.remove(uri);
                proof {
                    assert(self@.pool =~= before.without_leaf(uri@).pool);
                    assert(self@.observers =~= before.without_leaf(uri@).observers);
                    assert(notes(log@) =~= notes(old(log)@) + before.own_log(uri@));
                }
            },
            None => {},
        }
    }

    /// Deletes the resource `uri` after all that it holds: its children are
    /// taken in the order of their handles as they stood at the start, each
    /// with its own descendants before itself.
    fn delete_subtree(&mut self, uri: &str, log: &mut Vec<Notification>)
        requires
            old(self).wf(),
            old(self)@.pool.contains_key(uri@),
        ensures
            final(self).wf(),
            final(self)@ == old(self)@.without(uri@),
            notes(final(log)@) == notes(old(log)@) + old(self)@.deletion_log(uri@),
        decreases old(self)@.pool[uri@].kind().depth(),
    {
        let ghost start = self@;
        let ghost logged = notes(log@);
        let kids: Vec<String> = match self.resource_pool.get(uri) {
            Some(node) => match node.children() {
                Some(children) => children.snapshot(),
                None => Vec::new(),
            },
            None => Vec::new(),
        };
        assert(texts(kids@) =~= start.pool[uri@].children());
        proof {
            lemma_partly_without_start(start, uri@);
        }
        let mut i: usize = 0;
        while i < kids.len()
            invariant
                0 <= i <= kids@.len(),
                texts(kids@) == start.pool[uri@].children(),
                start.wf(),
                start.pool.contains_key(uri@),
                start == old(self)@,
                self.wf(),
                start.partly_without(uri@, i as int, self@),
                notes(log@) + self@.deletion_log(uri@) == logged + start.deletion_log(uri@),
            decreases kids@.len() - i,
        {
            let ghost left = self@;
            let ghost told = notes(log@);
            proof {
                lemma_partly_without_step(start, uri@, i as int, left);
                lemma_left_holder(start, uri@, i as int, left);
                assert(texts(kids@)[i as int] == kids@[i as int]@);
            }
            self.delete_subtree(kids[i].as_str(), log);
            proof {
                let child = kids@[i as int]@;
                lemma_left_holder(start, uri@, i as int + 1, self@);
                assert(left.pool[uri@].children()[0] == child);
                assert(left.deletion_log(uri@) == left.deletion_log(child) + self@.deletion_log(
                    uri@,
                ));
                assert(notes(log@) + self@.deletion_log(uri@) =~= told + left.deletion_log(uri@));
            }
            i += 1;
        }
        proof {
            lemma_partly_without_end(start, uri@, self@);
        }
        let ghost left = self@;
        self.remove_leaf(uri, log);
        proof {
            assert(left.deletion_log(uri@) == left.own_log(uri@));
            assert(notes(log@) =~= logged + start.deletion_log(uri@));
        }
    }

    /// Takes note that the resource `uri` was deleted at the backend. The
    /// resource goes, and with it all its descendants: from the pool, from
    /// the list of the resource it belonged to, and from the list of all
    /// collections. The result holds what observers are to be told, in
    /// order: each descendant is reported before the resource it belongs
    /// to, siblings in the order of their handles. Where `uri` names no live
    /// resource, nothing changes and nothing is reported.
    pub fn emit_deleted(&mut self, uri: &str) -> (log: Vec<Notification>)
        requires
            old(self).wf(),
        ensures
            final(self).wf(),
            old(self)@.pool.contains_key(uri@) ==> final(self)@ == old(self)@.without(uri@)
                && notes(log@) == old(self)@.deletion_log(uri@),
            !old(self)@.pool.contains_key(uri@) ==> final(self)@ == old(self)@ && log@.len() == 0,
    {
        let mut log: Vec<Notification> = Vec::new();
        assert(notes(log@) =~= Seq::<NotificationView>::empty());
        if self.resource_pool.contains(uri) {
            self.delete_subtree(uri, &mut log);
            assert(notes(log@) =~= old(self)@.deletion_log(uri@));
        }
        log
    }

    /// Lets `node`, which holds no handles, join the directory if the
    /// directory accepts it.
    pub(crate) fn register(&mut self, node: Resource) -> (r: Result<Vec<Notification>, AddError>)
        requires
            old(self).wf(),
            node@.children().len() == 0,
        ensures
            final(self).wf(),
            match r {
                Ok(log) => old(self)@.accepts(node@).is_ok() && final(self)@ == old(self)@.with(
                    node@,
                ) && notes(log@) == old(self)@.addition_log(node@),
                Err(e) => old(self)@.accepts(node@) == Err::<(), AddError>(e) && final(self)@
                    == old(self)@,
            },
    {
        let ghost before = self@;
        let mut log: Vec<Notification> = Vec::new();
        assert(notes(log@) =~= Seq::<NotificationView>::empty());
        if self.resource_pool.contains(node.uri()) {
            return Err(AddError::AlreadyRegistered);
        }
        match node.parent_uri() {
            Some(parent_uri) => {
                match self.resource_pool.get(parent_uri) {
                    Some(parent) => {
                        let mut parent = parent;
                        match parent.add_child(&node) {
                            Some(change) => {
                                let grown = Notification::ItemsChanged {
                                    owner: parent_uri.to_owned(),
                                    change,
                                };
                                proof {
                                    lemma_notes_push(log@, grown);
                                }
                                log.push(grown);
                                self.resource_pool.insert(parent);
                            },
                            None => {
                                return Err(AddError::MissingParent);
                            },
                        }
                    },
                    None => {
                        return Err(AddError::MissingParent);
                    },
                }
            },
            None => {},
        }
        match &node {
            Resource::Collection(collection) => {
                let change = self.collections_model.append(collection);
                let grown = Notification::ModelChanged { change };
                proof {
                    lemma_notes_push(log@, grown);
                }
                log.push(grown);
            },
            _ => {},
        }
        self.resource_pool.insert(node);
        proof {
            lemma_with_wf(before, node@);
            assert(self@.pool =~= before.with(node@).pool);
            assert(notes(log@) =~= before.addition_log(node@));
        }
        Ok(log)
    }

    /// Lets the provider that `pre` describes join the directory. It is
    /// refused where its URI is taken. On success nothing is to be notified.
    pub fn add_provider(&mut self, pre: &PreProvider) -> (r: Result<Vec<Notification>, AddError>)
        requires
            old(self).wf(),
        ensures
            final(self).wf(),
            match r {
                Ok(log) => old(self)@.accepts(Self::provider_of(*pre)).is_ok() && final(self)@
                    == old(self)@.with(Self::provider_of(*pre)) && notes(log@) == old(
                    self,
                )@.addition_log(Self::provider_of(*pre)),
                Err(e) => old(self)@.accepts(Self::provider_of(*pre)) == Err::<(), AddError>(e)
                    && final(self)@ == old(self)@,
            },
    {
        self.register(
            Resource::Provider(Provider::new(pre.uri.as_str(), pre.name.as_str())),
        )
    }

    /// Lets the collection that `pre` describes join the directory. It is
    /// refused where its URI is taken, or where its provider is not live. On
    /// success it stands last in its provider's list and last in the list of
    /// all collections, and both changes are to be notified.
    pub fn add_collection(&mut self, pre: &PreCollection) -> (r: Result<
        Vec<Notification>,
        AddError,
    >)
        requires
            old(self).wf(),
        ensures
            final(self).wf(),
            match r {
                Ok(log) => old(self)@.accepts(Self::collection_of(*pre)).is_ok() && final(self)@
                    == old(self)@.with(Self::collection_of(*pre)) && notes(log@) == old(
                    self,
                )@.addition_log(Self::collection_of(*pre)),
                Err(e) => old(self)@.accepts(Self::collection_of(*pre)) == Err::<(), AddError>(e)
                    && final(self)@ == old(self)@,
            },
    {
        self.register(
            Resource::Collection(
                Collection::new(pre.provider_uri.as_str(), pre.uri.as_str(), pre.name.as_str()),
            ),
        )
    }

    /// Lets the calendar that `pre` describes join the directory. It is
    /// refused where its URI is taken, or where its collection is not live.
    /// On success it stands last in its collection's list, which is to be
    /// notified.
    pub fn add_calendar(&mut self, pre: &PreCalendar) -> (r: Result<Vec<Notification>, AddError>)
        requires
            old(self).wf(),
        ensures
            final(self).wf(),
            match r {
                Ok(log) => old(self)@.accepts(Self::calendar_of(*pre)).is_ok() && final(self)@
                    == old(self)@.with(Self::calendar_of(*pre)) && notes(log@) == old(
                    self,
                )@.addition_log(Self::calendar_of(*pre)),
                Err(e) => old(self)@.accepts(Self::calendar_of(*pre)) == Err::<(), AddError>(e)
                    && final(self)@ == old(self)@,
            },
    {
        self.register(
            Resource::Calendar(
                Calendar::new(
                    pre.collection_uri.as_str(),
                    pre.uri.as_str(),
                    pre.name.as_str(),
                    pre.color,
                ),
            ),
        )
    }

    /// Lets `event` join the directory. It is refused where its URI is
    /// taken, or where its calendar is not live. On success it stands last in
    /// its calendar's list, which is to be notified.
    pub fn add_event(&mut self, event: Event) -> (r: Result<Vec<Notification>, AddError>)
        requires
            old(self).wf(),
        ensures
            final(self).wf(),
            match r {
                Ok(log) => old(self)@.accepts(ResourceView::Event(event@)).is_ok() && final(self)@
                    == old(self)@.with(ResourceView::Event(event@)) && notes(log@) == old(
                    self,
                )@.addition_log(ResourceView::Event(event@)),
                Err(e) => old(self)@.accepts(ResourceView::Event(event@)) == Err::<(), AddError>(
                    e,
                ) && final(self)@ == old(self)@,
            },
    {
        self.register(Resource::Event(event))
    }

    /// Takes note that the backend reports `name` and `color` for the
    /// resource `uri`. The resource takes the name, and a calendar the
    /// colour as well. The result names the attributes that changed, the
    /// name first: a report of what the resource holds already names
    /// nothing. It is `None` where `uri` names no live resource.
    pub fn emit_updated(&mut self, uri: &str, name: &str, color: Rgba) -> (changed: Option<
        Vec<Property>,
    >)
        requires
            old(self).wf(),
        ensures
            final(self).wf(),
            match changed {
                Some(properties) => old(self)@.pool.contains_key(uri@) && final(self)@ == old(
                    self,
                )@.replaced(uri@, old(self)@.pool[uri@].updated(name@, color)) && properties@
                    == old(self)@.pool[uri@].changes(name@, color),
                None => !old(self)@.pool.contains_key(uri@) && final(self)@ == old(self)@,
            },
    {
        let ghost before = self@;
        match self.resource_pool.get(uri) {
            Some(node) => {
                let mut node = node;
                let changed = node.emit_updated(name, color);
                proof {
                    lemma_replaced_wf(before, uri@, node@);
                }
                self.resource_pool.insert(node);
                Some(changed)
            },
            None => None,
        }
    }

    /// Connects one more observer to the deletion of the resource `uri`
    /// and names it. When the resource is deleted, the notification of its
    /// deletion names its observers in the order in which they were
    /// connected, and they are forgotten with it. The result is `None`, and
    /// nothing changes, where `uri` names no live resource or where no
    /// number is left to name an observer with.
    pub fn connect_deleted(&mut self, uri: &str) -> (handler: Option<HandlerId>)
        requires
            old(self).wf(),
        ensures
            final(self).wf(),
            match handler {
                Some(id) => {
                    &&& old(self)@.pool.contains_key(uri@)
                    &&& old(self)@.next_handler < u64::MAX
                    &&& id == HandlerId(old(self)@.next_handler as u64)
                    &&& final(self)@ == old(self)@.connected(uri@)
                },
                None => (!old(self)@.pool.contains_key(uri@) || old(self)@.next_handler
                    >= u64::MAX) && final(self)@ == old(self)@,
            },
    {
        if !self.resource_pool.contains(uri) || self.next_handler == u64::MAX {
            return None;
        }
        let id = HandlerId(self.next_handler);
        let mut connected = match self.observers.get(uri) {
            Some(before) => copy_handlers(before),
            None => Vec::new(),
        };
        connected.push(id);
        self.observers.insert(uri.to_owned(), connected);
        self.next_handler = self.next_handler + 1;
        proof {
            assert(self@.observers =~= old(self)@.connected(uri@).observers);
        }
        Some(id)
    }

    /// The observers that are connected to the deletion of `uri`, in the
    /// order in which they were connected.
    pub fn handlers(&self, uri: &str) -> (connected: Vec<HandlerId>)
        ensures
            connected@ == self@.handlers_of(uri@),
    {
        match self.observers.get(uri) {
            Some(connected) => copy_handlers(connected),
            None => Vec::new(),
        }
    }

    /// The events that match a query. The search is not connected to any
    /// index: the result is always empty.
    pub fn search_events(&self, _query: &str) -> (found: ObservableContainer)
        ensures
            found@ == Seq::<Seq<char>>::empty(),
    {
        ObservableContainer::new()
    }

    /// The provider, without collections, that `pre` describes.
    pub open spec fn provider_of(pre: PreProvider) -> ResourceView {
        ResourceView::Provider(
            crate::provider::ProviderView { uri: pre.uri@, name: pre.name@, collections: Seq::empty() },
        )
    }

    /// The collection, without calendars, that `pre` describes.
    pub open spec fn collection_of(pre: PreCollection) -> ResourceView {
        ResourceView::Collection(
            crate::collection::CollectionView {
                uri: pre.uri@,
                provider_uri: pre.provider_uri@,
                name: pre.name@,
                calendars: Seq::empty(),
            },
        )
    }

    /// The calendar, without events, that `pre` describes.
    pub open spec fn calendar_of(pre: PreCalendar) -> ResourceView {
        ResourceView::Calendar(
            crate::calendar::CalendarView {
                uri: pre.uri@,
                collection_uri: pre.collection_uri@,
                name: pre.name@,
                color: Some(pre.color),
                events: Seq::empty(),
            },
        )
    }
}

} // verus!
