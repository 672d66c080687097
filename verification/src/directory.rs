//! The directory as a mathematical value: a map from URI to resource, the
//! list of all collections and the observers of deletions, with the rules
//! that tie them together.

use crate::notification::{one_added, one_removed, HandlerId, NotificationView};
use crate::pre_resource::{Query, ResolutionView};
use crate::resource::{ResourceKind, ResourceView};
use crate::sync::{MaterializationView, ProgressView, SyncErrorView};
use vstd::prelude::*;

verus! {

/// `list` without the first occurrence of each item of `gone`.
pub open spec fn remove_all(list: Seq<Seq<char>>, gone: Seq<Seq<char>>) -> Seq<Seq<char>>
    decreases gone.len(),
{
    if gone.len() == 0 {
        list
    } else {
        remove_all(list, gone.drop_last()).remove_value(gone.last())
    }
}

/// Why a resource cannot join the directory.
#[derive(Clone, Copy, Debug, PartialEq, Eq, Structural)]
pub enum AddError {
    /// A live resource bears the URI already.
    AlreadyRegistered,
    /// The resource that it says it belongs to is not live, or is of the
    /// wrong kind.
    MissingParent,
}

/// The pool of live resources, the list of all collections, and the
/// observers of deletions: for each resource, the observers that were
/// connected to it, in order. `next_handler` is the number that the next
/// observer gets.
pub struct DirectoryView {
    pub pool: Map<Seq<char>, ResourceView>,
    pub model: Seq<Seq<char>>,
    pub observers: Map<Seq<char>, Seq<HandlerId>>,
    pub next_handler: nat,
}

impl DirectoryView {
    /// Every resource is stored under its own URI.
    pub open spec fn identity(self) -> bool {
        forall|k: Seq<char>| self.pool.contains_key(k) ==> (#[trigger] self.pool[k]).uri() == k
    }

    /// Every handle that a resource holds names a live resource of the next
    /// kind down, which names the holder as the one it belongs to.
    pub open spec fn children_linked(self) -> bool {
        forall|k: Seq<char>, i: int|
            self.pool.contains_key(k) && 0 <= i < self.pool[k].children().len() ==> {
                let c = #[trigger] self.pool[k].children()[i];
                &&& self.pool.contains_key(c)
                &&& self.pool[c].parent() == Some(k)
                &&& Some(self.pool[c].kind()) == self.pool[k].kind().child()
            }
    }

    /// No resource holds a handle twice.
    pub open spec fn children_distinct(self) -> bool {
        forall|k: Seq<char>|
            self.pool.contains_key(k) ==> (#[trigger] self.pool[k]).children().no_duplicates()
    }

    /// Every resource but a provider belongs to a live resource that holds
    /// its handle: there are no orphans.
    pub open spec fn parents_linked(self) -> bool {
        forall|k: Seq<char>|
            self.pool.contains_key(k) ==> match (#[trigger] self.pool[k]).parent() {
                Some(p) => self.pool.contains_key(p) && self.pool[p].children().contains(k),
                None => true,
            }
    }

    /// The list of all collections holds each live collection once and
    /// nothing else.
    pub open spec fn model_listed(self) -> bool {
        &&& self.model.no_duplicates()
        &&& forall|u: Seq<char>| #[trigger]
            self.model.contains(u) <==> (self.pool.contains_key(u) && self.pool[u].kind()
                == ResourceKind::Collection)
    }

    /// Observers are connected to live resources only, and each bears a
    /// number that was handed out already.
    pub open spec fn observers_live(self) -> bool {
        &&& forall|k: Seq<char>| #[trigger]
            self.observers.contains_key(k) ==> self.pool.contains_key(k)
        &&& forall|k: Seq<char>, i: int|
            self.observers.contains_key(k) && 0 <= i < self.observers[k].len() ==> (
            #[trigger] self.observers[k][i]).0 < self.next_handler
    }

    /// The pool and the lists of handles agree.
    pub open spec fn wf(self) -> bool {
        &&& self.identity()
        &&& self.children_linked()
        &&& self.children_distinct()
        &&& self.parents_linked()
        &&& self.model_listed()
        &&& self.observers_live()
    }

    /// The observers that are connected to `u`, in the order in which they
    /// were connected.
    pub open spec fn handlers_of(self, u: Seq<char>) -> Seq<HandlerId> {
        if self.observers.contains_key(u) {
            self.observers[u]
        } else {
            Seq::empty()
        }
    }

    /// The directory after one more observer is connected to `u`: it comes
    /// last among the observers of `u` and bears the next number.
    pub open spec fn connected(self, u: Seq<char>) -> DirectoryView {
        DirectoryView {
            observers: self.observers.insert(
                u,
                self.handlers_of(u).push(HandlerId(self.next_handler as u64)),
            ),
            next_handler: self.next_handler + 1,
            ..self
        }
    }

    /// Whether `node` can join the directory: its URI must be new, and
    /// unless it is a provider, the resource that it says it belongs to must
    /// be live and of the kind one level up.
    pub open spec fn accepts(self, node: ResourceView) -> Result<(), AddError> {
        if self.pool.contains_key(node.uri()) {
            Err(AddError::AlreadyRegistered)
        } else {
            match node.parent() {
                Some(p) => if self.pool.contains_key(p) && self.pool[p].kind().child() == Some(
                    node.kind(),
                ) {
                    Ok(())
                } else {
                    Err(AddError::MissingParent)
                },
                None => Ok(()),
            }
        }
    }

    /// The directory after `node` joined it: the node is in the pool, the
    /// resource that it belongs to holds its handle last, and a collection
    /// stands last in the list of all collections.
    pub open spec fn with(self, node: ResourceView) -> DirectoryView {
        let attached = match node.parent() {
            Some(p) => self.pool.insert(
                p,
                self.pool[p].with_children(self.pool[p].children().push(node.uri())),
            ),
            None => self.pool,
        };
        DirectoryView {
            pool: attached.insert(node.uri(), node),
            model: if node.kind() == ResourceKind::Collection {
                self.model.push(node.uri())
            } else {
                self.model
            },
            ..self
        }
    }

    /// What is notified when `node` joins: that the list of the resource it
    /// belongs to grew at its end, then, for a collection, that the list of
    /// all collections grew at its end.
    pub open spec fn addition_log(self, node: ResourceView) -> Seq<NotificationView> {
        let attached = match node.parent() {
            Some(p) => seq![
                NotificationView::ItemsChanged {
                    owner: p,
                    change: one_added(self.pool[p].children().len() as int),
                },
            ],
            None => Seq::empty(),
        };
        if node.kind() == ResourceKind::Collection {
            attached.push(
                NotificationView::ModelChanged { change: one_added(self.model.len() as int) },
            )
        } else {
            attached
        }
    }

    /// What comes of letting the resources of `stack` join one after
    /// another, the last of the stack first: the directory then, what is
    /// notified, and the refusal at which it stopped, if it did. A resource
    /// that is refused stays out, and so do those before it in the stack.
    pub open spec fn with_stack(self, stack: Seq<ResourceView>) -> (
        DirectoryView,
        Seq<NotificationView>,
        Option<AddError>,
    )
        decreases stack.len(),
    {
        if stack.len() == 0 {
            (self, Seq::empty(), None)
        } else {
            match self.accepts(stack.last()) {
                Err(e) => (self, Seq::empty(), Some(e)),
                Ok(_) => {
                    let rest = self.with(stack.last()).with_stack(stack.drop_last());
                    (rest.0, self.addition_log(stack.last()) + rest.1, rest.2)
                },
            }
        }
    }

    /// What comes of a resolved resource `node`, where `waiting` holds the
    /// resources that wait for it, each the child of the next and the last
    /// the child of `node`: the directory then, and how the work stands.
    ///
    /// A resource that is not of the kind that holds the last that waits
    /// is refused as a missing parent. Where `node` belongs to a resource
    /// that is not live, it joins those that wait, and that resource is to
    /// be resolved next. Else `node` and those that wait join the directory,
    /// parents first.
    pub open spec fn place(self, waiting: Seq<ResourceView>, node: ResourceView) -> (
        DirectoryView,
        ProgressView,
    ) {
        if waiting.len() > 0 && node.kind().child() != Some(waiting.last().kind()) {
            (self, ProgressView::Skipped(SyncErrorView::Add(AddError::MissingParent)))
        } else if node.parent().is_some() && !self.pool.contains_key(node.parent().unwrap()) {
            (
                self,
                ProgressView::Pending(
                    MaterializationView {
                        resolution: ResolutionView {
                            uri: node.parent().unwrap(),
                            pending: Query::Ask(ResourceKind::Event),
                        },
                        waiting: waiting.push(node),
                    },
                ),
            )
        } else {
            let joined = self.with_stack(waiting.push(node));
            (
                joined.0,
                match joined.2 {
                    None => ProgressView::Done(joined.1),
                    Some(e) => ProgressView::Skipped(SyncErrorView::Add(e)),
                },
            )
        }
    }

    /// The directory in which the resource `u` holds the attributes of
    /// `node`.
    pub open spec fn replaced(self, u: Seq<char>, node: ResourceView) -> DirectoryView {
        DirectoryView { pool: self.pool.insert(u, node), ..self }
    }

    /// The URI of the resource that `k` belongs to, where `k` is live and no
    /// provider.
    pub open spec fn up(self, k: Option<Seq<char>>) -> Option<Seq<char>> {
        match k {
            Some(x) => if self.pool.contains_key(x) {
                self.pool[x].parent()
            } else {
                None
            },
            None => None,
        }
    }

    /// `k` is `u` or one of its descendants.
    pub open spec fn within(self, k: Seq<char>, u: Seq<char>) -> bool {
        &&& self.pool.contains_key(k)
        &&& (k == u || self.up(Some(k)) == Some(u) || self.up(self.up(Some(k))) == Some(u)
            || self.up(self.up(self.up(Some(k)))) == Some(u))
    }

    /// The collections among `u` and its descendants, in the order in which a
    /// deletion of `u` takes them.
    pub open spec fn collections_within(self, u: Seq<char>) -> Seq<Seq<char>> {
        match self.pool[u].kind() {
            ResourceKind::Provider => self.pool[u].children(),
            ResourceKind::Collection => seq![u],
            _ => Seq::empty(),
        }
    }

    /// The directory after `u` and all its descendants are deleted: they are
    /// gone from the pool, the resource that `u` belonged to no longer holds
    /// its handle, the list of all collections has lost those that went, and
    /// so have the observers. Nothing else differs.
    pub open spec fn without(self, u: Seq<char>) -> DirectoryView {
        DirectoryView {
            pool: Map::new(
                |k: Seq<char>| self.pool.contains_key(k) && !self.within(k, u),
                |k: Seq<char>|
                    if self.pool[u].parent() == Some(k) {
                        self.pool[k].with_children(self.pool[k].children().remove_value(u))
                    } else {
                        self.pool[k]
                    },
            ),
            model: remove_all(self.model, self.collections_within(u)),
            observers: Map::new(
                |k: Seq<char>| self.observers.contains_key(k) && !self.within(k, u),
                |k: Seq<char>| self.observers[k],
            ),
            next_handler: self.next_handler,
        }
    }

    /// The directory after the resource `u`, which holds no handles, is
    /// deleted.
    pub open spec fn without_leaf(self, u: Seq<char>) -> DirectoryView {
        let detached = match self.pool[u].parent() {
            Some(p) => self.pool.insert(
                p,
                self.pool[p].with_children(self.pool[p].children().remove_value(u)),
            ),
            None => self.pool,
        };
        DirectoryView {
            pool: detached.remove(u),
            model: self.model.remove_value(u),
            observers: self.observers.remove(u),
            next_handler: self.next_handler,
        }
    }

    /// `k` lies under none of the first `i` of `kids`.
    pub open spec fn clear_of(self, k: Seq<char>, kids: Seq<Seq<char>>, i: int) -> bool {
        forall|j: int| 0 <= j < i ==> !self.within(k, #[trigger] kids[j])
    }

    /// `left` is what is left of this directory once the first `i` children
    /// of `u` are deleted, each with its descendants.
    pub open spec fn partly_without(self, u: Seq<char>, i: int, left: DirectoryView) -> bool {
        let kids = self.pool[u].children();
        &&& forall|k: Seq<char>| #[trigger]
            left.pool.contains_key(k) <==> (self.pool.contains_key(k) && self.clear_of(k, kids, i))
        &&& forall|k: Seq<char>|
            left.pool.contains_key(k) ==> #[trigger] left.pool[k] == if k == u {
                self.pool[u].with_children(kids.skip(i))
            } else {
                self.pool[k]
            }
        &&& left.model == if self.pool[u].kind() == ResourceKind::Provider {
            remove_all(self.model, kids.take(i))
        } else {
            self.model
        }
        &&& forall|k: Seq<char>| #[trigger]
            left.observers.contains_key(k) <==> (self.observers.contains_key(k) && self.clear_of(
                k,
                kids,
                i,
            ))
        &&& forall|k: Seq<char>|
            left.observers.contains_key(k) ==> #[trigger] left.observers[k] == self.observers[k]
        &&& left.next_handler == self.next_handler
    }

    /// What is notified when `u` itself goes, its descendants being gone
    /// already: that it was deleted, which its observers are to hear, then
    /// that it left the list of the resource it belonged to, then, for a
    /// collection, that it left the list of all collections.
    pub open spec fn own_log(self, u: Seq<char>) -> Seq<NotificationView> {
        let fired = seq![
            NotificationView::Deleted {
                uri: u,
                kind: self.pool[u].kind(),
                handlers: self.handlers_of(u),
            },
        ];
        let detached = match self.pool[u].parent() {
            Some(p) => match self.pool[p].children().index_of_first(u) {
                Some(i) => fired.push(
                    NotificationView::ItemsChanged { owner: p, change: one_removed(i) },
                ),
                None => fired,
            },
            None => fired,
        };
        match self.model.index_of_first(u) {
            Some(i) => detached.push(NotificationView::ModelChanged { change: one_removed(i) }),
            None => detached,
        }
    }

    /// What is notified when `u` is deleted, in order: everything that the
    /// deletion of its first child notifies, then the same for what is left,
    /// and at last what `u` itself notifies. So every descendant goes before
    /// the resource it belongs to, and siblings go in the order of their
    /// handles.
    ///
    /// (The tests on kinds and lengths always hold in a directory whose
    /// pool and lists agree; they show that the definition ends.)
    pub open spec fn deletion_log(self, u: Seq<char>) -> Seq<NotificationView>
        decreases self.pool[u].kind().depth(), self.pool[u].children().len(),
    {
        let kids = self.pool[u].children();
        if kids.len() == 0 {
            self.own_log(u)
        } else {
            let first = kids[0];
            let rest = self.without(first);
            if self.pool[first].kind().depth() < self.pool[u].kind().depth()
                && rest.pool[u].kind() == self.pool[u].kind() && rest.pool[u].children().len()
                < kids.len() {
                self.deletion_log(first) + rest.deletion_log(u)
            } else {
                self.own_log(u)
            }
        }
    }
}

/// What becomes of a list without duplicates when the first occurrence of
/// `v` is taken out.
pub proof fn lemma_remove_value(s: Seq<Seq<char>>, v: Seq<char>)
    requires
        s.no_duplicates(),
    ensures
        s.remove_value(v).no_duplicates(),
        forall|x: Seq<char>| #[trigger] s.remove_value(v).contains(x) <==> (s.contains(x) && x != v),
        s.contains(v) ==> s.remove_value(v).len() == s.len() - 1,
        !s.contains(v) ==> s.remove_value(v) == s,
{
    s.index_of_first_ensures(v);
    let r = s.remove_value(v);
    match s.index_of_first(v) {
        Some(i) => {
            assert(r == s.remove(i));
            assert forall|x: Seq<char>| #[trigger] r.contains(x) <==> (s.contains(x) && x != v) by {
                if r.contains(x) {
                    let j = choose|j: int| 0 <= j < r.len() && r[j] == x;
                    if j < i {
                        assert(s[j] == x);
                    } else {
                        assert(s[j + 1] == x);
                    }
                }
                if s.contains(x) && x != v {
                    let j = choose|j: int| 0 <= j < s.len() && s[j] == x;
                    if j < i {
                        assert(r[j] == x);
                    } else {
                        assert(r[j - 1] == x);
                    }
                }
            }
        },
        None => {},
    }
}

/// Taking the first item's value out of a list without duplicates leaves the
/// rest of the list.
pub proof fn lemma_remove_first(s: Seq<Seq<char>>)
    requires
        s.no_duplicates(),
        s.len() > 0,
    ensures
        s.remove_value(s[0]) == s.skip(1),
{
    s.index_of_first_ensures(s[0]);
    assert(s.remove(0) =~= s.skip(1));
}

/// In a directory whose pool and lists agree, the resource that `k` belongs
/// to is live and of the kind one level up.
pub proof fn lemma_parent_kind(s: DirectoryView, k: Seq<char>)
    requires
        s.wf(),
        s.pool.contains_key(k),
        s.pool[k].parent().is_some(),
    ensures
        s.pool.contains_key(s.pool[k].parent().unwrap()),
        s.pool[s.pool[k].parent().unwrap()].children().contains(k),
        s.pool[s.pool[k].parent().unwrap()].kind().child() == Some(s.pool[k].kind()),
        s.pool[s.pool[k].parent().unwrap()].kind().depth() == s.pool[k].kind().depth() + 1,
        s.pool[k].parent().unwrap() != k,
{
    let p = s.pool[k].parent().unwrap();
    let i = choose|i: int| 0 <= i < s.pool[p].children().len() && s.pool[p].children()[i] == k;
    assert(s.pool[p].children()[i] == k);
}

/// Deleting a resource that holds no handles keeps the pool and the lists
/// in agreement.
pub proof fn lemma_without_leaf_wf(s: DirectoryView, u: Seq<char>)
    requires
        s.wf(),
        s.pool.contains_key(u),
        s.pool[u].children().len() == 0,
    ensures
        s.without_leaf(u).wf(),
{
    let t = s.without_leaf(u);
    lemma_remove_value(s.model, u);
    match s.pool[u].parent() {
        Some(p) => {
            lemma_parent_kind(s, u);
            lemma_remove_value(s.pool[p].children(), u);
            let kept = s.pool[p].children().remove_value(u);
            assert(t.pool[p] == s.pool[p].with_children(kept));
            assert(t.pool[p].children() == kept);
            assert forall|k: Seq<char>| t.pool.contains_key(k) implies (#[trigger] t.pool[k]).uri()
                == k by {
                assert(s.pool[k].uri() == k);
            }
            assert forall|k: Seq<char>, i: int|
                t.pool.contains_key(k) && 0 <= i < t.pool[k].children().len() implies {
                let c = #[trigger] t.pool[k].children()[i];
                &&& t.pool.contains_key(c)
                &&& t.pool[c].parent() == Some(k)
                &&& Some(t.pool[c].kind()) == t.pool[k].kind().child()
            } by {
                let c = t.pool[k].children()[i];
                if k == p {
                    assert(kept.contains(c));
                    assert(s.pool[p].children().contains(c));
                    let j = choose|j: int|
                        0 <= j < s.pool[p].children().len() && s.pool[p].children()[j] == c;
                    assert(s.pool[p].children()[j] == c);
                } else {
                    assert(s.pool[k].children()[i] == c);
                }
                assert(s.pool.contains_key(c));
                assert(s.pool[c].parent() == Some(k));
                assert(c != u);
            }
            assert forall|k: Seq<char>| t.pool.contains_key(k) implies (#[trigger] t.pool[k])
                .children().no_duplicates() by {
                assert(s.pool[k].children().no_duplicates());
            }
            assert forall|k: Seq<char>| t.pool.contains_key(k) implies match (#[trigger] t.pool[k])
                .parent() {
                Some(q) => t.pool.contains_key(q) && t.pool[q].children().contains(k),
                None => true,
            } by {
                assert(t.pool[k].parent() == s.pool[k].parent());
                match s.pool[k].parent() {
                    Some(q) => {
                        lemma_parent_kind(s, k);
                        if q == u {
                            let j = choose|j: int|
                                0 <= j < s.pool[u].children().len() && s.pool[u].children()[j]
                                    == k;
                            assert(false);
                        }
                    },
                    None => {},
                }
            }
            assert forall|x: Seq<char>| #[trigger]
                t.model.contains(x) <==> (t.pool.contains_key(x) && t.pool[x].kind()
                    == ResourceKind::Collection) by {
                assert(s.model.contains(x) <==> (s.pool.contains_key(x) && s.pool[x].kind()
                    == ResourceKind::Collection));
            }
        },
        None => {
            assert forall|k: Seq<char>| t.pool.contains_key(k) implies (#[trigger] t.pool[k]).uri()
                == k by {
                assert(s.pool[k].uri() == k);
            }
            assert forall|k: Seq<char>, i: int|
                t.pool.contains_key(k) && 0 <= i < t.pool[k].children().len() implies {
                let c = #[trigger] t.pool[k].children()[i];
                &&& t.pool.contains_key(c)
                &&& t.pool[c].parent() == Some(k)
                &&& Some(t.pool[c].kind()) == t.pool[k].kind().child()
            } by {
                let c = s.pool[k].children()[i];
                assert(s.pool.contains_key(c));
            }
            assert forall|k: Seq<char>| t.pool.contains_key(k) implies (#[trigger] t.pool[k])
                .children().no_duplicates() by {
                assert(s.pool[k].children().no_duplicates());
            }
            assert forall|k: Seq<char>| t.pool.contains_key(k) implies match (#[trigger] t.pool[k])
                .parent() {
                Some(q) => t.pool.contains_key(q) && t.pool[q].children().contains(k),
                None => true,
            } by {
                match s.pool[k].parent() {
                    Some(q) => {
                        lemma_parent_kind(s, k);
                        if q == u {
                            let j = choose|j: int|
                                0 <= j < s.pool[u].children().len() && s.pool[u].children()[j]
                                    == k;
                            assert(false);
                        }
                    },
                    None => {},
                }
            }
            assert forall|x: Seq<char>| #[trigger]
                t.model.contains(x) <==> (t.pool.contains_key(x) && t.pool[x].kind()
                    == ResourceKind::Collection) by {
                assert(s.model.contains(x) <==> (s.pool.contains_key(x) && s.pool[x].kind()
                    == ResourceKind::Collection));
            }
        },
    }
}

/// A descendant lies lower in the hierarchy than the resource it lies under.
pub proof fn lemma_within_depth(s: DirectoryView, k: Seq<char>, t: Seq<char>)
    requires
        s.wf(),
        s.within(k, t),
    ensures
        s.pool.contains_key(t),
        s.pool[k].kind().depth() <= s.pool[t].kind().depth(),
        s.pool[k].kind().depth() == s.pool[t].kind().depth() ==> k == t,
{
    if k != t {
        lemma_parent_kind(s, k);
        let a = s.pool[k].parent().unwrap();
        if a != t {
            lemma_parent_kind(s, a);
            let b = s.pool[a].parent().unwrap();
            if b != t {
                lemma_parent_kind(s, b);
            }
        }
    }
}

/// What lies under `u` is `u` itself and what lies under one of its
/// children.
pub proof fn lemma_within_children(s: DirectoryView, k: Seq<char>, u: Seq<char>)
    requires
        s.wf(),
        s.pool.contains_key(u),
        s.pool.contains_key(k),
    ensures
        s.within(k, u) <==> (k == u || !s.clear_of(
            k,
            s.pool[u].children(),
            s.pool[u].children().len() as int,
        )),
{
    let kids = s.pool[u].children();
    let n = kids.len() as int;
    if s.within(k, u) && k != u {
        lemma_parent_kind(s, k);
        let a = s.pool[k].parent().unwrap();
        let top = if a == u {
            k
        } else {
            lemma_parent_kind(s, a);
            let b = s.pool[a].parent().unwrap();
            if b == u {
                a
            } else {
                lemma_parent_kind(s, b);
                b
            }
        };
        assert(s.pool.contains_key(top) && s.pool[top].parent() == Some(u));
        lemma_parent_kind(s, top);
        let j = choose|j: int| 0 <= j < kids.len() && kids[j] == top;
        assert(s.within(k, kids[j]));
    }
    if !s.clear_of(k, kids, n) {
        let j = choose|j: int| 0 <= j < n && s.within(k, #[trigger] kids[j]);
        let c = kids[j];
        assert(s.pool.contains_key(c) && s.pool[c].parent() == Some(u));
        lemma_within_depth(s, k, c);
        lemma_parent_kind(s, c);
        if k != c {
            lemma_parent_kind(s, k);
            let a = s.pool[k].parent().unwrap();
            if a != c {
                lemma_parent_kind(s, a);
                let b = s.pool[a].parent().unwrap();
                if b != c {
                    lemma_parent_kind(s, b);
                }
            }
        }
        assert(s.within(k, u));
    }
}

/// No child of a resource lies under another child of it.
pub proof fn lemma_siblings_apart(s: DirectoryView, u: Seq<char>, a: int, b: int)
    requires
        s.wf(),
        s.pool.contains_key(u),
        0 <= a < s.pool[u].children().len(),
        0 <= b < s.pool[u].children().len(),
        a != b,
    ensures
        !s.within(s.pool[u].children()[a], s.pool[u].children()[b]),
{
    let kids = s.pool[u].children();
    assert(s.pool.contains_key(kids[a]) && s.pool.contains_key(kids[b]));
    if s.within(kids[a], kids[b]) {
        lemma_within_depth(s, kids[a], kids[b]);
    }
}

/// Before any child of `u` is deleted, the directory is what is left of
/// itself.
pub proof fn lemma_partly_without_start(s: DirectoryView, u: Seq<char>)
    requires
        s.wf(),
        s.pool.contains_key(u),
    ensures
        s.partly_without(u, 0, s),
{
    let kids = s.pool[u].children();
    assert(kids.skip(0) =~= kids);
    assert(s.pool[u].with_children(kids) == s.pool[u]);
    assert(kids.take(0).len() == 0);
}

/// While children of `u` are being deleted, what is left agrees with the
/// directory at the start on which resource belongs to which.
pub proof fn lemma_left_within(
    s: DirectoryView,
    u: Seq<char>,
    i: int,
    left: DirectoryView,
    k: Seq<char>,
    t: Seq<char>,
)
    requires
        s.wf(),
        left.wf(),
        s.pool.contains_key(u),
        s.partly_without(u, i, left),
        left.pool.contains_key(k),
    ensures
        left.within(k, t) <==> s.within(k, t),
{
    assert(left.pool[k].parent() == s.pool[k].parent());
    if left.pool[k].parent().is_some() {
        let a = left.pool[k].parent().unwrap();
        lemma_parent_kind(left, k);
        assert(left.pool[a].parent() == s.pool[a].parent());
        if left.pool[a].parent().is_some() {
            let b = left.pool[a].parent().unwrap();
            lemma_parent_kind(left, a);
            assert(left.pool[b].parent() == s.pool[b].parent());
        }
    }
}

/// While children of `u` are being deleted, `u` itself is left, holding the
/// handles of the children that are still to go.
pub proof fn lemma_left_holder(s: DirectoryView, u: Seq<char>, i: int, left: DirectoryView)
    requires
        s.wf(),
        s.pool.contains_key(u),
        0 <= i <= s.pool[u].children().len(),
        s.partly_without(u, i, left),
    ensures
        left.pool.contains_key(u),
        left.pool[u] == s.pool[u].with_children(s.pool[u].children().skip(i)),
        left.pool[u].kind() == s.pool[u].kind(),
        left.pool[u].children() == s.pool[u].children().skip(i),
{
    let kids = s.pool[u].children();
    assert(s.clear_of(u, kids, i)) by {
        assert forall|j: int| 0 <= j < i implies !s.within(u, #[trigger] kids[j]) by {
            assert(s.pool.contains_key(kids[j]) && s.pool[kids[j]].parent() == Some(u));
            lemma_parent_kind(s, kids[j]);
            if s.within(u, kids[j]) {
                lemma_within_depth(s, u, kids[j]);
            }
        }
    }
    assert(left.pool.contains_key(u));
}

/// Deleting the next child of `u` with its descendants leads from what was
/// left before it to what is left after it.
pub proof fn lemma_partly_without_step(s: DirectoryView, u: Seq<char>, i: int, left: DirectoryView)
    requires
        s.wf(),
        left.wf(),
        s.pool.contains_key(u),
        0 <= i < s.pool[u].children().len(),
        s.partly_without(u, i, left),
    ensures
        left.pool.contains_key(u),
        left.pool.contains_key(s.pool[u].children()[i]),
        left.pool[u].kind() == s.pool[u].kind(),
        left.pool[u].children() == s.pool[u].children().skip(i),
        left.pool[s.pool[u].children()[i]].kind().depth() < s.pool[u].kind().depth(),
        s.partly_without(u, i + 1, left.without(s.pool[u].children()[i])),
{
    let kids = s.pool[u].children();
    let c = kids[i];
    let next = left.without(c);
    assert(s.pool.contains_key(c) && s.pool[c].parent() == Some(u));
    lemma_parent_kind(s, c);
    // `u` and the child are still there
    assert(s.clear_of(u, kids, i)) by {
        assert forall|j: int| 0 <= j < i implies !s.within(u, #[trigger] kids[j]) by {
            assert(s.pool.contains_key(kids[j]) && s.pool[kids[j]].parent() == Some(u));
            lemma_parent_kind(s, kids[j]);
            if s.within(u, kids[j]) {
                lemma_within_depth(s, u, kids[j]);
            }
        }
    }
    assert(s.clear_of(c, kids, i)) by {
        assert forall|j: int| 0 <= j < i implies !s.within(c, #[trigger] kids[j]) by {
            lemma_siblings_apart(s, u, i, j);
        }
    }
    assert(left.pool.contains_key(u));
    assert(left.pool.contains_key(c));
    assert(left.pool[u] == s.pool[u].with_children(kids.skip(i)));
    assert(left.pool[c] == s.pool[c]);
    assert(left.pool[u].children() == kids.skip(i));
    // which resources are left
    assert forall|k: Seq<char>| #[trigger]
        next.pool.contains_key(k) <==> (s.pool.contains_key(k) && s.clear_of(
            k,
            kids,
            i + 1,
        )) by {
        if left.pool.contains_key(k) {
            lemma_left_within(s, u, i, left, k, c);
        }
        if s.pool.contains_key(k) && s.clear_of(k, kids, i + 1) {
            assert(s.clear_of(k, kids, i));
            assert(!s.within(k, kids[i]));
        }
        if next.pool.contains_key(k) {
            assert(s.clear_of(k, kids, i));
            assert forall|j: int| 0 <= j < i + 1 implies !s.within(k, #[trigger] kids[j]) by {
                if j < i {
                    assert(!s.within(k, kids[j]));
                }
            }
        }
    }
    // what they hold
    assert(kids.skip(i).no_duplicates()) by {
        assert(kids.no_duplicates());
    }
    lemma_remove_first(kids.skip(i));
    assert(kids.skip(i).skip(1) =~= kids.skip(i + 1));
    assert forall|k: Seq<char>| next.pool.contains_key(k) implies #[trigger] next.pool[k] == if k
        == u {
        s.pool[u].with_children(kids.skip(i + 1))
    } else {
        s.pool[k]
    } by {
        assert(left.pool.contains_key(k));
        if k == u {
            assert(next.pool[u] == left.pool[u].with_children(
                left.pool[u].children().remove_value(c),
            ));
        }
    }
    // the list of all collections
    assert(kids.take(i + 1).drop_last() =~= kids.take(i));
    assert(kids.take(i + 1).last() == c);
    if s.pool[u].kind() == ResourceKind::Provider {
        assert(left.collections_within(c) == seq![c]);
        assert(seq![c].drop_last() =~= Seq::<Seq<char>>::empty());
        assert(remove_all(left.model, seq![c]) == remove_all(left.model, seq![c].drop_last())
            .remove_value(c));
        assert(remove_all(left.model, Seq::<Seq<char>>::empty()) == left.model);
        assert(next.model == left.model.remove_value(c));
        assert(remove_all(s.model, kids.take(i + 1)) == remove_all(s.model, kids.take(i))
            .remove_value(c));
    } else {
        assert(left.collections_within(c) =~= Seq::<Seq<char>>::empty());
        assert(remove_all(left.model, Seq::<Seq<char>>::empty()) == left.model);
    }
}

/// Once all children of `u` are deleted with their descendants, deleting
/// `u` itself leaves the directory without `u` and all its descendants.
pub proof fn lemma_partly_without_end(s: DirectoryView, u: Seq<char>, left: DirectoryView)
    requires
        s.wf(),
        left.wf(),
        s.pool.contains_key(u),
        s.partly_without(u, s.pool[u].children().len() as int, left),
    ensures
        left.pool.contains_key(u),
        left.pool[u].children().len() == 0,
        left.without_leaf(u) == s.without(u),
{
    let kids = s.pool[u].children();
    let n = kids.len() as int;
    assert(s.clear_of(u, kids, n)) by {
        assert forall|j: int| 0 <= j < n implies !s.within(u, #[trigger] kids[j]) by {
            assert(s.pool.contains_key(kids[j]) && s.pool[kids[j]].parent() == Some(u));
            lemma_parent_kind(s, kids[j]);
            if s.within(u, kids[j]) {
                lemma_within_depth(s, u, kids[j]);
            }
        }
    }
    assert(left.pool.contains_key(u));
    assert(left.pool[u] == s.pool[u].with_children(kids.skip(n)));
    assert(kids.skip(n).len() == 0);
    let a = left.without_leaf(u);
    let b = s.without(u);
    assert(left.pool[u].parent() == s.pool[u].parent());
    if s.pool[u].parent().is_some() {
        lemma_parent_kind(left, u);
        lemma_parent_kind(s, u);
    }
    assert forall|k: Seq<char>| a.pool.contains_key(k) <==> b.pool.contains_key(k) by {
        if s.pool.contains_key(k) {
            lemma_within_children(s, k, u);
        }
    }
    assert forall|k: Seq<char>| a.pool.contains_key(k) implies a.pool[k] == b.pool[k] by {
        assert(left.pool.contains_key(k));
        assert(k != u);
        assert(left.pool[k] == s.pool[k]);
    }
    assert(a.pool =~= b.pool);
    // the observers
    assert forall|k: Seq<char>| a.observers.contains_key(k) <==> b.observers.contains_key(k) by {
        if s.pool.contains_key(k) {
            lemma_within_children(s, k, u);
        }
    }
    assert(a.observers =~= b.observers);
    // the list of all collections
    lemma_remove_value(left.model, u);
    lemma_remove_value(s.model, u);
    assert(kids.take(n) =~= kids);
    match s.pool[u].kind() {
        ResourceKind::Provider => {
            assert(!left.model.contains(u));
        },
        ResourceKind::Collection => {
            assert(seq![u].drop_last() =~= Seq::<Seq<char>>::empty());
            assert(remove_all(s.model, seq![u]) == remove_all(s.model, seq![u].drop_last())
                .remove_value(u));
            assert(remove_all(s.model, Seq::<Seq<char>>::empty()) == s.model);
        },
        _ => {
            assert(!s.model.contains(u));
            assert(remove_all(s.model, Seq::<Seq<char>>::empty()) == s.model);
        },
    }
    assert(a.model == b.model);
}

/// A resource that holds no handles and that the directory accepts can join
/// it: the pool and the lists stay in agreement.
pub proof fn lemma_with_wf(s: DirectoryView, node: ResourceView)
    requires
        s.wf(),
        s.accepts(node).is_ok(),
        node.children().len() == 0,
    ensures
        s.with(node).wf(),
{
    let t = s.with(node);
    let u = node.uri();
    assert(!s.model.contains(u));
    assert(t.model.no_duplicates()) by {
        if node.kind() == ResourceKind::Collection {
            assert forall|a: int, b: int|
                0 <= a < t.model.len() && 0 <= b < t.model.len() && a != b implies t.model[a]
                != t.model[b] by {
                if a < s.model.len() {
                    assert(s.model.contains(s.model[a]));
                }
                if b < s.model.len() {
                    assert(s.model.contains(s.model[b]));
                }
            }
        }
    }
    assert forall|x: Seq<char>| #[trigger]
        t.model.contains(x) <==> (t.pool.contains_key(x) && t.pool[x].kind()
            == ResourceKind::Collection) by {
        assert(s.model.contains(x) <==> (s.pool.contains_key(x) && s.pool[x].kind()
            == ResourceKind::Collection));
        if node.kind() == ResourceKind::Collection {
            if t.model.contains(x) {
                let j = choose|j: int| 0 <= j < t.model.len() && t.model[j] == x;
                if j < s.model.len() {
                    assert(s.model[j] == x);
                }
            }
            if s.model.contains(x) {
                let j = choose|j: int| 0 <= j < s.model.len() && s.model[j] == x;
                assert(t.model[j] == x);
            }
            assert(t.model[s.model.len() as int] == u);
        }
    }
    assert forall|k: Seq<char>| t.pool.contains_key(k) implies (#[trigger] t.pool[k]).uri() == k by {
        if k != u {
            assert(s.pool[k].uri() == k);
        }
    }
    match node.parent() {
        Some(p) => {
            let grown = s.pool[p].children().push(u);
            assert(t.pool[p] == s.pool[p].with_children(grown));
            assert(t.pool[p].children() == grown);
            assert(!s.pool[p].children().contains(u)) by {
                if s.pool[p].children().contains(u) {
                    let j = choose|j: int|
                        0 <= j < s.pool[p].children().len() && s.pool[p].children()[j] == u;
                    assert(s.pool.contains_key(s.pool[p].children()[j]));
                }
            }
            assert forall|k: Seq<char>, i: int|
                t.pool.contains_key(k) && 0 <= i < t.pool[k].children().len() implies {
                let c = #[trigger] t.pool[k].children()[i];
                &&& t.pool.contains_key(c)
                &&& t.pool[c].parent() == Some(k)
                &&& Some(t.pool[c].kind()) == t.pool[k].kind().child()
            } by {
                let c = t.pool[k].children()[i];
                if k == p {
                    if i < s.pool[p].children().len() {
                        assert(s.pool[p].children()[i] == c);
                        assert(s.pool.contains_key(c));
                    }
                } else {
                    assert(s.pool[k].children()[i] == c);
                    assert(s.pool.contains_key(c));
                }
            }
            assert forall|k: Seq<char>| t.pool.contains_key(k) implies (#[trigger] t.pool[k])
                .children().no_duplicates() by {
                if k != u {
                    assert(s.pool[k].children().no_duplicates());
                }
            }
            assert forall|k: Seq<char>| t.pool.contains_key(k) implies match (#[trigger] t.pool[k])
                .parent() {
                Some(q) => t.pool.contains_key(q) && t.pool[q].children().contains(k),
                None => true,
            } by {
                if k == u {
                    assert(grown[grown.len() - 1] == u);
                } else {
                    match s.pool[k].parent() {
                        Some(q) => {
                            assert(s.pool[q].children().contains(k));
                            let j = choose|j: int|
                                0 <= j < s.pool[q].children().len() && s.pool[q].children()[j]
                                    == k;
                            if q == p {
                                assert(grown[j] == k);
                            } else {
                                assert(t.pool[q].children()[j] == k);
                            }
                        },
                        None => {},
                    }
                }
            }
        },
        None => {
            assert forall|k: Seq<char>, i: int|
                t.pool.contains_key(k) && 0 <= i < t.pool[k].children().len() implies {
                let c = #[trigger] t.pool[k].children()[i];
                &&& t.pool.contains_key(c)
                &&& t.pool[c].parent() == Some(k)
                &&& Some(t.pool[c].kind()) == t.pool[k].kind().child()
            } by {
                let c = s.pool[k].children()[i];
                assert(s.pool.contains_key(c));
            }
            assert forall|k: Seq<char>| t.pool.contains_key(k) implies (#[trigger] t.pool[k])
                .children().no_duplicates() by {
                if k != u {
                    assert(s.pool[k].children().no_duplicates());
                }
            }
            assert forall|k: Seq<char>| t.pool.contains_key(k) implies match (#[trigger] t.pool[k])
                .parent() {
                Some(q) => t.pool.contains_key(q) && t.pool[q].children().contains(k),
                None => true,
            } by {
                if k != u {
                    match s.pool[k].parent() {
                        Some(q) => {
                            assert(s.pool[q].children().contains(k));
                        },
                        None => {},
                    }
                }
            }
        },
    }
}

/// Giving a live resource other attributes, while it keeps its URI, its
/// kind, what it belongs to and what it holds, keeps the pool and the lists
/// in agreement.
pub proof fn lemma_replaced_wf(s: DirectoryView, u: Seq<char>, node: ResourceView)
    requires
        s.wf(),
        s.pool.contains_key(u),
        node.uri() == u,
        node.kind() == s.pool[u].kind(),
        node.parent() == s.pool[u].parent(),
        node.children() == s.pool[u].children(),
    ensures
        s.replaced(u, node).wf(),
{
    let t = s.replaced(u, node);
    assert forall|k: Seq<char>| t.pool.contains_key(k) implies (#[trigger] t.pool[k]).uri() == k by {
        if k != u {
            assert(s.pool[k].uri() == k);
        }
    }
    assert forall|k: Seq<char>, i: int|
        t.pool.contains_key(k) && 0 <= i < t.pool[k].children().len() implies {
        let c = #[trigger] t.pool[k].children()[i];
        &&& t.pool.contains_key(c)
        &&& t.pool[c].parent() == Some(k)
        &&& Some(t.pool[c].kind()) == t.pool[k].kind().child()
    } by {
        let c = s.pool[k].children()[i];
        assert(s.pool.contains_key(c));
    }
    assert forall|k: Seq<char>| t.pool.contains_key(k) implies (#[trigger] t.pool[k]).children()
        .no_duplicates() by {
        assert(s.pool[k].children().no_duplicates());
    }
    assert forall|k: Seq<char>| t.pool.contains_key(k) implies match (#[trigger] t.pool[k]).parent() {
        Some(q) => t.pool.contains_key(q) && t.pool[q].children().contains(k),
        None => true,
    } by {
        match s.pool[k].parent() {
            Some(q) => {
                assert(s.pool[q].children().contains(k));
            },
            None => {},
        }
    }
    assert forall|x: Seq<char>| #[trigger]
        t.model.contains(x) <==> (t.pool.contains_key(x) && t.pool[x].kind()
            == ResourceKind::Collection) by {
        assert(s.model.contains(x) <==> (s.pool.contains_key(x) && s.pool[x].kind()
            == ResourceKind::Collection));
    }
}

} // verus!
