//! What holds of the directory and of the resolution, whatever the inputs.

use crate::directory::{
    lemma_left_holder, lemma_parent_kind, lemma_partly_without_end, lemma_partly_without_start,
    lemma_partly_without_step, lemma_within_depth, lemma_without_leaf_wf, DirectoryView,
};
use crate::color::Rgba;
use crate::notification::NotificationView;
use crate::pre_resource::{
    selected, PreResourceView, Query, QueryOutcome, ResolutionView, ResolveErrorView, StepView,
};
use crate::resource::{ResourceKind, ResourceView};
use vstd::prelude::*;

verus! {

/// What is left once the first `i` children of `u` are deleted, each with its
/// descendants: the pool and the lists agree in it.
proof fn lemma_children_deleted(s: DirectoryView, u: Seq<char>, i: int) -> (left: DirectoryView)
    requires
        s.wf(),
        s.pool.contains_key(u),
        0 <= i <= s.pool[u].children().len(),
    ensures
        left.wf(),
        s.partly_without(u, i, left),
    decreases s.pool[u].kind().depth(), i,
{
    if i == 0 {
        lemma_partly_without_start(s, u);
        s
    } else {
        let before = lemma_children_deleted(s, u, i - 1);
        lemma_partly_without_step(s, u, i - 1, before);
        let child = s.pool[u].children()[i - 1];
        law_deletion_keeps_agreement(before, child);
        before.without(child)
    }
}

/// Deleting a live resource with all its descendants leaves a directory in
/// which the pool and the lists of handles agree: no orphan stays in the
/// pool and no list holds a handle of a resource that is gone.
pub proof fn law_deletion_keeps_agreement(s: DirectoryView, u: Seq<char>)
    requires
        s.wf(),
        s.pool.contains_key(u),
    ensures
        s.without(u).wf(),
    decreases s.pool[u].kind().depth(), s.pool[u].children().len() + 1,
{
    let left = lemma_children_deleted(s, u, s.pool[u].children().len() as int);
    lemma_partly_without_end(s, u, left);
    lemma_without_leaf_wf(left, u);
}

/// After a live resource `u` is deleted, neither `u` nor any descendant `d`
/// of it is in the pool, no resource that is left holds the handle of `d`,
/// and the list of all collections does not hold it either.
pub proof fn law_deletion_removes_descendants(s: DirectoryView, u: Seq<char>, d: Seq<char>)
    requires
        s.wf(),
        s.pool.contains_key(u),
        s.within(d, u),
    ensures
        !s.without(u).pool.contains_key(d),
        forall|k: Seq<char>|
            s.without(u).pool.contains_key(k) ==> !(#[trigger] s.without(u).pool[k]).children()
                .contains(d),
        !s.without(u).model.contains(d),
        !s.without(u).observers.contains_key(d),
{
    let t = s.without(u);
    law_deletion_keeps_agreement(s, u);
    assert forall|k: Seq<char>| t.pool.contains_key(k) implies !(#[trigger] t.pool[k]).children()
        .contains(d) by {
        if t.pool[k].children().contains(d) {
            let i = choose|i: int|
                0 <= i < t.pool[k].children().len() && t.pool[k].children()[i] == d;
            assert(t.pool.contains_key(t.pool[k].children()[i]));
        }
    }
}

/// The number that the next observer gets is borne by no observer that is
/// connected, so no observer is ever called in the name of another.
pub proof fn law_next_handler_is_new(s: DirectoryView, k: Seq<char>, i: int)
    requires
        s.wf(),
        s.observers.contains_key(k),
        0 <= i < s.observers[k].len(),
    ensures
        s.observers[k][i].0 != s.next_handler,
{
}

/// Deleting a live resource `u` leaves every resource that does not lie
/// under it in the pool, with what it held before; only the resource that
/// `u` belonged to has lost the handle of `u`.
pub proof fn law_deletion_spares_the_rest(s: DirectoryView, u: Seq<char>, k: Seq<char>)
    requires
        s.wf(),
        s.pool.contains_key(u),
        s.pool.contains_key(k),
        !s.within(k, u),
    ensures
        s.without(u).pool.contains_key(k),
        s.pool[u].parent() != Some(k) ==> s.without(u).pool[k] == s.pool[k],
        s.pool[u].parent() == Some(k) ==> s.without(u).pool[k] == s.pool[k].with_children(
            s.pool[k].children().remove_value(u),
        ),
{
}

/// The URIs of the resources that a log reports as deleted, in the order of
/// the log.
pub open spec fn deleted(log: Seq<NotificationView>) -> Seq<Seq<char>>
    decreases log.len(),
{
    if log.len() == 0 {
        Seq::empty()
    } else {
        let before = deleted(log.drop_last());
        match log.last() {
            NotificationView::Deleted { uri, kind, handlers } => before.push(uri),
            _ => before,
        }
    }
}

/// The resources under the children of `u` from the `i`-th on, child by
/// child in the order of their handles, each child after all that lies
/// under it.
pub open spec fn descendants_in_order(s: DirectoryView, u: Seq<char>, i: nat) -> Seq<Seq<char>>
    decreases s.pool[u].kind().depth(), s.pool[u].children().len() - i,
{
    let kids = s.pool[u].children();
    if i >= kids.len() {
        Seq::empty()
    } else if s.pool[kids[i as int]].kind().depth() < s.pool[u].kind().depth() {
        subtree_in_order(s, kids[i as int]) + descendants_in_order(s, u, i + 1)
    } else {
        descendants_in_order(s, u, i + 1)
    }
}

/// `u` and all that lies under it, every resource after its descendants
/// and siblings in the order of their handles.
pub open spec fn subtree_in_order(s: DirectoryView, u: Seq<char>) -> Seq<Seq<char>>
    decreases s.pool[u].kind().depth(), s.pool[u].children().len() + 1,
{
    descendants_in_order(s, u, 0).push(u)
}

proof fn lemma_deleted_add(a: Seq<NotificationView>, b: Seq<NotificationView>)
    ensures
        deleted(a + b) == deleted(a) + deleted(b),
    decreases b.len(),
{
    if b.len() == 0 {
        assert(a + b =~= a);
        assert(deleted(a) + deleted(b) =~= deleted(a));
    } else {
        lemma_deleted_add(a, b.drop_last());
        assert((a + b).drop_last() =~= a + b.drop_last());
        assert((a + b).last() == b.last());
        match b.last() {
            NotificationView::Deleted { uri, kind, handlers } => {
                assert(deleted(a + b) =~= deleted(a) + deleted(b));
            },
            _ => {},
        }
    }
}

/// What `u` itself notifies reports one deletion, that of `u`.
proof fn lemma_deleted_own(s: DirectoryView, u: Seq<char>)
    ensures
        deleted(s.own_log(u)) == seq![u],
{
    let fired = seq![
        NotificationView::Deleted {
            uri: u,
            kind: s.pool[u].kind(),
            handlers: s.handlers_of(u),
        },
    ];
    assert(fired.drop_last() =~= Seq::<NotificationView>::empty());
    assert(deleted(fired.drop_last()) =~= Seq::<Seq<char>>::empty());
    assert(deleted(fired) =~= seq![u]);
    let detached = match s.pool[u].parent() {
        Some(p) => match s.pool[p].children().index_of_first(u) {
            Some(i) => fired.push(
                NotificationView::ItemsChanged {
                    owner: p,
                    change: crate::notification::one_removed(i),
                },
            ),
            None => fired,
        },
        None => fired,
    };
    if detached != fired {
        assert(detached.drop_last() =~= fired);
    }
    assert(deleted(detached) == seq![u]);
    let all = s.own_log(u);
    if all != detached {
        assert(all.drop_last() =~= detached);
    }
}

/// A resource lies under at most one of two resources of the same level.
proof fn lemma_subtrees_apart(s: DirectoryView, x: Seq<char>, a: Seq<char>, b: Seq<char>)
    requires
        s.wf(),
        s.within(x, a),
        s.within(x, b),
        s.pool[a].kind().depth() == s.pool[b].kind().depth(),
    ensures
        a == b,
{
    lemma_within_depth(s, x, a);
    lemma_within_depth(s, x, b);
    if s.pool[x].parent().is_some() {
        lemma_parent_kind(s, x);
        let p = s.pool[x].parent().unwrap();
        if s.pool[p].parent().is_some() {
            lemma_parent_kind(s, p);
            let q = s.pool[p].parent().unwrap();
            if s.pool[q].parent().is_some() {
                lemma_parent_kind(s, q);
            }
        }
    }
}

/// What lies under a child of `u` lies under `u`.
proof fn lemma_within_child(s: DirectoryView, x: Seq<char>, u: Seq<char>, i: int)
    requires
        s.wf(),
        s.pool.contains_key(u),
        0 <= i < s.pool[u].children().len(),
        s.within(x, s.pool[u].children()[i]),
    ensures
        s.within(x, u),
        x != u,
{
    let c = s.pool[u].children()[i];
    assert(s.pool.contains_key(c) && s.pool[c].parent() == Some(u));
    lemma_within_depth(s, x, c);
    lemma_parent_kind(s, c);
    if x != c {
        lemma_parent_kind(s, x);
        let p = s.pool[x].parent().unwrap();
        if p != c {
            lemma_parent_kind(s, p);
            let q = s.pool[p].parent().unwrap();
            if q != c {
                lemma_parent_kind(s, q);
            }
        }
    }
}

/// Two directories that hold the same under `u` order what lies under `u`
/// alike.
proof fn lemma_order_of_same_subtree(s: DirectoryView, t: DirectoryView, u: Seq<char>)
    requires
        s.wf(),
        s.pool.contains_key(u),
        forall|x: Seq<char>| #[trigger]
            s.within(x, u) ==> t.pool.contains_key(x) && t.pool[x] == s.pool[x],
    ensures
        subtree_in_order(t, u) == subtree_in_order(s, u),
    decreases s.pool[u].kind().depth(), s.pool[u].children().len() + 1,
{
    assert(s.within(u, u));
    lemma_descendants_of_same_subtree(s, t, u, 0);
}

proof fn lemma_descendants_of_same_subtree(s: DirectoryView, t: DirectoryView, u: Seq<char>, i: nat)
    requires
        s.wf(),
        s.pool.contains_key(u),
        forall|x: Seq<char>| #[trigger]
            s.within(x, u) ==> t.pool.contains_key(x) && t.pool[x] == s.pool[x],
    ensures
        descendants_in_order(t, u, i) == descendants_in_order(s, u, i),
    decreases s.pool[u].kind().depth(), s.pool[u].children().len() - i,
{
    let kids = s.pool[u].children();
    assert(s.within(u, u));
    if i < kids.len() {
        let c = kids[i as int];
        assert(s.pool.contains_key(c) && s.pool[c].parent() == Some(u));
        lemma_parent_kind(s, c);
        lemma_within_child(s, c, u, i as int);
        assert forall|x: Seq<char>| #[trigger] s.within(x, c) implies t.pool.contains_key(x)
            && t.pool[x] == s.pool[x] by {
            lemma_within_child(s, x, u, i as int);
        }
        lemma_order_of_same_subtree(s, t, c);
        lemma_descendants_of_same_subtree(s, t, u, i + 1);
    }
}

/// Once the first child of `u` is deleted, what lies under the children
/// that are left is ordered as before.
proof fn lemma_order_after_first(s: DirectoryView, u: Seq<char>, j: nat)
    requires
        s.wf(),
        s.pool.contains_key(u),
        s.pool[u].children().len() > 0,
        s.without(s.pool[u].children()[0]).wf(),
        s.without(s.pool[u].children()[0]).pool.contains_key(u),
        s.without(s.pool[u].children()[0]).pool[u] == s.pool[u].with_children(
            s.pool[u].children().skip(1),
        ),
    ensures
        descendants_in_order(s.without(s.pool[u].children()[0]), u, j) == descendants_in_order(
            s,
            u,
            j + 1,
        ),
    decreases s.pool[u].children().len() - j,
{
    let kids = s.pool[u].children();
    let first = kids[0];
    let rest = s.without(first);
    assert(rest.pool[u].children() == kids.skip(1));
    assert(rest.pool[u].kind() == s.pool[u].kind());
    if j + 1 < kids.len() {
        let c = kids[j as int + 1];
        assert(kids.skip(1)[j as int] == c);
        assert(s.pool.contains_key(c) && s.pool[c].parent() == Some(u));
        assert(s.pool.contains_key(first) && s.pool[first].parent() == Some(u));
        lemma_parent_kind(s, c);
        lemma_parent_kind(s, first);
        assert(s.within(c, c));
        assert forall|x: Seq<char>| #[trigger] s.within(x, c) implies rest.pool.contains_key(x)
            && rest.pool[x] == s.pool[x] by {
            lemma_within_child(s, x, u, j as int + 1);
            if s.within(x, first) {
                lemma_subtrees_apart(s, x, c, first);
                assert(kids[j as int + 1] != kids[0]);
            }
        }
        lemma_order_of_same_subtree(s, rest, c);
        lemma_order_after_first(s, u, j + 1);
    }
}

/// The deletions that are notified when a live resource `u` is deleted are
/// those of `u` and of all that lies under it, each once: every resource
/// after all its descendants, and siblings in the order of their handles.
pub proof fn law_deletion_order(s: DirectoryView, u: Seq<char>)
    requires
        s.wf(),
        s.pool.contains_key(u),
    ensures
        deleted(s.deletion_log(u)) == subtree_in_order(s, u),
    decreases s.pool[u].kind().depth(), s.pool[u].children().len(),
{
    let kids = s.pool[u].children();
    if kids.len() == 0 {
        lemma_deleted_own(s, u);
        assert(subtree_in_order(s, u) =~= seq![u]);
    } else {
        let first = kids[0];
        let rest = s.without(first);
        lemma_partly_without_start(s, u);
        lemma_partly_without_step(s, u, 0, s);
        lemma_left_holder(s, u, 1, rest);
        law_deletion_keeps_agreement(s, first);
        assert(s.deletion_log(u) == s.deletion_log(first) + rest.deletion_log(u));
        law_deletion_order(s, first);
        law_deletion_order(rest, u);
        lemma_deleted_add(s.deletion_log(first), rest.deletion_log(u));
        lemma_order_after_first(s, u, 0);
        assert(descendants_in_order(s, u, 0) == subtree_in_order(s, first) + descendants_in_order(
            s,
            u,
            1,
        ));
        assert(subtree_in_order(s, u) =~= subtree_in_order(s, first) + subtree_in_order(rest, u));
    }
}

/// A report of the name and the colour that a resource holds already
/// changes nothing and names nothing.
pub proof fn law_update_without_change(
    s: DirectoryView,
    u: Seq<char>,
    name: Seq<char>,
    color: Rgba,
)
    requires
        s.pool.contains_key(u),
        s.pool[u].name() == name,
        s.pool[u] matches ResourceView::Calendar(c) ==> c.color == Some(color),
    ensures
        s.pool[u].changes(name, color) == Seq::<crate::resource::Property>::empty(),
        s.pool[u].updated(name, color) == s.pool[u],
        s.replaced(u, s.pool[u].updated(name, color)) == s,
{
    assert(s.pool.insert(u, s.pool[u]) =~= s.pool);
}

/// What comes of a resolution `r` against a store that answers each query
/// as `store` says, within `fuel` answers; `None` where it has not ended by
/// then.
pub open spec fn run(r: ResolutionView, store: spec_fn(Query) -> QueryOutcome, fuel: nat) -> Option<
    Result<PreResourceView, ResolveErrorView>,
>
    decreases fuel,
{
    if fuel == 0 {
        None
    } else {
        match r.answer(store(r.pending)) {
            StepView::Pending(next) => run(next, store, (fuel - 1) as nat),
            StepView::Resolved(p) => Some(Ok(p)),
            StepView::Failed(e) => Some(Err(e)),
        }
    }
}

/// What comes of resolving `uri` against `store`.
pub open spec fn resolved_by(uri: Seq<char>, store: spec_fn(Query) -> QueryOutcome) -> Option<
    Result<PreResourceView, ResolveErrorView>,
> {
    run(ResolutionView { uri, pending: Query::Ask(ResourceKind::Event) }, store, 5)
}

/// A resolution ends after five answers at most.
pub proof fn law_resolution_ends(uri: Seq<char>, store: spec_fn(Query) -> QueryOutcome)
    ensures
        resolved_by(uri, store).is_some(),
{
    reveal_with_fuel(run, 6);
}

/// The first kind whose check the store affirms decides: where the store
/// denies every kind that is checked before `kind` and affirms `kind`, the
/// resolution ends with what the attributes of a resource of that kind
/// amount to, so a descriptor that comes out is of that kind and of the URI
/// that was asked for.
pub proof fn law_first_match_decides(
    uri: Seq<char>,
    store: spec_fn(Query) -> QueryOutcome,
    kind: ResourceKind,
)
    requires
        store(Query::Ask(kind)) == QueryOutcome::Boolean(true),
        forall|before: ResourceKind|
            before.depth() < kind.depth() ==> #[trigger] store(Query::Ask(before))
                == QueryOutcome::Boolean(false),
    ensures
        resolved_by(uri, store) == Some(selected(kind, uri, store(Query::Select(kind)))),
        resolved_by(uri, store) matches Some(Ok(p)) ==> p.kind() == kind && p.uri() == uri,
{
    reveal_with_fuel(run, 6);
    assert(ResourceKind::Event.depth() == 0);
    assert(ResourceKind::Calendar.depth() == 1);
    assert(ResourceKind::Collection.depth() == 2);
    assert(ResourceKind::Provider.depth() == 3);
}

/// A URI that the store denies for every kind is of unknown type.
pub proof fn law_absent_is_unknown(uri: Seq<char>, store: spec_fn(Query) -> QueryOutcome)
    requires
        forall|kind: ResourceKind| #[trigger]
            store(Query::Ask(kind)) == QueryOutcome::Boolean(false),
    ensures
        resolved_by(uri, store) == Some(
            Err::<PreResourceView, ResolveErrorView>(ResolveErrorView::UnknownResourceType),
        ),
{
    reveal_with_fuel(run, 6);
}

} // verus!
