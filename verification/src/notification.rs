//! What observers are told when the directory changes.

use crate::container::ItemsChanged;
use crate::resource::ResourceKind;
use vstd::prelude::*;

verus! {

/// Names one observer of deletions. An observer is known to the directory by
/// this name alone; what it does when it is called is up to the caller.
#[derive(Clone, Copy, Debug, PartialEq, Eq, Hash, Structural)]
pub struct HandlerId(pub u64);

/// One notification. Notifications are handed out in the order in which the
/// changes happen.
#[derive(Debug, Clone, PartialEq, Eq)]
pub enum Notification {
    /// The resource `uri` was deleted. `handlers` names the observers that
    /// are to be called for it, in the order in which they were connected.
    Deleted { uri: String, kind: ResourceKind, handlers: Vec<HandlerId> },
    /// The list of handles that the resource `owner` holds changed.
    ItemsChanged { owner: String, change: ItemsChanged },
    /// The directory's list of all collections changed.
    ModelChanged { change: ItemsChanged },
}

/// A notification as text values.
pub enum NotificationView {
    Deleted { uri: Seq<char>, kind: ResourceKind, handlers: Seq<HandlerId> },
    ItemsChanged { owner: Seq<char>, change: ItemsChanged },
    ModelChanged { change: ItemsChanged },
}

impl View for Notification {
    type V = NotificationView;

    open spec fn view(&self) -> NotificationView {
        match self {
            Notification::Deleted { uri, kind, handlers } => NotificationView::Deleted {
                uri: uri@,
                kind: *kind,
                handlers: handlers@,
            },
            Notification::ItemsChanged { owner, change } => NotificationView::ItemsChanged {
                owner: owner@,
                change: *change,
            },
            Notification::ModelChanged { change } => NotificationView::ModelChanged {
                change: *change,
            },
        }
    }
}

/// The notifications of a log as text values.
pub open spec fn notes(log: Seq<Notification>) -> Seq<NotificationView> {
    Seq::new(log.len(), |i: int| log[i]@)
}

/// The report that one item left a list at `position`.
pub open spec fn one_removed(position: int) -> ItemsChanged {
    ItemsChanged { position: position as usize, removed: 1, added: 0 }
}

/// The report that one item joined a list at `position`.
pub open spec fn one_added(position: int) -> ItemsChanged {
    ItemsChanged { position: position as usize, removed: 0, added: 1 }
}

} // verus!
