//! An in-memory mirror of a calendar store: providers hold collections,
//! collections hold calendars, calendars hold events. Every live resource is
//! indexed by its URI, and deleting a resource takes its descendants with it.
//!
//! The library does no input or output. It says which query is to be put to
//! the store next and what to make of the answer, which requests go to the
//! backend, and which observers are to be told of a change; the caller does
//! the telling.

pub mod calendar;
pub mod collection;
pub mod collections_model;
pub mod color;
pub mod container;
pub mod directory;
pub mod event;
pub mod laws;
pub mod manager;
pub mod notification;
pub mod pool;
pub mod pre_resource;
pub mod provider;
pub mod request;
pub mod resource;
pub mod sync;
pub mod timeframe;
pub mod utils;

pub use calendar::{Calendar, CalendarView};
pub use collection::{Collection, CollectionView};
pub use collections_model::CollectionsModel;
pub use color::Rgba;
pub use container::{ItemsChanged, ObservableContainer};
pub use directory::{AddError, DirectoryView};
pub use event::{Event, EventView};
pub use manager::Manager;
pub use notification::{HandlerId, Notification, NotificationView};
pub use pool::ResourcePool;
pub use pre_resource::pre_calendar::PreCalendar;
pub use pre_resource::pre_collection::PreCollection;
pub use pre_resource::pre_event::PreEvent;
pub use pre_resource::pre_provider::PreProvider;
pub use pre_resource::{
    Attribute, CalendarRow, CollectionRow, EventRow, PreResource, PreResourceView, ProviderRow,
    Query, QueryOutcome, Resolution, ResolutionView, ResolveError, ResolveErrorView, Step,
    StepView,
};
pub use provider::{Provider, ProviderView};
pub use request::{Request, RequestView};
pub use resource::{Property, Resource, ResourceKind, ResourceView};
pub use sync::{Materialization, MaterializationView, Progress, ProgressView, SyncError, SyncErrorView};
pub use timeframe::{Timeframe, TimeframeView, ZonedTime};
pub use jiff;
pub use utils::eds::{
    parse_source_data, retrieve_resources, SourceData, SourceInfo, SourceInfoView, SourceObject,
};
