use calendar_directory::{
    parse_source_data, retrieve_resources, AddError, Attribute, CalendarRow, CollectionRow,
    EventRow, ItemsChanged, Manager, Notification, PreCalendar, PreCollection, PreProvider,
    PreResource, Progress, ProviderRow, Query, QueryOutcome, ResolveError, Resource,
    ResourceKind, Rgba, SourceData, SourceObject, SyncError,
};
use zbus::zvariant::OwnedObjectPath;

fn object_path(text: &str) -> OwnedObjectPath {
    OwnedObjectPath::try_from(text).unwrap()
}

/// A store with one provider, one collection, one calendar and two events,
/// one of which has a start that is no instant.
fn store_answer(uri: &str, query: Query) -> QueryOutcome {
    let kind = match uri {
        "urn:provider" => Some(ResourceKind::Provider),
        "urn:collection" => Some(ResourceKind::Collection),
        "system-calendar" => Some(ResourceKind::Calendar),
        "urn:event" | "urn:broken-start" | "urn:broken-end" => Some(ResourceKind::Event),
        // a calendar that says it belongs to an event
        "urn:misplaced" => Some(ResourceKind::Calendar),
        _ => None,
    };
    match query {
        Query::Ask(asked) => QueryOutcome::Boolean(kind == Some(asked)),
        Query::Select(ResourceKind::Provider) => {
            QueryOutcome::Provider(ProviderRow { name: "Local".to_string() })
        }
        Query::Select(ResourceKind::Collection) => QueryOutcome::Collection(CollectionRow {
            name: "On this computer".to_string(),
            provider: "urn:provider".to_string(),
        }),
        Query::Select(ResourceKind::Calendar) => QueryOutcome::Calendar(CalendarRow {
            name: "Personal".to_string(),
            color: Some(Rgba::new(0, 128, 255, 255)),
            collection: if uri == "urn:misplaced" {
                "urn:event".to_string()
            } else {
                "urn:collection".to_string()
            },
        }),
        Query::Select(ResourceKind::Event) => QueryOutcome::Event(EventRow {
            name: "Lunch".to_string(),
            description: String::new(),
            calendar: "system-calendar".to_string(),
            all_day: true,
            start: if uri == "urn:broken-start" {
                "yesterday".to_string()
            } else {
                "2024-06-15T00:00:00+00:00[UTC]".to_string()
            },
            end: if uri == "urn:broken-end" {
                "2024-06-16".to_string()
            } else {
                "2024-06-16T00:00:00+00:00[UTC]".to_string()
            },
        }),
    }
}

/// Brings `uri` into the directory, answering each query from the store.
/// The result is what came of it and the URIs that were asked about.
fn bring_in(manager: &mut Manager, uri: &str) -> (Option<Progress>, Vec<String>) {
    let mut asked = Vec::new();
    let mut work = match manager.materialize(uri) {
        Some(work) => work,
        None => return (None, asked),
    };
    loop {
        let about = work.uri().to_string();
        if asked.last() != Some(&about) {
            asked.push(about.clone());
        }
        let outcome = store_answer(&about, work.query());
        match manager.supply(work, outcome) {
            Progress::Pending(next) => work = next,
            ended => return (Some(ended), asked),
        }
    }
}

fn kinds_in_directory(manager: &Manager, uris: &[&str]) -> Vec<ResourceKind> {
    uris.iter().filter_map(|uri| manager.find_resource(uri)).map(|r| r.kind()).collect()
}

#[test]
fn enabled_calendar_source_is_described() {
    let data = SourceData {
        enabled: Some(true),
        display_name: Some("Personal".to_string()),
        has_calendar: true,
        backend_name: Some("local".to_string()),
    };
    let info = parse_source_data(
        object_path("/org/gnome/evolution/dataserver/SourceManager/Source_1"),
        "system-calendar".to_string(),
        Some(data),
    )
    .unwrap();
    assert_eq!(info.uid, "system-calendar");
    assert_eq!(info.path.as_str(), "/org/gnome/evolution/dataserver/SourceManager/Source_1");
    assert_eq!(info.display_name, "Personal");
    assert!(info.enabled);
    assert_eq!(info.backend_name, "local");
    let copy = info.clone();
    assert_eq!(copy.uid, info.uid);
    assert_eq!(copy.path, info.path);
}

#[test]
fn missing_names_get_their_defaults() {
    let data = SourceData {
        enabled: Some(true),
        display_name: None,
        has_calendar: true,
        backend_name: None,
    };
    let info = parse_source_data(object_path("/a"), "uid".to_string(), Some(data)).unwrap();
    assert_eq!(info.display_name, "Unknown");
    assert_eq!(info.backend_name, "unknown");
}

#[test]
fn disabled_source_is_dropped() {
    let data = SourceData {
        enabled: Some(false),
        display_name: Some("Personal".to_string()),
        has_calendar: true,
        backend_name: Some("local".to_string()),
    };
    assert!(parse_source_data(object_path("/a"), "uid".to_string(), Some(data)).is_none());
}

#[test]
fn source_that_does_not_say_it_is_enabled_is_dropped() {
    let data = SourceData {
        enabled: None,
        display_name: Some("Personal".to_string()),
        has_calendar: true,
        backend_name: Some("local".to_string()),
    };
    assert!(parse_source_data(object_path("/a"), "uid".to_string(), Some(data)).is_none());
}

#[test]
fn source_without_calendar_group_is_dropped() {
    let data = SourceData {
        enabled: Some(true),
        display_name: Some("Mail".to_string()),
        has_calendar: false,
        backend_name: Some("imapx".to_string()),
    };
    assert!(parse_source_data(object_path("/a"), "uid".to_string(), Some(data)).is_none());
}

#[test]
fn unreadable_key_file_is_dropped() {
    assert!(parse_source_data(object_path("/a"), "uid".to_string(), None).is_none());
}

#[test]
fn sources_are_picked_in_order() {
    let enabled = |name: &str| {
        Some(SourceData {
            enabled: Some(true),
            display_name: Some(name.to_string()),
            has_calendar: true,
            backend_name: Some("local".to_string()),
        })
    };
    let objects = vec![
        SourceObject { path: object_path("/s/1"), uid: "one".to_string(), data: enabled("One") },
        SourceObject { path: object_path("/s/2"), uid: "two".to_string(), data: None },
        SourceObject { path: object_path("/s/3"), uid: "three".to_string(), data: enabled("Three") },
    ];
    let sources = retrieve_resources(objects);
    let uids: Vec<&str> = sources.iter().map(|s| s.uid.as_str()).collect();
    assert_eq!(uids, vec!["one", "three"]);
    assert_eq!(sources[1].path.as_str(), "/s/3");
    assert!(retrieve_resources(Vec::new()).is_empty());
}

#[test]
fn two_sources_one_enabled_give_one_chain() {
    let objects = vec![
        SourceObject {
            path: object_path("/org/gnome/evolution/dataserver/SourceManager/Source_1"),
            uid: "system-calendar".to_string(),
            data: Some(SourceData {
                enabled: Some(true),
                display_name: Some("Personal".to_string()),
                has_calendar: true,
                backend_name: Some("local".to_string()),
            }),
        },
        SourceObject {
            path: object_path("/org/gnome/evolution/dataserver/SourceManager/Source_2"),
            uid: "urn:event".to_string(),
            data: Some(SourceData {
                enabled: Some(false),
                display_name: Some("Disabled".to_string()),
                has_calendar: true,
                backend_name: Some("local".to_string()),
            }),
        },
    ];
    let sources = retrieve_resources(objects);
    assert_eq!(sources.len(), 1);
    assert_eq!(sources[0].backend_name, "local");

    let mut manager = Manager::new();
    for source in &sources {
        let (ended, _) = bring_in(&mut manager, &source.uid);
        assert!(matches!(ended, Some(Progress::Done(_))));
    }
    assert_eq!(
        kinds_in_directory(&manager, &["urn:provider", "urn:collection", "system-calendar"]),
        vec![ResourceKind::Provider, ResourceKind::Collection, ResourceKind::Calendar]
    );
    assert!(manager.find_resource("urn:event").is_none());
    let model = manager.collections_model();
    assert_eq!(model.n_items(), 1);
    assert_eq!(model.item(0).map(|s| s.as_str()), Some("urn:collection"));
    match manager.find_resource("urn:provider") {
        Some(Resource::Provider(provider)) => {
            assert_eq!(provider.collections().snapshot(), vec!["urn:collection"]);
        }
        _ => panic!("the provider should be live"),
    }
    match manager.find_resource("urn:collection") {
        Some(Resource::Collection(collection)) => {
            assert_eq!(collection.calendars().snapshot(), vec!["system-calendar"]);
            assert_eq!(collection.provider_uri(), "urn:provider");
        }
        _ => panic!("the collection should be live"),
    }
    match manager.find_resource("system-calendar") {
        Some(Resource::Calendar(calendar)) => {
            assert_eq!(calendar.events().n_items(), 0);
            assert_eq!(calendar.name(), "Personal");
        }
        _ => panic!("the calendar should be live"),
    }
}

#[test]
fn missing_ancestors_are_resolved_upwards_and_join_downwards() {
    let mut manager = Manager::new();
    let (ended, asked) = bring_in(&mut manager, "system-calendar");
    assert_eq!(asked, vec!["system-calendar", "urn:collection", "urn:provider"]);
    match ended {
        Some(Progress::Done(log)) => assert_eq!(
            log,
            vec![
                Notification::ItemsChanged {
                    owner: "urn:provider".to_string(),
                    change: ItemsChanged { position: 0, removed: 0, added: 1 },
                },
                Notification::ModelChanged {
                    change: ItemsChanged { position: 0, removed: 0, added: 1 },
                },
                Notification::ItemsChanged {
                    owner: "urn:collection".to_string(),
                    change: ItemsChanged { position: 0, removed: 0, added: 1 },
                },
            ]
        ),
        _ => panic!("the chain should have joined"),
    }
}

#[test]
fn live_ancestors_are_not_resolved_again() {
    let mut manager = Manager::new();
    bring_in(&mut manager, "system-calendar");
    let (ended, asked) = bring_in(&mut manager, "urn:event");
    assert_eq!(asked, vec!["urn:event"]);
    assert!(matches!(ended, Some(Progress::Done(_))));
    match manager.find_resource("urn:event") {
        Some(Resource::Event(event)) => {
            assert_eq!(event.calendar_uri(), "system-calendar");
            assert_eq!(event.name(), "Lunch");
            assert!(event.timeframe().all_day());
            assert_eq!(event.timeframe().start().to_string(), "2024-06-15T00:00:00+00:00[UTC]");
            assert_eq!(event.timeframe().end().to_string(), "2024-06-16T00:00:00+00:00[UTC]");
        }
        _ => panic!("the event should be live"),
    }
}

#[test]
fn live_resource_needs_no_work() {
    let mut manager = Manager::new();
    bring_in(&mut manager, "system-calendar");
    assert!(manager.materialize("system-calendar").is_none());
    assert!(manager.materialize("urn:provider").is_none());
    assert!(manager.materialize("urn:event").is_some());
}

#[test]
fn unknown_uri_is_passed_over() {
    let mut manager = Manager::new();
    let (ended, _) = bring_in(&mut manager, "urn:nothing");
    assert!(matches!(
        ended,
        Some(Progress::Skipped(SyncError::Resolve(ResolveError::UnknownResourceType)))
    ));
    assert!(manager.find_resource("urn:nothing").is_none());
}

#[test]
fn event_with_unreadable_start_is_passed_over() {
    let mut manager = Manager::new();
    bring_in(&mut manager, "system-calendar");
    let (ended, _) = bring_in(&mut manager, "urn:broken-start");
    match ended {
        Some(Progress::Skipped(error)) => assert_eq!(
            error,
            SyncError::Resolve(ResolveError::MalformedAttribute {
                uri: "urn:broken-start".to_string(),
                attribute: Attribute::EventStart,
            })
        ),
        _ => panic!("the event should have been passed over"),
    }
    assert!(manager.find_resource("urn:broken-start").is_none());
}

#[test]
fn event_with_unreadable_end_is_passed_over() {
    let mut manager = Manager::new();
    bring_in(&mut manager, "system-calendar");
    let (ended, _) = bring_in(&mut manager, "urn:broken-end");
    match ended {
        Some(Progress::Skipped(error)) => assert_eq!(
            error,
            SyncError::Resolve(ResolveError::MalformedAttribute {
                uri: "urn:broken-end".to_string(),
                attribute: Attribute::EventEnd,
            })
        ),
        _ => panic!("the event should have been passed over"),
    }
}

#[test]
fn parent_of_the_wrong_kind_passes_the_chain_over() {
    let mut manager = Manager::new();
    let (ended, asked) = bring_in(&mut manager, "urn:misplaced");
    assert_eq!(asked, vec!["urn:misplaced", "urn:event"]);
    match ended {
        Some(Progress::Skipped(error)) => {
            assert_eq!(error, SyncError::Add(AddError::MissingParent))
        }
        _ => panic!("the calendar should have been passed over"),
    }
    assert!(manager.find_resource("urn:misplaced").is_none());
    assert!(manager.find_resource("urn:event").is_none());
}

#[test]
fn settle_places_a_resolved_resource() {
    let mut manager = Manager::new();
    manager
        .add_provider(&PreProvider { uri: "urn:provider".to_string(), name: "Local".to_string() })
        .unwrap();
    let work = manager.materialize("urn:collection").unwrap();
    let node = Resource::from_descriptor(PreResource::Collection(PreCollection {
        uri: "urn:collection".to_string(),
        provider_uri: "urn:provider".to_string(),
        name: "Personal".to_string(),
    }))
    .unwrap();
    assert!(matches!(manager.settle(work, Ok(node)), Progress::Done(_)));
    assert_eq!(manager.find_resource("urn:collection").unwrap().kind(), ResourceKind::Collection);
}

#[test]
fn settle_waits_for_a_missing_parent() {
    let mut manager = Manager::new();
    let work = manager.materialize("urn:calendar").unwrap();
    let node = Resource::from_descriptor(PreResource::Calendar(PreCalendar {
        uri: "urn:calendar".to_string(),
        collection_uri: "urn:collection".to_string(),
        name: "Work".to_string(),
        color: Rgba::new(1, 2, 3, 255),
    }))
    .unwrap();
    match manager.settle(work, Ok(node)) {
        Progress::Pending(next) => {
            assert_eq!(next.uri(), "urn:collection");
            assert_eq!(next.query(), Query::Ask(ResourceKind::Event));
        }
        _ => panic!("the collection should be asked for"),
    }
    assert!(manager.find_resource("urn:calendar").is_none());
}

#[test]
fn settle_passes_a_failed_resolution_over() {
    let mut manager = Manager::new();
    let work = manager.materialize("urn:calendar").unwrap();
    match manager.settle(work, Err(ResolveError::VanishedResource)) {
        Progress::Skipped(error) => {
            assert_eq!(error, SyncError::Resolve(ResolveError::VanishedResource))
        }
        _ => panic!("the URI should have been passed over"),
    }
}

#[test]
fn failed_query_passes_the_uri_over() {
    let mut manager = Manager::new();
    let work = manager.materialize("urn:calendar").unwrap();
    match manager.supply(work, QueryOutcome::Failed) {
        Progress::Skipped(error) => {
            assert_eq!(error, SyncError::Resolve(ResolveError::QueryExecutionFailure))
        }
        _ => panic!("the URI should have been passed over"),
    }
}
