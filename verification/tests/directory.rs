use calendar_directory::{
    AddError, Calendar, Event, HandlerId, ItemsChanged, Manager, Notification, PreCalendar,
    PreCollection, PreProvider, Property, Resource, ResourceKind, ResourcePool, Rgba, Timeframe,
    ZonedTime,
};

fn sample_timeframe() -> Timeframe {
    let start: ZonedTime = "2024-06-15T07:00:00+00:00[UTC]".parse().unwrap();
    let end: ZonedTime = "2024-06-15T08:00:00+00:00[UTC]".parse().unwrap();
    Timeframe::new(false, start, end)
}

fn sample_event(calendar: &str, uri: &str) -> Event {
    Event::new(calendar, uri, "Lunch", "With the team", &sample_timeframe())
}

fn provider(uri: &str) -> PreProvider {
    PreProvider { uri: uri.to_string(), name: "Local".to_string() }
}

fn collection(provider: &str, uri: &str) -> PreCollection {
    PreCollection {
        uri: uri.to_string(),
        provider_uri: provider.to_string(),
        name: "Personal".to_string(),
    }
}

fn calendar(collection: &str, uri: &str) -> PreCalendar {
    PreCalendar {
        uri: uri.to_string(),
        collection_uri: collection.to_string(),
        name: "Work".to_string(),
        color: Rgba::new(255, 0, 0, 255),
    }
}

/// One provider with one collection of two calendars, each with one event.
fn sample_directory() -> Manager {
    let mut manager = Manager::new();
    manager.add_provider(&provider("urn:p")).unwrap();
    manager.add_collection(&collection("urn:p", "urn:col")).unwrap();
    manager.add_calendar(&calendar("urn:col", "urn:cal1")).unwrap();
    manager.add_calendar(&calendar("urn:col", "urn:cal2")).unwrap();
    manager.add_event(sample_event("urn:cal1", "urn:ev1")).unwrap();
    manager.add_event(sample_event("urn:cal2", "urn:ev2")).unwrap();
    manager
}

fn children_of(manager: &Manager, uri: &str) -> Vec<String> {
    manager.find_resource(uri).unwrap().children().unwrap().snapshot()
}

fn model_of(manager: &Manager) -> Vec<String> {
    let model = manager.collections_model();
    (0..model.n_items()).map(|i| model.item(i).unwrap().clone()).collect()
}

fn deleted(uri: &str, kind: ResourceKind) -> Notification {
    Notification::Deleted { uri: uri.to_string(), kind, handlers: vec![] }
}

fn left(owner: &str, position: usize) -> Notification {
    Notification::ItemsChanged {
        owner: owner.to_string(),
        change: ItemsChanged { position, removed: 1, added: 0 },
    }
}

#[test]
fn pool_returns_what_was_stored_under_its_own_uri() {
    let mut pool = ResourcePool::new();
    assert_eq!(pool.len(), 0);
    pool.insert(Resource::Calendar(Calendar::new(
        "urn:col",
        "urn:cal",
        "Work",
        Rgba::new(1, 2, 3, 4),
    )));
    pool.insert(Resource::Event(sample_event("urn:cal", "urn:ev")));
    assert_eq!(pool.len(), 2);
    assert!(pool.contains("urn:cal"));
    for key in ["urn:cal", "urn:ev"] {
        assert_eq!(pool.get(key).unwrap().uri(), key);
    }
    assert!(pool.get("urn:other").is_none());
    assert!(!pool.contains("urn:other"));
}

#[test]
fn pool_insert_replaces_the_entry_of_the_same_uri() {
    let mut pool = ResourcePool::new();
    pool.insert(Resource::Calendar(Calendar::new("urn:col", "urn:cal", "Old", Rgba::new(0, 0, 0, 0))));
    pool.insert(Resource::Calendar(Calendar::new("urn:col", "urn:cal", "New", Rgba::new(0, 0, 0, 0))));
    assert_eq!(pool.len(), 1);
    match pool.get("urn:cal") {
        Some(Resource::Calendar(calendar)) => assert_eq!(calendar.name(), "New"),
        _ => panic!("a calendar should be stored"),
    }
}

#[test]
fn pool_remove_drops_the_entry() {
    let mut pool = ResourcePool::new();
    pool.insert(Resource::Event(sample_event("urn:cal", "urn:ev")));
    pool.remove("urn:ev");
    assert!(pool.get("urn:ev").is_none());
    assert_eq!(pool.len(), 0);
    pool.remove("urn:ev");
    assert_eq!(pool.len(), 0);
}

#[test]
fn every_registered_resource_is_found_under_its_uri() {
    let manager = sample_directory();
    let expected = [
        ("urn:p", ResourceKind::Provider),
        ("urn:col", ResourceKind::Collection),
        ("urn:cal1", ResourceKind::Calendar),
        ("urn:cal2", ResourceKind::Calendar),
        ("urn:ev1", ResourceKind::Event),
        ("urn:ev2", ResourceKind::Event),
    ];
    for (uri, kind) in expected {
        let found = manager.find_resource(uri).unwrap();
        assert_eq!(found.uri(), uri);
        assert_eq!(found.kind(), kind);
    }
    assert!(manager.find_resource("urn:nothing").is_none());
}

#[test]
fn registration_links_children_to_parents() {
    let manager = sample_directory();
    assert_eq!(children_of(&manager, "urn:p"), vec!["urn:col"]);
    assert_eq!(children_of(&manager, "urn:col"), vec!["urn:cal1", "urn:cal2"]);
    assert_eq!(children_of(&manager, "urn:cal1"), vec!["urn:ev1"]);
    assert_eq!(children_of(&manager, "urn:cal2"), vec!["urn:ev2"]);
    assert!(manager.find_resource("urn:ev1").unwrap().children().is_none());
    assert_eq!(manager.find_resource("urn:ev1").unwrap().parent_uri(), Some("urn:cal1"));
    assert_eq!(manager.find_resource("urn:p").unwrap().parent_uri(), None);
    assert_eq!(model_of(&manager), vec!["urn:col"]);
}

#[test]
fn registration_notifies_the_lists_that_grew() {
    let mut manager = Manager::new();
    assert_eq!(manager.add_provider(&provider("urn:p")), Ok(vec![]));
    assert_eq!(
        manager.add_collection(&collection("urn:p", "urn:c1")),
        Ok(vec![
            Notification::ItemsChanged {
                owner: "urn:p".to_string(),
                change: ItemsChanged { position: 0, removed: 0, added: 1 },
            },
            Notification::ModelChanged {
                change: ItemsChanged { position: 0, removed: 0, added: 1 },
            },
        ])
    );
    manager.add_provider(&provider("urn:q")).unwrap();
    assert_eq!(
        manager.add_collection(&collection("urn:q", "urn:c2")),
        Ok(vec![
            Notification::ItemsChanged {
                owner: "urn:q".to_string(),
                change: ItemsChanged { position: 0, removed: 0, added: 1 },
            },
            Notification::ModelChanged {
                change: ItemsChanged { position: 1, removed: 0, added: 1 },
            },
        ])
    );
    manager.add_calendar(&calendar("urn:c1", "urn:a")).unwrap();
    assert_eq!(
        manager.add_calendar(&calendar("urn:c1", "urn:b")),
        Ok(vec![Notification::ItemsChanged {
            owner: "urn:c1".to_string(),
            change: ItemsChanged { position: 1, removed: 0, added: 1 },
        }])
    );
    assert_eq!(
        manager.add_event(sample_event("urn:b", "urn:e")),
        Ok(vec![Notification::ItemsChanged {
            owner: "urn:b".to_string(),
            change: ItemsChanged { position: 0, removed: 0, added: 1 },
        }])
    );
}

#[test]
fn taken_uri_is_refused() {
    let mut manager = sample_directory();
    assert_eq!(manager.add_provider(&provider("urn:p")), Err(AddError::AlreadyRegistered));
    assert_eq!(
        manager.add_calendar(&calendar("urn:col", "urn:ev1")),
        Err(AddError::AlreadyRegistered)
    );
    assert_eq!(
        manager.add_event(sample_event("urn:cal1", "urn:ev1")),
        Err(AddError::AlreadyRegistered)
    );
    assert_eq!(children_of(&manager, "urn:cal1"), vec!["urn:ev1"]);
}

#[test]
fn missing_parent_is_refused() {
    let mut manager = sample_directory();
    assert_eq!(
        manager.add_collection(&collection("urn:nowhere", "urn:new")),
        Err(AddError::MissingParent)
    );
    assert_eq!(
        manager.add_event(sample_event("urn:nowhere", "urn:new")),
        Err(AddError::MissingParent)
    );
    assert!(manager.find_resource("urn:new").is_none());
    assert_eq!(model_of(&manager), vec!["urn:col"]);
}

#[test]
fn parent_of_the_wrong_kind_is_refused() {
    let mut manager = sample_directory();
    // a calendar cannot belong to a provider, nor an event to a collection
    assert_eq!(manager.add_calendar(&calendar("urn:p", "urn:new")), Err(AddError::MissingParent));
    assert_eq!(
        manager.add_event(sample_event("urn:col", "urn:new")),
        Err(AddError::MissingParent)
    );
    assert_eq!(
        manager.add_collection(&collection("urn:cal1", "urn:new")),
        Err(AddError::MissingParent)
    );
    assert!(manager.find_resource("urn:new").is_none());
    assert_eq!(children_of(&manager, "urn:p"), vec!["urn:col"]);
}

#[test]
fn deleting_a_collection_fires_bottom_up() {
    let mut manager = sample_directory();
    let log = manager.emit_deleted("urn:col");
    assert_eq!(
        log,
        vec![
            deleted("urn:ev1", ResourceKind::Event),
            left("urn:cal1", 0),
            deleted("urn:cal1", ResourceKind::Calendar),
            left("urn:col", 0),
            deleted("urn:ev2", ResourceKind::Event),
            left("urn:cal2", 0),
            deleted("urn:cal2", ResourceKind::Calendar),
            left("urn:col", 0),
            deleted("urn:col", ResourceKind::Collection),
            left("urn:p", 0),
            Notification::ModelChanged {
                change: ItemsChanged { position: 0, removed: 1, added: 0 },
            },
        ]
    );
    let fired: Vec<&str> = log
        .iter()
        .filter_map(|n| match n {
            Notification::Deleted { uri, .. } => Some(uri.as_str()),
            _ => None,
        })
        .collect();
    assert_eq!(fired, vec!["urn:ev1", "urn:cal1", "urn:ev2", "urn:cal2", "urn:col"]);
}

#[test]
fn deleting_a_collection_removes_all_descendants() {
    let mut manager = sample_directory();
    manager.emit_deleted("urn:col");
    for uri in ["urn:col", "urn:cal1", "urn:cal2", "urn:ev1", "urn:ev2"] {
        assert!(manager.find_resource(uri).is_none());
    }
    assert_eq!(manager.find_resource("urn:p").unwrap().uri(), "urn:p");
    assert!(children_of(&manager, "urn:p").is_empty());
    assert!(model_of(&manager).is_empty());
}

#[test]
fn deleting_a_calendar_spares_its_siblings() {
    let mut manager = sample_directory();
    let log = manager.emit_deleted("urn:cal2");
    assert_eq!(
        log,
        vec![
            deleted("urn:ev2", ResourceKind::Event),
            left("urn:cal2", 0),
            deleted("urn:cal2", ResourceKind::Calendar),
            left("urn:col", 1),
        ]
    );
    assert!(manager.find_resource("urn:cal2").is_none());
    assert!(manager.find_resource("urn:ev2").is_none());
    assert_eq!(children_of(&manager, "urn:col"), vec!["urn:cal1"]);
    assert_eq!(children_of(&manager, "urn:cal1"), vec!["urn:ev1"]);
    assert_eq!(model_of(&manager), vec!["urn:col"]);
}

#[test]
fn deleting_an_event_detaches_it_from_its_calendar() {
    let mut manager = sample_directory();
    manager.add_event(sample_event("urn:cal1", "urn:ev3")).unwrap();
    let log = manager.emit_deleted("urn:ev3");
    assert_eq!(log, vec![deleted("urn:ev3", ResourceKind::Event), left("urn:cal1", 1)]);
    assert_eq!(children_of(&manager, "urn:cal1"), vec!["urn:ev1"]);
}

#[test]
fn deleting_a_provider_empties_the_model_in_order() {
    let mut manager = Manager::new();
    manager.add_provider(&provider("urn:other")).unwrap();
    manager.add_collection(&collection("urn:other", "urn:x")).unwrap();
    manager.add_provider(&provider("urn:p")).unwrap();
    manager.add_collection(&collection("urn:p", "urn:a")).unwrap();
    manager.add_collection(&collection("urn:other", "urn:y")).unwrap();
    manager.add_collection(&collection("urn:p", "urn:b")).unwrap();
    assert_eq!(model_of(&manager), vec!["urn:x", "urn:a", "urn:y", "urn:b"]);
    let log = manager.emit_deleted("urn:p");
    assert_eq!(
        log,
        vec![
            deleted("urn:a", ResourceKind::Collection),
            left("urn:p", 0),
            Notification::ModelChanged {
                change: ItemsChanged { position: 1, removed: 1, added: 0 },
            },
            deleted("urn:b", ResourceKind::Collection),
            left("urn:p", 0),
            Notification::ModelChanged {
                change: ItemsChanged { position: 2, removed: 1, added: 0 },
            },
            deleted("urn:p", ResourceKind::Provider),
        ]
    );
    assert_eq!(model_of(&manager), vec!["urn:x", "urn:y"]);
    assert!(manager.find_resource("urn:p").is_none());
    assert_eq!(children_of(&manager, "urn:other"), vec!["urn:x", "urn:y"]);
}

#[test]
fn deleting_twice_fires_once() {
    let mut manager = sample_directory();
    assert_eq!(manager.emit_deleted("urn:ev1").len(), 2);
    assert!(manager.emit_deleted("urn:ev1").is_empty());
    assert!(manager.emit_deleted("urn:never").is_empty());
    assert_eq!(children_of(&manager, "urn:cal2"), vec!["urn:ev2"]);
}

#[test]
fn update_with_held_values_notifies_nothing() {
    let mut manager = sample_directory();
    let changed = manager.emit_updated("urn:cal1", "Work", Rgba::new(255, 0, 0, 255));
    assert_eq!(changed, Some(vec![]));
    match manager.find_resource("urn:cal1") {
        Some(Resource::Calendar(calendar)) => {
            assert_eq!(calendar.name(), "Work");
            assert_eq!(calendar.color(), Some(Rgba::new(255, 0, 0, 255)));
        }
        _ => panic!("the calendar should be live"),
    }
}

#[test]
fn update_names_each_changed_attribute_once() {
    let mut manager = sample_directory();
    assert_eq!(
        manager.emit_updated("urn:cal1", "Home", Rgba::new(255, 0, 0, 255)),
        Some(vec![Property::Name])
    );
    assert_eq!(
        manager.emit_updated("urn:cal1", "Home", Rgba::new(0, 0, 255, 255)),
        Some(vec![Property::Color])
    );
    assert_eq!(
        manager.emit_updated("urn:cal1", "Work", Rgba::new(0, 255, 0, 255)),
        Some(vec![Property::Name, Property::Color])
    );
    match manager.find_resource("urn:cal1") {
        Some(Resource::Calendar(calendar)) => {
            assert_eq!(calendar.name(), "Work");
            assert_eq!(calendar.color(), Some(Rgba::new(0, 255, 0, 255)));
            assert_eq!(calendar.events().snapshot(), vec!["urn:ev1"]);
        }
        _ => panic!("the calendar should be live"),
    }
}

#[test]
fn update_of_other_kinds_takes_the_name_alone() {
    let mut manager = sample_directory();
    let any = Rgba::new(9, 9, 9, 9);
    assert_eq!(manager.emit_updated("urn:p", "Local", any), Some(vec![]));
    assert_eq!(manager.emit_updated("urn:p", "Remote", any), Some(vec![Property::Name]));
    assert_eq!(manager.emit_updated("urn:col", "Shared", any), Some(vec![Property::Name]));
    assert_eq!(manager.emit_updated("urn:ev1", "Lunch", any), Some(vec![]));
    assert_eq!(manager.emit_updated("urn:ev1", "Dinner", any), Some(vec![Property::Name]));
    match manager.find_resource("urn:p") {
        Some(Resource::Provider(provider)) => {
            assert_eq!(provider.name(), "Remote");
            assert_eq!(provider.collections().snapshot(), vec!["urn:col"]);
        }
        _ => panic!("the provider should be live"),
    }
}

#[test]
fn update_of_an_unknown_uri_is_none() {
    let mut manager = sample_directory();
    assert_eq!(manager.emit_updated("urn:nothing", "X", Rgba::new(0, 0, 0, 0)), None);
}

#[test]
fn calendar_round_trips_name_and_color() {
    let mut manager = Manager::new();
    manager.add_provider(&provider("urn:p")).unwrap();
    manager.add_collection(&collection("urn:p", "urn:col")).unwrap();
    let described = PreCalendar {
        uri: "urn:cal".to_string(),
        collection_uri: "urn:col".to_string(),
        name: "Work".to_string(),
        color: Rgba::new(0xff, 0x00, 0x00, 0xff),
    };
    manager.add_calendar(&described).unwrap();
    match manager.find_resource("urn:cal") {
        Some(Resource::Calendar(calendar)) => {
            assert_eq!(calendar.name(), described.name);
            assert_eq!(calendar.color(), Some(described.color));
            assert_eq!(calendar.collection_uri(), "urn:col");
        }
        _ => panic!("the calendar should be live"),
    }
}

#[test]
fn search_finds_nothing() {
    let manager = sample_directory();
    assert_eq!(manager.search_events("lunch").n_items(), 0);
}

#[test]
fn found_resource_is_a_copy() {
    let mut manager = sample_directory();
    let before = manager.find_resource("urn:cal1").unwrap();
    manager.emit_deleted("urn:ev1");
    assert_eq!(before.children().unwrap().snapshot(), vec!["urn:ev1"]);
    assert!(children_of(&manager, "urn:cal1").is_empty());
}

#[test]
fn observers_are_numbered_in_the_order_of_connection() {
    let mut manager = sample_directory();
    assert_eq!(manager.connect_deleted("urn:ev1"), Some(HandlerId(0)));
    assert_eq!(manager.connect_deleted("urn:cal1"), Some(HandlerId(1)));
    assert_eq!(manager.connect_deleted("urn:ev1"), Some(HandlerId(2)));
    assert_eq!(manager.handlers("urn:ev1"), vec![HandlerId(0), HandlerId(2)]);
    assert_eq!(manager.handlers("urn:cal1"), vec![HandlerId(1)]);
    assert!(manager.handlers("urn:cal2").is_empty());
}

#[test]
fn observer_of_an_unknown_resource_is_refused() {
    let mut manager = sample_directory();
    assert_eq!(manager.connect_deleted("urn:nothing"), None);
    assert_eq!(manager.connect_deleted("urn:p"), Some(HandlerId(0)));
    assert!(manager.handlers("urn:nothing").is_empty());
}

#[test]
fn deletion_names_the_observers_of_each_resource_that_goes() {
    let mut manager = sample_directory();
    let on_event = manager.connect_deleted("urn:ev1").unwrap();
    let on_calendar = manager.connect_deleted("urn:cal1").unwrap();
    let on_event_again = manager.connect_deleted("urn:ev1").unwrap();
    let on_sibling = manager.connect_deleted("urn:cal2").unwrap();
    let log = manager.emit_deleted("urn:cal1");
    assert_eq!(
        log,
        vec![
            Notification::Deleted {
                uri: "urn:ev1".to_string(),
                kind: ResourceKind::Event,
                handlers: vec![on_event, on_event_again],
            },
            left("urn:cal1", 0),
            Notification::Deleted {
                uri: "urn:cal1".to_string(),
                kind: ResourceKind::Calendar,
                handlers: vec![on_calendar],
            },
            left("urn:col", 0),
        ]
    );
    assert!(manager.handlers("urn:ev1").is_empty());
    assert!(manager.handlers("urn:cal1").is_empty());
    assert_eq!(manager.handlers("urn:cal2"), vec![on_sibling]);
}

#[test]
fn observer_is_named_at_most_once() {
    let mut manager = sample_directory();
    let observer = manager.connect_deleted("urn:ev1").unwrap();
    let first = manager.emit_deleted("urn:ev1");
    assert!(matches!(
        &first[0],
        Notification::Deleted { handlers, .. } if handlers == &vec![observer]
    ));
    assert!(manager.emit_deleted("urn:ev1").is_empty());
    // a resource that comes back under the same URI has no observers
    manager.add_event(sample_event("urn:cal1", "urn:ev1")).unwrap();
    let second = manager.emit_deleted("urn:ev1");
    assert_eq!(second[0], deleted("urn:ev1", ResourceKind::Event));
    assert_eq!(manager.connect_deleted("urn:ev2"), Some(HandlerId(1)));
}

#[test]
fn default_directory_is_empty() {
    let manager = Manager::default();
    assert!(manager.find_resource("urn:p").is_none());
    assert_eq!(manager.collections_model().n_items(), 0);
    assert!(manager.handlers("urn:p").is_empty());
}
