use calendar_directory::{
    Attribute, CalendarRow, CollectionRow, EventRow, PreCalendar, PreCollection, PreEvent,
    PreProvider, PreResource, ProviderRow, Query, QueryOutcome, ResolveError, ResourceKind, Rgba,
    Step,
};

/// A store that holds one resource of each kind.
fn fixture_answer(uri: &str, query: Query) -> QueryOutcome {
    match query {
        Query::Ask(kind) => QueryOutcome::Boolean(match kind {
            ResourceKind::Provider => uri == "urn:provider",
            ResourceKind::Collection => uri == "urn:collection",
            ResourceKind::Calendar => uri == "urn:calendar",
            ResourceKind::Event => uri == "urn:event",
        }),
        Query::Select(ResourceKind::Provider) => QueryOutcome::Provider(ProviderRow {
            name: "Local".to_string(),
        }),
        Query::Select(ResourceKind::Collection) => QueryOutcome::Collection(CollectionRow {
            name: "Personal".to_string(),
            provider: "urn:provider".to_string(),
        }),
        Query::Select(ResourceKind::Calendar) => QueryOutcome::Calendar(CalendarRow {
            name: "Work".to_string(),
            color: Some(Rgba::new(255, 0, 0, 255)),
            collection: "urn:collection".to_string(),
        }),
        Query::Select(ResourceKind::Event) => QueryOutcome::Event(EventRow {
            name: "Lunch".to_string(),
            description: "With the team".to_string(),
            calendar: "urn:calendar".to_string(),
            all_day: false,
            start: "2024-06-15T12:00:00+00:00[UTC]".to_string(),
            end: "2024-06-15T13:00:00+00:00[UTC]".to_string(),
        }),
    }
}

/// Resolves `uri` against the fixture and records the queries that were put.
fn resolve_in_fixture(uri: &str) -> (Result<PreResource, ResolveError>, Vec<Query>) {
    let mut asked = Vec::new();
    let mut resolution = PreResource::from_uri(uri);
    loop {
        let query = resolution.query();
        asked.push(query);
        assert_eq!(resolution.uri(), uri);
        match resolution.answer(fixture_answer(uri, query)) {
            Step::Pending(next) => resolution = next,
            Step::Resolved(pre) => return (Ok(pre), asked),
            Step::Failed(error) => return (Err(error), asked),
        }
    }
}

#[test]
fn fixture_resolves_an_event_as_an_event() {
    let (resolved, asked) = resolve_in_fixture("urn:event");
    assert_eq!(
        resolved,
        Ok(PreResource::Event(PreEvent {
            uri: "urn:event".to_string(),
            calendar_uri: "urn:calendar".to_string(),
            name: "Lunch".to_string(),
            description: "With the team".to_string(),
            all_day: false,
            start: "2024-06-15T12:00:00+00:00[UTC]".to_string(),
            end: "2024-06-15T13:00:00+00:00[UTC]".to_string(),
        }))
    );
    assert_eq!(
        asked,
        vec![Query::Ask(ResourceKind::Event), Query::Select(ResourceKind::Event)]
    );
}

#[test]
fn fixture_resolves_a_calendar_as_a_calendar() {
    let (resolved, asked) = resolve_in_fixture("urn:calendar");
    assert_eq!(
        resolved,
        Ok(PreResource::Calendar(PreCalendar {
            uri: "urn:calendar".to_string(),
            collection_uri: "urn:collection".to_string(),
            name: "Work".to_string(),
            color: Rgba::new(255, 0, 0, 255),
        }))
    );
    assert_eq!(
        asked,
        vec![
            Query::Ask(ResourceKind::Event),
            Query::Ask(ResourceKind::Calendar),
            Query::Select(ResourceKind::Calendar)
        ]
    );
}

#[test]
fn fixture_resolves_a_collection_as_a_collection() {
    let (resolved, asked) = resolve_in_fixture("urn:collection");
    assert_eq!(
        resolved,
        Ok(PreResource::Collection(PreCollection {
            uri: "urn:collection".to_string(),
            provider_uri: "urn:provider".to_string(),
            name: "Personal".to_string(),
        }))
    );
    assert_eq!(asked.len(), 4);
    assert_eq!(asked[3], Query::Select(ResourceKind::Collection));
}

#[test]
fn fixture_resolves_a_provider_as_a_provider() {
    let (resolved, asked) = resolve_in_fixture("urn:provider");
    assert_eq!(
        resolved,
        Ok(PreResource::Provider(PreProvider {
            uri: "urn:provider".to_string(),
            name: "Local".to_string(),
        }))
    );
    assert_eq!(
        asked,
        vec![
            Query::Ask(ResourceKind::Event),
            Query::Ask(ResourceKind::Calendar),
            Query::Ask(ResourceKind::Collection),
            Query::Ask(ResourceKind::Provider),
            Query::Select(ResourceKind::Provider)
        ]
    );
}

#[test]
fn absent_uri_is_of_unknown_type() {
    let (resolved, asked) = resolve_in_fixture("urn:nothing");
    assert_eq!(resolved, Err(ResolveError::UnknownResourceType));
    assert_eq!(
        asked,
        vec![
            Query::Ask(ResourceKind::Event),
            Query::Ask(ResourceKind::Calendar),
            Query::Ask(ResourceKind::Collection),
            Query::Ask(ResourceKind::Provider)
        ]
    );
}

#[test]
fn resolved_kind_is_reported() {
    let (resolved, _) = resolve_in_fixture("urn:calendar");
    assert_eq!(resolved.unwrap().kind(), ResourceKind::Calendar);
    let (resolved, _) = resolve_in_fixture("urn:provider");
    assert_eq!(resolved.unwrap().kind(), ResourceKind::Provider);
}

#[test]
fn event_is_checked_before_its_ancestors() {
    // a store that affirms every kind: the most specific kind wins
    let resolution = PreResource::from_uri("urn:any");
    assert_eq!(resolution.query(), Query::Ask(ResourceKind::Event));
    match resolution.answer(QueryOutcome::Boolean(true)) {
        Step::Pending(next) => assert_eq!(next.query(), Query::Select(ResourceKind::Event)),
        _ => panic!("the attributes of the event should be asked for"),
    }
}

#[test]
fn check_without_a_row_is_unknown_type() {
    let resolution = PreResource::from_uri("urn:any");
    assert!(matches!(
        resolution.answer(QueryOutcome::Empty),
        Step::Failed(ResolveError::UnknownResourceType)
    ));
}

#[test]
fn failed_check_is_a_query_failure() {
    let resolution = PreResource::from_uri("urn:any");
    assert!(matches!(
        resolution.answer(QueryOutcome::Failed),
        Step::Failed(ResolveError::QueryExecutionFailure)
    ));
}

#[test]
fn row_in_answer_to_a_check_is_a_query_failure() {
    let resolution = PreResource::from_uri("urn:any");
    let row = QueryOutcome::Provider(ProviderRow { name: "Local".to_string() });
    assert!(matches!(
        resolution.answer(row),
        Step::Failed(ResolveError::QueryExecutionFailure)
    ));
}

#[test]
fn attributes_without_a_row_mean_the_resource_vanished() {
    let resolution = PreResource::from_uri("urn:calendar");
    let resolution = match resolution.answer(QueryOutcome::Boolean(false)) {
        Step::Pending(next) => next,
        _ => panic!("the next kind should be checked"),
    };
    let resolution = match resolution.answer(QueryOutcome::Boolean(true)) {
        Step::Pending(next) => next,
        _ => panic!("the attributes should be asked for"),
    };
    assert_eq!(resolution.query(), Query::Select(ResourceKind::Calendar));
    assert!(matches!(
        resolution.answer(QueryOutcome::Empty),
        Step::Failed(ResolveError::VanishedResource)
    ));
}

#[test]
fn failed_attribute_query_is_a_query_failure() {
    assert_eq!(
        PreEvent::from_uri("urn:event", QueryOutcome::Failed),
        Err(ResolveError::QueryExecutionFailure)
    );
    assert_eq!(
        PreProvider::from_uri("urn:provider", QueryOutcome::Boolean(true)),
        Err(ResolveError::QueryExecutionFailure)
    );
}

#[test]
fn row_of_another_kind_is_a_query_failure() {
    let row = QueryOutcome::Provider(ProviderRow { name: "Local".to_string() });
    assert_eq!(
        PreCalendar::from_uri("urn:calendar", row.clone()),
        Err(ResolveError::QueryExecutionFailure)
    );
    assert_eq!(
        PreCollection::from_uri("urn:collection", row),
        Err(ResolveError::QueryExecutionFailure)
    );
}

#[test]
fn vanished_descriptors_of_each_kind() {
    assert_eq!(
        PreProvider::from_uri("urn:p", QueryOutcome::Empty),
        Err(ResolveError::VanishedResource)
    );
    assert_eq!(
        PreCollection::from_uri("urn:c", QueryOutcome::Empty),
        Err(ResolveError::VanishedResource)
    );
    assert_eq!(
        PreCalendar::from_uri("urn:c", QueryOutcome::Empty),
        Err(ResolveError::VanishedResource)
    );
    assert_eq!(
        PreEvent::from_uri("urn:e", QueryOutcome::Empty),
        Err(ResolveError::VanishedResource)
    );
}

#[test]
fn unreadable_color_is_a_malformed_attribute() {
    let row = QueryOutcome::Calendar(CalendarRow {
        name: "Work".to_string(),
        color: None,
        collection: "urn:collection".to_string(),
    });
    assert_eq!(
        PreCalendar::from_uri("urn:calendar", row),
        Err(ResolveError::MalformedAttribute {
            uri: "urn:calendar".to_string(),
            attribute: Attribute::Color,
        })
    );
}

#[test]
fn calendar_descriptor_keeps_name_and_color() {
    let row = QueryOutcome::Calendar(CalendarRow {
        name: "Work".to_string(),
        color: Some(Rgba::new(0xff, 0x00, 0x00, 0xff)),
        collection: "urn:collection".to_string(),
    });
    let calendar = PreCalendar::from_uri("urn:calendar", row).unwrap();
    assert_eq!(calendar.uri, "urn:calendar");
    assert_eq!(calendar.name, "Work");
    assert_eq!(calendar.color, Rgba { red: 255, green: 0, blue: 0, alpha: 255 });
    assert_eq!(calendar.collection_uri, "urn:collection");
}

#[test]
fn query_texts_use_the_store_vocabulary() {
    assert_eq!(Query::Ask(ResourceKind::Event).sparql(), "ASK { ~uri a ccm:Event . }");
    assert_eq!(Query::Ask(ResourceKind::Calendar).sparql(), "ASK { ~uri a ccm:Calendar . }");
    assert_eq!(Query::Ask(ResourceKind::Collection).sparql(), "ASK { ~uri a ccm:Collection . }");
    assert_eq!(Query::Ask(ResourceKind::Provider).sparql(), "ASK { ~uri a ccm:Provider . }");
    let calendar = Query::Select(ResourceKind::Calendar).sparql();
    for predicate in ["ccm:collection ?collection", "ccm:calendarName ?name", "ccm:color ?color"] {
        assert!(calendar.contains(predicate));
    }
    assert!(calendar.starts_with("SELECT ?name ?color ?collection"));
    let event = Query::Select(ResourceKind::Event).sparql();
    for predicate in [
        "ccm:calendar ?calendar",
        "ccm:eventName ?name",
        "ccm:eventDescription ?description",
        "ccm:eventAllDay ?all_day",
        "ccm:eventStart ?start",
        "ccm:eventEnd ?end",
    ] {
        assert!(event.contains(predicate));
    }
    assert!(event.starts_with("SELECT ?name ?description ?calendar ?all_day ?start ?end"));
}
