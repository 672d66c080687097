use calendar_directory::{Collection, CollectionsModel, ItemsChanged, ObservableContainer};

#[test]
fn new_container_is_empty() {
    let list = ObservableContainer::new();
    assert_eq!(list.n_items(), 0);
    assert_eq!(list.item(0), None);
    assert_eq!(list.find("urn:a"), None);
}

#[test]
fn append_reports_the_old_length() {
    let mut list = ObservableContainer::new();
    assert_eq!(
        list.append("urn:a".to_string()),
        ItemsChanged { position: 0, removed: 0, added: 1 }
    );
    assert_eq!(
        list.append("urn:b".to_string()),
        ItemsChanged { position: 1, removed: 0, added: 1 }
    );
    assert_eq!(list.n_items(), 2);
    assert_eq!(list.item(0).map(|s| s.as_str()), Some("urn:a"));
    assert_eq!(list.item(1).map(|s| s.as_str()), Some("urn:b"));
    assert_eq!(list.item(2), None);
}

#[test]
fn splice_reports_one_change_for_all() {
    let mut list = ObservableContainer::new();
    list.append("urn:a".to_string());
    let change = list.splice(vec!["urn:b".to_string(), "urn:c".to_string(), "urn:d".to_string()]);
    assert_eq!(change, ItemsChanged { position: 1, removed: 0, added: 3 });
    assert_eq!(list.snapshot(), vec!["urn:a", "urn:b", "urn:c", "urn:d"]);
}

#[test]
fn splice_of_nothing_adds_nothing() {
    let mut list = ObservableContainer::new();
    list.append("urn:a".to_string());
    assert_eq!(list.splice(Vec::new()), ItemsChanged { position: 1, removed: 0, added: 0 });
    assert_eq!(list.n_items(), 1);
}

#[test]
fn remove_reports_the_position() {
    let mut list = ObservableContainer::new();
    list.splice(vec!["urn:a".to_string(), "urn:b".to_string(), "urn:c".to_string()]);
    assert_eq!(list.remove(1), ItemsChanged { position: 1, removed: 1, added: 0 });
    assert_eq!(list.snapshot(), vec!["urn:a", "urn:c"]);
}

#[test]
fn find_gives_the_first_position() {
    let mut list = ObservableContainer::new();
    list.splice(vec!["urn:a".to_string(), "urn:b".to_string(), "urn:a".to_string()]);
    assert_eq!(list.find("urn:a"), Some(0));
    assert_eq!(list.find("urn:b"), Some(1));
    assert_eq!(list.find("urn:c"), None);
}

#[test]
fn remove_item_takes_the_first_occurrence() {
    let mut list = ObservableContainer::new();
    list.splice(vec!["urn:a".to_string(), "urn:b".to_string(), "urn:a".to_string()]);
    assert_eq!(
        list.remove_item("urn:a"),
        Some(ItemsChanged { position: 0, removed: 1, added: 0 })
    );
    assert_eq!(list.snapshot(), vec!["urn:b", "urn:a"]);
    assert_eq!(list.remove_item("urn:zzz"), None);
    assert_eq!(list.n_items(), 2);
}

#[test]
fn snapshot_does_not_follow_later_changes() {
    let mut list = ObservableContainer::new();
    list.append("urn:a".to_string());
    let before = list.snapshot();
    list.remove(0);
    assert_eq!(before, vec!["urn:a"]);
    assert_eq!(list.n_items(), 0);
}

#[test]
fn cloned_container_holds_the_same_handles() {
    let mut list = ObservableContainer::new();
    list.splice(vec!["urn:a".to_string(), "urn:b".to_string()]);
    let copy = list.clone();
    assert_eq!(copy.snapshot(), list.snapshot());
}

#[test]
fn collections_model_appends_and_removes() {
    let mut model = CollectionsModel::new();
    let first = Collection::new("urn:provider", "urn:one", "One");
    let second = Collection::new("urn:provider", "urn:two", "Two");
    assert_eq!(model.append(&first), ItemsChanged { position: 0, removed: 0, added: 1 });
    assert_eq!(model.append(&second), ItemsChanged { position: 1, removed: 0, added: 1 });
    assert_eq!(model.n_items(), 2);
    assert_eq!(model.item(1).map(|s| s.as_str()), Some("urn:two"));
    assert_eq!(model.find("urn:two"), Some(1));
    assert_eq!(model.remove(0), ItemsChanged { position: 0, removed: 1, added: 0 });
    assert_eq!(model.item(0).map(|s| s.as_str()), Some("urn:two"));
    assert_eq!(model.item(1), None);
}

#[test]
fn collections_model_splices_in_order() {
    let mut model = CollectionsModel::default();
    model.append(&Collection::new("urn:provider", "urn:zero", "Zero"));
    let more = vec![
        Collection::new("urn:provider", "urn:one", "One"),
        Collection::new("urn:provider", "urn:two", "Two"),
    ];
    assert_eq!(model.splice(&more), ItemsChanged { position: 1, removed: 0, added: 2 });
    assert_eq!(model.n_items(), 3);
    assert_eq!(model.item(2).map(|s| s.as_str()), Some("urn:two"));
    assert_eq!(
        model.remove_item("urn:one"),
        Some(ItemsChanged { position: 1, removed: 1, added: 0 })
    );
    assert_eq!(model.remove_item("urn:one"), None);
}
