use grocery_lists::models::{GroceryList, Item};
use grocery_lists::order::sort_keyed;
use grocery_lists::registry::Registry;
use grocery_lists::store::reload;

fn list(name: &str) -> GroceryList {
    GroceryList::new(name.to_string())
}

#[test]
fn a_new_registry_is_empty() {
    let registry = Registry::new();
    assert_eq!(registry.len(), 0);
    assert!(registry.is_empty());
    assert!(registry.get("a").is_none());
    assert!(!registry.contains("a"));
    assert!(registry.entry_at(0).is_none());
    assert!(registry.get_all().is_empty());
}

#[test]
fn insert_appends_a_new_id_and_replaces_a_known_one_in_place() {
    let mut registry = Registry::new();
    registry.insert("a".to_string(), list("A"));
    registry.insert("b".to_string(), list("B"));
    registry.insert("c".to_string(), list("C"));
    registry.insert("b".to_string(), list("B2"));
    assert_eq!(registry.len(), 3);
    assert!(!registry.is_empty());
    let all = registry.get_all();
    let seen: Vec<(&str, &str)> = all.iter().map(|(id, l)| (id.as_str(), l.name.as_str())).collect();
    assert_eq!(seen, vec![("a", "A"), ("b", "B2"), ("c", "C")]);
    assert_eq!(registry.get("b").unwrap().name, "B2");
    assert!(registry.contains("c"));
    assert!(!registry.contains("d"));
}

#[test]
fn remove_hands_back_the_list_and_closes_the_gap() {
    let mut registry = Registry::new();
    registry.insert("a".to_string(), list("A"));
    registry.insert("b".to_string(), list("B"));
    registry.insert("c".to_string(), list("C"));
    assert_eq!(registry.remove("b"), Some(list("B")));
    assert_eq!(registry.remove("b"), None);
    assert_eq!(registry.len(), 2);
    assert_eq!(registry.entry_at(0).unwrap().0, "a");
    assert_eq!(registry.entry_at(1).unwrap().0, "c");
    assert_eq!(registry.entry_at(1).unwrap().1.name, "C");
    assert!(registry.entry_at(2).is_none());
    registry.insert("b".to_string(), list("B again"));
    assert_eq!(registry.entry_at(2).unwrap().0, "b");
}

#[test]
fn get_mut_changes_the_stored_list() {
    let mut registry = Registry::new();
    registry.insert("a".to_string(), list("A"));
    registry.insert("b".to_string(), list("B"));
    if let Some(found) = registry.get_mut("b") {
        found.push_item("x".to_string());
    }
    assert!(registry.get_mut("z").is_none());
    assert_eq!(
        registry.get("b").unwrap().items,
        vec![Item { name: "x".to_string(), completed: false }]
    );
    assert!(registry.get("a").unwrap().items.is_empty());
}

#[test]
fn from_entries_stores_each_pair_in_turn() {
    let registry = Registry::from_entries(vec![
        ("x".to_string(), list("X")),
        ("y".to_string(), list("Y")),
        ("x".to_string(), list("X2")),
    ]);
    let all = registry.get_all();
    let seen: Vec<(&str, &str)> = all.iter().map(|(id, l)| (id.as_str(), l.name.as_str())).collect();
    assert_eq!(seen, vec![("x", "X2"), ("y", "Y")]);
    assert!(Registry::from_entries(vec![]).is_empty());
}

#[test]
fn list_operations_on_their_own() {
    let mut l = list("L");
    assert_eq!(l.name, "L");
    assert!(l.show_completed);
    l.push_item("b".to_string());
    l.push_item("A".to_string());
    l.push_item("c".to_string());
    l.toggle_item(1);
    l.rename_item(2, "C".to_string());
    l.rename_item(3, "none".to_string());
    l.toggle_item(3);
    l.remove_item(3);
    assert_eq!(
        l.items,
        vec![
            Item { name: "b".to_string(), completed: false },
            Item { name: "A".to_string(), completed: true },
            Item { name: "C".to_string(), completed: false },
        ]
    );
    l.toggle_show_completed();
    assert!(!l.show_completed);
    let rows = l.visible_items();
    assert_eq!(rows.len(), 2);
    assert_eq!((rows[0].0, rows[0].1.name.as_str()), (0, "b"));
    assert_eq!((rows[1].0, rows[1].1.name.as_str()), (2, "C"));
    l.sort_by_name();
    let sorted: Vec<&str> = l.items.iter().map(|i| i.name.as_str()).collect();
    assert_eq!(sorted, vec!["A", "b", "C"]);
    assert!(!l.show_completed);
    l.delete_completed();
    let left: Vec<&str> = l.items.iter().map(|i| i.name.as_str()).collect();
    assert_eq!(left, vec!["b", "C"]);
    l.remove_item(0);
    assert_eq!(l.items, vec![Item { name: "C".to_string(), completed: false }]);
    let copy = l.clone();
    assert_eq!(copy, l);
}

fn keyed(key: &str, name: &str) -> (Vec<char>, Item) {
    (key.chars().collect(), Item { name: name.to_string(), completed: false })
}

#[test]
fn sort_keyed_orders_by_key_and_keeps_ties_in_place() {
    let sorted = sort_keyed(vec![
        keyed("m", "first m"),
        keyed("b", "first b"),
        keyed("m", "second m"),
        keyed("", "empty"),
        keyed("b", "second b"),
        keyed("ba", "ba"),
        keyed("B", "upper b"),
        keyed("m", "third m"),
    ]);
    let names: Vec<&str> = sorted.iter().map(|i| i.name.as_str()).collect();
    assert_eq!(
        names,
        vec!["empty", "upper b", "first b", "second b", "ba", "first m", "second m", "third m"]
    );
    assert!(sort_keyed(vec![]).is_empty());
}

#[test]
fn sort_keyed_goes_by_the_key_not_the_name() {
    let sorted = sort_keyed(vec![keyed("2", "a"), keyed("1", "b"), keyed("3", "0")]);
    let names: Vec<&str> = sorted.iter().map(|i| i.name.as_str()).collect();
    assert_eq!(names, vec!["b", "a", "0"]);
}

#[test]
fn reload_gives_an_equal_registry() {
    let mut registry = Registry::new();
    registry.insert("b".to_string(), list("B"));
    registry.insert("a".to_string(), list("A"));
    registry.get_mut("a").unwrap().push_item("x".to_string());
    registry.get_mut("a").unwrap().toggle_item(0);
    registry.get_mut("b").unwrap().toggle_show_completed();
    assert_eq!(reload(&registry), registry);
    assert_eq!(reload(&Registry::new()), Registry::new());
}
