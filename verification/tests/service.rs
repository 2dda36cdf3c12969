use grocery_lists::models::{AddItemForm, CreateForm, GroceryList, Item};
use grocery_lists::pages::{home, lists_view, view_list, HomePage, ListSummary};
use grocery_lists::registry::Registry;
use grocery_lists::service::{
    add_item, create_list, delete_completed_items, delete_item, delete_list, edit_item, sort_list,
    toggle_item, toggle_show_completed,
};
use grocery_lists::store::{load_data, save_data};
use std::sync::{Arc, RwLock};

fn create(registry: &mut Registry, name: &str) -> String {
    create_list(registry, CreateForm { name: name.to_string() })
}

fn add(registry: &mut Registry, id: &str, text: &str) {
    add_item(registry, id, AddItemForm { item: text.to_string() });
}

fn item(name: &str, completed: bool) -> Item {
    Item { name: name.to_string(), completed }
}

fn names(registry: &Registry, id: &str) -> Vec<String> {
    registry.get(id).unwrap().items.iter().map(|i| i.name.clone()).collect()
}

fn sample() -> Registry {
    let mut registry = Registry::new();
    create(&mut registry, "Weekend Trip");
    add(&mut registry, "weekend-trip", "Tent");
    add(&mut registry, "weekend-trip", "Stove");
    create(&mut registry, "Groceries");
    add(&mut registry, "groceries", "Milk");
    toggle_item(&mut registry, "groceries", 0);
    registry
}

#[test]
fn create_list_stores_an_empty_list_under_the_slug() {
    let mut registry = Registry::new();
    let id = create(&mut registry, "Weekend Trip");
    assert_eq!(id, "weekend-trip");
    assert_eq!(registry.len(), 1);
    let list = registry.get("weekend-trip").unwrap();
    assert_eq!(list.name, "Weekend Trip");
    assert!(list.items.is_empty());
    assert!(list.show_completed);
}

#[test]
fn create_list_with_a_colliding_name_replaces_the_list() {
    let mut registry = Registry::new();
    create(&mut registry, "My List");
    add(&mut registry, "my-list", "Salt");
    create(&mut registry, "Other");
    let id = create(&mut registry, "my list");
    assert_eq!(id, "my-list");
    assert_eq!(registry.len(), 2);
    let list = registry.get("my-list").unwrap();
    assert_eq!(list.name, "my list");
    assert!(list.items.is_empty());
    let ids: Vec<String> = registry.get_all().into_iter().map(|(id, _)| id).collect();
    assert_eq!(ids, vec!["my-list".to_string(), "other".to_string()]);
}

#[test]
fn weekend_trip_scenario() {
    let mut registry = Registry::new();
    let id = create(&mut registry, "Weekend Trip");
    assert_eq!(id, "weekend-trip");
    add(&mut registry, "weekend-trip", "Tent");
    let page = view_list(&registry, "weekend-trip").unwrap();
    assert_eq!(page.name, "Weekend Trip");
    assert!(page.show_completed);
    assert_eq!(page.rows, vec![(0usize, item("Tent", false))]);

    toggle_item(&mut registry, "weekend-trip", 0);
    toggle_show_completed(&mut registry, "weekend-trip");
    let page = view_list(&registry, "weekend-trip").unwrap();
    assert!(!page.show_completed);
    assert!(page.rows.is_empty());
    let stored = registry.get("weekend-trip").unwrap();
    assert_eq!(stored.items.len(), 1);
    assert_eq!(stored.items[0], item("Tent", true));
}

#[test]
fn toggle_item_twice_restores_the_item() {
    let mut registry = sample();
    let before = save_data(&registry);
    toggle_item(&mut registry, "weekend-trip", 1);
    assert!(registry.get("weekend-trip").unwrap().items[1].completed);
    assert!(!registry.get("weekend-trip").unwrap().items[0].completed);
    toggle_item(&mut registry, "weekend-trip", 1);
    assert_eq!(save_data(&registry), before);

    toggle_item(&mut registry, "groceries", 0);
    assert!(!registry.get("groceries").unwrap().items[0].completed);
    toggle_item(&mut registry, "groceries", 0);
    assert_eq!(save_data(&registry), before);
}

#[test]
fn delete_completed_after_toggling_every_item_empties_the_list() {
    let mut registry = Registry::new();
    create(&mut registry, "Chores");
    let n: usize = 5;
    for i in 0..n {
        add(&mut registry, "chores", &format!("task {}", i));
    }
    for i in 0..n {
        toggle_item(&mut registry, "chores", i);
    }
    delete_completed_items(&mut registry, "chores");
    assert!(registry.get("chores").unwrap().items.is_empty());
    add(&mut registry, "chores", "sweep");
    assert_eq!(registry.get("chores").unwrap().items, vec![item("sweep", false)]);
}

#[test]
fn delete_completed_keeps_the_pending_items_in_order() {
    let mut registry = Registry::new();
    create(&mut registry, "L");
    for name in ["a", "b", "c", "d", "e"] {
        add(&mut registry, "l", name);
    }
    toggle_item(&mut registry, "l", 0);
    toggle_item(&mut registry, "l", 3);
    delete_completed_items(&mut registry, "l");
    assert_eq!(names(&registry, "l"), vec!["b", "c", "e"]);
    delete_completed_items(&mut registry, "l");
    assert_eq!(names(&registry, "l"), vec!["b", "c", "e"]);
}

#[test]
fn sort_list_orders_without_regard_to_case() {
    let mut registry = Registry::new();
    create(&mut registry, "Fruit");
    for name in ["banana", "Apple", "cherry"] {
        add(&mut registry, "fruit", name);
    }
    sort_list(&mut registry, "fruit");
    assert_eq!(names(&registry, "fruit"), vec!["Apple", "banana", "cherry"]);
}

#[test]
fn sort_list_is_stable() {
    let mut registry = Registry::new();
    create(&mut registry, "Fruit");
    for name in ["pear", "apple", "APPLE", "Pear", "Apple", "fig", "PEAR"] {
        add(&mut registry, "fruit", name);
    }
    toggle_item(&mut registry, "fruit", 2);
    sort_list(&mut registry, "fruit");
    assert_eq!(
        registry.get("fruit").unwrap().items,
        vec![
            item("apple", false),
            item("APPLE", true),
            item("Apple", false),
            item("fig", false),
            item("pear", false),
            item("Pear", false),
            item("PEAR", false),
        ]
    );
    let sorted = save_data(&registry);
    sort_list(&mut registry, "fruit");
    assert_eq!(save_data(&registry), sorted);
}

#[test]
fn sort_list_puts_a_prefix_first_and_orders_by_code_point() {
    let mut registry = Registry::new();
    create(&mut registry, "L");
    for name in ["ab", "a", "", "é", "z", "Ab c", "a-b", "a b", "10", "9"] {
        add(&mut registry, "l", name);
    }
    sort_list(&mut registry, "l");
    assert_eq!(names(&registry, "l"), vec!["", "10", "9", "a", "a b", "a-b", "ab", "Ab c", "z", "é"]);
}

#[test]
fn sort_list_of_empty_and_single_lists() {
    let mut registry = Registry::new();
    create(&mut registry, "E");
    sort_list(&mut registry, "e");
    assert!(registry.get("e").unwrap().items.is_empty());
    add(&mut registry, "e", "one");
    sort_list(&mut registry, "e");
    assert_eq!(names(&registry, "e"), vec!["one"]);
}

#[test]
fn mutations_on_a_missing_id_change_nothing() {
    let mut registry = sample();
    let before = save_data(&registry);
    add(&mut registry, "nowhere", "x");
    assert_eq!(save_data(&registry), before);
    edit_item(&mut registry, "nowhere", 0, AddItemForm { item: "x".to_string() });
    assert_eq!(save_data(&registry), before);
    delete_item(&mut registry, "nowhere", 0);
    assert_eq!(save_data(&registry), before);
    toggle_item(&mut registry, "nowhere", 0);
    assert_eq!(save_data(&registry), before);
    toggle_show_completed(&mut registry, "nowhere");
    assert_eq!(save_data(&registry), before);
    delete_completed_items(&mut registry, "nowhere");
    assert_eq!(save_data(&registry), before);
    sort_list(&mut registry, "nowhere");
    assert_eq!(save_data(&registry), before);
    delete_list(&mut registry, "nowhere");
    assert_eq!(save_data(&registry), before);
    assert_eq!(registry, sample());
    assert!(view_list(&registry, "nowhere").is_none());
}

#[test]
fn an_id_is_matched_exactly() {
    let mut registry = sample();
    let before = save_data(&registry);
    add(&mut registry, "Groceries", "x");
    add(&mut registry, "groceries ", "x");
    add(&mut registry, "", "x");
    assert_eq!(save_data(&registry), before);
}

#[test]
fn mutations_on_a_missing_index_change_nothing() {
    let mut registry = sample();
    let before = save_data(&registry);
    edit_item(&mut registry, "weekend-trip", 2, AddItemForm { item: "x".to_string() });
    delete_item(&mut registry, "weekend-trip", 2);
    toggle_item(&mut registry, "weekend-trip", 2);
    toggle_item(&mut registry, "weekend-trip", usize::MAX);
    delete_item(&mut registry, "weekend-trip", usize::MAX);
    assert_eq!(save_data(&registry), before);
}

#[test]
fn edit_item_renames_and_keeps_completion() {
    let mut registry = sample();
    edit_item(&mut registry, "groceries", 0, AddItemForm { item: "Oat milk".to_string() });
    assert_eq!(registry.get("groceries").unwrap().items, vec![item("Oat milk", true)]);
    edit_item(&mut registry, "weekend-trip", 1, AddItemForm { item: "Gas".to_string() });
    assert_eq!(
        registry.get("weekend-trip").unwrap().items,
        vec![item("Tent", false), item("Gas", false)]
    );
}

#[test]
fn delete_item_removes_the_item_at_the_index() {
    let mut registry = Registry::new();
    create(&mut registry, "L");
    for name in ["a", "b", "c"] {
        add(&mut registry, "l", name);
    }
    delete_item(&mut registry, "l", 1);
    assert_eq!(names(&registry, "l"), vec!["a", "c"]);
    delete_item(&mut registry, "l", 1);
    assert_eq!(names(&registry, "l"), vec!["a"]);
    delete_item(&mut registry, "l", 0);
    assert!(names(&registry, "l").is_empty());
    delete_item(&mut registry, "l", 0);
    assert!(names(&registry, "l").is_empty());
}

#[test]
fn toggle_show_completed_flips_only_the_flag() {
    let mut registry = sample();
    toggle_show_completed(&mut registry, "groceries");
    let list = registry.get("groceries").unwrap();
    assert!(!list.show_completed);
    assert_eq!(list.items, vec![item("Milk", true)]);
    assert!(registry.get("weekend-trip").unwrap().show_completed);
    toggle_show_completed(&mut registry, "groceries");
    assert_eq!(registry, sample());
}

#[test]
fn delete_list_removes_only_that_list() {
    let mut registry = sample();
    delete_list(&mut registry, "weekend-trip");
    assert_eq!(registry.len(), 1);
    assert!(!registry.contains("weekend-trip"));
    assert!(registry.contains("groceries"));
    assert_eq!(registry.get("groceries").unwrap().items, vec![item("Milk", true)]);
    delete_list(&mut registry, "groceries");
    assert!(registry.is_empty());
    assert_eq!(home(&registry), HomePage::Empty);
}

#[test]
fn view_list_numbers_rows_by_their_stored_place() {
    let mut registry = Registry::new();
    create(&mut registry, "L");
    for name in ["a", "b", "c", "d"] {
        add(&mut registry, "l", name);
    }
    toggle_item(&mut registry, "l", 0);
    toggle_item(&mut registry, "l", 2);
    let page = view_list(&registry, "l").unwrap();
    assert_eq!(
        page.rows,
        vec![
            (0usize, item("a", true)),
            (1usize, item("b", false)),
            (2usize, item("c", true)),
            (3usize, item("d", false)),
        ]
    );
    toggle_show_completed(&mut registry, "l");
    let page = view_list(&registry, "l").unwrap();
    assert_eq!(page.rows, vec![(1usize, item("b", false)), (3usize, item("d", false))]);
    assert_eq!(registry.get("l").unwrap().items.len(), 4);
}

#[test]
fn home_lists_the_registry_in_order() {
    let registry = sample();
    let expected = vec![
        ListSummary { id: "weekend-trip".to_string(), name: "Weekend Trip".to_string(), item_count: 2 },
        ListSummary { id: "groceries".to_string(), name: "Groceries".to_string(), item_count: 1 },
    ];
    assert_eq!(lists_view(&registry), expected);
    assert_eq!(home(&registry), HomePage::Lists(expected));
    assert_eq!(home(&Registry::new()), HomePage::Empty);
    assert!(lists_view(&Registry::new()).is_empty());
}

#[test]
fn item_count_includes_hidden_items() {
    let mut registry = sample();
    toggle_show_completed(&mut registry, "groceries");
    assert_eq!(lists_view(&registry)[1].item_count, 1);
    assert!(view_list(&registry, "groceries").unwrap().rows.is_empty());
}

#[test]
fn saving_then_loading_gives_the_registry_back() {
    let registry = sample();
    let loaded = load_data(Some(save_data(&registry)));
    assert_eq!(loaded, registry);
    assert_eq!(save_data(&loaded), save_data(&registry));
    let empty = load_data(Some(save_data(&Registry::new())));
    assert!(empty.is_empty());
}

#[test]
fn save_data_lists_every_entry_in_order() {
    let snapshot = save_data(&sample());
    assert_eq!(snapshot.len(), 2);
    assert_eq!(snapshot[0].0, "weekend-trip");
    assert_eq!(
        snapshot[0].1,
        GroceryList {
            name: "Weekend Trip".to_string(),
            items: vec![item("Tent", false), item("Stove", false)],
            show_completed: true,
        }
    );
    assert_eq!(snapshot[1].0, "groceries");
    assert_eq!(snapshot[1].1.items, vec![item("Milk", true)]);
}

#[test]
fn load_data_without_a_readable_store_is_empty() {
    let registry = load_data(None);
    assert!(registry.is_empty());
    assert_eq!(registry, Registry::new());
}

#[test]
fn load_data_keeps_the_last_of_two_lists_with_one_id() {
    let first = GroceryList { name: "first".to_string(), items: vec![], show_completed: true };
    let other = GroceryList { name: "other".to_string(), items: vec![], show_completed: false };
    let second =
        GroceryList { name: "second".to_string(), items: vec![item("x", true)], show_completed: true };
    let registry = load_data(Some(vec![
        ("a".to_string(), first),
        ("b".to_string(), other),
        ("a".to_string(), second),
    ]));
    assert_eq!(registry.len(), 2);
    assert_eq!(registry.get("a").unwrap().name, "second");
    assert_eq!(registry.entry_at(0).unwrap().0, "a");
    assert_eq!(registry.entry_at(1).unwrap().0, "b");
}

#[test]
fn additions_made_one_after_the_other_are_all_kept() {
    let mut registry = sample();
    let n: usize = 200;
    for i in 0..n {
        add(&mut registry, "weekend-trip", &format!("item {}", i));
    }
    let list = registry.get("weekend-trip").unwrap();
    assert_eq!(list.items.len(), 2 + n);
    for i in 0..n {
        assert_eq!(list.items[2 + i], item(&format!("item {}", i), false));
    }
}

#[test]
fn additions_through_a_write_lock_are_all_kept() {
    let shared = Arc::new(RwLock::new(sample()));
    let n: usize = 16;
    let handles: Vec<Arc<RwLock<Registry>>> = (0..n).map(|_| Arc::clone(&shared)).collect();
    for (i, handle) in handles.iter().enumerate().rev() {
        let mut registry = handle.write().unwrap();
        add(&mut registry, "weekend-trip", &format!("item {}", i));
    }
    let registry = shared.read().unwrap();
    let list = registry.get("weekend-trip").unwrap();
    assert_eq!(list.items.len(), 2 + n);
    for i in 0..n {
        let name = format!("item {}", i);
        assert_eq!(list.items.iter().filter(|it| it.name == name).count(), 1);
    }
}
