use agi_adventure::inventory::{Inventory, ItemCounts};

#[test]
fn use_item_decrements_count() {
    let mut inv = Inventory::new();
    assert!(inv.use_item("patch"));
    assert_eq!(*inv.items.get("patch").unwrap(), 2);
}

#[test]
fn use_item_returns_false_when_empty() {
    let mut inv = Inventory::from_items(ItemCounts::new());
    assert!(!inv.use_item("patch"));
}

#[test]
fn use_item_exhausts_to_zero() {
    let mut items = ItemCounts::new();
    items.insert("patch".to_string(), 1);
    let mut inv = Inventory::from_items(items);
    assert!(inv.use_item("patch"));
    assert!(!inv.use_item("patch"));
}

#[test]
fn ordered_ids_excludes_zero_count() {
    let mut items = ItemCounts::new();
    items.insert("patch".to_string(), 0);
    items.insert("capture_flag".to_string(), 2);
    let inv = Inventory::from_items(items);
    let ids = inv.ordered_ids();
    assert!(!ids.contains(&"patch"));
    assert!(ids.contains(&"capture_flag"));
}

#[test]
fn ordered_ids_respects_item_order() {
    let inv = Inventory::new();
    let ids = inv.ordered_ids();
    assert_eq!(ids, vec!["patch", "capture_flag"]);
}

#[test]
fn starting_bag_contents() {
    let inv = Inventory::new();
    assert_eq!(inv.items.get("patch"), Some(&3));
    assert_eq!(inv.items.get("capture_flag"), Some(&5));
    assert_eq!(inv.items.get("potion"), None);
}

#[test]
fn use_item_leaves_other_items_alone() {
    let mut inv = Inventory::new();
    assert!(inv.use_item("capture_flag"));
    assert_eq!(inv.items.get("capture_flag"), Some(&4));
    assert_eq!(inv.items.get("patch"), Some(&3));
    assert!(!inv.use_item("unknown"));
    assert_eq!(inv.items.get("unknown"), None);
}

#[test]
fn insert_overwrites_and_pairs_list_each_id_once() {
    let mut items = ItemCounts::new();
    items.insert("patch".to_string(), 1);
    items.insert("capture_flag".to_string(), 2);
    items.insert("patch".to_string(), 7);
    assert_eq!(items.get("patch"), Some(&7));
    let pairs = items.to_pairs();
    assert_eq!(pairs, vec![("patch".to_string(), 7), ("capture_flag".to_string(), 2)]);
    let copy = items.duplicate();
    assert_eq!(copy.to_pairs(), pairs);
}

#[test]
fn ordered_ids_empty_bag() {
    let inv = Inventory::from_items(ItemCounts::new());
    assert!(inv.ordered_ids().is_empty());
}
