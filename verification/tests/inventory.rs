use space_trader::models::item::{Inventory, Item, ItemType, ResourceType};

fn iron() -> Item {
    Item::new("Iron", 50, 2, ItemType::Resource(ResourceType::Mineral))
}

#[test]
fn add_within_capacity() {
    let mut inv = Inventory::new(10);
    assert!(inv.add_item(iron(), 3));
    assert_eq!(inv.get_item_quantity("Iron"), 3);
    assert_eq!(inv.used_capacity(), 6);
    assert_eq!(inv.remaining_capacity(), 4);
}

#[test]
fn add_beyond_capacity_is_refused() {
    let mut inv = Inventory::new(5);
    assert!(!inv.add_item(iron(), 3));
    assert_eq!(inv.get_item_quantity("Iron"), 0);
    assert_eq!(inv.used_capacity(), 0);
}

#[test]
fn remove_then_quantities() {
    let mut inv = Inventory::new(100);
    assert!(inv.add_item(iron(), 5));
    assert!(inv.has_item("Iron", 5));
    assert!(!inv.has_item("Iron", 6));
    let removed = inv.remove_item("Iron", 2).unwrap();
    assert_eq!(removed.name, "Iron");
    assert_eq!(inv.get_item_quantity("Iron"), 3);
    assert!(inv.remove_item("Iron", 4).is_none());
    assert!(inv.remove_item("Gold", 1).is_none());
    assert!(inv.remove_item("Iron", 3).is_some());
    assert_eq!(inv.get_item_quantity("Iron"), 0);
    assert_eq!(inv.used_capacity(), 0);
}

#[test]
fn add_then_remove_restores_capacity() {
    let mut inv = Inventory::new(20);
    let before = inv.remaining_capacity();
    assert!(inv.add_item(iron(), 4));
    assert!(inv.remove_item("Iron", 4).is_some());
    assert_eq!(inv.remaining_capacity(), before);
}
