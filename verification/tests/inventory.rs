use bevy_roguelike::inventory::{Entity, Equipment, Inventory};
use bevy_roguelike::plugin::item::ItemType;

fn e(bits: u64) -> Entity {
    Entity { bits }
}

#[test]
fn inventory_default_has_capacity_32_and_is_empty() {
    let inv = Inventory::default();
    assert_eq!(inv.len(), 32);
    assert_eq!(Inventory::DEFAULT_CAPACITY, 32);
    assert!(inv.iter_some().is_empty());
    assert!(!inv.is_full());
    assert!(!inv.is_empty());
}

#[test]
fn inventory_zero_capacity_refuses_items() {
    let mut inv = Inventory::with_capacity(0);
    assert!(inv.is_empty());
    assert!(inv.is_full());
    assert!(!inv.add(e(1)));
    assert!(inv.iter_some().is_empty());
}

#[test]
fn inventory_add_fills_first_free_slot() {
    let mut inv = Inventory::with_capacity(3);
    assert!(inv.add(e(10)));
    assert!(inv.add(e(20)));
    assert_eq!(inv.index(0), Some(e(10)));
    assert_eq!(inv.index(1), Some(e(20)));
    assert_eq!(inv.index(2), None);
    assert!(inv.take(e(10)));
    assert_eq!(inv.index(0), None);
    assert!(inv.add(e(30)));
    assert_eq!(inv.index(0), Some(e(30)));
    assert_eq!(inv.iter_some(), vec![e(30), e(20)]);
}

#[test]
fn inventory_full_refuses_and_keeps_items() {
    let mut inv = Inventory::with_capacity(2);
    assert!(inv.add(e(1)));
    assert!(inv.add(e(2)));
    assert!(inv.is_full());
    assert!(!inv.add(e(3)));
    assert_eq!(inv.iter_some(), vec![e(1), e(2)]);
}

#[test]
fn inventory_take_missing_item_changes_nothing() {
    let mut inv = Inventory::with_capacity(2);
    assert!(inv.add(e(1)));
    assert!(!inv.take(e(7)));
    assert_eq!(inv.iter_some(), vec![e(1)]);
}

#[test]
fn inventory_add_then_take_restores_slots() {
    let mut inv = Inventory::with_capacity(4);
    assert!(inv.add(e(5)));
    assert!(inv.add(e(6)));
    let before: Vec<Option<Entity>> = (0..4).map(|i| inv.index(i)).collect();
    assert!(inv.add(e(9)));
    assert!(inv.take(e(9)));
    let after: Vec<Option<Entity>> = (0..4).map(|i| inv.index(i)).collect();
    assert_eq!(before, after);
}

#[test]
fn inventory_take_removes_first_copy_only() {
    let mut inv = Inventory::with_capacity(3);
    assert!(inv.add(e(4)));
    assert!(inv.add(e(4)));
    assert!(inv.take(e(4)));
    assert_eq!(inv.index(0), None);
    assert_eq!(inv.index(1), Some(e(4)));
}

fn slots() -> Vec<(ItemType, u8)> {
    vec![
        (ItemType::MainHand, 0),
        (ItemType::OffHand, 0),
        (ItemType::Finger, 0),
        (ItemType::Finger, 1),
    ]
}

#[test]
fn equipment_from_slots_starts_empty() {
    let eq = Equipment::from_slots(&slots());
    assert!(eq.iter_some().is_empty());
    assert_eq!(eq.index((ItemType::MainHand, 0)), None);
    assert_eq!(eq.index((ItemType::Head, 0)), None);
}

#[test]
fn equipment_add_into_free_slot_of_kind() {
    let mut eq = Equipment::from_slots(&slots());
    assert!(eq.add(e(1), &ItemType::Finger));
    assert!(eq.add(e(2), &ItemType::Finger));
    assert!(!eq.add(e(3), &ItemType::Finger));
    assert!(!eq.add(e(4), &ItemType::Head));
    let held: Vec<Entity> = eq.iter_some().into_iter().map(|(_, it)| it).collect();
    assert_eq!(held.len(), 2);
    assert!(held.contains(&e(1)) && held.contains(&e(2)));
    let keys: Vec<(ItemType, u8)> = eq.iter_some().into_iter().map(|(k, _)| k).collect();
    assert!(keys.iter().all(|k| k.0 == ItemType::Finger));
}

#[test]
fn equipment_take_frees_slot() {
    let mut eq = Equipment::from_slots(&slots());
    assert!(eq.add(e(8), &ItemType::MainHand));
    assert_eq!(eq.index((ItemType::MainHand, 0)), Some(e(8)));
    assert!(eq.take(e(8)));
    assert_eq!(eq.index((ItemType::MainHand, 0)), None);
    assert!(!eq.take(e(8)));
}

#[test]
fn equipment_add_then_take_restores_slots() {
    let mut eq = Equipment::from_slots(&slots());
    assert!(eq.add(e(1), &ItemType::OffHand));
    let before = eq.iter_some();
    assert!(eq.add(e(2), &ItemType::MainHand));
    assert!(eq.take(e(2)));
    assert_eq!(eq.iter_some(), before);
}

#[test]
fn equipment_set_writes_slot() {
    let mut eq = Equipment::from_slots(&slots());
    eq.set((ItemType::OffHand, 0), Some(e(11)));
    assert_eq!(eq.index((ItemType::OffHand, 0)), Some(e(11)));
    eq.set((ItemType::OffHand, 0), None);
    assert_eq!(eq.index((ItemType::OffHand, 0)), None);
}

#[test]
fn equipment_new_has_no_slots() {
    let mut eq: Equipment<ItemType> = Equipment::new();
    assert!(!eq.add(e(1), &ItemType::MainHand));
    assert!(eq.iter_some().is_empty());
}

#[test]
fn equipment_enumerate_fn_keeps_found_components() {
    let mut eq = Equipment::from_slots(&slots());
    assert!(eq.add(e(2), &ItemType::MainHand));
    assert!(eq.add(e(3), &ItemType::OffHand));
    let found: Vec<u64> = eq.enumerate_fn(|it: Entity| if it.bits % 2 == 0 { Some(it.bits * 10) } else { None });
    assert_eq!(found, vec![20]);
}
