use bevy_roguelike::inventory::{Entity, Equipment, Inventory};
use bevy_roguelike::inventory_ui::{
    equip, sync_equipment_slot, sync_inventory_slot, toggle_display, unequip, DisplayToggle, EquipmentSlotSync, SlotSync,
};
use bevy_roguelike::plugin::item::ItemType;

fn e(bits: u64) -> Entity {
    Entity { bits }
}

fn slots() -> Vec<(ItemType, u8)> {
    vec![(ItemType::MainHand, 0), (ItemType::Finger, 0), (ItemType::Finger, 1)]
}

fn held(inv: &Inventory, eq: &Equipment<ItemType>) -> Vec<u64> {
    let mut all: Vec<u64> = inv.iter_some().into_iter().map(|x| x.bits).collect();
    all.extend(eq.iter_some().into_iter().map(|(_, x)| x.bits));
    all.sort();
    all
}

#[test]
fn toggle_closes_open_display() {
    assert!(matches!(toggle_display::<ItemType>(true, &slots(), 4), DisplayToggle::Close));
}

#[test]
fn toggle_opens_with_a_slot_per_key_and_index() {
    match toggle_display::<ItemType>(false, &slots(), 4) {
        DisplayToggle::Open { equipment_slots, inventory_slots } => {
            assert_eq!(equipment_slots, slots());
            assert_eq!(inventory_slots, vec![0, 1, 2, 3]);
        }
        DisplayToggle::Close => panic!("expected an open display"),
    }
}

#[test]
fn equip_into_free_slot() {
    let mut inv = Inventory::with_capacity(3);
    let mut eq = Equipment::from_slots(&slots());
    inv.add(e(1));
    assert!(equip(&mut inv, &mut eq, e(1), &ItemType::MainHand));
    assert_eq!(eq.index((ItemType::MainHand, 0)), Some(e(1)));
    assert!(inv.iter_some().is_empty());
}

#[test]
fn equip_item_not_in_inventory_changes_nothing() {
    let mut inv = Inventory::with_capacity(3);
    let mut eq = Equipment::from_slots(&slots());
    inv.add(e(1));
    assert!(!equip(&mut inv, &mut eq, e(9), &ItemType::MainHand));
    assert_eq!(inv.iter_some(), vec![e(1)]);
    assert!(eq.iter_some().is_empty());
}

#[test]
fn equip_swaps_with_first_item_of_kind() {
    let mut inv = Inventory::with_capacity(2);
    let mut eq = Equipment::from_slots(&slots());
    inv.add(e(1));
    inv.add(e(2));
    inv.add(e(3));
    assert!(equip(&mut inv, &mut eq, e(1), &ItemType::MainHand));
    let before = held(&inv, &eq);
    assert!(equip(&mut inv, &mut eq, e(2), &ItemType::MainHand));
    assert_eq!(eq.index((ItemType::MainHand, 0)), Some(e(2)));
    assert_eq!(inv.index(0), Some(e(1)));
    assert_eq!(held(&inv, &eq), before);
}

#[test]
fn equip_without_slot_of_kind_puts_item_back() {
    let mut inv = Inventory::with_capacity(2);
    let mut eq = Equipment::from_slots(&slots());
    inv.add(e(5));
    assert!(!equip(&mut inv, &mut eq, e(5), &ItemType::Head));
    assert_eq!(inv.index(0), Some(e(5)));
    assert!(eq.iter_some().is_empty());
}

#[test]
fn unequip_into_inventory_or_drop() {
    let mut inv = Inventory::with_capacity(1);
    let mut eq = Equipment::from_slots(&slots());
    inv.add(e(1));
    assert!(equip(&mut inv, &mut eq, e(1), &ItemType::Finger));
    assert!(!unequip(&mut inv, &mut eq, e(1)));
    assert_eq!(inv.index(0), Some(e(1)));
    assert!(eq.iter_some().is_empty());
    // a full inventory: the item leaves its slot and must be dropped
    eq.set((ItemType::MainHand, 0), Some(e(7)));
    assert!(unequip(&mut inv, &mut eq, e(7)));
    assert!(eq.iter_some().is_empty());
    assert_eq!(inv.iter_some(), vec![e(1)]);
    // an item nothing holds
    assert!(!unequip(&mut inv, &mut eq, e(8)));
}

#[test]
fn inventory_slot_sync() {
    assert_eq!(sync_inventory_slot(None, Some(e(1))), SlotSync { shown: Some(e(1)), clear: false, render: true });
    assert_eq!(sync_inventory_slot(Some(e(1)), Some(e(1))), SlotSync { shown: Some(e(1)), clear: false, render: false });
    assert_eq!(sync_inventory_slot(Some(e(2)), Some(e(1))), SlotSync { shown: Some(e(1)), clear: true, render: true });
    assert_eq!(sync_inventory_slot(Some(e(2)), None), SlotSync { shown: None, clear: true, render: false });
}

#[test]
fn equipment_slot_sync() {
    let s = sync_equipment_slot(None, true, Some(e(1)));
    assert_eq!(s, EquipmentSlotSync { shown: Some(e(1)), dummy_rendered: false, clear: true, render_item: true, render_dummy: false });
    let s = sync_equipment_slot(Some(e(1)), false, Some(e(1)));
    assert_eq!(s, EquipmentSlotSync { shown: Some(e(1)), dummy_rendered: false, clear: false, render_item: false, render_dummy: false });
    let s = sync_equipment_slot(Some(e(1)), false, None);
    assert_eq!(s, EquipmentSlotSync { shown: None, dummy_rendered: true, clear: true, render_item: false, render_dummy: true });
    let s = sync_equipment_slot(None, true, None);
    assert_eq!(s, EquipmentSlotSync { shown: None, dummy_rendered: true, clear: false, render_item: false, render_dummy: false });
    let s = sync_equipment_slot(None, false, None);
    assert_eq!(s, EquipmentSlotSync { shown: None, dummy_rendered: true, clear: true, render_item: false, render_dummy: true });
}
