use crate::inventory::{
    equipment_add_result, equipment_holds, equipment_take_result, equipped, first_index, inventory_added,
    inventory_taken, lemma_first_index, Entity, Equipment, Inventory, ItemType,
};
use vstd::multiset::Multiset;
use vstd::prelude::*;

verus! {

/// What toggling an actor's inventory display does.
#[derive(Debug)]
pub enum DisplayToggle<I: ItemType> {
    /// The display was open: close it.
    Close,
    /// The display was closed: open it with a slot per equipment key and per inventory
    /// index.
    Open { equipment_slots: Vec<(I, u8)>, inventory_slots: Vec<usize> },
}

/// Toggles an actor's inventory display: an open display closes; a closed one opens with
/// one equipment slot per key of `equipment_keys`, in order, and one inventory slot per
/// index below `inventory_len`.
pub fn toggle_display<I: ItemType>(display_open: bool, equipment_keys: &Vec<(I, u8)>, inventory_len: usize) -> (r: DisplayToggle<I>)
    ensures
        display_open ==> r is Close,
        !display_open ==> (r matches DisplayToggle::Open { equipment_slots, inventory_slots }
            && equipment_slots@ == equipment_keys@
            && inventory_slots@ == Seq::new(inventory_len as nat, |i: int| i as usize)),
{
    if display_open {
        return DisplayToggle::Close;
    }
    let mut equipment_slots: Vec<(I, u8)> = Vec::new();
    let mut i: usize = 0;
    while i < equipment_keys.len()
        invariant
            i <= equipment_keys.len(),
            equipment_slots@ == equipment_keys@.subrange(0, i as int),
        decreases equipment_keys.len() - i,
    {
        equipment_slots.push(equipment_keys[i]);
        i = i + 1;
    }
    assert(equipment_keys@.subrange(0, equipment_keys.len() as int) == equipment_keys@);
    let mut inventory_slots: Vec<usize> = Vec::new();
    let mut j: usize = 0;
    while j < inventory_len
        invariant
            j <= inventory_len,
            inventory_slots@ == Seq::new(j as nat, |k: int| k as usize),
        decreases inventory_len - j,
    {
        inventory_slots.push(j);
        j = j + 1;
        assert(inventory_slots@ =~= Seq::new(j as nat, |k: int| k as usize));
    }
    DisplayToggle::Open { equipment_slots, inventory_slots }
}

/// What keeping an inventory display slot in step with its inventory slot does: the item
/// the slot now shows, whether what it showed is cleared and whether the item is drawn.
#[derive(Debug, Clone, Copy, PartialEq, Eq, Structural)]
pub struct SlotSync {
    pub shown: Option<Entity>,
    pub clear: bool,
    pub render: bool,
}

/// Brings a display slot showing `shown` in step with an inventory slot holding `held`:
/// a new item is drawn (clearing an old one first), an unchanged one is left alone, and
/// an empty inventory slot empties the display slot.
pub fn sync_inventory_slot(shown: Option<Entity>, held: Option<Entity>) -> (r: SlotSync)
    ensures
        r == match held {
            Some(x) => match shown {
                Some(y) => if x == y {
                    SlotSync { shown, clear: false, render: false }
                } else {
                    SlotSync { shown: held, clear: true, render: true }
                },
                None => SlotSync { shown: held, clear: false, render: true },
            },
            None => SlotSync { shown: None, clear: true, render: false },
        },
{
    match held {
        Some(x) => match shown {
            Some(y) => if x == y {
                SlotSync { shown, clear: false, render: false }
            } else {
                SlotSync { shown: held, clear: true, render: true }
            },
            None => SlotSync { shown: held, clear: false, render: true },
        },
        None => SlotSync { shown: None, clear: true, render: false },
    }
}

/// What keeping an equipment display slot in step with its equipment slot does: the item
/// it now shows, whether it now shows the empty-slot picture, whether what it showed is
/// cleared, and whether the item or the empty-slot picture is drawn.
#[derive(Debug, Clone, Copy, PartialEq, Eq, Structural)]
pub struct EquipmentSlotSync {
    pub shown: Option<Entity>,
    pub dummy_rendered: bool,
    pub clear: bool,
    pub render_item: bool,
    pub render_dummy: bool,
}

/// Brings an equipment display slot showing `shown` (or the empty-slot picture, when
/// `dummy_rendered`) in step with an equipment slot holding `held`: an equipped item
/// replaces the picture and is drawn when new; an empty slot shows the picture, drawn
/// anew unless it was already shown with no item.
pub fn sync_equipment_slot(shown: Option<Entity>, dummy_rendered: bool, held: Option<Entity>) -> (r: EquipmentSlotSync)
    ensures
        r == match held {
            Some(x) => {
                let new_item = shown != held;
                EquipmentSlotSync {
                    shown: held,
                    dummy_rendered: false,
                    clear: dummy_rendered || (new_item && shown is Some),
                    render_item: new_item,
                    render_dummy: false,
                }
            },
            None => {
                let redraw = shown is Some || !dummy_rendered;
                EquipmentSlotSync {
                    shown: None,
                    dummy_rendered: true,
                    clear: redraw,
                    render_item: false,
                    render_dummy: redraw,
                }
            },
        },
{
    match held {
        Some(x) => {
            let mut clear = dummy_rendered;
            let render_item = match shown {
                Some(y) => if x != y {
                    clear = true;
                    true
                } else {
                    false
                },
                None => true,
            };
            EquipmentSlotSync { shown: held, dummy_rendered: false, clear, render_item, render_dummy: false }
        },
        None => {
            let mut dummy = dummy_rendered;
            let mut clear = false;
            let mut render_dummy = false;
            if shown.is_some() {
                clear = true;
                render_dummy = true;
                dummy = true;
            }
            if !dummy {
                clear = true;
                render_dummy = true;
                dummy = true;
            }
            EquipmentSlotSync { shown: None, dummy_rendered: dummy, clear, render_item: false, render_dummy }
        },
    }
}

/// Some empty slot is of kind `t`.
pub open spec fn has_free_slot<I>(s: Seq<((I, u8), Option<Entity>)>, t: I) -> bool {
    exists|i: int| 0 <= i < s.len() && (#[trigger] s[i]).0.0 == t && s[i].1 == None::<Entity>
}

/// The first item (in slot order) of the filled slots `eq` whose slot is of kind `t`.
pub open spec fn first_of_type<I>(eq: Seq<((I, u8), Entity)>, t: I) -> Option<Entity>
    decreases eq.len(),
{
    if eq.len() == 0 {
        None
    } else if eq[0].0.0 == t {
        Some(eq[0].1)
    } else {
        first_of_type(eq.drop_first(), t)
    }
}

proof fn lemma_equipped_held<I>(s: Seq<((I, u8), Option<Entity>)>, k: int)
    requires
        0 <= k < equipped(s).len(),
    ensures
        equipment_holds(s, equipped(s)[k].1),
    decreases s.len(),
{
    let rest = equipped(s.drop_last());
    match s.last().1 {
        Some(e) => {
            if k == rest.len() {
                assert(s[s.len() - 1].1 == Some(e));
            } else {
                lemma_equipped_held(s.drop_last(), k);
                let i = choose|i: int| 0 <= i < s.drop_last().len() && (#[trigger] s.drop_last()[i]).1 == Some(rest[k].1);
                assert(s[i] == s.drop_last()[i]);
            }
        },
        None => {
            lemma_equipped_held(s.drop_last(), k);
            let i = choose|i: int| 0 <= i < s.drop_last().len() && (#[trigger] s.drop_last()[i]).1 == Some(rest[k].1);
            assert(s[i] == s.drop_last()[i]);
        },
    }
}

proof fn lemma_first_of_type_in<I>(eq: Seq<((I, u8), Entity)>, t: I, e: Entity)
    requires
        first_of_type(eq, t) == Some(e),
    ensures
        exists|k: int| 0 <= k < eq.len() && (#[trigger] eq[k]).1 == e,
    decreases eq.len(),
{
    if eq[0].0.0 == t {
        assert(eq[0].1 == e);
    } else {
        lemma_first_of_type_in(eq.drop_first(), t, e);
        let k = choose|k: int| 0 <= k < eq.drop_first().len() && (#[trigger] eq.drop_first()[k]).1 == e;
        assert(eq[k + 1] == eq.drop_first()[k]);
    }
}

/// The first equipped item whose slot is of kind `t`.
fn find_of_type<I: ItemType>(eq: &Vec<((I, u8), Entity)>, t: &I) -> (r: Option<Entity>)
    ensures
        r == first_of_type(eq@, *t),
{
    let mut k: usize = 0;
    assert(eq@.subrange(0, eq.len() as int) == eq@);
    while k < eq.len()
        invariant
            k <= eq.len(),
            first_of_type(eq@, *t) == first_of_type(eq@.subrange(k as int, eq.len() as int), *t),
        decreases eq.len() - k,
    {
        let (key, e) = eq[k];
        let ghost rest = eq@.subrange(k as int, eq.len() as int);
        assert(rest[0] == eq@[k as int]);
        if key.0.same_type(t) {
            return Some(e);
        }
        assert(rest.drop_first() == eq@.subrange(k + 1, eq.len() as int));
        k = k + 1;
    }
    None
}

proof fn lemma_taken_has_room(s: Seq<Option<Entity>>, item: Entity)
    requires
        s.contains(Some(item)),
    ensures
        inventory_taken(s, item).contains(None::<Entity>),
{
    lemma_first_index(s, Some(item));
    let i = first_index(s, Some(item)) as int;
    assert(inventory_taken(s, item)[i] == None::<Entity>);
}

/// The entity in a slot, as a multiset of at most one.
pub open spec fn opt_items(v: Option<Entity>) -> Multiset<Entity> {
    match v {
        Some(e) => Multiset::singleton(e),
        None => Multiset::empty(),
    }
}

/// The entities held in slots `s`, counted with repetition.
pub open spec fn slot_items(s: Seq<Option<Entity>>) -> Multiset<Entity>
    decreases s.len(),
{
    if s.len() == 0 {
        Multiset::empty()
    } else {
        slot_items(s.drop_last()).add(opt_items(s.last()))
    }
}

/// The entities held in equipment slots `s`, counted with repetition.
pub open spec fn equipment_items<I>(s: Seq<((I, u8), Option<Entity>)>) -> Multiset<Entity> {
    slot_items(s.map_values(|p: ((I, u8), Option<Entity>)| p.1))
}

proof fn lemma_slot_items_update(s: Seq<Option<Entity>>, i: int, v: Option<Entity>)
    requires
        0 <= i < s.len(),
    ensures
        slot_items(s.update(i, v)).add(opt_items(s[i])) =~= slot_items(s).add(opt_items(v)),
    decreases s.len(),
{
    broadcast use vstd::multiset::group_multiset_axioms;
    let t = s.update(i, v);
    let dl = s.drop_last();
    assert(slot_items(s) == slot_items(dl).add(opt_items(s.last())));
    if i == s.len() - 1 {
        assert(t.drop_last() =~= dl);
        assert(slot_items(t) == slot_items(dl).add(opt_items(v)));
        assert(s.last() == s[i]);
        let l = slot_items(t).add(opt_items(s[i]));
        let r = slot_items(s).add(opt_items(v));
        assert forall|x: Entity| l.count(x) == r.count(x) by {}
    } else {
        assert(t.drop_last() =~= dl.update(i, v));
        lemma_slot_items_update(dl, i, v);
        let a = slot_items(dl.update(i, v));
        assert(slot_items(t) == a.add(opt_items(s.last())));
        assert(dl[i] == s[i]);
        let l = slot_items(t).add(opt_items(s[i]));
        let r = slot_items(s).add(opt_items(v));
        assert(a.add(opt_items(s[i])) =~= slot_items(dl).add(opt_items(v)));
        assert forall|x: Entity| l.count(x) == r.count(x) by {
            assert(a.add(opt_items(s[i])).count(x) == slot_items(dl).add(opt_items(v)).count(x));
        }
    }
}

proof fn lemma_inventory_taken_items(s: Seq<Option<Entity>>, item: Entity)
    requires
        s.contains(Some(item)),
    ensures
        slot_items(inventory_taken(s, item)).add(Multiset::singleton(item)) =~= slot_items(s),
{
    broadcast use vstd::multiset::group_multiset_axioms;
    lemma_first_index(s, Some(item));
    let i = first_index(s, Some(item)) as int;
    lemma_slot_items_update(s, i, None);
}

proof fn lemma_inventory_added_items(s: Seq<Option<Entity>>, x: Entity)
    requires
        s.contains(None::<Entity>),
    ensures
        slot_items(inventory_added(s, x)) =~= slot_items(s).add(Multiset::singleton(x)),
{
    broadcast use vstd::multiset::group_multiset_axioms;
    lemma_first_index(s, None::<Entity>);
    let i = first_index(s, None::<Entity>) as int;
    lemma_slot_items_update(s, i, Some(x));
}

proof fn lemma_equipment_update_items<I>(s: Seq<((I, u8), Option<Entity>)>, i: int, v: Option<Entity>)
    requires
        0 <= i < s.len(),
    ensures
        equipment_items(s.update(i, (s[i].0, v))).add(opt_items(s[i].1)) =~= equipment_items(s).add(opt_items(v)),
{
    let f = |p: ((I, u8), Option<Entity>)| p.1;
    assert(s.update(i, (s[i].0, v)).map_values(f) =~= s.map_values(f).update(i, v));
    lemma_slot_items_update(s.map_values(f), i, v);
}

proof fn lemma_equipment_add_items<I>(old: Seq<((I, u8), Option<Entity>)>, t: I, item: Entity, new: Seq<((I, u8), Option<Entity>)>)
    requires
        equipment_add_result(old, t, item, new, true),
    ensures
        equipment_items(new) =~= equipment_items(old).add(Multiset::singleton(item)),
{
    broadcast use vstd::multiset::group_multiset_axioms;
    let i = choose|i: int|
        0 <= i < old.len() && (#[trigger] old[i]).0.0 == t && old[i].1 == None::<Entity> && new == old.update(i, (old[i].0, Some(item)));
    lemma_equipment_update_items(old, i, Some(item));
}

proof fn lemma_equipment_take_items<I>(old: Seq<((I, u8), Option<Entity>)>, e: Entity, new: Seq<((I, u8), Option<Entity>)>)
    requires
        equipment_take_result(old, e, new, true),
    ensures
        equipment_items(new).add(Multiset::singleton(e)) =~= equipment_items(old),
{
    broadcast use vstd::multiset::group_multiset_axioms;
    let i = choose|i: int| 0 <= i < old.len() && (#[trigger] old[i]).1 == Some(e) && new == old.update(i, (old[i].0, None::<Entity>));
    lemma_equipment_update_items(old, i, None);
}

/// Equips `item`, of kind `item_type`, from the actor's inventory. An item the inventory
/// does not hold changes nothing. Otherwise the item leaves the inventory and goes into a
/// free slot of its kind; when there is none, the first equipped item of that kind is
/// swapped back into the inventory to make room; when there is no such item either, the
/// item goes back into the inventory. Returns whether the item was equipped.
pub fn equip<I: ItemType>(inventory: &mut Inventory, equipment: &mut Equipment<I>, item: Entity, item_type: &I) -> (r: bool)
    requires
        old(equipment).wf(),
    ensures
        final(equipment).wf(),
        !old(inventory).slots().contains(Some(item)) ==> !r && final(inventory).slots() == old(inventory).slots()
            && final(equipment).slots() == old(equipment).slots(),
        old(inventory).slots().contains(Some(item)) ==> ({
            let inv1 = inventory_taken(old(inventory).slots(), item);
            let t = *item_type;
            if has_free_slot(old(equipment).slots(), t) {
                &&& r
                &&& final(inventory).slots() == inv1
                &&& equipment_add_result(old(equipment).slots(), t, item, final(equipment).slots(), true)
            } else {
                match first_of_type(equipped(old(equipment).slots()), t) {
                    Some(e) => exists|eq1: Seq<((I, u8), Option<Entity>)>|
                        #![trigger has_free_slot(eq1, t)]
                        equipment_take_result(old(equipment).slots(), e, eq1, true) && if has_free_slot(eq1, t) {
                            &&& r
                            &&& final(inventory).slots() == inventory_added(inv1, e)
                            &&& equipment_add_result(eq1, t, item, final(equipment).slots(), true)
                        } else {
                            &&& !r
                            &&& final(equipment).slots() == eq1
                            &&& final(inventory).slots() == inventory_added(inventory_added(inv1, e), item)
                        },
                    None => {
                        &&& !r
                        &&& final(equipment).slots() == old(equipment).slots()
                        &&& final(inventory).slots() == inventory_added(inv1, item)
                    },
                }
            }
        }),
        r || !old(inventory).slots().contains(Some(item)) || first_of_type(equipped(old(equipment).slots()), *item_type) is None
            ==> slot_items(final(inventory).slots()).add(equipment_items(final(equipment).slots()))
            =~= slot_items(old(inventory).slots()).add(equipment_items(old(equipment).slots())),
{
    broadcast use vstd::multiset::group_multiset_axioms;
    proof {
        lemma_first_index(inventory.slots(), Some(item));
    }
    if !inventory.take(item) {
        return false;
    }
    proof {
        lemma_taken_has_room(old(inventory).slots(), item);
    }
    let ghost inv1 = inventory.slots();
    proof {
        lemma_inventory_taken_items(old(inventory).slots(), item);
    }
    if equipment.add(item, item_type) {
        assert(has_free_slot(old(equipment).slots(), *item_type));
        proof {
            lemma_equipment_add_items(old(equipment).slots(), *item_type, item, equipment.slots());
        }
        return true;
    }
    assert(!has_free_slot(old(equipment).slots(), *item_type));
    let eq = equipment.iter_some();
    let found = find_of_type(&eq, item_type);
    match found {
        Some(e) => {
            proof {
                lemma_first_of_type_in(eq@, *item_type, e);
                let k = choose|k: int| 0 <= k < eq@.len() && (#[trigger] eq@[k]).1 == e;
                lemma_equipped_held(equipment.slots(), k);
            }
            let ghost eq0 = equipment.slots();
            let taken = equipment.take(e);
            let ghost eq1 = equipment.slots();
            assert(taken);
            if taken {
                let added = inventory.add(e);
                assert(added);
                if added {
                    let ghost inv2 = inventory.slots();
                    if equipment.add(item, item_type) {
                        assert(has_free_slot(eq1, *item_type));
                        proof {
                            lemma_equipment_take_items(eq0, e, eq1);
                            lemma_inventory_added_items(inv1, e);
                            lemma_equipment_add_items(eq1, *item_type, item, equipment.slots());
                        }
                        return true;
                    }
                    assert(!has_free_slot(eq1, *item_type));
                }
            }
            inventory.add(item);
            assert(equipment_take_result(eq0, e, eq1, true));
            assert(!has_free_slot(eq1, *item_type));
            false
        },
        None => {
            proof {
                lemma_inventory_added_items(inv1, item);
            }
            inventory.add(item);
            false
        },
    }
}

/// Unequips `item` into the actor's inventory. An item no slot holds changes nothing.
/// Returns whether the item left its slot but found no room in the inventory, so that it
/// must be dropped.
pub fn unequip<I: ItemType>(inventory: &mut Inventory, equipment: &mut Equipment<I>, item: Entity) -> (dropped: bool)
    requires
        old(equipment).wf(),
    ensures
        final(equipment).wf(),
        equipment_take_result(old(equipment).slots(), item, final(equipment).slots(), equipment_holds(old(equipment).slots(), item)),
        equipment_holds(old(equipment).slots(), item) ==> final(inventory).slots() == inventory_added(old(inventory).slots(), item)
            && dropped == !old(inventory).slots().contains(None::<Entity>),
        !equipment_holds(old(equipment).slots(), item) ==> final(inventory).slots() == old(inventory).slots() && !dropped,
        !dropped ==> slot_items(final(inventory).slots()).add(equipment_items(final(equipment).slots()))
            =~= slot_items(old(inventory).slots()).add(equipment_items(old(equipment).slots())),
        dropped ==> slot_items(final(inventory).slots()).add(equipment_items(final(equipment).slots())).add(
            Multiset::singleton(item),
        ) =~= slot_items(old(inventory).slots()).add(equipment_items(old(equipment).slots())),
{
    broadcast use vstd::multiset::group_multiset_axioms;
    let ghost eq0 = equipment.slots();
    let ghost inv0 = inventory.slots();
    if equipment.take(item) {
        proof {
            lemma_equipment_take_items(eq0, item, equipment.slots());
            if inv0.contains(None::<Entity>) {
                lemma_inventory_added_items(inv0, item);
            } else {
                lemma_first_index(inv0, None::<Entity>);
            }
        }
        !inventory.add(item)
    } else {
        false
    }
}

} // verus!
