use vstd::prelude::*;

verus! {

/// Identifier of a game object, as the bits the engine gives it.
#[derive(Debug, Clone, Copy, PartialEq, Eq, Structural, Hash)]
pub struct Entity {
    pub bits: u64,
}

/// Kind of equipment slot an item goes into. Implemented by the game's item kinds.
pub trait ItemType: Copy + Sized {
    /// Whether two item kinds are the same kind.
    fn same_type(&self, other: &Self) -> (r: bool)
        ensures
            r == (*self == *other),
    ;
}

/// Index of the first occurrence of `v` in `s`, or `s.len()` when there is none.
pub open spec fn first_index<T>(s: Seq<T>, v: T) -> nat
    decreases s.len(),
{
    if s.len() == 0 {
        0
    } else if s[0] == v {
        0
    } else {
        1 + first_index(s.drop_first(), v)
    }
}

/// The slots after putting `item` into the first empty one (unchanged when none is empty).
pub open spec fn inventory_added(s: Seq<Option<Entity>>, item: Entity) -> Seq<Option<Entity>> {
    let i = first_index(s, None::<Entity>);
    if i < s.len() {
        s.update(i as int, Some(item))
    } else {
        s
    }
}

/// The slots after emptying the first one holding `item` (unchanged when none does).
pub open spec fn inventory_taken(s: Seq<Option<Entity>>, item: Entity) -> Seq<Option<Entity>> {
    let i = first_index(s, Some(item));
    if i < s.len() {
        s.update(i as int, None::<Entity>)
    } else {
        s
    }
}

/// The items held in `s`, in slot order.
pub open spec fn held(s: Seq<Option<Entity>>) -> Seq<Entity>
    decreases s.len(),
{
    if s.len() == 0 {
        Seq::empty()
    } else {
        let rest = held(s.drop_last());
        match s.last() {
            Some(e) => rest.push(e),
            None => rest,
        }
    }
}

pub proof fn lemma_first_index<T>(s: Seq<T>, v: T)
    ensures
        first_index(s, v) <= s.len(),
        first_index(s, v) < s.len() <==> s.contains(v),
        first_index(s, v) < s.len() ==> s[first_index(s, v) as int] == v,
        forall|j: int| 0 <= j < first_index(s, v) ==> s[j] != v,
    decreases s.len(),
{
    if s.len() > 0 {
        lemma_first_index(s.drop_first(), v);
        if s[0] != v {
            if s.contains(v) {
                let k = choose|k: int| 0 <= k < s.len() && s[k] == v;
                assert(s.drop_first()[k - 1] == v);
            }
            if s.drop_first().contains(v) {
                let k = choose|k: int| 0 <= k < s.drop_first().len() && s.drop_first()[k] == v;
                assert(s[k + 1] == v);
            }
            assert forall|j: int| 0 <= j < first_index(s, v) implies s[j] != v by {
                if j > 0 {
                    assert(s[j] == s.drop_first()[j - 1]);
                }
            }
        } else {
            assert(s.contains(v)) by {
                assert(s[0] == v);
            }
        }
    }
}

/// A bag of items with a fixed number of slots.
#[derive(Debug)]
pub struct Inventory {
    items: Vec<Option<Entity>>,
}

impl Inventory {
    pub const DEFAULT_CAPACITY: usize = 32;

    /// The slots, in order.
    pub closed spec fn slots(&self) -> Seq<Option<Entity>> {
        self.items@
    }

    /// An inventory of `cap` empty slots.
    pub fn with_capacity(cap: usize) -> (r: Self)
        ensures
            r.slots() == Seq::new(cap as nat, |i: int| None::<Entity>),
    {
        let mut items: Vec<Option<Entity>> = Vec::new();
        let mut i: usize = 0;
        while i < cap
            invariant
                i <= cap,
                items@ == Seq::new(i as nat, |k: int| None::<Entity>),
            decreases cap - i,
        {
            items.push(None);
            i = i + 1;
        }
        Inventory { items }
    }

    /// Puts `item` into the first empty slot. Returns whether there was one.
    pub fn add(&mut self, item: Entity) -> (r: bool)
        ensures
            r == old(self).slots().contains(None),
            final(self).slots() == inventory_added(old(self).slots(), item),
    {
        proof {
            lemma_first_index(self.items@, None);
        }
        let mut i: usize = 0;
        while i < self.items.len()
            invariant
                i <= self.items.len(),
                forall|j: int| 0 <= j < i ==> self.items@[j] != None::<Entity>,
                self.items@ == old(self).items@,
                forall|j: int| 0 <= j < first_index(self.items@, None::<Entity>) ==> self.items@[j] != None::<Entity>,
                i <= first_index(self.items@, None::<Entity>),
                first_index(self.items@, None::<Entity>) <= self.items.len(),
                first_index(self.items@, None::<Entity>) < self.items.len() ==> self.items@[first_index(
                    self.items@,
                    None::<Entity>,
                ) as int] == None::<Entity>,
            decreases self.items.len() - i,
        {
            if self.items[i].is_none() {
                self.items.set(i, Some(item));
                return true;
            }
            i = i + 1;
        }
        false
    }

    /// Empties the first slot holding `item`. Returns whether there was one.
    pub fn take(&mut self, item: Entity) -> (r: bool)
        ensures
            r == old(self).slots().contains(Some(item)),
            final(self).slots() == inventory_taken(old(self).slots(), item),
    {
        proof {
            lemma_first_index(self.items@, Some(item));
        }
        let mut i: usize = 0;
        while i < self.items.len()
            invariant
                i <= self.items.len(),
                forall|j: int| 0 <= j < i ==> self.items@[j] != Some(item),
                self.items@ == old(self).items@,
                forall|j: int| 0 <= j < first_index(self.items@, Some(item)) ==> self.items@[j] != Some(item),
                i <= first_index(self.items@, Some(item)),
                first_index(self.items@, Some(item)) <= self.items.len(),
                first_index(self.items@, Some(item)) < self.items.len() ==> self.items@[first_index(
                    self.items@,
                    Some(item),
                ) as int] == Some(item),
            decreases self.items.len() - i,
        {
            let hit = match self.items[i] {
                Some(e) => e == item,
                None => false,
            };
            if hit {
                self.items.set(i, None);
                return true;
            }
            i = i + 1;
        }
        false
    }

    /// The items held, in slot order.
    pub fn iter_some(&self) -> (r: Vec<Entity>)
        ensures
            r@ == held(self.slots()),
    {
        let mut r: Vec<Entity> = Vec::new();
        let mut i: usize = 0;
        while i < self.items.len()
            invariant
                i <= self.items.len(),
                r@ == held(self.items@.subrange(0, i as int)),
            decreases self.items.len() - i,
        {
            assert(self.items@.subrange(0, i + 1).drop_last() == self.items@.subrange(0, i as int));
            match self.items[i] {
                Some(e) => r.push(e),
                None => {},
            }
            i = i + 1;
        }
        assert(self.items@.subrange(0, self.items.len() as int) == self.items@);
        r
    }

    /// Whether every slot holds an item.
    pub fn is_full(&self) -> (r: bool)
        ensures
            r == !self.slots().contains(None),
    {
        let mut i: usize = 0;
        while i < self.items.len()
            invariant
                i <= self.items.len(),
                forall|j: int| 0 <= j < i ==> self.items@[j] != None::<Entity>,
            decreases self.items.len() - i,
        {
            if self.items[i].is_none() {
                assert(self.items@[i as int] == None::<Entity>);
                return false;
            }
            i = i + 1;
        }
        true
    }

    /// Number of slots.
    pub fn len(&self) -> (r: usize)
        ensures
            r == self.slots().len(),
    {
        self.items.len()
    }

    /// Whether there are no slots at all.
    pub fn is_empty(&self) -> (r: bool)
        ensures
            r == (self.slots().len() == 0),
    {
        self.len() == 0
    }

    /// The content of slot `index`.
    pub fn index(&self, index: usize) -> (r: Option<Entity>)
        requires
            index < self.slots().len(),
        ensures
            r == self.slots()[index as int],
    {
        self.items[index]
    }
}

impl Default for Inventory {
    fn default() -> (r: Self)
        ensures
            r.slots() == Seq::new(32, |i: int| None::<Entity>),
    {
        Inventory::with_capacity(Inventory::DEFAULT_CAPACITY)
    }
}

/// Putting an item that the inventory does not hold into a free slot and taking it out
/// again gives back the slots as they were.
pub proof fn lemma_inventory_add_take(s: Seq<Option<Entity>>, item: Entity)
    requires
        s.contains(None),
        !s.contains(Some(item)),
    ensures
        inventory_taken(inventory_added(s, item), item) == s,
{
    lemma_first_index(s, None::<Entity>);
    lemma_first_index(s, Some(item));
    let i = first_index(s, None::<Entity>);
    let s1 = s.update(i as int, Some(item));
    lemma_first_index(s1, Some(item));
    assert(s1[i as int] == Some(item));
    assert forall|j: int| 0 <= j < i implies s1[j] != Some(item) by {
        assert(s1[j] == s[j]);
        assert(s.contains(s[j]));
    }
    if first_index(s1, Some(item)) < i {
        let j = first_index(s1, Some(item)) as int;
        assert(s1[j] == s[j]);
    }
    assert(first_index(s1, Some(item)) == i);
    assert(s1.update(i as int, None::<Entity>) == s);
}

/// Adding succeeds exactly when some slot is free, and then one more item is held.
pub proof fn lemma_inventory_add_holds(s: Seq<Option<Entity>>, item: Entity)
    requires
        s.contains(None),
    ensures
        held(inventory_added(s, item)).len() == held(s).len() + 1,
        inventory_added(s, item).contains(Some(item)),
{
    lemma_first_index(s, None::<Entity>);
    let i = first_index(s, None::<Entity>) as int;
    lemma_held_update_none(s, i, item);
    assert(inventory_added(s, item)[i] == Some(item));
}

proof fn lemma_held_update_none(s: Seq<Option<Entity>>, i: int, item: Entity)
    requires
        0 <= i < s.len(),
        s[i] == None::<Entity>,
    ensures
        held(s.update(i, Some(item))).len() == held(s).len() + 1,
    decreases s.len(),
{
    let t = s.update(i, Some(item));
    if i == s.len() - 1 {
        assert(t.drop_last() == s.drop_last());
    } else {
        lemma_held_update_none(s.drop_last(), i, item);
        assert(t.drop_last() == s.drop_last().update(i, Some(item)));
    }
}

/// Equipment slots: a slot key (item kind, number) and what it holds.
pub type EquipmentSlots<I> = Seq<((I, u8), Option<Entity>)>;

/// No slot key occurs twice.
pub open spec fn keys_distinct<I>(s: EquipmentSlots<I>) -> bool {
    forall|i: int, j: int| 0 <= i < s.len() && 0 <= j < s.len() && i != j ==> (#[trigger] s[i]).0 != (#[trigger] s[j]).0
}

/// The slot keys, in slot order.
pub open spec fn slot_keys<I>(s: EquipmentSlots<I>) -> Seq<(I, u8)> {
    s.map_values(|p: ((I, u8), Option<Entity>)| p.0)
}

/// Some slot holds `item`.
pub open spec fn equipment_holds<I>(s: EquipmentSlots<I>, item: Entity) -> bool {
    exists|i: int| 0 <= i < s.len() && (#[trigger] s[i]).1 == Some(item)
}

/// `new` is `old` after `add(item, t)` returned `r`: when some empty slot is of kind `t`,
/// one such slot now holds `item`; otherwise nothing changed.
pub open spec fn equipment_add_result<I>(old: EquipmentSlots<I>, t: I, item: Entity, new: EquipmentSlots<I>, r: bool) -> bool {
    &&& r == exists|i: int| 0 <= i < old.len() && (#[trigger] old[i]).0.0 == t && old[i].1 == None::<Entity>
    &&& r ==> exists|i: int|
        0 <= i < old.len() && (#[trigger] old[i]).0.0 == t && old[i].1 == None::<Entity> && new == old.update(i, (old[i].0, Some(item)))
    &&& !r ==> new == old
}

/// Slot `i` of `s` is empty and of kind `t`.
pub open spec fn free_of_kind<I>(s: EquipmentSlots<I>, t: I, i: int) -> bool {
    0 <= i < s.len() && s[i].0.0 == t && s[i].1 == None::<Entity>
}

/// `new` is `old` with `item` put into the lowest-numbered empty slot of kind `t`.
pub open spec fn equipment_filled_first_free<I>(old: EquipmentSlots<I>, t: I, item: Entity, new: EquipmentSlots<I>) -> bool {
    exists|i: int|
        #[trigger] free_of_kind(old, t, i) && (forall|j: int| 0 <= j < i ==> !#[trigger] free_of_kind(old, t, j))
            && new == old.update(i, (old[i].0, Some(item)))
}

/// `new` is `old` after `take(item)` returned `r`: when some slot holds `item`, one such
/// slot is now empty; otherwise nothing changed.
pub open spec fn equipment_take_result<I>(old: EquipmentSlots<I>, item: Entity, new: EquipmentSlots<I>, r: bool) -> bool {
    &&& r == equipment_holds(old, item)
    &&& r ==> exists|i: int|
        0 <= i < old.len() && (#[trigger] old[i]).1 == Some(item) && new == old.update(i, (old[i].0, None::<Entity>))
    &&& !r ==> new == old
}

/// The filled slots of `s`, in slot order, as key and item.
pub open spec fn equipped<I>(s: EquipmentSlots<I>) -> Seq<((I, u8), Entity)>
    decreases s.len(),
{
    if s.len() == 0 {
        Seq::empty()
    } else {
        let rest = equipped(s.drop_last());
        match s.last().1 {
            Some(e) => rest.push((s.last().0, e)),
            None => rest,
        }
    }
}

/// The values held by the `Some` entries of `outs`, in order.
pub open spec fn somes<T>(outs: Seq<Option<T>>) -> Seq<T>
    decreases outs.len(),
{
    if outs.len() == 0 {
        Seq::empty()
    } else {
        let rest = somes(outs.drop_last());
        match outs.last() {
            Some(t) => rest.push(t),
            None => rest,
        }
    }
}

/// What an actor wears: a set of keyed slots, each empty or holding one item.
#[derive(Debug)]
pub struct Equipment<I: ItemType> {
    items: Vec<((I, u8), Option<Entity>)>,
}

impl<I: ItemType> Equipment<I> {
    /// The slots.
    pub closed spec fn slots(&self) -> EquipmentSlots<I> {
        self.items@
    }

    /// No slot key occurs twice.
    pub open spec fn wf(&self) -> bool {
        keys_distinct(self.slots())
    }

    /// Equipment without any slot.
    pub fn new() -> (r: Self)
        ensures
            r.wf(),
            r.slots().len() == 0,
    {
        Equipment { items: Vec::new() }
    }

    /// Equipment with one empty slot per distinct key of `keys`, in order of first occurrence.
    pub fn from_slots(keys: &Vec<(I, u8)>) -> (r: Self)
        ensures
            r.wf(),
            forall|k: int| 0 <= k < r.slots().len() ==> keys@.contains((#[trigger] r.slots()[k]).0) && r.slots()[k].1 == None::<Entity>,
            forall|k: int| 0 <= k < keys.len() ==> slot_keys(r.slots()).contains(#[trigger] keys@[k]),
    {
        let mut items: Vec<((I, u8), Option<Entity>)> = Vec::new();
        let mut i: usize = 0;
        while i < keys.len()
            invariant
                i <= keys.len(),
                keys_distinct(items@),
                forall|k: int| 0 <= k < items.len() ==> keys@.contains((#[trigger] items@[k]).0) && items@[k].1 == None::<Entity>,
                forall|k: int| 0 <= k < i ==> slot_keys(items@).contains(#[trigger] keys@[k]),
            decreases keys.len() - i,
        {
            let key = keys[i];
            let mut found = false;
            let mut j: usize = 0;
            while j < items.len()
                invariant
                    j <= items.len(),
                    found <==> exists|m: int| 0 <= m < j && (#[trigger] items@[m]).0 == key,
                decreases items.len() - j,
            {
                let (k, _) = items[j];
                if k.0.same_type(&key.0) && k.1 == key.1 {
                    found = true;
                }
                j = j + 1;
            }
            if !found {
                let ghost before = items@;
                items.push((key, None));
                proof {
                    assert forall|a: int, b: int| 0 <= a < items@.len() && 0 <= b < items@.len() && a != b implies (#[trigger] items@[a]).0 != (#[trigger] items@[b]).0 by {
                        if a < before.len() && b < before.len() {
                            assert(before[a] == items@[a] && before[b] == items@[b]);
                        } else if a < before.len() {
                            assert(before[a] == items@[a]);
                        } else {
                            assert(before[b] == items@[b]);
                        }
                    }
                    assert forall|k: int| 0 <= k < items.len() implies keys@.contains((#[trigger] items@[k]).0) && items@[k].1 == None::<Entity> by {
                        if k < before.len() {
                            assert(before[k] == items@[k]);
                        } else {
                            assert(keys@[i as int] == key);
                        }
                    }
                    assert forall|k: int| 0 <= k < i + 1 implies slot_keys(items@).contains(#[trigger] keys@[k]) by {
                        if k < i {
                            assert(slot_keys(before).contains(keys@[k]));
                            let j = choose|j: int| 0 <= j < slot_keys(before).len() && slot_keys(before)[j] == keys@[k];
                            assert(slot_keys(items@)[j] == keys@[k]);
                        } else {
                            assert(slot_keys(items@)[before.len() as int] == keys@[k]);
                        }
                    }
                }
            } else {
                proof {
                    assert forall|k: int| 0 <= k < i + 1 implies slot_keys(items@).contains(#[trigger] keys@[k]) by {
                        if k == i {
                            let m = choose|m: int| 0 <= m < items.len() && (#[trigger] items@[m]).0 == key;
                            assert(slot_keys(items@)[m] == keys@[k]);
                        }
                    }
                }
            }
            i = i + 1;
        }
        Equipment { items }
    }

    /// Puts `item` into an empty slot of kind `item_type`. Returns whether there was one.
    pub fn add(&mut self, item: Entity, item_type: &I) -> (r: bool)
        requires
            old(self).wf(),
        ensures
            final(self).wf(),
            equipment_add_result(old(self).slots(), *item_type, item, final(self).slots(), r),
            r ==> equipment_filled_first_free(old(self).slots(), *item_type, item, final(self).slots()),
    {
        let mut i: usize = 0;
        while i < self.items.len()
            invariant
                i <= self.items.len(),
                self.items@ == old(self).items@,
                keys_distinct(self.items@),
                forall|j: int| 0 <= j < i ==> !((#[trigger] self.items@[j]).0.0 == *item_type && self.items@[j].1 == None::<Entity>),
            decreases self.items.len() - i,
        {
            let (key, slot) = self.items[i];
            if key.0.same_type(item_type) && slot.is_none() {
                let ghost before = self.items@;
                self.items.set(i, (key, Some(item)));
                proof {
                    assert forall|a: int, b: int| 0 <= a < self.items@.len() && 0 <= b < self.items@.len() && a != b implies (#[trigger] self.items@[a]).0 != (#[trigger] self.items@[b]).0 by {
                        assert(self.items@[a].0 == before[a].0);
                        assert(self.items@[b].0 == before[b].0);
                    }
                    assert(free_of_kind(before, *item_type, i as int));
                    assert forall|j: int| 0 <= j < i implies !#[trigger] free_of_kind(before, *item_type, j) by {
                        assert(!(before[j].0.0 == *item_type && before[j].1 == None::<Entity>));
                    }
                }
                return true;
            }
            i = i + 1;
        }
        false
    }

    /// Empties a slot holding `item`. Returns whether there was one.
    pub fn take(&mut self, item: Entity) -> (r: bool)
        requires
            old(self).wf(),
        ensures
            final(self).wf(),
            equipment_take_result(old(self).slots(), item, final(self).slots(), r),
    {
        let mut i: usize = 0;
        while i < self.items.len()
            invariant
                i <= self.items.len(),
                self.items@ == old(self).items@,
                keys_distinct(self.items@),
                forall|j: int| 0 <= j < i ==> (#[trigger] self.items@[j]).1 != Some(item),
            decreases self.items.len() - i,
        {
            let (key, slot) = self.items[i];
            let hit = match slot {
                Some(e) => e == item,
                None => false,
            };
            if hit {
                let ghost before = self.items@;
                self.items.set(i, (key, None));
                proof {
                    assert forall|a: int, b: int| 0 <= a < self.items@.len() && 0 <= b < self.items@.len() && a != b implies (#[trigger] self.items@[a]).0 != (#[trigger] self.items@[b]).0 by {
                        assert(self.items@[a].0 == before[a].0);
                        assert(self.items@[b].0 == before[b].0);
                    }
                    assert(before[i as int].1 == Some(item));
                }
                return true;
            }
            i = i + 1;
        }
        false
    }

    /// The filled slots, in slot order, as key and item.
    pub fn iter_some(&self) -> (r: Vec<((I, u8), Entity)>)
        ensures
            r@ == equipped(self.slots()),
    {
        let mut r: Vec<((I, u8), Entity)> = Vec::new();
        let mut i: usize = 0;
        while i < self.items.len()
            invariant
                i <= self.items.len(),
                r@ == equipped(self.items@.subrange(0, i as int)),
            decreases self.items.len() - i,
        {
            assert(self.items@.subrange(0, i + 1).drop_last() == self.items@.subrange(0, i as int));
            let (key, slot) = self.items[i];
            match slot {
                Some(e) => r.push((key, e)),
                None => {},
            }
            i = i + 1;
        }
        assert(self.items@.subrange(0, self.items.len() as int) == self.items@);
        r
    }

    /// Looks up each equipped item with `get_component`, in slot order, and keeps what it
    /// finds.
    pub fn enumerate_fn<T, F: Fn(Entity) -> Option<T>>(&self, get_component: F) -> (r: Vec<T>)
        requires
            forall|e: Entity| call_requires(get_component, (e,)),
        ensures
            exists|outs: Seq<Option<T>>|
                outs.len() == equipped(self.slots()).len()
                && (forall|k: int| 0 <= k < outs.len() ==> call_ensures(get_component, (#[trigger] equipped(self.slots())[k].1,), outs[k]))
                && r@ == somes(outs),
    {
        let items = self.iter_some();
        let mut r: Vec<T> = Vec::new();
        let ghost mut outs: Seq<Option<T>> = Seq::empty();
        let mut i: usize = 0;
        while i < items.len()
            invariant
                i <= items.len(),
                items@ == equipped(self.slots()),
                forall|e: Entity| call_requires(get_component, (e,)),
                outs.len() == i,
                forall|k: int| 0 <= k < i ==> call_ensures(get_component, (#[trigger] items@[k].1,), outs[k]),
                r@ == somes(outs),
            decreases items.len() - i,
        {
            let (_, e) = items[i];
            let found = get_component(e);
            proof {
                let prev = outs;
                outs = outs.push(found);
                assert(outs.drop_last() == prev);
            }
            match found {
                Some(t) => r.push(t),
                None => {},
            }
            i = i + 1;
        }
        r
    }

    /// What the slot `index` holds; `None` also when there is no such slot.
    pub fn index(&self, index: (I, u8)) -> (r: Option<Entity>)
        requires
            self.wf(),
        ensures
            (exists|i: int| 0 <= i < self.slots().len() && (#[trigger] self.slots()[i]).0 == index && r == self.slots()[i].1)
                || (r == None::<Entity> && forall|i: int| 0 <= i < self.slots().len() ==> (#[trigger] self.slots()[i]).0 != index),
    {
        let mut i: usize = 0;
        while i < self.items.len()
            invariant
                i <= self.items.len(),
                forall|j: int| 0 <= j < i ==> (#[trigger] self.items@[j]).0 != index,
            decreases self.items.len() - i,
        {
            let (key, slot) = self.items[i];
            if key.0.same_type(&index.0) && key.1 == index.1 {
                assert(self.slots()[i as int].0 == index);
                return slot;
            }
            i = i + 1;
        }
        None
    }

    /// Replaces what slot `index` holds by `value`. The slot must exist.
    pub fn set(&mut self, index: (I, u8), value: Option<Entity>)
        requires
            old(self).wf(),
            exists|i: int| 0 <= i < old(self).slots().len() && (#[trigger] old(self).slots()[i]).0 == index,
        ensures
            final(self).wf(),
            exists|i: int| 0 <= i < old(self).slots().len() && (#[trigger] old(self).slots()[i]).0 == index && final(self).slots() == old(self).slots().update(i, (index, value)),
    {
        let mut i: usize = 0;
        while i < self.items.len()
            invariant
                i <= self.items.len(),
                self.items@ == old(self).items@,
                keys_distinct(self.items@),
                exists|m: int| i <= m < self.items.len() && (#[trigger] self.items@[m]).0 == index,
            decreases self.items.len() - i,
        {
            let (key, _) = self.items[i];
            if key.0.same_type(&index.0) && key.1 == index.1 {
                let ghost before = self.items@;
                self.items.set(i, (key, value));
                proof {
                    assert forall|a: int, b: int| 0 <= a < self.items@.len() && 0 <= b < self.items@.len() && a != b implies (#[trigger] self.items@[a]).0 != (#[trigger] self.items@[b]).0 by {
                        assert(self.items@[a].0 == before[a].0);
                        assert(self.items@[b].0 == before[b].0);
                    }
                    assert(before[i as int].0 == index);
                    assert(old(self).slots()[i as int].0 == index);
                    assert(self.items@ == before.update(i as int, (index, value)));
                }
                return;
            }
            i = i + 1;
        }
    }
}

/// Equipping fills the lowest-numbered empty slot of the item's kind: if slot `k` is the
/// first empty slot of kind `t`, it now holds the item and every other slot is unchanged.
pub proof fn lemma_equipment_add_fills_lowest<I>(s0: EquipmentSlots<I>, t: I, item: Entity, s1: EquipmentSlots<I>, k: int)
    requires
        equipment_filled_first_free(s0, t, item, s1),
        free_of_kind(s0, t, k),
        forall|j: int| 0 <= j < k ==> !#[trigger] free_of_kind(s0, t, j),
    ensures
        s1.len() == s0.len(),
        s1[k] == (s0[k].0, Some(item)),
        forall|m: int| 0 <= m < s0.len() && m != k ==> #[trigger] s1[m] == s0[m],
{
    let i = choose|i: int|
        #[trigger] free_of_kind(s0, t, i) && (forall|j: int| 0 <= j < i ==> !#[trigger] free_of_kind(s0, t, j))
            && s1 == s0.update(i, (s0[i].0, Some(item)));
    if i < k {
        assert(!free_of_kind(s0, t, i));
    } else if k < i {
        assert(!free_of_kind(s0, t, k));
    }
    assert(i == k);
}

/// Two items equipped one after the other into slots of the same kind land in the first
/// two empty slots of that kind, the earlier item in the lower-numbered slot.
pub proof fn lemma_equipment_add_in_slot_order<I>(
    s0: EquipmentSlots<I>,
    t: I,
    a: Entity,
    s1: EquipmentSlots<I>,
    b: Entity,
    s2: EquipmentSlots<I>,
)
    requires
        equipment_filled_first_free(s0, t, a, s1),
        equipment_filled_first_free(s1, t, b, s2),
    ensures
        exists|i: int, j: int|
            0 <= i < j && #[trigger] free_of_kind(s0, t, i) && #[trigger] free_of_kind(s0, t, j)
                && (forall|k: int| 0 <= k < j && k != i ==> !#[trigger] free_of_kind(s0, t, k))
                && s2 == s0.update(i, (s0[i].0, Some(a))).update(j, (s0[j].0, Some(b))),
{
    let i = choose|i: int|
        #[trigger] free_of_kind(s0, t, i) && (forall|j: int| 0 <= j < i ==> !#[trigger] free_of_kind(s0, t, j))
            && s1 == s0.update(i, (s0[i].0, Some(a)));
    let j = choose|j: int|
        #[trigger] free_of_kind(s1, t, j) && (forall|k: int| 0 <= k < j ==> !#[trigger] free_of_kind(s1, t, k))
            && s2 == s1.update(j, (s1[j].0, Some(b)));
    assert(!free_of_kind(s1, t, i));
    if j < i {
        assert(free_of_kind(s0, t, j));
        assert(false);
    }
    assert(i < j);
    assert(s1[j] == s0[j]);
    assert(free_of_kind(s0, t, j));
    assert forall|k: int| 0 <= k < j && k != i implies !#[trigger] free_of_kind(s0, t, k) by {
        assert(s1[k] == s0[k]);
        assert(!free_of_kind(s1, t, k));
    }
    assert(s2 == s0.update(i, (s0[i].0, Some(a))).update(j, (s0[j].0, Some(b))));
}

/// Equipping an item that nothing holds and then unequipping it gives back the slots as
/// they were.
pub proof fn lemma_equipment_add_take<I>(
    s0: EquipmentSlots<I>,
    t: I,
    item: Entity,
    s1: EquipmentSlots<I>,
    s2: EquipmentSlots<I>,
    r2: bool,
)
    requires
        !equipment_holds(s0, item),
        equipment_add_result(s0, t, item, s1, true),
        equipment_take_result(s1, item, s2, r2),
    ensures
        r2,
        s2 == s0,
{
    let i = choose|i: int| 0 <= i < s0.len() && (#[trigger] s0[i]).0.0 == t && s0[i].1 == None::<Entity> && s1 == s0.update(i, (s0[i].0, Some(item)));
    assert(s1[i].1 == Some(item));
    assert(equipment_holds(s1, item));
    let j = choose|j: int| 0 <= j < s1.len() && (#[trigger] s1[j]).1 == Some(item) && s2 == s1.update(j, (s1[j].0, None::<Entity>));
    if j != i {
        assert(s0[j] == s1[j]);
        assert(false);
    }
    assert(s2 == s0);
}

} // verus!
