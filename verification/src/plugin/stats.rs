use crate::combat::attributes::{lookup, AttributeType as AttributeKind, Attributes as AttributeList};
use vstd::prelude::*;

verus! {

/// The six attributes of an actor.
#[derive(Debug, Clone, Copy, PartialEq, Eq, Structural, Hash)]
pub enum AttributeType {
    Strength,
    Dexterity,
    Inteligence,
    Toughness,
    Perception,
    Willpower,
}

impl AttributeKind for AttributeType {
    fn same_attribute(&self, other: &Self) -> (r: bool) {
        *self == *other
    }

    fn variants() -> (r: Vec<Self>)
        ensures
            r@ == seq![
                AttributeType::Strength,
                AttributeType::Dexterity,
                AttributeType::Inteligence,
                AttributeType::Toughness,
                AttributeType::Perception,
                AttributeType::Willpower,
            ],
    {
        let mut v: Vec<AttributeType> = Vec::new();
        v.push(AttributeType::Strength);
        v.push(AttributeType::Dexterity);
        v.push(AttributeType::Inteligence);
        v.push(AttributeType::Toughness);
        v.push(AttributeType::Perception);
        v.push(AttributeType::Willpower);
        assert(v@ == seq![
                AttributeType::Strength,
                AttributeType::Dexterity,
                AttributeType::Inteligence,
                AttributeType::Toughness,
                AttributeType::Perception,
                AttributeType::Willpower,
        ]);
        assert forall|a: AttributeType| v@.contains(a) by {
            match a {
                AttributeType::Strength => assert(v@[0] == a),
                AttributeType::Dexterity => assert(v@[1] == a),
                AttributeType::Inteligence => assert(v@[2] == a),
                AttributeType::Toughness => assert(v@[3] == a),
                AttributeType::Perception => assert(v@[4] == a),
                AttributeType::Willpower => assert(v@[5] == a),
            }
        }
        v
    }
}

impl Default for AttributeType {
    fn default() -> (r: Self)
        ensures
            r == AttributeType::Strength,
    {
        AttributeType::Strength
    }
}

/// Amounts of the six attributes.
pub type Attributes = AttributeList<AttributeType>;

/// Attributes with the six given amounts.
pub fn attributes_new(
    strength: u8,
    dexterity: u8,
    inteligence: u8,
    toughness: u8,
    perception: u8,
    willpower: u8,
) -> (r: Attributes)
    ensures
        r.value(AttributeType::Strength) == strength,
        r.value(AttributeType::Dexterity) == dexterity,
        r.value(AttributeType::Inteligence) == inteligence,
        r.value(AttributeType::Toughness) == toughness,
        r.value(AttributeType::Perception) == perception,
        r.value(AttributeType::Willpower) == willpower,
        r.wf(),
{
    let mut v: Vec<(AttributeType, u8)> = Vec::new();
    v.push((AttributeType::Strength, strength));
    v.push((AttributeType::Dexterity, dexterity));
    v.push((AttributeType::Inteligence, inteligence));
    v.push((AttributeType::Toughness, toughness));
    v.push((AttributeType::Perception, perception));
    v.push((AttributeType::Willpower, willpower));
    let ghost s = seq![
        (AttributeType::Strength, strength),
        (AttributeType::Dexterity, dexterity),
        (AttributeType::Inteligence, inteligence),
        (AttributeType::Toughness, toughness),
        (AttributeType::Perception, perception),
        (AttributeType::Willpower, willpower),
    ];
    assert(v@ == s);
    reveal_with_fuel(lookup, 7);
    let r = AttributeList::from_list(v);
    assert(crate::combat::attributes::attribute_keys(s) == seq![
        AttributeType::Strength,
        AttributeType::Dexterity,
        AttributeType::Inteligence,
        AttributeType::Toughness,
        AttributeType::Perception,
        AttributeType::Willpower,
    ]);
    r
}

/// Action points gathered per turn for the given attributes:
/// `INCREMENT_MIN + 7 * dexterity + 3 * willpower`.
pub open spec fn ap_increment(dex: u8, wil: u8) -> int {
    ActionPoints::INCREMENT_MIN + 7 * dex + 3 * wil
}

/// Action points whose increment follows a fixed formula of dexterity and willpower.
#[derive(Debug, Default, Clone, Copy, PartialEq, Eq, Structural, Hash)]
pub struct ActionPoints {
    turn_ready: i16,
    current: i16,
    increment: i16,
}

impl ActionPoints {
    pub const MOVE_COST_DEFAULT: i16 = 100;
    pub const IDLE_COST_DEFAULT: i16 = 64;
    pub const TURN_READY_DEFAULT: i16 = 128;
    pub const INCREMENT_MIN: i16 = 64;

    pub closed spec fn turn_ready_spec(&self) -> i16 {
        self.turn_ready
    }

    pub closed spec fn current_spec(&self) -> i16 {
        self.current
    }

    pub closed spec fn increment_spec(&self) -> i16 {
        self.increment
    }

    fn increment_for(atr: &Attributes) -> (r: i16)
        ensures
            r == ap_increment(atr.value(AttributeType::Dexterity), atr.value(AttributeType::Willpower)),
    {
        ActionPoints::INCREMENT_MIN + (atr.get(&AttributeType::Dexterity) as i16) * 7 + (atr.get(&AttributeType::Willpower) as i16) * 3
    }

    /// No points gathered, ready at `TURN_READY_DEFAULT`, the increment from `atr`.
    pub fn new(atr: &Attributes) -> (r: Self)
        ensures
            r.turn_ready_spec() == ActionPoints::TURN_READY_DEFAULT,
            r.current_spec() == 0,
            r.increment_spec() == ap_increment(atr.value(AttributeType::Dexterity), atr.value(AttributeType::Willpower)),
    {
        ActionPoints { turn_ready: ActionPoints::TURN_READY_DEFAULT, increment: Self::increment_for(atr), current: 0 }
    }

    /// Recomputes readiness and increment from `atr`.
    pub fn update(&mut self, atr: &Attributes)
        ensures
            final(self).turn_ready_spec() == ActionPoints::TURN_READY_DEFAULT,
            final(self).current_spec() == old(self).current_spec(),
            final(self).increment_spec() == ap_increment(atr.value(AttributeType::Dexterity), atr.value(AttributeType::Willpower)),
    {
        self.turn_ready = ActionPoints::TURN_READY_DEFAULT;
        self.increment = Self::increment_for(atr);
    }

    pub fn turn_ready_to_act(&self) -> (r: i16)
        ensures
            r == self.turn_ready_spec(),
    {
        self.turn_ready
    }

    pub fn current(&self) -> (r: i16)
        ensures
            r == self.current_spec(),
    {
        self.current
    }

    /// Gathers one turn's increment and returns the new amount.
    pub fn current_add(&mut self) -> (r: i16)
        requires
            old(self).current_spec() + old(self).increment_spec() <= i16::MAX,
            old(self).current_spec() + old(self).increment_spec() >= i16::MIN,
        ensures
            r == old(self).current_spec() + old(self).increment_spec(),
            final(self).current_spec() == r,
            final(self).turn_ready_spec() == old(self).turn_ready_spec(),
            final(self).increment_spec() == old(self).increment_spec(),
    {
        self.current = self.current + self.increment;
        self.current
    }

    /// Spends `cost` points and returns the new amount.
    pub fn current_minus(&mut self, cost: i16) -> (r: i16)
        requires
            i16::MIN <= old(self).current_spec() - cost <= i16::MAX,
        ensures
            r == old(self).current_spec() - cost,
            final(self).current_spec() == r,
            final(self).turn_ready_spec() == old(self).turn_ready_spec(),
            final(self).increment_spec() == old(self).increment_spec(),
    {
        self.current = self.current - cost;
        self.current
    }
}

/// Full health for the given attributes:
/// `FULL_MIN + 4 * toughness + strength + willpower / 2`.
pub open spec fn hp_full(tou: u8, str: u8, wil: u8) -> int {
    HitPoints::FULL_MIN + 4 * tou + str + wil / 2
}

/// Regeneration per rest for the given attributes:
/// `REGEN_INCREMENT_MIN + 4 * toughness + 2 * strength + willpower`.
pub open spec fn hp_regen(tou: u8, str: u8, wil: u8) -> int {
    HitPoints::REGEN_INCREMENT_MIN + 4 * tou + 2 * str + wil
}

/// Hit points whose maximum and regeneration follow fixed formulas of toughness,
/// strength and willpower.
#[derive(Debug, Default, Clone, Copy, PartialEq, Eq, Structural, Hash)]
pub struct HitPoints {
    full: i16,
    current: i16,
    regen_ready: i16,
    regen_current: i16,
    regen_increment: i16,
}

impl HitPoints {
    pub const FULL_MIN: i16 = 20;
    pub const REGEN_READY_DEFAULT: i16 = 128;
    pub const REGEN_INCREMENT_MIN: i16 = 64;

    pub closed spec fn full_spec(&self) -> i16 {
        self.full
    }

    pub closed spec fn current_spec(&self) -> i16 {
        self.current
    }

    pub closed spec fn regen_ready_spec(&self) -> i16 {
        self.regen_ready
    }

    pub closed spec fn regen_current_spec(&self) -> i16 {
        self.regen_current
    }

    pub closed spec fn regen_increment_spec(&self) -> i16 {
        self.regen_increment
    }

    /// Full health for `atr`. The willpower half is `(willpower as f32 / 2.) as i16`
    /// elsewhere, which is exactly `willpower / 2`.
    fn full_for(atr: &Attributes) -> (r: i16)
        ensures
            r == hp_full(atr.value(AttributeType::Toughness), atr.value(AttributeType::Strength), atr.value(AttributeType::Willpower)),
    {
        HitPoints::FULL_MIN + (atr.get(&AttributeType::Toughness) as i16) * 4 + atr.get(&AttributeType::Strength) as i16
            + (atr.get(&AttributeType::Willpower) / 2) as i16
    }

    fn regen_for(atr: &Attributes) -> (r: i16)
        ensures
            r == hp_regen(atr.value(AttributeType::Toughness), atr.value(AttributeType::Strength), atr.value(AttributeType::Willpower)),
    {
        HitPoints::REGEN_INCREMENT_MIN + (atr.get(&AttributeType::Toughness) as i16) * 4 + (atr.get(&AttributeType::Strength) as i16) * 2
            + atr.get(&AttributeType::Willpower) as i16
    }

    /// Full health for `atr`, regenerating as `atr` gives.
    pub fn new(atr: &Attributes) -> (r: Self)
        ensures
            r.full_spec() == hp_full(atr.value(AttributeType::Toughness), atr.value(AttributeType::Strength), atr.value(AttributeType::Willpower)),
            r.current_spec() == r.full_spec(),
            r.regen_ready_spec() == HitPoints::REGEN_READY_DEFAULT,
            r.regen_current_spec() == 0,
            r.regen_increment_spec() == hp_regen(atr.value(AttributeType::Toughness), atr.value(AttributeType::Strength), atr.value(AttributeType::Willpower)),
    {
        let full = Self::full_for(atr);
        HitPoints {
            full,
            current: full,
            regen_ready: HitPoints::REGEN_READY_DEFAULT,
            regen_current: 0,
            regen_increment: Self::regen_for(atr),
        }
    }

    /// Recomputes maximum and regeneration from `atr`; `current` is the new current health,
    /// which keeps the ratio of current to full health.
    pub fn update(&mut self, atr: &Attributes, current: i16)
        ensures
            final(self).full_spec() == hp_full(atr.value(AttributeType::Toughness), atr.value(AttributeType::Strength), atr.value(AttributeType::Willpower)),
            final(self).current_spec() == current,
            final(self).regen_ready_spec() == HitPoints::REGEN_READY_DEFAULT,
            final(self).regen_current_spec() == old(self).regen_current_spec(),
            final(self).regen_increment_spec() == hp_regen(atr.value(AttributeType::Toughness), atr.value(AttributeType::Strength), atr.value(AttributeType::Willpower)),
    {
        self.full = Self::full_for(atr);
        self.current = current;
        self.regen_ready = HitPoints::REGEN_READY_DEFAULT;
        self.regen_increment = Self::regen_for(atr);
    }

    /// Adds `amount` without going above full health; returns the new current health.
    pub fn apply(&mut self, amount: i16) -> (r: i16)
        requires
            i16::MIN <= old(self).current_spec() + amount <= i16::MAX,
        ensures
            r == final(self).current_spec(),
            r == if old(self).current_spec() + amount < old(self).full_spec() {
                old(self).current_spec() + amount
            } else {
                old(self).full_spec() as int
            },
            final(self).current_spec() <= final(self).full_spec(),
            final(self).full_spec() == old(self).full_spec(),
            final(self).regen_ready_spec() == old(self).regen_ready_spec(),
            final(self).regen_current_spec() == old(self).regen_current_spec(),
            final(self).regen_increment_spec() == old(self).regen_increment_spec(),
    {
        let sum = self.current + amount;
        self.current = if sum < self.full {
            sum
        } else {
            self.full
        };
        self.current
    }

    pub fn current(&self) -> (r: i16)
        ensures
            r == self.current_spec(),
    {
        self.current
    }

    pub fn full(&self) -> (r: i16)
        ensures
            r == self.full_spec(),
    {
        self.full
    }

    /// Rests once: accumulates the increment and heals one point per whole
    /// `regen_ready` accumulated once more than that is, keeping the remainder.
    pub fn regen(&mut self)
        requires
            old(self).regen_ready_spec() > 0,
            i16::MIN <= old(self).regen_current_spec() + old(self).regen_increment_spec() <= i16::MAX,
            old(self).regen_current_spec() + old(self).regen_increment_spec() > old(self).regen_ready_spec()
                ==> old(self).current_spec() + (old(self).regen_current_spec() + old(self).regen_increment_spec())
                / (old(self).regen_ready_spec() as int) <= i16::MAX,
        ensures
            ({
                let acc = old(self).regen_current_spec() + old(self).regen_increment_spec();
                let ready = old(self).regen_ready_spec() as int;
                &&& final(self).full_spec() == old(self).full_spec()
                &&& final(self).regen_ready_spec() == old(self).regen_ready_spec()
                &&& final(self).regen_increment_spec() == old(self).regen_increment_spec()
                &&& if acc > ready {
                    let healed = old(self).current_spec() + acc / ready;
                    &&& final(self).regen_current_spec() == acc % ready
                    &&& final(self).current_spec() == if healed < old(self).full_spec() { healed } else { old(self).full_spec() as int }
                } else {
                    &&& final(self).regen_current_spec() == acc
                    &&& final(self).current_spec() == old(self).current_spec()
                }
            }),
    {
        self.regen_current = self.regen_current + self.regen_increment;
        if self.regen_current > self.regen_ready {
            let amount = self.regen_current / self.regen_ready;
            let rem = self.regen_current % self.regen_ready;
            self.apply(amount);
            self.regen_current = rem;
        }
    }
}

} // verus!
