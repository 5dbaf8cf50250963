use crate::geometry::Vector2D;
use crate::plugin::actors::Attributes;
use vstd::prelude::*;

verus! {

/// The value of a named attribute, 5 when it is missing.
pub open spec fn attr_or_five(atr: Attributes, name: Seq<char>) -> int {
    match atr.value_of(name) {
        Some(v) => v as int,
        None => 5,
    }
}

/// Whether the capability formulas stay within `i32` for these attribute values.
pub open spec fn capability_fits(str: int, tou: int, will: int, dex: int) -> bool {
    &&& i32::MIN <= Capability::AP_INCREMENT_MIN + dex * 8 + will * 4 <= i32::MAX
    &&& i32::MIN <= Capability::HP_MAX_MIN + tou * 10 + str * 3 + will * 2 + dex <= i32::MAX
    &&& i32::MIN <= Capability::ATTACK_COST_MAX - dex * 10 <= i32::MAX
    &&& i32::MIN <= Capability::ATTACK_DAMAGE_MIN + str * 10 + dex * 3 <= i32::MAX
    &&& i32::MIN <= dex * 8 <= i32::MAX && i32::MIN <= will * 4 <= i32::MAX
    &&& i32::MIN <= Capability::AP_INCREMENT_MIN + dex * 8 <= i32::MAX
    &&& i32::MIN <= tou * 10 <= i32::MAX && i32::MIN <= str * 3 <= i32::MAX && i32::MIN <= will * 2 <= i32::MAX
    &&& i32::MIN <= Capability::HP_MAX_MIN + tou * 10 <= i32::MAX
    &&& i32::MIN <= Capability::HP_MAX_MIN + tou * 10 + str * 3 <= i32::MAX
    &&& i32::MIN <= Capability::HP_MAX_MIN + tou * 10 + str * 3 + will * 2 <= i32::MAX
    &&& i32::MIN <= dex * 10 <= i32::MAX && i32::MIN <= str * 10 <= i32::MAX && i32::MIN <= dex * 3 <= i32::MAX
    &&& i32::MIN <= Capability::ATTACK_DAMAGE_MIN + str * 10 <= i32::MAX
}

/// An actor's action points, health and attack, all derived from its attributes.
#[derive(Debug, Default, Clone, Copy, PartialEq, Eq, Structural, Hash)]
pub struct Capability {
    ap_turn_ready: i32,
    ap_current: i32,
    ap_increment: i32,
    hp_max: i32,
    hp_current: i32,
    attack_cost: i32,
    attack_damage: i32,
}

impl Capability {
    pub const AP_TURN_READY_DEFAULT: i32 = 1024;
    pub const AP_INCREMENT_MIN: i32 = 1024;
    pub const HP_MAX_MIN: i32 = 500;
    pub const ATTACK_COST_MAX: i32 = 900;
    pub const ATTACK_DAMAGE_MIN: i32 = 50;

    pub closed spec fn ap_turn_ready_spec(&self) -> i32 { self.ap_turn_ready }
    pub closed spec fn ap_current_spec(&self) -> i32 { self.ap_current }
    pub closed spec fn ap_increment_spec(&self) -> i32 { self.ap_increment }
    pub closed spec fn hp_max_spec(&self) -> i32 { self.hp_max }
    pub closed spec fn hp_current_spec(&self) -> i32 { self.hp_current }
    pub closed spec fn attack_cost_spec(&self) -> i32 { self.attack_cost }
    pub closed spec fn attack_damage_spec(&self) -> i32 { self.attack_damage }

    /// This capability with `v` action points.
    pub closed spec fn with_ap_current(self, v: i32) -> Capability {
        Capability { ap_current: v, ..self }
    }

    /// This capability with health `v`.
    pub closed spec fn with_hp_current(self, v: i32) -> Capability {
        Capability { hp_current: v, ..self }
    }

    /// Derives the capability from strength, toughness, willpower and dexterity (5 each
    /// when missing): increment `1024 + 8 dex + 4 will`, health `500 + 10 tou + 3 str +
    /// 2 will + dex`, attack cost `900 - 10 dex`, attack damage `50 + 10 str + 3 dex`.
    pub fn new(attributes: Attributes) -> (r: Self)
        requires
            capability_fits(
                attr_or_five(attributes, "strength"@),
                attr_or_five(attributes, "toughness"@),
                attr_or_five(attributes, "willpower"@),
                attr_or_five(attributes, "dexterity"@),
            ),
        ensures
            ({
                let str = attr_or_five(attributes, "strength"@);
                let tou = attr_or_five(attributes, "toughness"@);
                let will = attr_or_five(attributes, "willpower"@);
                let dex = attr_or_five(attributes, "dexterity"@);
                &&& r.ap_turn_ready_spec() == Capability::AP_TURN_READY_DEFAULT
                &&& r.ap_current_spec() == 0
                &&& r.ap_increment_spec() == Capability::AP_INCREMENT_MIN + dex * 8 + will * 4
                &&& r.hp_max_spec() == Capability::HP_MAX_MIN + tou * 10 + str * 3 + will * 2 + dex
                &&& r.hp_current_spec() == r.hp_max_spec()
                &&& r.attack_cost_spec() == Capability::ATTACK_COST_MAX - dex * 10
                &&& r.attack_damage_spec() == Capability::ATTACK_DAMAGE_MIN + str * 10 + dex * 3
            }),
    {
        let str = value_or_five(&attributes, "strength");
        let tou = value_or_five(&attributes, "toughness");
        let will = value_or_five(&attributes, "willpower");
        let dex = value_or_five(&attributes, "dexterity");
        let ap_increment = Capability::AP_INCREMENT_MIN + dex * 8 + will * 4;
        let hp_max = Capability::HP_MAX_MIN + tou * 10 + str * 3 + will * 2 + dex;
        let attack_cost = Capability::ATTACK_COST_MAX - dex * 10;
        let attack_damage = Capability::ATTACK_DAMAGE_MIN + str * 10 + dex * 3;
        Capability {
            ap_turn_ready: Capability::AP_TURN_READY_DEFAULT,
            ap_increment,
            ap_current: 0,
            hp_max,
            hp_current: hp_max,
            attack_cost,
            attack_damage,
        }
    }

    pub fn ap_turn_ready_to_act(&self) -> (r: i32)
        ensures r == self.ap_turn_ready_spec(),
    {
        self.ap_turn_ready
    }

    pub fn ap_current(&self) -> (r: i32)
        ensures r == self.ap_current_spec(),
    {
        self.ap_current
    }

    /// Gathers one turn's increment and returns the new amount.
    pub fn ap_current_add(&mut self) -> (r: i32)
        requires
            i32::MIN <= old(self).ap_current_spec() + old(self).ap_increment_spec() <= i32::MAX,
        ensures
            r == old(self).ap_current_spec() + old(self).ap_increment_spec(),
            *final(self) == old(self).with_ap_current(r),
    {
        self.ap_current = self.ap_current + self.ap_increment;
        self.ap_current
    }

    /// Gathers `breath` points (the increment scaled by elapsed time) and returns the new
    /// amount.
    pub fn ap_current_add_delta(&mut self, breath: i32) -> (r: i32)
        requires
            i32::MIN <= old(self).ap_current_spec() + breath <= i32::MAX,
        ensures
            r == old(self).ap_current_spec() + breath,
            *final(self) == old(self).with_ap_current(r),
    {
        self.ap_current = self.ap_current + breath;
        self.ap_current
    }

    /// Spends `cost` points and returns the new amount.
    pub fn ap_current_minus(&mut self, cost: i32) -> (r: i32)
        requires
            i32::MIN <= old(self).ap_current_spec() - cost <= i32::MAX,
        ensures
            r == old(self).ap_current_spec() - cost,
            *final(self) == old(self).with_ap_current(r),
    {
        self.ap_current = self.ap_current - cost;
        self.ap_current
    }

    /// Adds `amount` to health without going above the maximum; returns the new health.
    pub fn hp_apply(&mut self, amount: i32) -> (r: i32)
        requires
            i32::MIN <= old(self).hp_current_spec() + amount <= i32::MAX,
        ensures
            r == if old(self).hp_current_spec() + amount < old(self).hp_max_spec() {
                old(self).hp_current_spec() + amount
            } else {
                old(self).hp_max_spec() as int
            },
            *final(self) == old(self).with_hp_current(r),
    {
        let sum = self.hp_current + amount;
        self.hp_current = if sum < self.hp_max {
            sum
        } else {
            self.hp_max
        };
        self.hp_current
    }

    pub fn hp_current(&self) -> (r: i32)
        ensures r == self.hp_current_spec(),
    {
        self.hp_current
    }

    /// Health in percent of the maximum, truncated toward zero and read as a `u8`.
    pub fn hp_percent(&self) -> (r: u8)
        requires
            self.hp_max_spec() != 0,
            i32::MIN <= self.hp_current_spec() * 100 <= i32::MAX,
            !(self.hp_current_spec() * 100 == i32::MIN && self.hp_max_spec() == -1),
        ensures
            r == (trunc_div(self.hp_current_spec() * 100, self.hp_max_spec() as int) as u8),
    {
        let p: i64 = self.hp_current as i64 * 100;
        let m: i64 = self.hp_max as i64;
        let pa: u64 = if p < 0 { (-p) as u64 } else { p as u64 };
        let ma: u64 = if m < 0 { (-m) as u64 } else { m as u64 };
        let qa: u64 = pa / ma;
        assert(qa <= pa);
        let q: i64 = if (p < 0) != (m < 0) { -(qa as i64) } else { qa as i64 };
        #[verifier::truncate]
        (q as u8)
    }

    pub fn attack_cost(&self) -> (r: i32)
        ensures r == self.attack_cost_spec(),
    {
        self.attack_cost
    }

    pub fn attack_damage(&self) -> (r: i32)
        ensures r == self.attack_damage_spec(),
    {
        self.attack_damage
    }
}

/// Absolute value of an integer.
pub open spec fn abs_int(x: int) -> int {
    if x < 0 { -x } else { x }
}

/// Integer division rounding toward zero, as Rust's `/` on signed integers.
pub open spec fn trunc_div(p: int, m: int) -> int {
    if (p < 0) != (m < 0) {
        -(abs_int(p) / abs_int(m))
    } else {
        abs_int(p) / abs_int(m)
    }
}

fn value_or_five(attributes: &Attributes, name: &str) -> (r: i32)
    ensures
        r == attr_or_five(*attributes, name@),
{
    let key = name.to_string();
    proof {
        vstd::string::to_string_from_display_ensures_for_str(name, key);
    }
    match attributes.get(&key) {
        Some(v) => v,
        None => 5,
    }
}

/// A change of health at a map location.
#[derive(Debug, Default, Clone, Copy, PartialEq, Eq, Structural, Hash)]
pub struct ModifyHP {
    pub location: Vector2D,
    pub amount: i32,
}

impl ModifyHP {
    pub fn new(location: Vector2D, amount: i32) -> (r: Self)
        ensures
            r.location == location,
            r.amount == amount,
    {
        Self { location, amount }
    }
}

} // verus!
