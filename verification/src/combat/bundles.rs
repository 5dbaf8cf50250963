use crate::combat::action_points::{ActionPoints, AP_INCREMENT_MIN, AP_TURN_READY_DEFAULT};
use crate::combat::attributes::{AttributeType, Attributes};
use crate::combat::damage::{DamageKind, DamageList};
use crate::combat::evasion::Evasion;
use crate::combat::formula::LinearFormula;
use crate::combat::hit_points::{HitPoints, HP_FULL_MIN, HP_REGEN_INCREMENT_MIN};
use crate::combat::protection::Protection;
use crate::combat::resistance::Resistance;
use crate::combat::stats_computed::{StatsComputed, StatsComputedDirty};
use vstd::prelude::*;

verus! {

/// Everything an actor needs to fight.
#[derive(Debug)]
pub struct Combat<K: DamageKind, A: AttributeType> {
    attributes: Attributes<A>,
    ap: ActionPoints<A>,
    hp: HitPoints<A>,
    damage: DamageList<K, A>,
    protection: Protection<K, A>,
    evasion: Evasion<A>,
    resistance: Resistance<K>,
    stats: StatsComputed<K, A>,
    stats_dirty: StatsComputedDirty,
}

impl<K: DamageKind, A: AttributeType> Combat<K, A> {
    pub closed spec fn attributes_spec(&self) -> Attributes<A> {
        self.attributes
    }

    pub closed spec fn ap_spec(&self) -> ActionPoints<A> {
        self.ap
    }

    pub closed spec fn hp_spec(&self) -> HitPoints<A> {
        self.hp
    }

    pub closed spec fn damage_spec(&self) -> DamageList<K, A> {
        self.damage
    }

    pub closed spec fn protection_spec(&self) -> Protection<K, A> {
        self.protection
    }

    pub closed spec fn evasion_spec(&self) -> Evasion<A> {
        self.evasion
    }

    pub closed spec fn resistance_spec(&self) -> Resistance<K> {
        self.resistance
    }

    pub closed spec fn stats_spec(&self) -> StatsComputed<K, A> {
        self.stats
    }

    /// Fighting gear for an actor with `attributes`: fresh action and hit points from the
    /// formulas (with the bonuses that the formulas give on `attributes`, as in
    /// `ActionPoints::new` and `HitPoints::new`), the given attacks and defences, and
    /// computed stats still to be computed.
    #[allow(clippy::too_many_arguments)]
    pub fn new(
        attributes: &Attributes<A>,
        ap_increment_formula: LinearFormula<A>,
        hp_full_formula: LinearFormula<A>,
        hp_regen_increment_formula: LinearFormula<A>,
        damage: DamageList<K, A>,
        protection: Protection<K, A>,
        evasion: Evasion<A>,
        resistance: Resistance<K>,
        ap_increment_bonus: i16,
        hp_full_bonus: i16,
        hp_regen_bonus: i16,
    ) -> (r: Self)
        requires
            AP_INCREMENT_MIN + ap_increment_bonus <= i16::MAX,
            HP_FULL_MIN + hp_full_bonus <= i16::MAX,
            HP_REGEN_INCREMENT_MIN + hp_regen_bonus <= i16::MAX,
        ensures
            r.attributes_spec().entries() == attributes.entries(),
            r.ap_spec().turn_ready_spec() == AP_TURN_READY_DEFAULT,
            r.ap_spec().current_spec() == 0,
            r.ap_spec().increment_spec() == AP_INCREMENT_MIN + ap_increment_bonus,
            r.ap_spec().formula() == ap_increment_formula.multipliers@,
            r.hp_spec().alive(),
            r.hp_spec().full_spec() == HP_FULL_MIN + hp_full_bonus,
            r.hp_spec().current_spec() == HP_FULL_MIN + hp_full_bonus,
            r.hp_spec().regen_current_spec() == 0,
            r.hp_spec().regen_increment_spec() == HP_REGEN_INCREMENT_MIN + hp_regen_bonus,
            r.hp_spec().formulas() == (hp_full_formula.multipliers@, hp_regen_increment_formula.multipliers@),
            r.damage_spec() == damage,
            r.protection_spec() == protection,
            r.evasion_spec() == evasion,
            r.resistance_spec() == resistance,
            r.stats_spec().damage@.len() == 0,
            r.stats_spec().block@.len() == 0,
            r.stats_spec().protection.amounts@.len() == 0,
            r.stats_spec().resistance.amounts@.len() == 0,
    {
        Combat {
            attributes: attributes.duplicate(),
            ap: ActionPoints::new(ap_increment_formula, ap_increment_bonus),
            hp: HitPoints::new(hp_full_formula, hp_regen_increment_formula, hp_full_bonus, hp_regen_bonus),
            damage,
            protection,
            evasion,
            resistance,
            stats: StatsComputed::default(),
            stats_dirty: StatsComputedDirty,
        }
    }
}

} // verus!
