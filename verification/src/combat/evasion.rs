use crate::combat::action_cost::ActionCost;
use crate::combat::attributes::AttributeType;
use crate::combat::damage::DamageKind;
use crate::combat::formula::LinearFormula;
use crate::combat::rate::Rate;
use crate::rng::gen_ratio;
use rand::rngs::StdRng;
use vstd::prelude::*;

verus! {

/// Whether `rate` against `rate_hit` can be rolled: the hit rate read as `u32` is not
/// zero and the smaller rate read as `u32` does not exceed it.
pub open spec fn ratio_rollable(rate: i32, rate_hit: i32) -> bool {
    let low = if rate < rate_hit { rate } else { rate_hit };
    &&& (rate_hit as u32) != 0
    &&& (low as u32) <= (rate_hit as u32)
}

/// The outcome of rolling `rate` against `rate_hit` at a cost of `cost`.
pub open spec fn roll_outcome(rate: i32, rate_hit: i32, cost: i16, r: (bool, i16)) -> bool {
    let low = if rate < rate_hit { rate } else { rate_hit };
    &&& r.1 == if r.0 { cost } else { 0 }
    &&& (low as u32) == 0 ==> !r.0
    &&& (low as u32) == (rate_hit as u32) ==> r.0
}

/// Rolls with chance `min(rate, rate_hit) / rate_hit`, both read as `u32`, and pairs the
/// outcome with `cost` when it succeeds and 0 otherwise.
pub fn roll_against(rate: i32, rate_hit: i32, cost: i16, rng: &mut StdRng) -> (r: (bool, i16))
    requires
        ratio_rollable(rate, rate_hit),
    ensures
        roll_outcome(rate, rate_hit, cost, r),
{
    let low = if rate < rate_hit {
        rate
    } else {
        rate_hit
    };
    let success = gen_ratio(rng, low as u32, rate_hit as u32);
    let c = if success {
        cost
    } else {
        0
    };
    (success, c)
}

/// Evasion works on any damage kind.
#[derive(Debug)]
pub struct Evasion<A: AttributeType> {
    /// Cost in action points of one evasion.
    pub cost: ActionCost<A>,
    /// Evasion chance, compared against the attack's hit chance.
    pub chance: Rate<A>,
}

impl<A: AttributeType> Evasion<A> {
    /// Tries to evade an attack: `rate_evade` is this evasion's chance and `rate_hit` the
    /// attack's, computed on the defender's and the attacker's attributes, and `cost` this
    /// evasion's cost on the defender's attributes. Returns whether the attack was evaded
    /// and the cost spent (0 when it was not).
    pub fn try_evade(&self, rate_evade: i32, rate_hit: i32, cost: i16, rng: &mut StdRng) -> (r: (bool, i16))
        requires
            ratio_rollable(rate_evade, rate_hit),
        ensures
            roll_outcome(rate_evade, rate_hit, cost, r),
    {
        roll_against(rate_evade, rate_hit, cost, rng)
    }
}

impl<A: AttributeType> Default for Evasion<A> {
    fn default() -> (r: Self)
        ensures
            r.cost.cost == 0,
            r.cost.multiplier_inverted.multipliers@.len() == 0,
            r.chance.amount == 0,
            r.chance.multiplier.multipliers@.len() == 0,
    {
        Evasion { cost: ActionCost { cost: 0, multiplier_inverted: LinearFormula::empty() }, chance: Rate { amount: 0, multiplier: LinearFormula::empty() } }
    }
}

} // verus!
