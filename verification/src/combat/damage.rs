use crate::combat::action_cost::ActionCost;
use crate::combat::attributes::AttributeType;
use crate::combat::formula::LinearFormula;
use crate::combat::rate::Rate;
use crate::rng::gen_range_i32;
use rand::rngs::StdRng;
use std::ops::Range;
use vstd::prelude::*;

verus! {

/// Kind of damage (blunt, fire, ...). Implemented by the game.
pub trait DamageKind: Copy + Sized {
    /// Whether two damage kinds are the same kind.
    fn same_kind(&self, other: &Self) -> (r: bool)
        ensures
            r == (*self == *other),
    ;
}

/// Damage an attack deals, its cost and its chance to hit, all scaled by the attacker's
/// attributes.
#[derive(Debug)]
pub struct Damage<K: DamageKind, A: AttributeType> {
    pub kind: K,
    /// Base amount, rolled uniformly from this range (its start when it is empty).
    pub amount: Range<i32>,
    pub amount_multiplier: LinearFormula<A>,
    pub hit_cost: ActionCost<A>,
    pub hit_chance: Rate<A>,
}

/// The attacks an actor has.
#[derive(Debug)]
pub struct DamageList<K: DamageKind, A: AttributeType> {
    pub list: Vec<Damage<K, A>>,
}

impl<K: DamageKind, A: AttributeType> Damage<K, A> {
    /// Rolls the base amount: a value of `amount` left to chance, or its start when the
    /// range is empty.
    pub fn amount_roll(&self, rng: &mut StdRng) -> (r: i32)
        ensures
            self.amount.start < self.amount.end ==> self.amount.start <= r < self.amount.end,
            !(self.amount.start < self.amount.end) ==> r == self.amount.start,
    {
        if self.amount.start < self.amount.end {
            gen_range_i32(rng, self.amount.start, self.amount.end)
        } else {
            self.amount.start
        }
    }
}

} // verus!
