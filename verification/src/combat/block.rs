use crate::combat::action_cost::ActionCost;
use crate::combat::attributes::AttributeType;
use crate::combat::damage::DamageKind;
use crate::combat::evasion::{ratio_rollable, roll_against, roll_outcome};
use crate::combat::rate::Rate;
use rand::rngs::StdRng;
use vstd::prelude::*;

verus! {

/// Block works on the listed damage kinds.
#[derive(Debug)]
pub struct Block<K: DamageKind, A: AttributeType> {
    pub block_type: Vec<K>,
    pub cost: ActionCost<A>,
    /// Block chance, compared against the attack's hit chance.
    pub chance: Rate<A>,
}

impl<K: DamageKind, A: AttributeType> Block<K, A> {
    /// Whether this block works on `kind`.
    pub fn covers(&self, kind: K) -> (r: bool)
        ensures
            r == self.block_type@.contains(kind),
    {
        let mut i: usize = 0;
        while i < self.block_type.len()
            invariant
                i <= self.block_type.len(),
                forall|j: int| 0 <= j < i ==> self.block_type@[j] != kind,
            decreases self.block_type.len() - i,
        {
            if self.block_type[i].same_kind(&kind) {
                assert(self.block_type@[i as int] == kind);
                return true;
            }
            i = i + 1;
        }
        false
    }

    /// Tries to block an attack of kind `kind`. A block that does not work on that kind
    /// fails without a roll; otherwise it rolls as evasion does, with `rate_block` this
    /// block's chance, `rate_hit` the attack's and `cost` this block's cost. Returns whether
    /// the attack was blocked and the cost spent (0 when it was not).
    pub fn try_block(&self, kind: K, rate_block: i32, rate_hit: i32, cost: i16, rng: &mut StdRng) -> (r: (bool, i16))
        requires
            self.block_type@.contains(kind) ==> ratio_rollable(rate_block, rate_hit),
        ensures
            !self.block_type@.contains(kind) ==> r == (false, 0i16) && *final(rng) == *old(rng),
            self.block_type@.contains(kind) ==> roll_outcome(rate_block, rate_hit, cost, r),
    {
        if !self.covers(kind) {
            return (false, 0);
        }
        roll_against(rate_block, rate_hit, cost, rng)
    }
}

} // verus!
