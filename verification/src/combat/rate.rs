use crate::combat::attributes::AttributeType;
use crate::combat::formula::LinearFormula;
use vstd::prelude::*;

verus! {

/// A chance modifier where 100 means a normal chance, scaled by a formula.
#[derive(Debug)]
pub struct Rate<A: AttributeType> {
    pub amount: u8,
    pub multiplier: LinearFormula<A>,
}

impl<A: AttributeType> Default for Rate<A> {
    fn default() -> (r: Self)
        ensures
            r.amount == 0,
            r.multiplier.multipliers@.len() == 0,
    {
        Rate { amount: 0, multiplier: LinearFormula::empty() }
    }
}

} // verus!
