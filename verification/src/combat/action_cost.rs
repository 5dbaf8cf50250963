use crate::combat::attributes::AttributeType;
use crate::combat::formula::LinearFormula;
use vstd::prelude::*;

verus! {

/// Cost of an action in action points (`AP_TURN_READY_DEFAULT` being one turn), divided
/// by a formula's value.
#[derive(Debug)]
pub struct ActionCost<A: AttributeType> {
    pub cost: i16,
    pub multiplier_inverted: LinearFormula<A>,
}

impl<A: AttributeType> Default for ActionCost<A> {
    fn default() -> (r: Self)
        ensures
            r.cost == 0,
            r.multiplier_inverted.multipliers@.len() == 0,
    {
        ActionCost { cost: 0, multiplier_inverted: LinearFormula::empty() }
    }
}

} // verus!
