use crate::combat::attributes::AttributeType;
use vstd::prelude::*;

verus! {

/// A weight applied to one attribute: with `multiplier` 100 an attribute of 10 counts 1.
#[derive(Debug, Clone, Copy)]
pub struct Multiplier<A: AttributeType> {
    pub multiplier: u8,
    pub attribute: A,
}

/// A sum of weighted attributes; an empty one counts 1.
#[derive(Debug)]
pub struct LinearFormula<A: AttributeType> {
    pub multipliers: Vec<Multiplier<A>>,
}

impl<A: AttributeType> LinearFormula<A> {
    /// A formula over the given weights.
    pub fn new(multipls: Vec<Multiplier<A>>) -> (r: Self)
        ensures
            r.multipliers@ == multipls@,
    {
        LinearFormula { multipliers: multipls }
    }

    /// A formula without weights.
    pub fn empty() -> (r: Self)
        ensures
            r.multipliers@.len() == 0,
    {
        LinearFormula { multipliers: Vec::new() }
    }

    /// A copy of this formula.
    pub fn duplicate(&self) -> (r: Self)
        ensures
            r.multipliers@ == self.multipliers@,
    {
        let mut v: Vec<Multiplier<A>> = Vec::new();
        let mut i: usize = 0;
        while i < self.multipliers.len()
            invariant
                i <= self.multipliers.len(),
                v@ == self.multipliers@.subrange(0, i as int),
            decreases self.multipliers.len() - i,
        {
            v.push(self.multipliers[i]);
            i = i + 1;
        }
        assert(v@ == self.multipliers@);
        LinearFormula { multipliers: v }
    }
}

impl<A: AttributeType> Default for LinearFormula<A> {
    fn default() -> (r: Self)
        ensures
            r.multipliers@.len() == 0,
    {
        Self::empty()
    }
}

} // verus!
