use crate::combat::attributes::AttributeType;
use crate::combat::formula::LinearFormula;
use vstd::prelude::*;

verus! {

pub const AP_MOVE_COST_DEFAULT: i16 = 100;

pub const AP_IDLE_COST_DEFAULT: i16 = 64;

pub const AP_TURN_READY_DEFAULT: i16 = 128;

pub const AP_INCREMENT_MIN: i16 = 64;

/// Marks an actor whose action points must be recomputed.
#[derive(Debug, Default, Clone, Copy)]
pub struct ActionPointsDirty;

/// Action points: an actor gathers `increment` points per turn and may act once it holds
/// `turn_ready` of them; acting spends them.
#[derive(Debug)]
pub struct ActionPoints<A: AttributeType> {
    turn_ready: i16,
    current: i16,
    increment: i16,
    increment_formula: LinearFormula<A>,
}

impl<A: AttributeType> ActionPoints<A> {
    pub closed spec fn turn_ready_spec(&self) -> i16 {
        self.turn_ready
    }

    pub closed spec fn current_spec(&self) -> i16 {
        self.current
    }

    pub closed spec fn increment_spec(&self) -> i16 {
        self.increment
    }

    pub closed spec fn formula(&self) -> Seq<crate::combat::formula::Multiplier<A>> {
        self.increment_formula.multipliers@
    }

    /// Fresh action points: none gathered yet, ready at `AP_TURN_READY_DEFAULT`, gathering
    /// `AP_INCREMENT_MIN + increment_bonus` per turn. `increment_bonus` is the increment
    /// formula's value on the actor's attributes, times 64 and truncated.
    pub fn new(increment_formula: LinearFormula<A>, increment_bonus: i16) -> (r: Self)
        requires
            AP_INCREMENT_MIN + increment_bonus <= i16::MAX,
        ensures
            r.turn_ready_spec() == AP_TURN_READY_DEFAULT,
            r.current_spec() == 0,
            r.increment_spec() == AP_INCREMENT_MIN + increment_bonus,
            r.formula() == increment_formula.multipliers@,
    {
        ActionPoints {
            turn_ready: AP_TURN_READY_DEFAULT,
            increment: AP_INCREMENT_MIN + increment_bonus,
            increment_formula,
            current: 0,
        }
    }

    /// Recomputes readiness and increment; `increment_bonus` as for `new`.
    pub fn update(&mut self, increment_bonus: i16)
        requires
            AP_INCREMENT_MIN + increment_bonus <= i16::MAX,
        ensures
            final(self).turn_ready_spec() == AP_TURN_READY_DEFAULT,
            final(self).increment_spec() == AP_INCREMENT_MIN + increment_bonus,
            final(self).current_spec() == old(self).current_spec(),
            final(self).formula() == old(self).formula(),
    {
        self.turn_ready = AP_TURN_READY_DEFAULT;
        self.increment = AP_INCREMENT_MIN + increment_bonus;
    }

    /// The formula the increment follows.
    pub fn increment_formula(&self) -> (r: &LinearFormula<A>)
        ensures
            r.multipliers@ == self.formula(),
    {
        &self.increment_formula
    }

    pub fn turn_ready_to_act(&self) -> (r: i16)
        ensures
            r == self.turn_ready_spec(),
    {
        self.turn_ready
    }

    pub fn current(&self) -> (r: i16)
        ensures
            r == self.current_spec(),
    {
        self.current
    }

    /// Gathers one turn's increment and returns the new amount.
    pub fn current_add(&mut self) -> (r: i16)
        requires
            i16::MIN <= old(self).current_spec() + old(self).increment_spec() <= i16::MAX,
        ensures
            r == old(self).current_spec() + old(self).increment_spec(),
            final(self).current_spec() == r,
            final(self).turn_ready_spec() == old(self).turn_ready_spec(),
            final(self).increment_spec() == old(self).increment_spec(),
            final(self).formula() == old(self).formula(),
    {
        self.current = self.current + self.increment;
        self.current
    }

    /// Spends `cost` points and returns the new amount.
    pub fn current_minus(&mut self, cost: i16) -> (r: i16)
        requires
            i16::MIN <= old(self).current_spec() - cost <= i16::MAX,
        ensures
            r == old(self).current_spec() - cost,
            final(self).current_spec() == r,
            final(self).turn_ready_spec() == old(self).turn_ready_spec(),
            final(self).increment_spec() == old(self).increment_spec(),
            final(self).formula() == old(self).formula(),
    {
        self.current = self.current - cost;
        self.current
    }

    pub fn increment(&self) -> (r: i16)
        ensures
            r == self.increment_spec(),
    {
        self.increment
    }

    /// Spends `amount` points for an action and tells whether the actor's turn is over,
    /// that is whether fewer than `turn_ready` points are left.
    pub fn spend(&mut self, amount: i16) -> (completed: bool)
        requires
            i16::MIN <= old(self).current_spec() - amount <= i16::MAX,
        ensures
            final(self).current_spec() == old(self).current_spec() - amount,
            final(self).turn_ready_spec() == old(self).turn_ready_spec(),
            final(self).increment_spec() == old(self).increment_spec(),
            final(self).formula() == old(self).formula(),
            completed == (final(self).current_spec() < final(self).turn_ready_spec()),
    {
        self.current_minus(amount) < self.turn_ready_to_act()
    }
}

/// Gathering a turn's increment and then spending that many points gives back the
/// amount held before.
pub proof fn lemma_gather_spend<A: AttributeType>(a0: ActionPoints<A>, a1: ActionPoints<A>, a2: ActionPoints<A>)
    requires
        a1.current_spec() == a0.current_spec() + a0.increment_spec(),
        a1.increment_spec() == a0.increment_spec(),
        a2.current_spec() == a1.current_spec() - a1.increment_spec(),
    ensures
        a2.current_spec() == a0.current_spec(),
{
}

} // verus!
