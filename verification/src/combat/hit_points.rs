use crate::combat::attributes::AttributeType;
use crate::combat::formula::LinearFormula;
use vstd::prelude::*;

verus! {

pub const HP_FULL_MIN: i16 = 20;

pub const HP_REGEN_READY_DEFAULT: i16 = 128;

pub const HP_REGEN_INCREMENT_MIN: i16 = 16;

/// Marks an actor whose hit points must be recomputed.
#[derive(Debug, Default, Clone, Copy)]
pub struct HitPointsDirty;

/// Hit points with regeneration: `regen_increment` accumulates per rest into
/// `regen_current`, and every whole `regen_ready` of it heals one point.
#[derive(Debug)]
pub struct HitPoints<A: AttributeType> {
    is_alive: bool,
    full: i16,
    current: i16,
    regen_ready: i16,
    regen_current: i16,
    regen_increment: i16,
    full_formula: LinearFormula<A>,
    regen_increment_formula: LinearFormula<A>,
}

impl<A: AttributeType> HitPoints<A> {
    #[verifier::type_invariant]
    spec fn inv(self) -> bool {
        self.regen_ready == HP_REGEN_READY_DEFAULT
    }

    pub closed spec fn alive(&self) -> bool {
        self.is_alive
    }

    pub closed spec fn full_spec(&self) -> i16 {
        self.full
    }

    pub closed spec fn current_spec(&self) -> i16 {
        self.current
    }

    pub closed spec fn regen_current_spec(&self) -> i16 {
        self.regen_current
    }

    pub closed spec fn regen_increment_spec(&self) -> i16 {
        self.regen_increment
    }

    pub closed spec fn formulas(&self) -> (Seq<crate::combat::formula::Multiplier<A>>, Seq<crate::combat::formula::Multiplier<A>>) {
        (self.full_formula.multipliers@, self.regen_increment_formula.multipliers@)
    }

    /// Full health for a living actor: `HP_FULL_MIN + full_bonus` points, regenerating
    /// `HP_REGEN_INCREMENT_MIN + regen_bonus` per rest. The bonuses are the formulas' values
    /// on the actor's attributes, times 20 and 16 respectively, truncated.
    pub fn new(
        full_formula: LinearFormula<A>,
        regen_increment_formula: LinearFormula<A>,
        full_bonus: i16,
        regen_bonus: i16,
    ) -> (r: Self)
        requires
            HP_FULL_MIN + full_bonus <= i16::MAX,
            HP_REGEN_INCREMENT_MIN + regen_bonus <= i16::MAX,
        ensures
            r.alive(),
            r.full_spec() == HP_FULL_MIN + full_bonus,
            r.current_spec() == r.full_spec(),
            r.regen_current_spec() == 0,
            r.regen_increment_spec() == HP_REGEN_INCREMENT_MIN + regen_bonus,
            r.formulas() == (full_formula.multipliers@, regen_increment_formula.multipliers@),
    {
        let full = HP_FULL_MIN + full_bonus;
        HitPoints {
            is_alive: true,
            full,
            current: full,
            regen_ready: HP_REGEN_READY_DEFAULT,
            regen_current: 0,
            regen_increment: HP_REGEN_INCREMENT_MIN + regen_bonus,
            full_formula,
            regen_increment_formula,
        }
    }

    /// Recomputes full health and regeneration; `current` is the new current health, which
    /// keeps the ratio of current to full health.
    pub fn update(&mut self, full_bonus: i16, regen_bonus: i16, current: i16)
        requires
            HP_FULL_MIN + full_bonus <= i16::MAX,
            HP_REGEN_INCREMENT_MIN + regen_bonus <= i16::MAX,
        ensures
            final(self).alive() == old(self).alive(),
            final(self).full_spec() == HP_FULL_MIN + full_bonus,
            final(self).current_spec() == current,
            final(self).regen_current_spec() == old(self).regen_current_spec(),
            final(self).regen_increment_spec() == HP_REGEN_INCREMENT_MIN + regen_bonus,
            final(self).formulas() == old(self).formulas(),
    {
        proof {
            use_type_invariant(&*self);
        }
        self.full = HP_FULL_MIN + full_bonus;
        self.current = current;
        self.regen_ready = HP_REGEN_READY_DEFAULT;
        self.regen_increment = HP_REGEN_INCREMENT_MIN + regen_bonus;
    }

    /// The formulas for full health and for regeneration.
    pub fn formulas_ref(&self) -> (r: (&LinearFormula<A>, &LinearFormula<A>))
        ensures
            (r.0.multipliers@, r.1.multipliers@) == self.formulas(),
    {
        (&self.full_formula, &self.regen_increment_formula)
    }

    /// Adds `amount` (negative for damage) without going above full health; the actor dies
    /// when health drops to zero or below. Returns the new current health.
    pub fn apply(&mut self, amount: i16) -> (r: i16)
        requires
            i16::MIN <= old(self).current_spec() + amount <= i16::MAX,
        ensures
            r == final(self).current_spec(),
            r == if old(self).current_spec() + amount < old(self).full_spec() {
                old(self).current_spec() + amount
            } else {
                old(self).full_spec() as int
            },
            final(self).alive() == (old(self).alive() && r > 0),
            final(self).current_spec() <= final(self).full_spec(),
            final(self).full_spec() == old(self).full_spec(),
            final(self).regen_current_spec() == old(self).regen_current_spec(),
            final(self).regen_increment_spec() == old(self).regen_increment_spec(),
            final(self).formulas() == old(self).formulas(),
    {
        proof {
            use_type_invariant(&*self);
        }
        let sum = self.current + amount;
        self.current = if sum < self.full {
            sum
        } else {
            self.full
        };
        if self.current <= 0 {
            self.is_alive = false;
        }
        self.current
    }

    /// Takes `amount` damage when alive (as `apply` of its negation, the amount read as
    /// an `i16`); a dead actor is left as it is. Returns whether this killed the actor.
    pub fn take_damage(&mut self, amount: u16) -> (died: bool)
        requires
            (amount as i16) != i16::MIN,
            old(self).alive() ==> i16::MIN <= old(self).current_spec() - (amount as i16) <= i16::MAX,
        ensures
            !old(self).alive() ==> !died && *final(self) == *old(self),
            old(self).alive() ==> {
                let sum = old(self).current_spec() - (amount as i16);
                &&& final(self).current_spec() == if sum < old(self).full_spec() { sum } else { old(self).full_spec() as int }
                &&& final(self).alive() == (final(self).current_spec() > 0)
                &&& died == !final(self).alive()
                &&& final(self).full_spec() == old(self).full_spec()
                &&& final(self).regen_current_spec() == old(self).regen_current_spec()
                &&& final(self).regen_increment_spec() == old(self).regen_increment_spec()
                &&& final(self).formulas() == old(self).formulas()
            },
    {
        if self.is_alive() {
            let delta: i16 = amount as i16;
            self.apply(-delta);
            !self.is_alive()
        } else {
            false
        }
    }

    pub fn current(&self) -> (r: i16)
        ensures
            r == self.current_spec(),
    {
        self.current
    }

    pub fn full(&self) -> (r: i16)
        ensures
            r == self.full_spec(),
    {
        self.full
    }

    /// Regeneration points gathered towards the next healed point.
    pub fn regen_current(&self) -> (r: i16)
        ensures
            r == self.regen_current_spec(),
    {
        self.regen_current
    }

    /// Regeneration points gathered per rest.
    pub fn regen_increment(&self) -> (r: i16)
        ensures
            r == self.regen_increment_spec(),
    {
        self.regen_increment
    }

    pub fn is_alive(&self) -> (r: bool)
        ensures
            r == self.alive(),
    {
        self.is_alive
    }

    /// Rests once: accumulates `regen_increment`, then heals one point per whole
    /// `HP_REGEN_READY_DEFAULT` accumulated once more than that is accumulated, keeping the
    /// remainder.
    pub fn regen(&mut self)
        requires
            old(self).regen_current_spec() + old(self).regen_increment_spec() <= i16::MAX,
            old(self).regen_current_spec() + old(self).regen_increment_spec() >= i16::MIN,
            old(self).regen_current_spec() + old(self).regen_increment_spec() > HP_REGEN_READY_DEFAULT
                ==> old(self).current_spec() + (old(self).regen_current_spec() + old(self).regen_increment_spec())
                / (HP_REGEN_READY_DEFAULT as int) <= i16::MAX,
        ensures
            regen_result(*old(self), *final(self), old(self).regen_increment_spec() as int),
    {
        let amount = self.regen_increment;
        self.regen_by(amount);
    }

    /// Accumulates `amount` regeneration points and heals as `regen` does.
    pub fn regen_by(&mut self, amount: i16)
        requires
            i16::MIN <= old(self).regen_current_spec() + amount <= i16::MAX,
            old(self).regen_current_spec() + amount > HP_REGEN_READY_DEFAULT
                ==> old(self).current_spec() + (old(self).regen_current_spec() + amount) / (
            HP_REGEN_READY_DEFAULT as int) <= i16::MAX,
        ensures
            regen_result(*old(self), *final(self), amount as int),
    {
        proof {
            use_type_invariant(&*self);
        }
        self.regen_current = self.regen_current + amount;
        if self.regen_current > self.regen_ready {
            let heal = self.regen_current / self.regen_ready;
            let rem = self.regen_current % self.regen_ready;
            self.apply(heal);
            proof {
                use_type_invariant(&*self);
            }
            self.regen_current = rem;
        }
    }
}

/// `after` is `before` after accumulating `amount` regeneration points.
pub open spec fn regen_result<A: AttributeType>(before: HitPoints<A>, after: HitPoints<A>, amount: int) -> bool {
    let acc = before.regen_current_spec() + amount;
    let ready = HP_REGEN_READY_DEFAULT as int;
    &&& after.full_spec() == before.full_spec()
    &&& after.regen_increment_spec() == before.regen_increment_spec()
    &&& after.formulas() == before.formulas()
    &&& if acc > ready {
        let healed = before.current_spec() + acc / ready;
        &&& after.regen_current_spec() == acc % ready
        &&& after.current_spec() == if healed < before.full_spec() { healed } else { before.full_spec() as int }
        &&& after.alive() == (before.alive() && after.current_spec() > 0)
    } else {
        &&& after.regen_current_spec() == acc
        &&& after.current_spec() == before.current_spec()
        &&& after.alive() == before.alive()
    }
}

/// Death is reported at most once. Over a run of hit-point states in which no step brings a
/// dead actor back to life (as `apply`, `regen_by` and `take_damage` ensure) and a step
/// reports a death only when it takes the actor from alive to dead (as `take_damage`
/// ensures), a death reported at step `i` is not reported again at any later step `j`.
pub proof fn lemma_death_reported_once<A: AttributeType>(states: Seq<HitPoints<A>>, died: Seq<bool>, i: int, j: int)
    requires
        states.len() == died.len() + 1,
        forall|k: int| 0 <= k < died.len() ==> (!(#[trigger] states[k]).alive() ==> !states[k + 1].alive()),
        forall|k: int| 0 <= k < died.len() ==> (#[trigger] died[k] ==> states[k].alive() && !states[k + 1].alive()),
        0 <= i < j < died.len(),
        died[i],
    ensures
        !died[j],
{
    lemma_stays_dead(states, died, i + 1, j);
    assert(!states[j].alive());
}

proof fn lemma_stays_dead<A: AttributeType>(states: Seq<HitPoints<A>>, died: Seq<bool>, m: int, n: int)
    requires
        states.len() == died.len() + 1,
        forall|k: int| 0 <= k < died.len() ==> (!(#[trigger] states[k]).alive() ==> !states[k + 1].alive()),
        0 < m <= n < states.len(),
        !states[m].alive(),
    ensures
        !states[n].alive(),
    decreases n - m,
{
    if m < n {
        assert(!states[m].alive() ==> !states[m + 1].alive());
        lemma_stays_dead(states, died, m + 1, n);
    }
}

} // verus!
