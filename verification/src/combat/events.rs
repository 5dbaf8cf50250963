use crate::inventory::Entity;
use vstd::prelude::*;

verus! {

/// `attacker` attacks `defender`.
#[derive(Debug, Copy, Clone)]
pub struct AttackEvent {
    pub attacker: Entity,
    pub defender: Entity,
}

/// Actor `id` spends `amount` action points.
#[derive(Debug, Copy, Clone)]
pub struct SpendAPEvent {
    pub id: Entity,
    pub amount: i16,
}

/// Actor `id` has finished its action.
#[derive(Debug, Copy, Clone)]
pub struct ActionCompletedEvent {
    pub id: Entity,
}

impl SpendAPEvent {
    pub fn new(id: Entity, amount: i16) -> (r: Self)
        ensures
            r.id == id,
            r.amount == amount,
    {
        Self { id, amount }
    }
}

/// Actor `id` rests.
#[derive(Debug, Copy, Clone)]
pub struct IdleEvent {
    pub id: Entity,
}

/// `defender` loses `amount` hit points.
#[derive(Debug, Copy, Clone, PartialEq, Eq, Structural, Hash)]
pub struct DamageHitPointsEvent {
    pub defender: Entity,
    pub amount: u16,
}

/// `actor` has died.
#[derive(Debug, Copy, Clone)]
pub struct DeathEvent {
    pub actor: Entity,
}

} // verus!
