use crate::combat::attributes::{AttributeType, Attributes};
use crate::combat::block::Block;
use crate::combat::damage::{Damage, DamageKind};
use crate::combat::evasion::Evasion;
use crate::combat::protection::Protection;
use crate::combat::resistance::Resistance;
use vstd::prelude::*;

verus! {

/// Marks an actor whose computed stats are out of date.
#[derive(Debug, Default, Clone, Copy)]
pub struct StatsComputedDirty;

/// An actor's stats with its equipment taken into account.
#[derive(Debug)]
pub struct StatsComputed<K: DamageKind, A: AttributeType> {
    pub attributes: Attributes<A>,
    pub protection: Protection<K, A>,
    pub resistance: Resistance<K>,
    pub evasion: Evasion<A>,
    pub block: Vec<Block<K, A>>,
    pub damage: Vec<Damage<K, A>>,
}

impl<K: DamageKind, A: AttributeType> Default for StatsComputed<K, A> {
    /// Every attribute at 0, and nothing else.
    fn default() -> (r: Self)
        ensures
            r.attributes.wf(),
            forall|k: int| 0 <= k < r.attributes.entries().len() ==> (#[trigger] r.attributes.entries()[k]).1 == 0,
            r.protection.amounts@.len() == 0,
            r.resistance.amounts@.len() == 0,
            r.evasion.cost.cost == 0,
            r.evasion.chance.amount == 0,
            r.block@.len() == 0,
            r.damage@.len() == 0,
    {
        StatsComputed {
            attributes: Attributes::with_all(0),
            protection: Protection { amounts: Vec::new() },
            resistance: Resistance { amounts: Vec::new() },
            evasion: Evasion::default(),
            block: Vec::new(),
            damage: Vec::new(),
        }
    }
}

} // verus!
