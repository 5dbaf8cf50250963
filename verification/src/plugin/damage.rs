use crate::combat::damage::DamageKind;
use vstd::prelude::*;

verus! {

/// Kinds of damage actors and the environment inflict.
#[derive(Debug, Clone, Copy, PartialEq, Eq, Structural, Hash)]
pub enum RogueDamageKind {
    /// physical crushing damage
    Blunt,
    /// physical puncturing damage
    Pierce,
    /// physical cut damage
    Slash,
    /// elemental heat damage
    Fire,
    /// elemental cold damage
    Cold,
    /// elemental electrical damage
    Lightning,
}

impl DamageKind for RogueDamageKind {
    fn same_kind(&self, other: &Self) -> (r: bool) {
        *self == *other
    }
}

impl Default for RogueDamageKind {
    fn default() -> (r: Self)
        ensures
            r == RogueDamageKind::Blunt,
    {
        RogueDamageKind::Blunt
    }
}

impl RogueDamageKind {
    /// The variant's name.
    pub fn name(&self) -> (r: &'static str)
        ensures
            r@ == match *self {
                RogueDamageKind::Blunt => "Blunt"@,
                RogueDamageKind::Pierce => "Pierce"@,
                RogueDamageKind::Slash => "Slash"@,
                RogueDamageKind::Fire => "Fire"@,
                RogueDamageKind::Cold => "Cold"@,
                RogueDamageKind::Lightning => "Lightning"@,
            },
    {
        match self {
            RogueDamageKind::Blunt => "Blunt",
            RogueDamageKind::Pierce => "Pierce",
            RogueDamageKind::Slash => "Slash",
            RogueDamageKind::Fire => "Fire",
            RogueDamageKind::Cold => "Cold",
            RogueDamageKind::Lightning => "Lightning",
        }
    }
}

} // verus!
