use crate::combat::attributes::AttributeType;
use crate::combat::formula::{LinearFormula, Multiplier};
use vstd::prelude::*;

verus! {

/// The attributes of the game's actors.
#[derive(Debug, Clone, Copy, PartialEq, Eq, Structural, Hash)]
pub enum RogueAttributeType {
    Strength,
    Dexterity,
    Inteligence,
    Toughness,
    Perception,
    Willpower,
}

impl AttributeType for RogueAttributeType {
    fn same_attribute(&self, other: &Self) -> (r: bool) {
        *self == *other
    }

    fn variants() -> (r: Vec<Self>)
        ensures
            r@ == seq![
                RogueAttributeType::Strength,
                RogueAttributeType::Dexterity,
                RogueAttributeType::Inteligence,
                RogueAttributeType::Toughness,
                RogueAttributeType::Perception,
                RogueAttributeType::Willpower,
            ],
    {
        let mut v: Vec<RogueAttributeType> = Vec::new();
        v.push(RogueAttributeType::Strength);
        v.push(RogueAttributeType::Dexterity);
        v.push(RogueAttributeType::Inteligence);
        v.push(RogueAttributeType::Toughness);
        v.push(RogueAttributeType::Perception);
        v.push(RogueAttributeType::Willpower);
        assert(v@ == seq![
                RogueAttributeType::Strength,
                RogueAttributeType::Dexterity,
                RogueAttributeType::Inteligence,
                RogueAttributeType::Toughness,
                RogueAttributeType::Perception,
                RogueAttributeType::Willpower,
        ]);
        assert forall|a: RogueAttributeType| v@.contains(a) by {
            match a {
                RogueAttributeType::Strength => assert(v@[0] == a),
                RogueAttributeType::Dexterity => assert(v@[1] == a),
                RogueAttributeType::Inteligence => assert(v@[2] == a),
                RogueAttributeType::Toughness => assert(v@[3] == a),
                RogueAttributeType::Perception => assert(v@[4] == a),
                RogueAttributeType::Willpower => assert(v@[5] == a),
            }
        }
        v
    }
}

impl Default for RogueAttributeType {
    fn default() -> (r: Self)
        ensures
            r == RogueAttributeType::Strength,
    {
        RogueAttributeType::Strength
    }
}

impl RogueAttributeType {
    /// The three-letter label of the attribute.
    pub fn label(&self) -> (r: &'static str)
        ensures
            r@ == match *self {
                RogueAttributeType::Strength => "str"@,
                RogueAttributeType::Dexterity => "dex"@,
                RogueAttributeType::Inteligence => "int"@,
                RogueAttributeType::Toughness => "tou"@,
                RogueAttributeType::Perception => "per"@,
                RogueAttributeType::Willpower => "wil"@,
            },
    {
        match self {
            RogueAttributeType::Strength => "str",
            RogueAttributeType::Dexterity => "dex",
            RogueAttributeType::Inteligence => "int",
            RogueAttributeType::Toughness => "tou",
            RogueAttributeType::Perception => "per",
            RogueAttributeType::Willpower => "wil",
        }
    }
}

/// Phase of an actor's turn.
#[derive(Debug, Clone, Copy, PartialEq, Eq, Structural, Hash)]
pub enum TurnState {
    Collect,
    Act,
    End,
}

impl Default for TurnState {
    fn default() -> (r: Self)
        ensures
            r == TurnState::Collect,
    {
        TurnState::Collect
    }
}

/// Marks the actor the player moves.
#[derive(Debug, Default, Clone, Copy, PartialEq, Eq)]
pub struct MovingPlayer;

/// Marks an actor that moves at random.
#[derive(Debug, Default, Clone, Copy, PartialEq, Eq)]
pub struct MovingRandom;

/// Marks an actor that moves at random within its field of view.
#[derive(Debug, Default, Clone, Copy, PartialEq, Eq)]
pub struct MovingFovRandom;

/// Marks an actor's health bar.
#[derive(Debug, Default, Clone, Copy, PartialEq, Eq)]
pub struct HudHealthBar;

/// The side an actor fights on.
#[derive(Debug, Default, Clone, Copy, PartialEq, Eq, Structural, Hash)]
pub struct Team {
    id: u32,
}

impl Team {
    pub closed spec fn id_spec(&self) -> u32 {
        self.id
    }

    pub fn new(id: u32) -> (r: Self)
        ensures
            r.id_spec() == id,
    {
        Team { id }
    }

    pub fn id(&self) -> (r: u32)
        ensures
            r == self.id_spec(),
    {
        self.id
    }
}

/// Weights of the actors' formulas: (multiplier, attribute) pairs.
pub open spec fn weights(f: Seq<Multiplier<RogueAttributeType>>) -> Seq<(u8, RogueAttributeType)> {
    f.map_values(|m: Multiplier<RogueAttributeType>| (m.multiplier, m.attribute))
}

fn formula_of(ws: &[(u8, RogueAttributeType)]) -> (r: LinearFormula<RogueAttributeType>)
    ensures
        weights(r.multipliers@) == ws@,
{
    let mut v: Vec<Multiplier<RogueAttributeType>> = Vec::new();
    let mut i: usize = 0;
    while i < ws.len()
        invariant
            i <= ws.len(),
            v.len() == i,
            forall|k: int| 0 <= k < i ==> (#[trigger] v@[k]).multiplier == ws@[k].0 && v@[k].attribute == ws@[k].1,
        decreases ws.len() - i,
    {
        let (m, a) = ws[i];
        v.push(Multiplier { multiplier: m, attribute: a });
        i = i + 1;
    }
    let r = LinearFormula::new(v);
    assert(weights(r.multipliers@) == ws@);
    r
}

/// The formulas every actor uses: action point increment (dexterity 70, willpower 30),
/// full health (toughness 70, strength 20, willpower 10) and health regeneration
/// (toughness 80, strength 10, willpower 10).
pub fn actor_formulas() -> (r: (LinearFormula<RogueAttributeType>, LinearFormula<RogueAttributeType>, LinearFormula<RogueAttributeType>))
    ensures
        weights(r.0.multipliers@) == seq![(70u8, RogueAttributeType::Dexterity), (30u8, RogueAttributeType::Willpower)],
        weights(r.1.multipliers@) == seq![
            (70u8, RogueAttributeType::Toughness),
            (20u8, RogueAttributeType::Strength),
            (10u8, RogueAttributeType::Willpower),
        ],
        weights(r.2.multipliers@) == seq![
            (80u8, RogueAttributeType::Toughness),
            (10u8, RogueAttributeType::Strength),
            (10u8, RogueAttributeType::Willpower),
        ],
{
    let ap = [(70u8, RogueAttributeType::Dexterity), (30u8, RogueAttributeType::Willpower)];
    let hp = [
        (70u8, RogueAttributeType::Toughness),
        (20u8, RogueAttributeType::Strength),
        (10u8, RogueAttributeType::Willpower),
    ];
    let regen = [
        (80u8, RogueAttributeType::Toughness),
        (10u8, RogueAttributeType::Strength),
        (10u8, RogueAttributeType::Willpower),
    ];
    let a = formula_of(&ap);
    let h = formula_of(&hp);
    let g = formula_of(&regen);
    assert(ap@ == seq![(70u8, RogueAttributeType::Dexterity), (30u8, RogueAttributeType::Willpower)]);
    assert(hp@ == seq![
        (70u8, RogueAttributeType::Toughness),
        (20u8, RogueAttributeType::Strength),
        (10u8, RogueAttributeType::Willpower),
    ]);
    assert(regen@ == seq![
        (80u8, RogueAttributeType::Toughness),
        (10u8, RogueAttributeType::Strength),
        (10u8, RogueAttributeType::Willpower),
    ]);
    (a, h, g)
}

} // verus!
