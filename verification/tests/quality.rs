use bevy_roguelike::combat::action_cost::ActionCost;
use bevy_roguelike::combat::attributes::Attributes;
use bevy_roguelike::combat::block::Block;
use bevy_roguelike::combat::evasion::Evasion;
use bevy_roguelike::combat::formula::{LinearFormula, Multiplier};
use bevy_roguelike::combat::rate::Rate;
use bevy_roguelike::combat::resistance::{Resist, Resistance};
use bevy_roguelike::plugin::actor::RogueAttributeType;
use bevy_roguelike::plugin::damage::RogueDamageKind;
use bevy_roguelike::plugin::item::Quality;
use bevy_roguelike::plugin::quality::{
    mutate_action_cost, mutate_attributes, mutate_block, mutate_evasion, mutate_formula, mutate_i16, mutate_rate,
    mutate_resistance, mutate_u8,
};
use rand::rngs::StdRng;
use rand::SeedableRng;

type A = RogueAttributeType;
type K = RogueDamageKind;

fn rng() -> StdRng {
    StdRng::seed_from_u64(21)
}

#[test]
fn mutate_u8_stays_in_scaled_range() {
    let mut g = rng();
    for _ in 0..50 {
        let r = mutate_u8(50, true, &Quality::Masterwork, &mut g);
        assert!((55..70).contains(&r));
        let i = mutate_u8(50, false, &Quality::Masterwork, &mut g);
        assert!((30..45).contains(&i));
    }
}

#[test]
fn mutate_u8_empty_range_gives_lower_end() {
    let mut g = rng();
    // 1 * 90% .. 1 * 110% truncates to 0..1: always 0
    assert_eq!(mutate_u8(1, true, &Quality::Normal, &mut g), 0);
    assert_eq!(mutate_u8(0, true, &Quality::Artifact, &mut g), 0);
    // 255 * 140% .. 255 * 200% is capped to 255..255
    assert_eq!(mutate_u8(255, true, &Quality::Artifact, &mut g), 255);
}

#[test]
fn mutate_i16_negative_values() {
    let mut g = rng();
    for _ in 0..50 {
        let r = mutate_i16(-100, true, &Quality::Broken, &mut g);
        // -100 * 20% = -20, -100 * 60% = -60: the range -20..-60 is empty
        assert_eq!(r, -20);
        let c = mutate_i16(100, true, &Quality::Broken, &mut g);
        assert!((20..60).contains(&c));
    }
}

#[test]
fn mutate_formula_keeps_attributes() {
    let mut g = rng();
    let f = LinearFormula::new(vec![
        Multiplier { multiplier: 100, attribute: A::Dexterity },
        Multiplier { multiplier: 10, attribute: A::Strength },
    ]);
    let r = mutate_formula(&f, true, &Quality::Damaged, &mut g);
    assert_eq!(r.multipliers.len(), 2);
    assert_eq!(r.multipliers[0].attribute, A::Dexterity);
    assert!((60..90).contains(&r.multipliers[0].multiplier));
    assert_eq!(r.multipliers[1].attribute, A::Strength);
    assert!((6..9).contains(&r.multipliers[1].multiplier));
}

#[test]
fn mutate_cost_goes_the_other_way() {
    let mut g = rng();
    let c = ActionCost::<A> { cost: 100, multiplier_inverted: LinearFormula::empty() };
    for _ in 0..20 {
        // a masterwork item costs 60% .. 90%
        let r = mutate_action_cost(&c, true, &Quality::Masterwork, &mut g);
        assert!((60..90).contains(&r.cost));
    }
    let rate = Rate::<A> { amount: 100, multiplier: LinearFormula::empty() };
    let r = mutate_rate(&rate, true, &Quality::Masterwork, &mut g);
    assert!((110..140).contains(&r.amount));
}

#[test]
fn mutate_evasion_and_block() {
    let mut g = rng();
    let ev = Evasion::<A> {
        cost: ActionCost { cost: 100, multiplier_inverted: LinearFormula::empty() },
        chance: Rate { amount: 100, multiplier: LinearFormula::empty() },
    };
    let r = mutate_evasion(&ev, true, &Quality::Broken, &mut g);
    assert!((140..200).contains(&r.cost.cost));
    assert!((20..60).contains(&r.chance.amount));
    let b = Block::<K, A> { block_type: vec![K::Blunt, K::Fire], cost: ActionCost::default(), chance: Rate::default() };
    let rb = mutate_block(&b, true, &Quality::Normal, &mut g);
    assert_eq!(rb.block_type, vec![K::Blunt, K::Fire]);
    assert_eq!(rb.cost.cost, 0);
    assert_eq!(rb.chance.amount, 0);
}

#[test]
fn mutate_resistance_drops_zeroed() {
    let mut g = rng();
    let res = Resistance::new(vec![
        Resist { kind: K::Fire, percent: 50 },
        Resist { kind: K::Cold, percent: 1 },
    ]);
    let r = mutate_resistance(&res, true, &Quality::Broken, &mut g);
    // 1 * 20% .. 1 * 60% is 0..0: the cold resistance is dropped
    assert_eq!(r.amounts.len(), 1);
    assert_eq!(r.amounts[0].kind, K::Fire);
    assert!((10..30).contains(&r.amounts[0].percent));
}

#[test]
fn mutate_attributes_drops_zeroed() {
    let mut g = rng();
    let atr = Attributes::from_list(vec![(A::Strength, 10), (A::Dexterity, 1), (A::Toughness, 0)]);
    let r = mutate_attributes(&atr, true, &Quality::Normal, &mut g);
    assert!((9..11).contains(&r.get(&A::Strength)));
    assert_eq!(r.get(&A::Dexterity), 0);
    assert_eq!(r.get(&A::Toughness), 0);
    assert_eq!(r.to_list().len(), 1);
}
