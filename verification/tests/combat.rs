use bevy_roguelike::combat::action_cost::ActionCost;
use bevy_roguelike::combat::action_points::{ActionPoints, AP_INCREMENT_MIN, AP_TURN_READY_DEFAULT};
use bevy_roguelike::combat::attributes::{sum, Attributes};
use bevy_roguelike::combat::block::Block;
use bevy_roguelike::combat::bundles::Combat;
use bevy_roguelike::combat::damage::{Damage, DamageList};
use bevy_roguelike::combat::events::SpendAPEvent;
use bevy_roguelike::combat::evasion::{roll_against, Evasion};
use bevy_roguelike::combat::formula::{LinearFormula, Multiplier};
use bevy_roguelike::combat::hit_points::{HitPoints, HP_FULL_MIN, HP_REGEN_INCREMENT_MIN};
use bevy_roguelike::combat::protection::{damage_after_protection, keep_protecting, protection_fits_check, Protect, Protection};
use bevy_roguelike::combat::rate::Rate;
use bevy_roguelike::combat::resistance::{Resist, Resistance};
use bevy_roguelike::combat::systems::{defend, defense_can_roll, pick_attack, DefenseOutcome};
use bevy_roguelike::inventory::Entity;
use bevy_roguelike::plugin::actor::RogueAttributeType;
use bevy_roguelike::plugin::damage::RogueDamageKind;
use rand::rngs::StdRng;
use rand::SeedableRng;

type A = RogueAttributeType;
type K = RogueDamageKind;

fn rng() -> StdRng {
    StdRng::seed_from_u64(7)
}

#[test]
fn attributes_get_reads_recorded_amount_or_zero() {
    let atr = Attributes::from_list(vec![(A::Strength, 3), (A::Dexterity, 5)]);
    assert_eq!(atr.get(&A::Strength), 3);
    assert_eq!(atr.get(&A::Dexterity), 5);
    assert_eq!(atr.get(&A::Toughness), 0);
}

#[test]
fn attributes_with_all_and_default() {
    let all = Attributes::<A>::with_all(7);
    assert_eq!(all.get(&A::Willpower), 7);
    assert_eq!(all.get(&A::Perception), 7);
    let zero = Attributes::<A>::default();
    assert_eq!(zero.get(&A::Strength), 0);
}

#[test]
fn attributes_add_sums_per_kind_of_left_side() {
    let lhs = Attributes::from_list(vec![(A::Strength, 3), (A::Dexterity, 5)]);
    let rhs = Attributes::from_list(vec![(A::Dexterity, 2), (A::Toughness, 9)]);
    let r = lhs.add(rhs);
    assert_eq!(r.get(&A::Strength), 3);
    assert_eq!(r.get(&A::Dexterity), 7);
    // kinds missing on the left side are not added
    assert_eq!(r.get(&A::Toughness), 0);
}

#[test]
fn attributes_sum_folds_from_all_zero() {
    let items = vec![
        Attributes::from_list(vec![(A::Strength, 1), (A::Inteligence, 4)]),
        Attributes::from_list(vec![(A::Strength, 2)]),
        Attributes::from_list(vec![(A::Toughness, 6)]),
    ];
    let s = sum(items);
    assert_eq!(s.get(&A::Strength), 3);
    assert_eq!(s.get(&A::Inteligence), 4);
    assert_eq!(s.get(&A::Toughness), 6);
    assert_eq!(s.get(&A::Dexterity), 0);
}

#[test]
fn attributes_sum_of_nothing_is_all_zero() {
    let s = sum::<A>(Vec::new());
    assert_eq!(s.get(&A::Strength), 0);
    assert_eq!(s.get(&A::Willpower), 0);
}

#[test]
fn action_points_gather_and_spend() {
    let mut ap = ActionPoints::<A>::new(LinearFormula::empty(), 0);
    assert_eq!(ap.turn_ready_to_act(), AP_TURN_READY_DEFAULT);
    assert_eq!(ap.increment(), AP_INCREMENT_MIN);
    assert_eq!(ap.current(), 0);
    assert_eq!(ap.current_add(), 64);
    assert_eq!(ap.current_add(), 128);
    assert_eq!(ap.current_minus(28), 100);
    assert!(ap.spend(100));
    assert_eq!(ap.current(), 0);
}

#[test]
fn action_points_gather_then_spend_increment_restores() {
    let mut ap = ActionPoints::<A>::new(LinearFormula::empty(), 10);
    assert_eq!(ap.current_add(), 74);
    let inc = ap.increment();
    assert_eq!(ap.current_minus(inc), 0);
}

#[test]
fn action_points_spend_reports_completion_only_below_turn_ready() {
    let mut ap = ActionPoints::<A>::new(LinearFormula::empty(), 0);
    for _ in 0..5 {
        ap.current_add();
    }
    assert_eq!(ap.current(), 320);
    assert!(!ap.spend(100));
    assert_eq!(ap.current(), 220);
    assert!(ap.spend(100));
    assert_eq!(ap.current(), 120);
}

#[test]
fn action_points_update_keeps_current() {
    let mut ap = ActionPoints::<A>::new(LinearFormula::empty(), 0);
    ap.current_add();
    ap.update(36);
    assert_eq!(ap.increment(), 100);
    assert_eq!(ap.current(), 64);
}

#[test]
fn hit_points_new_is_full_and_alive() {
    let hp = HitPoints::<A>::new(LinearFormula::empty(), LinearFormula::empty(), 10, 4);
    assert_eq!(hp.full(), HP_FULL_MIN + 10);
    assert_eq!(hp.current(), 30);
    assert!(hp.is_alive());
    assert_eq!(HP_REGEN_INCREMENT_MIN, 16);
}

#[test]
fn hit_points_apply_caps_at_full_and_kills_at_zero() {
    let mut hp = HitPoints::<A>::new(LinearFormula::empty(), LinearFormula::empty(), 10, 4);
    assert_eq!(hp.apply(-5), 25);
    assert_eq!(hp.apply(100), 30);
    assert!(hp.is_alive());
    assert_eq!(hp.apply(-30), 0);
    assert!(!hp.is_alive());
    // healing does not bring the dead back
    assert_eq!(hp.apply(10), 10);
    assert!(!hp.is_alive());
}

#[test]
fn hit_points_take_damage_reports_death_once() {
    let mut hp = HitPoints::<A>::new(LinearFormula::empty(), LinearFormula::empty(), 10, 4);
    assert!(!hp.take_damage(5));
    assert_eq!(hp.current(), 25);
    assert!(hp.take_damage(40));
    assert_eq!(hp.current(), -15);
    assert!(!hp.take_damage(1));
    assert_eq!(hp.current(), -15);
}

#[test]
fn hit_points_regen_heals_per_whole_ready_amount() {
    let mut hp = HitPoints::<A>::new(LinearFormula::empty(), LinearFormula::empty(), 10, 4);
    hp.apply(-5);
    for _ in 0..6 {
        hp.regen();
    }
    // 6 * 20 = 120 accumulated, not above 128 yet
    assert_eq!(hp.current(), 25);
    hp.regen();
    // 140 accumulated: one point healed, 12 kept
    assert_eq!(hp.current(), 26);
    hp.regen_by(300);
    // 312 accumulated: two points healed
    assert_eq!(hp.current(), 28);
}

#[test]
fn hit_points_update_sets_full_and_current() {
    let mut hp = HitPoints::<A>::new(LinearFormula::empty(), LinearFormula::empty(), 10, 4);
    hp.update(20, 0, 35);
    assert_eq!(hp.full(), 40);
    assert_eq!(hp.current(), 35);
}

#[test]
fn protection_subtracts_matching_kinds_only() {
    let values = vec![(K::Blunt, 3), (K::Fire, 4), (K::Blunt, 2)];
    assert_eq!(damage_after_protection(10, &values, K::Blunt), 5);
    assert_eq!(damage_after_protection(10, &values, K::Fire), 6);
    assert_eq!(damage_after_protection(10, &values, K::Cold), 10);
    assert_eq!(damage_after_protection(3, &values, K::Blunt), -2);
}

#[test]
fn protection_extend_appends_copies() {
    let mut p = Protection::<K, A>::new(vec![Protect { kind: K::Slash, amount_multiplier: LinearFormula::empty(), amount: 1 }]);
    let other = Protection::<K, A>::new(vec![
        Protect { kind: K::Fire, amount_multiplier: LinearFormula::empty(), amount: 2 },
        Protect { kind: K::Cold, amount_multiplier: LinearFormula::empty(), amount: 3 },
    ]);
    p.extend(&other);
    assert_eq!(p.amounts.len(), 3);
    assert_eq!(p.amounts[1].kind, K::Fire);
    assert_eq!(p.amounts[2].amount, 3);
    assert_eq!(other.amounts.len(), 2);
    assert!(Protection::<K, A>::default().amounts.is_empty());
}

#[test]
fn resistance_percent_sums_kind_and_caps_at_100() {
    let r = Resistance::new(vec![
        Resist { kind: K::Fire, percent: 30 },
        Resist { kind: K::Fire, percent: 80 },
        Resist { kind: K::Cold, percent: 10 },
    ]);
    assert_eq!(r.percent_for(K::Fire), 100);
    assert_eq!(r.percent_for(K::Cold), 10);
    assert_eq!(r.percent_for(K::Blunt), 0);
}

#[test]
fn resistance_past_255_is_full() {
    let r = Resistance::new(vec![
        Resist { kind: K::Fire, percent: 200 },
        Resist { kind: K::Fire, percent: 200 },
    ]);
    assert_eq!(r.percent_for(K::Fire), 100);
}

#[test]
fn resistance_ingest_appends() {
    let mut r = Resistance::new(vec![Resist { kind: K::Fire, percent: 30 }]);
    let other = Resistance::new(vec![Resist { kind: K::Fire, percent: 20 }, Resist { kind: K::Pierce, percent: 5 }]);
    r.ingest(&other);
    assert_eq!(r.amounts.len(), 3);
    assert_eq!(r.percent_for(K::Fire), 50);
    assert_eq!(r.percent_for(K::Pierce), 5);
}

#[test]
fn roll_against_certain_outcomes() {
    let mut g = rng();
    // a zero chance never succeeds
    assert_eq!(roll_against(0, 50, 7, &mut g), (false, 0));
    // a chance at least the hit chance always succeeds
    assert_eq!(roll_against(80, 50, 7, &mut g), (true, 7));
    assert_eq!(roll_against(50, 50, 7, &mut g), (true, 7));
}

#[test]
fn roll_against_uncertain_outcome_costs_only_on_success() {
    let mut g = rng();
    for _ in 0..50 {
        let (ok, cost) = roll_against(20, 100, 9, &mut g);
        assert_eq!(cost, if ok { 9 } else { 0 });
    }
}

fn evasion() -> Evasion<A> {
    Evasion::default()
}

fn block_of(kinds: Vec<K>) -> Block<K, A> {
    Block { block_type: kinds, cost: ActionCost::default(), chance: Rate::default() }
}

#[test]
fn evasion_try_evade_certain_outcomes() {
    let ev = evasion();
    let mut g = rng();
    assert_eq!(ev.try_evade(60, 60, 12, &mut g), (true, 12));
    assert_eq!(ev.try_evade(0, 60, 12, &mut g), (false, 0));
}

#[test]
fn block_ignores_other_kinds() {
    let b = block_of(vec![K::Blunt, K::Slash]);
    let mut g = rng();
    assert_eq!(b.try_block(K::Fire, 100, 50, 3, &mut g), (false, 0));
    assert_eq!(b.try_block(K::Slash, 100, 50, 3, &mut g), (true, 3));
}

#[test]
fn defend_without_action_points_is_hit() {
    let ev = evasion();
    let blocks = vec![block_of(vec![K::Blunt])];
    let rates = vec![(100, 4)];
    let mut g = rng();
    assert_eq!(defend(&mut g, 0, &ev, 100, 5, &blocks, &rates, K::Blunt, 50), DefenseOutcome::Hit);
    assert_eq!(defend(&mut g, -3, &ev, 100, 5, &blocks, &rates, K::Blunt, 50), DefenseOutcome::Hit);
}

#[test]
fn defend_evades_before_blocking() {
    let ev = evasion();
    let blocks = vec![block_of(vec![K::Blunt])];
    let rates = vec![(100, 4)];
    let mut g = rng();
    assert_eq!(defend(&mut g, 10, &ev, 50, 5, &blocks, &rates, K::Blunt, 50), DefenseOutcome::Evaded(5));
}

#[test]
fn defend_blocks_with_first_matching_block() {
    let ev = evasion();
    let blocks = vec![block_of(vec![K::Fire]), block_of(vec![K::Blunt]), block_of(vec![K::Blunt])];
    let rates = vec![(100, 1), (100, 2), (100, 3)];
    let mut g = rng();
    assert_eq!(defend(&mut g, 10, &ev, 0, 5, &blocks, &rates, K::Blunt, 50), DefenseOutcome::Blocked(1, 2));
}

#[test]
fn defend_hit_when_nothing_can_succeed() {
    let ev = evasion();
    let blocks = vec![block_of(vec![K::Blunt])];
    let rates = vec![(0, 2)];
    let mut g = rng();
    assert_eq!(defend(&mut g, 10, &ev, 0, 5, &blocks, &rates, K::Blunt, 50), DefenseOutcome::Hit);
}

#[test]
fn pick_attack_in_range() {
    let mut g = rng();
    for _ in 0..20 {
        assert!(pick_attack(&mut g, 3) < 3);
    }
    assert_eq!(pick_attack(&mut g, 1), 0);
}

fn damage(start: i32, end: i32) -> Damage<K, A> {
    Damage {
        kind: K::Pierce,
        amount: start..end,
        amount_multiplier: LinearFormula::empty(),
        hit_cost: ActionCost::default(),
        hit_chance: Rate::default(),
    }
}

#[test]
fn damage_roll_within_range_or_start_when_empty() {
    let mut g = rng();
    assert_eq!(damage(5, 5).amount_roll(&mut g), 5);
    assert_eq!(damage(9, 2).amount_roll(&mut g), 9);
    for _ in 0..20 {
        let v = damage(2, 6).amount_roll(&mut g);
        assert!((2..6).contains(&v));
    }
}

#[test]
fn spend_ap_event_new_keeps_fields() {
    let ev = SpendAPEvent::new(Entity { bits: 3 }, -4);
    assert_eq!(ev.id, Entity { bits: 3 });
    assert_eq!(ev.amount, -4);
}

#[test]
fn linear_formula_keeps_weights() {
    let f = LinearFormula::new(vec![Multiplier { multiplier: 70, attribute: A::Dexterity }]);
    assert_eq!(f.multipliers.len(), 1);
    let g = f.duplicate();
    assert_eq!(g.multipliers[0].multiplier, 70);
    assert!(LinearFormula::<A>::default().multipliers.is_empty());
}

#[test]
fn combat_new_starts_fresh() {
    let atr = Attributes::from_list(vec![(A::Strength, 3)]);
    let c = Combat::new(
        &atr,
        LinearFormula::empty(),
        LinearFormula::empty(),
        LinearFormula::empty(),
        DamageList { list: vec![damage(1, 4)] },
        Protection::default(),
        Evasion::default(),
        Resistance::default(),
        6,
        10,
        4,
    );
    let text = format!("{:?}", c);
    assert!(text.contains("current: 0"));
    assert!(text.contains("full: 30"));
}

#[test]
fn protection_fit_check_and_keep() {
    let values = vec![(K::Blunt, 3), (K::Fire, 4)];
    assert!(protection_fits_check(10, &values, K::Blunt));
    assert!(!protection_fits_check(i32::MIN + 1, &values, K::Blunt));
    assert!(!protection_fits_check(i32::MAX, &vec![(K::Blunt, -5)], K::Blunt));
    let p = keep_protecting(vec![
        Protect::<K, A> { kind: K::Slash, amount_multiplier: LinearFormula::empty(), amount: 0 },
        Protect { kind: K::Fire, amount_multiplier: LinearFormula::empty(), amount: 2 },
        Protect { kind: K::Cold, amount_multiplier: LinearFormula::empty(), amount: -1 },
    ]);
    assert_eq!(p.amounts.len(), 1);
    assert_eq!(p.amounts[0].kind, K::Fire);
}

#[test]
fn defend_evaded_attack_never_reaches_a_broken_block() {
    let ev = evasion();
    let blocks = vec![block_of(vec![K::Blunt])];
    // a negative block chance cannot be drawn, but a certain evasion comes first
    let rates = vec![(-5, 4)];
    assert!(defense_can_roll(10, 60, &blocks, &rates, K::Blunt, 50));
    assert!(!defense_can_roll(10, 10, &blocks, &rates, K::Blunt, 50));
    assert!(defense_can_roll(0, 10, &blocks, &rates, K::Blunt, 0));
    let mut g = rng();
    assert_eq!(defend(&mut g, 10, &ev, 60, 5, &blocks, &rates, K::Blunt, 50), DefenseOutcome::Evaded(5));
}

#[test]
fn defend_certain_block_is_not_skipped() {
    let ev = evasion();
    let blocks = vec![block_of(vec![K::Fire]), block_of(vec![K::Fire])];
    let rates = vec![(10, 1), (90, 2)];
    let mut g = rng();
    for _ in 0..20 {
        match defend(&mut g, 10, &ev, 0, 5, &blocks, &rates, K::Fire, 50) {
            DefenseOutcome::Blocked(i, c) => assert!((i == 0 && c == 1) || (i == 1 && c == 2)),
            other => panic!("a certain block was skipped: {:?}", other),
        }
    }
}
