use bevy_roguelike::combat::attributes::Attributes as CombatAttributes;
use bevy_roguelike::geometry::Vector2D;
use bevy_roguelike::inventory::Entity;
use bevy_roguelike::plugin::acting::{Capability, ModifyHP};
use bevy_roguelike::plugin::actor::{actor_formulas, RogueAttributeType, Team, TurnState};
use bevy_roguelike::plugin::actors::{Attributes as NamedAttributes, Behaviour, MoveEvent as MoveRequest};
use bevy_roguelike::plugin::damage::RogueDamageKind;
use bevy_roguelike::plugin::events::{ActEvent, CameraFocusEvent, MoveEvent};
use bevy_roguelike::plugin::fov::{radius_for, FieldOfView};
use bevy_roguelike::plugin::item::{
    ordered_bounds, pick_scaled_i16, pick_scaled_i32, pick_scaled_u8, scale_i16, scale_u8, ItemType, Quality,
};
use bevy_roguelike::plugin::moving::{ActionPoints as WalkPoints, MapTile};
use bevy_roguelike::plugin::stats::{attributes_new, ActionPoints as OldActionPoints, HitPoints as OldHitPoints};
use rand::rngs::StdRng;
use rand::SeedableRng;

type A = RogueAttributeType;

#[test]
fn quality_from_draw_bands() {
    assert_eq!(Quality::from_draw(0), Quality::Broken);
    assert_eq!(Quality::from_draw(4), Quality::Broken);
    assert_eq!(Quality::from_draw(5), Quality::Damaged);
    assert_eq!(Quality::from_draw(24), Quality::Damaged);
    assert_eq!(Quality::from_draw(25), Quality::Normal);
    assert_eq!(Quality::from_draw(74), Quality::Normal);
    assert_eq!(Quality::from_draw(75), Quality::Masterwork);
    assert_eq!(Quality::from_draw(94), Quality::Masterwork);
    assert_eq!(Quality::from_draw(95), Quality::Artifact);
    assert_eq!(Quality::from_draw(99), Quality::Artifact);
    let counts: Vec<usize> = [Quality::Broken, Quality::Damaged, Quality::Normal, Quality::Masterwork, Quality::Artifact]
        .iter()
        .map(|q| (0..100).filter(|d| Quality::from_draw(*d) == *q).count())
        .collect();
    assert_eq!(counts, vec![5, 20, 50, 20, 5]);
}

#[test]
fn quality_multipliers() {
    assert_eq!(Quality::Broken.get_multiplier(), 20..60);
    assert_eq!(Quality::Damaged.get_multiplier(), 60..90);
    assert_eq!(Quality::Normal.get_multiplier(), 90..110);
    assert_eq!(Quality::Masterwork.get_multiplier(), 110..140);
    assert_eq!(Quality::Artifact.get_multiplier(), 140..200);
    assert_eq!(Quality::Broken.get_multiplier_inverse(), 140..200);
    assert_eq!(Quality::Damaged.get_multiplier_inverse(), 110..140);
    assert_eq!(Quality::Normal.get_multiplier_inverse(), 90..110);
    assert_eq!(Quality::Masterwork.get_multiplier_inverse(), 60..90);
    assert_eq!(Quality::Artifact.get_multiplier_inverse(), 20..60);
    assert_eq!(Quality::Masterwork.percent_range(true), 110..140);
    assert_eq!(Quality::Masterwork.percent_range(false), 60..90);
}

#[test]
fn quality_names_and_default() {
    assert_eq!(Quality::Broken.name(), "Broken");
    assert_eq!(Quality::Artifact.name(), "Artifact");
    assert_eq!(Quality::default(), Quality::Normal);
}

#[test]
fn quality_roll_gives_a_quality() {
    let mut rng = StdRng::seed_from_u64(1);
    for _ in 0..50 {
        let q = Quality::roll(&mut rng);
        let m = q.get_multiplier();
        assert!(m.start < m.end);
    }
}

#[test]
fn scale_u8_truncates_and_caps() {
    assert_eq!(scale_u8(10, 150), 15);
    assert_eq!(scale_u8(7, 50), 3);
    assert_eq!(scale_u8(200, 140), 255);
    assert_eq!(scale_u8(0, 200), 0);
    assert_eq!(scale_u8(255, 100), 255);
}

#[test]
fn scale_i16_truncates_toward_zero_and_saturates() {
    assert_eq!(scale_i16(10, 150), 15);
    assert_eq!(scale_i16(-7, 50), -3);
    assert_eq!(scale_i16(30000, 200), i16::MAX);
    assert_eq!(scale_i16(-30000, 200), i16::MIN);
    assert_eq!(scale_i16(-1, 99), 0);
}

#[test]
fn pick_scaled_values() {
    let mut rng = StdRng::seed_from_u64(3);
    assert_eq!(pick_scaled_u8(9, 9, &mut rng), 9);
    assert_eq!(pick_scaled_i16(-4, -4, &mut rng), -4);
    assert_eq!(pick_scaled_i32(12, 3, &mut rng), 12);
    for _ in 0..20 {
        let v = pick_scaled_u8(90, 110, &mut rng);
        assert!((90..110).contains(&v));
        let w = pick_scaled_i32(-5, 5, &mut rng);
        assert!((-5..5).contains(&w));
    }
    assert_eq!(ordered_bounds(5, 2), (2, 5));
    assert_eq!(ordered_bounds(2, 5), (2, 5));
}

#[test]
fn item_type_default_is_main_hand() {
    assert_eq!(ItemType::default(), ItemType::MainHand);
}

#[test]
fn fov_radius_from_perception_and_intelligence() {
    assert_eq!(FieldOfView::MIN_RADIUS, 2);
    assert_eq!(radius_for(0, 0), 2);
    assert_eq!(radius_for(5, 8), 4);
    assert_eq!(radius_for(3, 10), 4);
    assert_eq!(radius_for(255, 255), 2 + 110);
    let atr = CombatAttributes::from_list(vec![(A::Perception, 9), (A::Inteligence, 20)]);
    let mut fov = FieldOfView::new(&atr);
    assert_eq!(fov.radius, 7);
    assert!(fov.is_dirty);
    assert!(fov.tiles_visible.is_empty() && fov.tiles_revealed.is_empty());
    fov.is_dirty = false;
    fov.update(&CombatAttributes::from_list(vec![(A::Perception, 3)]));
    assert_eq!(fov.radius, 3);
    assert!(fov.is_dirty);
}

#[test]
fn actor_formula_weights() {
    let (ap, hp_full, hp_regen) = actor_formulas();
    let w = |f: &bevy_roguelike::combat::formula::LinearFormula<A>| -> Vec<(u8, A)> {
        f.multipliers.iter().map(|m| (m.multiplier, m.attribute)).collect()
    };
    assert_eq!(w(&ap), vec![(70, A::Dexterity), (30, A::Willpower)]);
    assert_eq!(w(&hp_full), vec![(70, A::Toughness), (20, A::Strength), (10, A::Willpower)]);
    assert_eq!(w(&hp_regen), vec![(80, A::Toughness), (10, A::Strength), (10, A::Willpower)]);
}

#[test]
fn attribute_labels_and_damage_names() {
    assert_eq!(A::Strength.label(), "str");
    assert_eq!(A::Inteligence.label(), "int");
    assert_eq!(A::Willpower.label(), "wil");
    assert_eq!(RogueDamageKind::Fire.name(), "Fire");
    assert_eq!(RogueDamageKind::Blunt.name(), "Blunt");
}

#[test]
fn turn_state_team_behaviour() {
    assert_eq!(TurnState::default(), TurnState::Collect);
    assert_eq!(Team::new(3).id(), 3);
    assert_eq!(Behaviour::default(), Behaviour::RandomMove);
}

fn named(pairs: &[(&str, i32)]) -> NamedAttributes {
    NamedAttributes::new(pairs.iter().map(|(k, v)| (k.to_string(), *v)).collect())
}

#[test]
fn named_attributes_lookup() {
    let atr = named(&[("strength", 3), ("dexterity", 8)]);
    assert_eq!(atr.get(&"strength".to_string()), Some(3));
    assert_eq!(atr.get(&"toughness".to_string()), None);
}

#[test]
fn capability_defaults_to_five_per_missing_attribute() {
    let c = Capability::new(named(&[]));
    assert_eq!(c.ap_turn_ready_to_act(), 1024);
    assert_eq!(c.ap_current(), 0);
    assert_eq!(c.hp_current(), 580);
    assert_eq!(c.attack_cost(), 850);
    assert_eq!(c.attack_damage(), 115);
}

#[test]
fn capability_formulas() {
    let mut c = Capability::new(named(&[("strength", 10), ("toughness", 2), ("willpower", 0), ("dexterity", 20)]));
    // increment 1024 + 160 + 0, health 500 + 20 + 30 + 0 + 20
    assert_eq!(c.ap_current_add(), 1184);
    assert_eq!(c.hp_current(), 570);
    assert_eq!(c.attack_cost(), 700);
    assert_eq!(c.attack_damage(), 210);
    assert_eq!(c.ap_current_add_delta(16), 1200);
    assert_eq!(c.ap_current_minus(1300), -100);
}

#[test]
fn capability_health_caps_and_percent() {
    let mut c = Capability::new(named(&[]));
    assert_eq!(c.hp_apply(100), 580);
    assert_eq!(c.hp_percent(), 100);
    assert_eq!(c.hp_apply(-290), 290);
    assert_eq!(c.hp_percent(), 50);
    assert_eq!(c.hp_apply(-289), 1);
    assert_eq!(c.hp_percent(), 0);
    assert_eq!(c.hp_apply(-581), -580);
    // -58000 / 580 = -100, read as a byte
    assert_eq!(c.hp_percent(), 156);
}

#[test]
fn modify_hp_new() {
    let m = ModifyHP::new(Vector2D::new(1, 2), -7);
    assert_eq!(m.location, Vector2D::new(1, 2));
    assert_eq!(m.amount, -7);
}

#[test]
fn old_stats_formulas() {
    let atr = attributes_new(1, 2, 3, 4, 5, 6);
    let mut ap = OldActionPoints::new(&atr);
    assert_eq!(ap.turn_ready_to_act(), OldActionPoints::TURN_READY_DEFAULT);
    assert_eq!(ap.current_add(), 64 + 14 + 18);
    assert_eq!(ap.current_minus(OldActionPoints::MOVE_COST_DEFAULT), -4);
    let mut hp = OldHitPoints::new(&atr);
    assert_eq!(hp.full(), 20 + 16 + 1 + 3);
    assert_eq!(hp.current(), 40);
    assert_eq!(hp.apply(-10), 30);
    // regeneration gathers 64 + 16 + 2 + 6 = 88 per rest; two rests pass 128
    hp.regen();
    assert_eq!(hp.current(), 30);
    hp.regen();
    assert_eq!(hp.current(), 31);
    assert_eq!(hp.apply(100), 40);
}

#[test]
fn walking_action_points() {
    let mut ap = WalkPoints::new(300);
    assert_eq!(ap.turn_ready_to_act(), WalkPoints::DEFAULT_TURN_READY_AP);
    assert_eq!(ap.current(), 0);
    assert_eq!(ap.current_add(), 300);
    assert_eq!(ap.current_add_delta(50), 350);
    assert_eq!(ap.current_minus(350), 0);
    assert_eq!(ap.increment, 300);
}

#[test]
fn events_keep_fields() {
    let a = Entity { bits: 4 };
    let act = ActEvent { id: a, delta: Vector2D::new(0, 1) };
    assert_eq!(act.delta, Vector2D::new(0, 1));
    let mv = MoveEvent { actor: a, team: Team::new(1), from: Vector2D::new(0, 0), to: Vector2D::new(1, 0) };
    assert_eq!(mv.team.id(), 1);
    assert_eq!(CameraFocusEvent::new(Vector2D::new(5, 6)).position, Vector2D::new(5, 6));
    let req = MoveRequest::new(a, Vector2D::new(2, 2));
    assert_eq!(req.id, a);
    assert_eq!(req.destination, Vector2D::new(2, 2));
    assert!(!MapTile::default().is_passable);
}
