use combat_core::action::{AttackState, AttackType, CombatAction};
use combat_core::weapon::{Weapon, WeaponStats};

#[test]
fn default_weapon_stats_hold_the_two_templates() {
    let stats = WeaponStats::default();
    let light = stats.light_attack;
    assert_eq!(light.attack_type(), AttackType::Light);
    assert_eq!(light.attack_state(), AttackState::Idle);
    assert_eq!(light.windup(), 200_000_000);
    assert_eq!(light.attack_time(), 100_000_000);
    assert_eq!(light.cooldown(), 450_000_000);
    assert_eq!(light.damage(), 2);
    let heavy = stats.heavy_attack;
    assert_eq!(heavy.attack_type(), AttackType::Heavy);
    assert_eq!(heavy.attack_state(), AttackState::Idle);
    assert_eq!(heavy.windup(), 400_000_000);
    assert_eq!(heavy.attack_time(), 200_000_000);
    assert_eq!(heavy.cooldown(), 1_000_000_000);
    assert_eq!(heavy.damage(), 4);
}

#[test]
fn template_is_picked_by_type() {
    let stats = WeaponStats::default();
    assert_eq!(stats.template(AttackType::Light).damage(), 2);
    assert_eq!(stats.template(AttackType::Heavy).damage(), 4);
}

#[test]
fn default_weapon_has_no_entity() {
    let weapon = Weapon::default();
    assert_eq!(weapon.weapon_entity, None);
    assert_eq!(weapon.weapon_stats.light_attack.windup(), 200_000_000);
    assert_eq!(weapon.weapon_stats.heavy_attack.cooldown(), 1_000_000_000);
}

#[test]
fn weapon_stats_can_be_given_another_light_attack() {
    let light =
        CombatAction::new(AttackType::Light, 500_000_000, 250_000_000, 550_000_000, 1).unwrap();
    let stats = WeaponStats { light_attack: light, ..WeaponStats::default() };
    assert_eq!(stats.template(AttackType::Light).windup(), 500_000_000);
    assert_eq!(stats.template(AttackType::Light).damage(), 1);
    assert_eq!(stats.template(AttackType::Heavy).windup(), 400_000_000);
}
