use avian3d::collision::{Collisions, Contacts};
use avian3d::math::Vector2;
use bevy::ecs::entity::Entity;
use combat_core::action::{AttackState, AttackType};
use combat_core::health::{DeathEvent, Health, HealthModifyEvent};
use combat_core::hit::AttackCollider;
use combat_core::manager::Combatant;
use combat_core::pipeline::{died, resolve_windows, Arena, AttackEvent};
use combat_core::weapon::Weapon;

const MS: u64 = 1_000_000;
const HERO: u64 = 1;
const HAND: u64 = 10;
const FINGER: u64 = 11;
const ALIEN: u64 = 2;
const CLAW: u64 = 20;

fn attacking(attack_type: AttackType) -> Combatant {
    let mut combatant = Combatant::new(Weapon::default());
    assert!(combatant.request(attack_type));
    combatant
}

fn duel(hero: Combatant, alien: Combatant, alien_health: i32) -> Arena {
    let mut arena = Arena::new();
    arena.add_entrant(HERO, hero);
    arena.add_entrant(ALIEN, alien);
    arena.add_collider(AttackCollider { entity: HAND, parent: HERO });
    arena.add_collider(AttackCollider { entity: FINGER, parent: HERO });
    arena.add_collider(AttackCollider { entity: CLAW, parent: ALIEN });
    arena.set_health(HERO, Health::new(100).unwrap());
    arena.set_health(ALIEN, Health::new(alien_health).unwrap());
    arena
}

#[test]
fn new_arena_is_empty() {
    let arena = Arena::new();
    assert_eq!(arena.entrant_count(), 0);
    assert!(arena.colliders().is_empty());
    assert!(arena.health(HERO).is_none());
    assert!(arena.entrant(0).is_none());
}

#[test]
fn arena_holds_who_joined() {
    let arena = duel(Combatant::new(Weapon::default()), Combatant::new(Weapon::default()), 3);
    assert_eq!(arena.entrant_count(), 2);
    assert_eq!(arena.entrant(0).unwrap().entity, HERO);
    assert_eq!(arena.entrant(1).unwrap().entity, ALIEN);
    assert!(arena.entrant(2).is_none());
    assert_eq!(arena.colliders().len(), 3);
    assert_eq!(arena.health(ALIEN).unwrap().current(), 3);
}

#[test]
fn combatant_in_the_arena_can_be_replaced() {
    let mut arena = duel(Combatant::new(Weapon::default()), Combatant::new(Weapon::default()), 3);
    let mut hero = arena.entrant(0).unwrap().combatant;
    hero.request(AttackType::Heavy);
    assert!(arena.set_combatant(0, hero));
    assert_eq!(arena.entrant(0).unwrap().entity, HERO);
    assert_eq!(arena.entrant(0).unwrap().combatant.attack_state(), AttackState::Windup);
    assert_eq!(arena.entrant(1).unwrap().combatant.attack_state(), AttackState::Idle);
    assert!(!arena.set_combatant(2, hero));
    assert_eq!(arena.entrant_count(), 2);
}

#[test]
fn advance_reports_the_windows_open_at_the_start_of_the_tick() {
    let mut arena = duel(attacking(AttackType::Light), attacking(AttackType::Heavy), 3);
    assert_eq!(arena.advance(200 * MS), Vec::new());
    assert_eq!(arena.advance(100 * MS), vec![AttackEvent { damage: 2, attacker: HERO }]);
    assert_eq!(arena.advance(100 * MS), Vec::new());
    assert_eq!(arena.advance(100 * MS), vec![AttackEvent { damage: 4, attacker: ALIEN }]);
    assert_eq!(arena.entrant(0).unwrap().combatant.attack_state(), AttackState::Cooldown);
    assert_eq!(arena.entrant(1).unwrap().combatant.attack_state(), AttackState::Attack);
}

#[test]
fn windows_are_resolved_in_their_order() {
    let colliders = vec![
        AttackCollider { entity: HAND, parent: HERO },
        AttackCollider { entity: CLAW, parent: ALIEN },
    ];
    let contacts = vec![(HAND, ALIEN), (CLAW, HERO), (CLAW, 7)];
    let open = vec![
        AttackEvent { damage: 4, attacker: ALIEN },
        AttackEvent { damage: 2, attacker: HERO },
    ];
    let events = resolve_windows(&open, &colliders, &contacts);
    assert_eq!(
        events,
        vec![
            HealthModifyEvent { amount: -4, damaged_entity: HERO },
            HealthModifyEvent { amount: -4, damaged_entity: 7 },
            HealthModifyEvent { amount: -2, damaged_entity: ALIEN },
        ]
    );
    assert_eq!(resolve_windows(&Vec::new(), &colliders, &contacts), Vec::new());
}

#[test]
fn dead_are_found_among_the_deaths() {
    let dead = vec![DeathEvent(4), DeathEvent(9)];
    assert!(died(&dead, 4));
    assert!(died(&dead, 9));
    assert!(!died(&dead, 5));
    assert!(!died(&Vec::new(), 4));
}

#[test]
fn attack_that_touches_takes_health_on_each_tick_of_its_window() {
    let mut arena = duel(attacking(AttackType::Light), Combatant::new(Weapon::default()), 100);
    let contacts = vec![(HAND, ALIEN), (FINGER, ALIEN)];
    assert_eq!(arena.tick(200 * MS, &contacts), Vec::new());
    assert_eq!(arena.health(ALIEN).unwrap().current(), 100);
    assert_eq!(arena.tick(50 * MS, &contacts), Vec::new());
    assert_eq!(arena.health(ALIEN).unwrap().current(), 98);
    assert_eq!(arena.tick(50 * MS, &contacts), Vec::new());
    assert_eq!(arena.health(ALIEN).unwrap().current(), 96);
    assert_eq!(arena.tick(50 * MS, &contacts), Vec::new());
    assert_eq!(arena.health(ALIEN).unwrap().current(), 96);
    assert_eq!(arena.health(HERO).unwrap().current(), 100);
}

#[test]
fn attack_that_touches_nothing_takes_no_health() {
    let mut arena = duel(attacking(AttackType::Light), Combatant::new(Weapon::default()), 100);
    arena.tick(200 * MS, &Vec::new());
    arena.tick(50 * MS, &vec![(CLAW, HERO)]);
    assert_eq!(arena.health(ALIEN).unwrap().current(), 100);
    assert_eq!(arena.health(HERO).unwrap().current(), 100);
}

#[test]
fn the_dead_leave_the_arena_with_their_colliders() {
    let mut arena = duel(attacking(AttackType::Heavy), attacking(AttackType::Light), 3);
    let contacts = vec![(HAND, ALIEN)];
    assert_eq!(arena.tick(400 * MS, &contacts), Vec::new());
    assert_eq!(arena.tick(10 * MS, &contacts), vec![DeathEvent(ALIEN)]);
    assert!(arena.health(ALIEN).is_none());
    assert_eq!(arena.health(HERO).unwrap().current(), 100);
    assert_eq!(arena.entrant_count(), 1);
    assert_eq!(arena.entrant(0).unwrap().entity, HERO);
    assert_eq!(
        arena.colliders(),
        &vec![
            AttackCollider { entity: HAND, parent: HERO },
            AttackCollider { entity: FINGER, parent: HERO },
        ]
    );
    assert_eq!(arena.tick(10 * MS, &contacts), Vec::new());
}

#[test]
fn both_can_die_in_one_tick() {
    let mut arena = Arena::new();
    arena.add_entrant(HERO, attacking(AttackType::Light));
    arena.add_entrant(ALIEN, attacking(AttackType::Light));
    arena.add_collider(AttackCollider { entity: HAND, parent: HERO });
    arena.add_collider(AttackCollider { entity: CLAW, parent: ALIEN });
    arena.set_health(HERO, Health::new(2).unwrap());
    arena.set_health(ALIEN, Health::new(1).unwrap());
    let contacts = vec![(CLAW, HERO), (HAND, ALIEN)];
    assert_eq!(arena.tick(200 * MS, &contacts), Vec::new());
    assert_eq!(arena.tick(10 * MS, &contacts), vec![DeathEvent(ALIEN), DeathEvent(HERO)]);
    assert_eq!(arena.entrant_count(), 0);
    assert!(arena.colliders().is_empty());
    assert!(arena.health(HERO).is_none());
    assert!(arena.health(ALIEN).is_none());
}

#[test]
fn bury_takes_out_only_the_dead() {
    let mut arena = duel(Combatant::new(Weapon::default()), Combatant::new(Weapon::default()), 3);
    arena.bury(&vec![DeathEvent(HERO), DeathEvent(HERO), DeathEvent(77)]);
    assert_eq!(arena.entrant_count(), 1);
    assert_eq!(arena.entrant(0).unwrap().entity, ALIEN);
    assert_eq!(arena.colliders(), &vec![AttackCollider { entity: CLAW, parent: ALIEN }]);
    assert!(arena.health(HERO).is_none());
    assert_eq!(arena.health(ALIEN).unwrap().current(), 3);
}

#[test]
fn arena_ticks_on_the_collisions_of_the_engine() {
    let hero = Entity::from_raw(1);
    let hand = Entity::from_raw(10);
    let alien = Entity::from_raw(2);
    let mut arena = Arena::new();
    arena.add_entrant(hero.to_bits(), attacking(AttackType::Heavy));
    arena.add_collider(AttackCollider { entity: hand.to_bits(), parent: hero.to_bits() });
    arena.set_health(alien.to_bits(), Health::new(5).unwrap());
    let mut collisions = Collisions::default();
    collisions.insert_collision_pair(Contacts {
        entity1: alien,
        entity2: hand,
        body_entity1: None,
        body_entity2: None,
        manifolds: Vec::new(),
        is_sensor: true,
        during_current_frame: true,
        during_previous_frame: true,
        total_normal_impulse: 0.0,
        total_tangent_impulse: Vector2::ZERO,
    });
    assert_eq!(arena.tick_collisions(400 * MS, &collisions), Vec::new());
    assert_eq!(arena.tick_collisions(100 * MS, &collisions), Vec::new());
    assert_eq!(arena.health(alien.to_bits()).unwrap().current(), 1);
    assert_eq!(arena.tick_collisions(100 * MS, &collisions), vec![DeathEvent(alien.to_bits())]);
    assert!(arena.health(alien.to_bits()).is_none());
    assert_eq!(arena.tick_collisions(100 * MS, &collisions), Vec::new());
}
