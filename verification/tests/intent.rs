use combat_core::action::{AttackState, AttackType};
use combat_core::intent::{
    attack_for_button, close_in, first_attack_among, npc_attack, npc_attack_on,
    player_attack_trigger, AttackButton, IntentSource, NpcPolicy,
};
use combat_core::manager::{AttackMode, Combatant};
use combat_core::weapon::Weapon;

const MS: u64 = 1_000_000;

fn fresh() -> Combatant {
    Combatant::new(Weapon::default())
}

fn engaged() -> Combatant {
    let mut combatant = fresh();
    combatant.engage();
    combatant
}

#[test]
fn buttons_map_to_attacks() {
    assert_eq!(attack_for_button(AttackButton::Primary), Some(AttackType::Light));
    assert_eq!(attack_for_button(AttackButton::Secondary), Some(AttackType::Heavy));
    assert_eq!(attack_for_button(AttackButton::Other), None);
}

#[test]
fn primary_button_starts_a_light_attack() {
    let mut player = fresh();
    let started = player_attack_trigger(&mut player, &vec![AttackButton::Primary]);
    assert_eq!(started, Some(AttackType::Light));
    let action = player.action().unwrap();
    assert_eq!(action.attack_type(), AttackType::Light);
    assert_eq!(action.attack_state(), AttackState::Windup);
    assert_eq!(action.combat_timer().duration(), 200 * MS);
}

#[test]
fn secondary_button_starts_a_heavy_attack() {
    let mut player = fresh();
    let started = player_attack_trigger(&mut player, &vec![AttackButton::Secondary]);
    assert_eq!(started, Some(AttackType::Heavy));
    assert_eq!(player.action().unwrap().attack_type(), AttackType::Heavy);
}

#[test]
fn other_buttons_start_nothing() {
    let mut player = fresh();
    let started =
        player_attack_trigger(&mut player, &vec![AttackButton::Other, AttackButton::Other]);
    assert_eq!(started, None);
    assert!(!player.in_attack());
}

#[test]
fn no_buttons_start_nothing() {
    let mut player = fresh();
    assert_eq!(player_attack_trigger(&mut player, &Vec::new()), None);
    assert!(!player.in_attack());
}

#[test]
fn first_button_that_asks_for_an_attack_wins() {
    let mut player = fresh();
    let buttons = vec![
        AttackButton::Other,
        AttackButton::Secondary,
        AttackButton::Primary,
        AttackButton::Secondary,
    ];
    assert_eq!(player_attack_trigger(&mut player, &buttons), Some(AttackType::Heavy));
    assert_eq!(player.action().unwrap().attack_type(), AttackType::Heavy);
}

#[test]
fn buttons_are_dropped_while_an_attack_is_in_flight() {
    let mut player = fresh();
    player_attack_trigger(&mut player, &vec![AttackButton::Primary]);
    player.tick(50 * MS);
    let started = player_attack_trigger(&mut player, &vec![AttackButton::Secondary]);
    assert_eq!(started, None);
    let action = player.action().unwrap();
    assert_eq!(action.attack_type(), AttackType::Light);
    assert_eq!(action.combat_timer().elapsed(), 50 * MS);
}

#[test]
fn default_policy_is_always_light() {
    let policy = NpcPolicy::default();
    assert_eq!(policy.light_percent, 100);
    assert_eq!(policy.pick(0), AttackType::Light);
    assert_eq!(policy.pick(99), AttackType::Light);
}

#[test]
fn policy_picks_light_below_its_threshold() {
    let policy = NpcPolicy { light_percent: 30 };
    assert_eq!(policy.pick(0), AttackType::Light);
    assert_eq!(policy.pick(29), AttackType::Light);
    assert_eq!(policy.pick(30), AttackType::Heavy);
    assert_eq!(policy.pick(99), AttackType::Heavy);
}

#[test]
fn npc_outside_attack_mode_does_not_attack() {
    let mut npc = fresh();
    assert_eq!(npc_attack_on(&mut npc, &NpcPolicy::default(), 10), None);
    assert!(!npc.in_attack());
    assert_eq!(npc_attack(&mut npc, &NpcPolicy::default()), None);
    assert!(!npc.in_attack());
}

#[test]
fn npc_in_attack_mode_attacks_on_its_roll() {
    let mut npc = engaged();
    let policy = NpcPolicy { light_percent: 30 };
    assert_eq!(npc_attack_on(&mut npc, &policy, 30), Some(AttackType::Heavy));
    let action = npc.action().unwrap();
    assert_eq!(action.attack_type(), AttackType::Heavy);
    assert_eq!(action.attack_state(), AttackState::Windup);
}

#[test]
fn npc_with_an_attack_in_flight_does_not_attack_again() {
    let mut npc = engaged();
    let policy = NpcPolicy { light_percent: 30 };
    assert_eq!(npc_attack_on(&mut npc, &policy, 0), Some(AttackType::Light));
    npc.tick(10 * MS);
    assert_eq!(npc_attack_on(&mut npc, &policy, 99), None);
    assert_eq!(npc_attack(&mut npc, &policy), None);
    let action = npc.action().unwrap();
    assert_eq!(action.attack_type(), AttackType::Light);
    assert_eq!(action.combat_timer().elapsed(), 10 * MS);
}

#[test]
fn rolled_attack_under_the_default_policy_is_light() {
    for _ in 0..300 {
        let mut npc = engaged();
        assert_eq!(npc_attack(&mut npc, &NpcPolicy::default()), Some(AttackType::Light));
        assert_eq!(npc.action().unwrap().attack_type(), AttackType::Light);
    }
}

#[test]
fn rolled_attack_under_a_heavy_policy_is_heavy() {
    for _ in 0..300 {
        let mut npc = engaged();
        let policy = NpcPolicy { light_percent: 0 };
        assert_eq!(npc_attack(&mut npc, &policy), Some(AttackType::Heavy));
    }
}

#[test]
fn rolled_attack_under_an_even_policy_goes_both_ways() {
    let policy = NpcPolicy { light_percent: 50 };
    let mut light = 0;
    let mut heavy = 0;
    for _ in 0..2000 {
        let mut npc = engaged();
        match npc_attack(&mut npc, &policy) {
            Some(AttackType::Light) => light += 1,
            Some(AttackType::Heavy) => heavy += 1,
            None => panic!("an engaged combatant without an attack must attack"),
        }
    }
    assert_eq!(light + heavy, 2000);
    assert!(light > 0);
    assert!(heavy > 0);
}

#[test]
fn npc_in_reach_engages_and_holds() {
    let mut npc = fresh();
    assert!(!close_in(&mut npc, true));
    assert_eq!(npc.attack_mode(), Some(AttackMode));
}

#[test]
fn npc_out_of_reach_moves_closer() {
    let mut npc = fresh();
    assert!(close_in(&mut npc, false));
    assert_eq!(npc.attack_mode(), None);
}

#[test]
fn npc_that_falls_out_of_reach_stays_in_attack_mode() {
    let mut npc = fresh();
    close_in(&mut npc, true);
    assert!(close_in(&mut npc, false));
    assert_eq!(npc.attack_mode(), Some(AttackMode));
}

#[test]
fn npc_attacks_again_once_it_has_closed_in_again() {
    let mut npc = fresh();
    let policy = NpcPolicy::default();
    close_in(&mut npc, true);
    assert_eq!(npc_attack(&mut npc, &policy), Some(AttackType::Light));
    npc.tick(200 * MS);
    npc.tick(100 * MS);
    npc.tick(450 * MS);
    assert_eq!(npc_attack(&mut npc, &policy), None);
    close_in(&mut npc, true);
    assert_eq!(npc_attack(&mut npc, &policy), Some(AttackType::Light));
}

#[test]
fn first_attack_skips_buttons_that_ask_for_none() {
    assert_eq!(first_attack_among(&Vec::new()), None);
    assert_eq!(first_attack_among(&vec![AttackButton::Other]), None);
    assert_eq!(
        first_attack_among(&vec![AttackButton::Other, AttackButton::Primary]),
        Some(AttackType::Light)
    );
    assert_eq!(
        first_attack_among(&vec![AttackButton::Secondary, AttackButton::Primary]),
        Some(AttackType::Heavy)
    );
}

#[test]
fn player_source_proposes_by_the_buttons() {
    let source = IntentSource::Player(vec![AttackButton::Other, AttackButton::Secondary]);
    assert_eq!(source.propose_on(&fresh(), 0), Some(AttackType::Heavy));
    assert_eq!(source.propose_on(&fresh(), 99), Some(AttackType::Heavy));
    assert_eq!(IntentSource::Player(Vec::new()).propose_on(&fresh(), 0), None);
}

#[test]
fn npc_source_proposes_by_its_policy_once_engaged() {
    let source = IntentSource::Npc(NpcPolicy { light_percent: 10 });
    assert_eq!(source.propose_on(&fresh(), 5), None);
    assert_eq!(source.propose_on(&engaged(), 5), Some(AttackType::Light));
    assert_eq!(source.propose_on(&engaged(), 10), Some(AttackType::Heavy));
}

#[test]
fn no_source_proposes_while_an_attack_is_in_flight() {
    let mut busy = engaged();
    busy.request(AttackType::Light);
    let player = IntentSource::Player(vec![AttackButton::Primary]);
    let npc = IntentSource::Npc(NpcPolicy::default());
    assert_eq!(player.propose_on(&busy, 0), None);
    assert_eq!(npc.propose_on(&busy, 0), None);
    assert_eq!(player.act(&mut busy), None);
    assert_eq!(npc.act(&mut busy), None);
    assert_eq!(busy.action().unwrap().attack_type(), AttackType::Light);
    assert_eq!(busy.action().unwrap().combat_timer().elapsed(), 0);
}

#[test]
fn proposing_does_not_start_the_attack() {
    let combatant = engaged();
    let source = IntentSource::Npc(NpcPolicy::default());
    assert_eq!(source.propose_on(&combatant, 0), Some(AttackType::Light));
    assert!(!combatant.in_attack());
}

#[test]
fn acting_starts_what_was_proposed() {
    let mut player = fresh();
    let source = IntentSource::Player(vec![AttackButton::Secondary]);
    assert_eq!(source.act_on(&mut player, 0), Some(AttackType::Heavy));
    assert_eq!(player.action().unwrap().attack_type(), AttackType::Heavy);
    assert_eq!(player.action().unwrap().attack_state(), AttackState::Windup);

    let mut npc = engaged();
    let source = IntentSource::Npc(NpcPolicy::default());
    assert_eq!(source.act(&mut npc), Some(AttackType::Light));
    assert_eq!(npc.action().unwrap().attack_type(), AttackType::Light);

    let mut idle = fresh();
    assert_eq!(source.act(&mut idle), None);
    assert!(!idle.in_attack());
}
