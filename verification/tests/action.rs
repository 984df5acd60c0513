use combat_core::action::{AttackState, AttackType, CombatAction, PhaseChange, PhaseTransition};
use combat_core::error::ConfigurationError;

const MS: u64 = 1_000_000;

fn light() -> CombatAction {
    CombatAction::new(AttackType::Light, 200_000_000, 100_000_000, 450_000_000, 2).unwrap()
}

fn stay(hit_window: bool) -> PhaseTransition {
    PhaseTransition { change: PhaseChange::Stay, hit_window }
}

#[test]
fn new_action_is_an_idle_template() {
    let action = light();
    assert_eq!(action.attack_type(), AttackType::Light);
    assert_eq!(action.attack_state(), AttackState::Idle);
    assert_eq!(action.windup(), 200 * MS);
    assert_eq!(action.attack_time(), 100 * MS);
    assert_eq!(action.cooldown(), 450 * MS);
    assert_eq!(action.damage(), 2);
    assert_eq!(action.combat_timer().duration(), 0);
    assert_eq!(action.combat_timer().elapsed(), 0);
}

#[test]
fn new_action_refuses_a_negative_windup() {
    let made = CombatAction::new(AttackType::Light, -1, 100, 100, 2);
    assert_eq!(made.err(), Some(ConfigurationError::NegativeDuration));
}

#[test]
fn new_action_refuses_a_negative_attack_time() {
    let made = CombatAction::new(AttackType::Heavy, 100, -5, 100, 2);
    assert_eq!(made.err(), Some(ConfigurationError::NegativeDuration));
}

#[test]
fn new_action_refuses_a_negative_cooldown() {
    let made = CombatAction::new(AttackType::Heavy, 100, 5, i64::MIN, 2);
    assert_eq!(made.err(), Some(ConfigurationError::NegativeDuration));
}

#[test]
fn new_action_takes_zero_and_the_largest_durations() {
    let action = CombatAction::new(AttackType::Heavy, 0, i64::MAX, 0, -7).unwrap();
    assert_eq!(action.windup(), 0);
    assert_eq!(action.attack_time(), i64::MAX as u64);
    assert_eq!(action.damage(), -7);
}

#[test]
fn started_action_is_in_windup_with_a_fresh_timer() {
    let action = light().started();
    assert_eq!(action.attack_state(), AttackState::Windup);
    assert_eq!(action.combat_timer().duration(), 200 * MS);
    assert_eq!(action.combat_timer().elapsed(), 0);
    assert_eq!(action.damage(), 2);
    assert_eq!(action.attack_type(), AttackType::Light);
}

#[test]
fn light_attack_runs_through_its_phases() {
    let mut action = light().started();
    let first = action.advance(200 * MS);
    assert_eq!(first, PhaseTransition { change: PhaseChange::EnterAttack, hit_window: false });
    assert_eq!(action.attack_state(), AttackState::Attack);
    assert_eq!(action.combat_timer().duration(), 100 * MS);
    assert_eq!(action.combat_timer().elapsed(), 0);

    let second = action.advance(100 * MS);
    assert_eq!(second, PhaseTransition { change: PhaseChange::EnterCooldown, hit_window: true });
    assert_eq!(action.attack_state(), AttackState::Cooldown);
    assert_eq!(action.combat_timer().duration(), 450 * MS);
    assert_eq!(action.combat_timer().elapsed(), 0);

    let third = action.advance(450 * MS);
    assert_eq!(third, PhaseTransition { change: PhaseChange::Remove, hit_window: false });
    assert_eq!(action.attack_state(), AttackState::Idle);
}

#[test]
fn advance_short_of_the_end_keeps_the_phase() {
    let mut action = light().started();
    assert_eq!(action.advance(199 * MS), stay(false));
    assert_eq!(action.attack_state(), AttackState::Windup);
    assert_eq!(action.combat_timer().elapsed(), 199 * MS);
    assert_eq!(action.advance(MS - 1), stay(false));
    assert_eq!(action.attack_state(), AttackState::Windup);
    assert_eq!(action.advance(1).change, PhaseChange::EnterAttack);
}

#[test]
fn hit_window_is_open_on_every_tick_that_begins_in_attack() {
    let mut action = light().started();
    assert!(!action.advance(200 * MS).hit_window);
    assert_eq!(action.advance(30 * MS), stay(true));
    assert_eq!(action.advance(30 * MS), stay(true));
    assert_eq!(action.advance(30 * MS), stay(true));
    let last = action.advance(30 * MS);
    assert_eq!(last, PhaseTransition { change: PhaseChange::EnterCooldown, hit_window: true });
    assert_eq!(action.advance(30 * MS), stay(false));
}

#[test]
fn overshoot_is_not_carried_into_the_next_phase() {
    let mut action = light().started();
    assert_eq!(action.advance(10_000 * MS).change, PhaseChange::EnterAttack);
    assert_eq!(action.attack_state(), AttackState::Attack);
    assert_eq!(action.combat_timer().elapsed(), 0);
    assert_eq!(action.advance(99 * MS), stay(true));
}

#[test]
fn idle_action_asks_to_be_removed_and_does_not_change() {
    let mut action = light();
    let transition = action.advance(5 * MS);
    assert_eq!(transition, PhaseTransition { change: PhaseChange::Remove, hit_window: false });
    assert_eq!(action.attack_state(), AttackState::Idle);
    assert_eq!(action.combat_timer().elapsed(), 0);
    assert_eq!(action.combat_timer().duration(), 0);
}

#[test]
fn finished_action_keeps_asking_to_be_removed() {
    let mut action = light().started();
    action.advance(200 * MS);
    action.advance(100 * MS);
    action.advance(450 * MS);
    assert_eq!(action.advance(1).change, PhaseChange::Remove);
    assert_eq!(action.advance(0).change, PhaseChange::Remove);
    assert_eq!(action.attack_state(), AttackState::Idle);
}

#[test]
fn zero_tick_does_not_move_a_running_phase() {
    let mut action = light().started();
    assert_eq!(action.advance(0), stay(false));
    assert_eq!(action.combat_timer().elapsed(), 0);
}

#[test]
fn phases_of_no_duration_take_one_tick_each() {
    let mut action = CombatAction::new(AttackType::Heavy, 0, 0, 0, 9).unwrap().started();
    assert_eq!(action.advance(0).change, PhaseChange::EnterAttack);
    let second = action.advance(0);
    assert_eq!(second, PhaseTransition { change: PhaseChange::EnterCooldown, hit_window: true });
    assert_eq!(action.advance(0).change, PhaseChange::Remove);
}

#[test]
fn phases_come_in_order_under_small_ticks() {
    let mut action = light().started();
    let mut seen = vec![action.attack_state()];
    let mut ticks = 0;
    while action.attack_state() != AttackState::Idle {
        action.advance(7 * MS);
        ticks += 1;
        if *seen.last().unwrap() != action.attack_state() {
            seen.push(action.attack_state());
        }
        assert!(ticks < 1000);
    }
    assert_eq!(
        seen,
        vec![AttackState::Windup, AttackState::Attack, AttackState::Cooldown, AttackState::Idle]
    );
}

#[test]
fn ticks_add_up_to_the_three_durations_within_a_tick_each() {
    let step = 16_666_667u64;
    let mut action = light().started();
    let mut ticks = 0u64;
    while action.advance(step).change != PhaseChange::Remove {
        ticks += 1;
    }
    ticks += 1;
    // 12 ticks of windup, 6 of attack, 27 of cooldown.
    assert_eq!(ticks, 45);
    let total = ticks * step;
    assert!(total >= 750 * MS);
    assert!(total <= 750 * MS + 3 * step);
}

#[test]
fn ticks_that_divide_the_durations_lose_nothing() {
    let step = 50 * MS;
    let mut action = light().started();
    let mut ticks = 0u64;
    while action.advance(step).change != PhaseChange::Remove {
        ticks += 1;
    }
    ticks += 1;
    assert_eq!(ticks * step, 750 * MS);
}

#[test]
fn default_state_is_idle() {
    assert_eq!(AttackState::default(), AttackState::Idle);
}
