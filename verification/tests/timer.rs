use combat_core::timer::CombatTimer;

#[test]
fn fresh_timer_has_nothing_elapsed() {
    let timer = CombatTimer::new(200_000_000);
    assert_eq!(timer.duration(), 200_000_000);
    assert_eq!(timer.elapsed(), 0);
    assert_eq!(timer.remaining(), 200_000_000);
    assert!(!timer.finished());
}

#[test]
fn tick_adds_the_delta() {
    let mut timer = CombatTimer::new(200_000_000);
    timer.tick(50_000_000);
    assert_eq!(timer.elapsed(), 50_000_000);
    assert_eq!(timer.remaining(), 150_000_000);
    assert!(!timer.finished());
    timer.tick(100_000_000);
    assert_eq!(timer.elapsed(), 150_000_000);
}

#[test]
fn tick_stops_at_the_duration() {
    let mut timer = CombatTimer::new(200_000_000);
    timer.tick(150_000_000);
    timer.tick(150_000_000);
    assert_eq!(timer.elapsed(), 200_000_000);
    assert!(timer.finished());
    timer.tick(1);
    assert_eq!(timer.elapsed(), 200_000_000);
    assert!(timer.finished());
}

#[test]
fn tick_reaching_the_duration_exactly_finishes() {
    let mut timer = CombatTimer::new(100);
    timer.tick(99);
    assert!(!timer.finished());
    timer.tick(1);
    assert!(timer.finished());
    assert_eq!(timer.remaining(), 0);
}

#[test]
fn tick_with_the_largest_values_does_not_wrap() {
    let mut timer = CombatTimer::new(u64::MAX);
    timer.tick(u64::MAX - 1);
    assert_eq!(timer.elapsed(), u64::MAX - 1);
    timer.tick(u64::MAX);
    assert_eq!(timer.elapsed(), u64::MAX);
    assert!(timer.finished());
}

#[test]
fn zero_tick_changes_nothing() {
    let mut timer = CombatTimer::new(10);
    timer.tick(4);
    timer.tick(0);
    assert_eq!(timer.elapsed(), 4);
}

#[test]
fn default_timer_is_finished_at_once() {
    let timer = CombatTimer::default();
    assert_eq!(timer.duration(), 0);
    assert!(timer.finished());
}

#[test]
fn reset_starts_over() {
    let mut timer = CombatTimer::new(10);
    timer.tick(7);
    timer.reset();
    assert_eq!(timer.elapsed(), 0);
    assert_eq!(timer.duration(), 10);
}
