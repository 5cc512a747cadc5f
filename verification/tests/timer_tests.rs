use wizard_survivors::timer::{GameTimer, TimerMode};

#[test]
fn repeating_timer_wraps_and_counts_finishes() {
    let mut t = GameTimer::new(100, TimerMode::Repeating);
    t.tick(250);
    assert_eq!(t.elapsed, 50);
    assert!(t.is_finished());
    assert!(t.just_finished());
    assert_eq!(t.times_finished_this_tick, 2);
    t.tick(20);
    assert_eq!(t.elapsed, 70);
    assert!(!t.is_finished());
    assert!(!t.just_finished());
}

#[test]
fn once_timer_stops_at_duration_and_stays_finished() {
    let mut t = GameTimer::new(100, TimerMode::Once);
    t.tick(30);
    assert_eq!(t.elapsed, 30);
    assert!(!t.is_finished());
    t.tick(250);
    assert_eq!(t.elapsed, 100);
    assert!(t.is_finished());
    assert_eq!(t.times_finished_this_tick, 1);
    t.tick(5);
    assert_eq!(t.elapsed, 100);
    assert!(t.is_finished());
    assert!(!t.just_finished());
}

#[test]
fn zero_duration_repeating_timer() {
    let mut t = GameTimer::new(0, TimerMode::Repeating);
    t.tick(5);
    assert_eq!(t.elapsed, 0);
    assert!(t.is_finished());
    assert_eq!(t.times_finished_this_tick, u32::MAX);
}

#[test]
fn exact_duration_finishes() {
    let mut t = GameTimer::new(1_000, TimerMode::Repeating);
    t.tick(1_000);
    assert!(t.is_finished());
    assert_eq!(t.elapsed, 0);
    assert_eq!(t.times_finished_this_tick, 1);
}

#[test]
fn reset_clears_timer() {
    let mut t = GameTimer::new(100, TimerMode::Once);
    t.tick(150);
    t.reset();
    assert_eq!(t, GameTimer::new(100, TimerMode::Once));
    assert!(!t.is_finished());
}

#[test]
fn split_ticks_match_single_tick() {
    let mut a = GameTimer::new(70, TimerMode::Repeating);
    a.tick(40);
    a.tick(95);
    let mut b = GameTimer::new(70, TimerMode::Repeating);
    b.tick(135);
    assert_eq!(a.elapsed, b.elapsed);

    let mut c = GameTimer::new(70, TimerMode::Once);
    c.tick(40);
    c.tick(95);
    let mut d = GameTimer::new(70, TimerMode::Once);
    d.tick(135);
    assert_eq!(c.elapsed, d.elapsed);
    assert_eq!(c.finished, d.finished);
}

#[test]
fn large_durations_in_nanoseconds() {
    let mut t = GameTimer::new(5_000_000_000, TimerMode::Once);
    t.tick(4_999_999_999);
    assert!(!t.is_finished());
    t.tick(1);
    assert!(t.is_finished());
    assert_eq!(t.elapsed, 5_000_000_000);
}

#[test]
fn finish_count_is_truncated_to_u32() {
    let mut t = GameTimer::new(1, TimerMode::Repeating);
    t.tick((1u64 << 33) + 5);
    assert_eq!(t.elapsed, 0);
    assert!(t.is_finished());
    assert_eq!(t.times_finished_this_tick, 5);
}
