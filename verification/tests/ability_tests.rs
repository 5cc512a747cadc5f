use wizard_survivors::abilities::{ability_slot, hud_column, try_use_ability, AbilityCooldown, AbilityKey};
use wizard_survivors::timer::TimerMode;

#[test]
fn cooldown_starts_ready() {
    let c = AbilityCooldown(AbilityCooldown::ready(10_000));
    assert!(c.0.is_finished());
    assert_eq!(c.0.elapsed, 10_000);
    assert_eq!(c.0.mode, TimerMode::Once);
}

#[test]
fn use_then_wait_full_duration() {
    let mut c = AbilityCooldown(AbilityCooldown::ready(10_000));
    assert!(try_use_ability(&mut c));
    assert!(!try_use_ability(&mut c));
    c.0.tick(6_000);
    assert!(!try_use_ability(&mut c));
    c.0.tick(4_000);
    assert!(try_use_ability(&mut c));
    assert_eq!(c.0.elapsed, 0);
}

#[test]
fn failed_use_changes_nothing() {
    let mut c = AbilityCooldown(AbilityCooldown::ready(10_000));
    assert!(try_use_ability(&mut c));
    c.0.tick(3);
    let before = c;
    assert!(!try_use_ability(&mut c));
    assert_eq!(c, before);
}

#[test]
fn slots_prefer_q_then_e_then_r() {
    assert_eq!(ability_slot(true, true, true), Some(AbilityKey::Q));
    assert_eq!(ability_slot(false, true, true), Some(AbilityKey::E));
    assert_eq!(ability_slot(false, false, true), Some(AbilityKey::R));
    assert_eq!(ability_slot(false, false, false), None);
}

#[test]
fn hud_columns() {
    assert_eq!(hud_column(AbilityKey::Q), 1);
    assert_eq!(hud_column(AbilityKey::E), 4);
    assert_eq!(hud_column(AbilityKey::R), 7);
}

use wizard_survivors::abilities::summon_picks;
use wizard_survivors::enemy::EnemyType;

#[test]
fn summon_takes_three_nearest_walkers() {
    let enemies = vec![
        (1, EnemyType::Shooter),
        (2, EnemyType::Walker),
        (3, EnemyType::Walker),
        (4, EnemyType::Sprinter),
        (5, EnemyType::Walker),
        (6, EnemyType::Walker),
    ];
    assert_eq!(summon_picks(&enemies), vec![(2, 0), (3, 1), (5, 2)]);
}

#[test]
fn summon_with_few_walkers() {
    let enemies = vec![(1, EnemyType::Jumper), (9, EnemyType::Walker)];
    assert_eq!(summon_picks(&enemies), vec![(9, 0)]);
    assert!(summon_picks(&vec![(1, EnemyType::Shooter)]).is_empty());
}
