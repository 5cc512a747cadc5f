use wizard_survivors::enemy::{
    enemy_cooldown_step, halt_action, indicators_of, projectile_hits_player, EnemyAttack,
    EnemyType, HaltAction,
};
use wizard_survivors::timer::{GameTimer, TimerMode};

#[test]
fn shooter_fires_only_when_halted() {
    let mut cd = GameTimer::new(100, TimerMode::Repeating);
    assert_eq!(enemy_cooldown_step(EnemyType::Shooter, &mut cd, 50, true, false), None);
    assert_eq!(cd.elapsed, 50);
    assert_eq!(
        enemy_cooldown_step(EnemyType::Shooter, &mut cd, 50, true, false),
        Some(EnemyAttack::Shoot)
    );
    assert_eq!(cd.elapsed, 0);
    assert!(!cd.is_finished());
    assert_eq!(enemy_cooldown_step(EnemyType::Shooter, &mut cd, 100, false, true), None);
    assert_eq!(cd.elapsed, 0);
}

#[test]
fn sprinter_and_jumper_need_player_in_range() {
    let mut cd = GameTimer::new(10, TimerMode::Once);
    assert_eq!(
        enemy_cooldown_step(EnemyType::Sprinter, &mut cd, 10, false, true),
        Some(EnemyAttack::Charge)
    );
    assert_eq!(enemy_cooldown_step(EnemyType::Sprinter, &mut cd, 10, true, false), None);
    assert_eq!(
        enemy_cooldown_step(EnemyType::Jumper, &mut cd, 10, false, true),
        Some(EnemyAttack::Jump)
    );
    assert_eq!(enemy_cooldown_step(EnemyType::Walker, &mut cd, 10, true, true), None);
    assert_eq!(enemy_cooldown_step(EnemyType::NoType, &mut cd, 10, true, true), None);
}

#[test]
fn halt_with_hysteresis() {
    assert_eq!(halt_action(true, false, false), HaltAction::Halt);
    assert_eq!(halt_action(true, false, true), HaltAction::Keep);
    assert_eq!(halt_action(false, false, true), HaltAction::Keep);
    assert_eq!(halt_action(false, true, true), HaltAction::Resume);
    assert_eq!(halt_action(false, true, false), HaltAction::Keep);
}

#[test]
fn only_shooter_projectiles_hit_player() {
    assert!(projectile_hits_player(EnemyType::Shooter));
    assert!(!projectile_hits_player(EnemyType::Walker));
    assert!(!projectile_hits_player(EnemyType::Jumper));
}

#[test]
fn indicators_of_owner_only() {
    let markers = vec![(100, 1), (101, 2), (102, 1), (103, 3)];
    assert_eq!(indicators_of(&markers, 1), vec![100, 102]);
    assert_eq!(indicators_of(&markers, 3), vec![103]);
    assert!(indicators_of(&markers, 9).is_empty());
}

use wizard_survivors::enemy::{charge_contacts, ChargeStep, Contact, TerrainTimers};

#[test]
fn charge_ends_on_terrain_or_player() {
    let none = charge_contacts(&vec![], false);
    assert_eq!(none, ChargeStep { player_hits: 0, charge_over: false, aborted: false });
    let far = charge_contacts(&vec![], true);
    assert!(far.charge_over);
    let wall = charge_contacts(&vec![Contact::Layers { terrain: true, player: false }], false);
    assert_eq!(wall, ChargeStep { player_hits: 0, charge_over: true, aborted: false });
    let hit = charge_contacts(
        &vec![
            Contact::Layers { terrain: false, player: false },
            Contact::Layers { terrain: false, player: true },
        ],
        false,
    );
    assert_eq!(hit, ChargeStep { player_hits: 1, charge_over: true, aborted: false });
}

#[test]
fn unknown_contact_aborts_the_step() {
    let s = charge_contacts(
        &vec![
            Contact::Layers { terrain: false, player: true },
            Contact::Unknown,
            Contact::Layers { terrain: false, player: true },
        ],
        true,
    );
    assert_eq!(s, ChargeStep { player_hits: 1, charge_over: false, aborted: true });
}

#[test]
fn terrain_hits_player_inside_each_tick_until_gone() {
    let mut t = TerrainTimers {
        duration: GameTimer::new(500, TimerMode::Once),
        tick: GameTimer::new(100, TimerMode::Once),
    };
    let s = t.step(100, false);
    assert!(!s.hit_player && !s.despawn);
    // The tick stays finished while the player is away.
    let s = t.step(100, true);
    assert!(s.hit_player && !s.despawn);
    let s = t.step(50, true);
    assert!(!s.hit_player);
    let s = t.step(250, true);
    assert!(s.hit_player && s.despawn);
}
