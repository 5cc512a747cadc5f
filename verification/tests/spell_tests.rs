use wizard_survivors::spells::{
    cast_ready_spells, hit_event, pick_up_spell, thorn_lifetime, BleedTimers, CircleHitCounter,
    SpellHit, SpellPickup, SpellSlot, SpellType, ThornRemoval,
};
use wizard_survivors::timer::{GameTimer, TimerMode};

#[test]
fn picking_up_owned_spell_upgrades_first_copy() {
    let owned = vec![(5, SpellType::Thorn), (6, SpellType::Orb), (7, SpellType::Orb)];
    assert_eq!(pick_up_spell(&owned, SpellType::Orb), SpellPickup::Upgrade(6));
    assert_eq!(pick_up_spell(&owned, SpellType::Fireball), SpellPickup::Add(SpellType::Fireball));
    assert_eq!(pick_up_spell(&Vec::new(), SpellType::Scale), SpellPickup::Add(SpellType::Scale));
}

#[test]
fn all_spells_listed() {
    assert_eq!(
        SpellType::all(),
        vec![SpellType::Scale, SpellType::Fireball, SpellType::Lightning, SpellType::Orb, SpellType::Thorn]
    );
}

fn finished_once(d: u64) -> GameTimer {
    let mut t = GameTimer::new(d, TimerMode::Once);
    t.tick(d);
    t
}

#[test]
fn ready_spells_are_cast_in_order_and_reset() {
    let mut half = GameTimer::new(100, TimerMode::Once);
    half.tick(50);
    let mut slots = vec![
        SpellSlot { spell: SpellType::Orb, cooldown: finished_once(100) },
        SpellSlot { spell: SpellType::Thorn, cooldown: half },
        SpellSlot { spell: SpellType::Scale, cooldown: finished_once(30) },
    ];
    let cast = cast_ready_spells(&mut slots);
    assert_eq!(cast, vec![SpellType::Orb, SpellType::Scale]);
    assert_eq!(slots[0].cooldown, GameTimer::new(100, TimerMode::Once));
    assert_eq!(slots[1].cooldown, half);
    assert_eq!(slots[2].cooldown, GameTimer::new(30, TimerMode::Once));
    assert!(cast_ready_spells(&mut slots).is_empty());
}

#[test]
fn circle_tints_then_despawns() {
    let mut c = CircleHitCounter { hits: 0, max_hits: 5 };
    let mut tints = Vec::new();
    let mut despawns = Vec::new();
    for _ in 0..7 {
        let h = c.record_hit();
        tints.push(h.tint);
        despawns.push(h.despawn);
    }
    assert_eq!(tints, vec![Some(1), Some(2), Some(3), Some(4), Some(5), None, None]);
    assert_eq!(despawns, vec![false, false, false, false, true, true, true]);
    assert_eq!(c.hits, 7);
}

#[test]
fn thorn_retracts_last_segment_first() {
    let mut segments = 3;
    let mut timer = finished_once(100);
    assert_eq!(thorn_lifetime(&mut segments, &mut timer, Some(3)), Some(ThornRemoval::Segment(2)));
    assert_eq!(segments, 2);
    assert!(!timer.is_finished());
    assert_eq!(thorn_lifetime(&mut segments, &mut timer, Some(2)), None);
    timer.tick(100);
    assert_eq!(thorn_lifetime(&mut segments, &mut timer, Some(2)), Some(ThornRemoval::Segment(1)));
    timer.tick(100);
    assert_eq!(thorn_lifetime(&mut segments, &mut timer, None), Some(ThornRemoval::Tip));
    assert_eq!(segments, 1);
}

#[test]
fn only_scale_and_fireball_raise_hits() {
    assert_eq!(hit_event(SpellType::Scale), Some(SpellHit::Scale));
    assert_eq!(hit_event(SpellType::Fireball), Some(SpellHit::Fireball));
    assert_eq!(hit_event(SpellType::Orb), None);
    assert_eq!(hit_event(SpellType::Lightning), None);
    assert_eq!(hit_event(SpellType::Thorn), None);
}

#[test]
fn bleed_ticks_until_expired() {
    let mut b = BleedTimers {
        duration: GameTimer::new(300, TimerMode::Once),
        tick: GameTimer::new(100, TimerMode::Once),
    };
    let mut damage = 0;
    let mut expired_at = 0;
    for step in 1..=5 {
        let s = b.step(100);
        if s.deal_damage {
            damage += 1;
        }
        if s.expired {
            expired_at = step;
            break;
        }
    }
    assert_eq!(damage, 3);
    assert_eq!(expired_at, 3);
}

use wizard_survivors::spells::lightning_chain;

fn nearest_on_line(source: u64) -> Vec<u64> {
    // Enemies 1..=5 stand on a line at their own number; the caster (0) at 0.
    // Range 2.5: list the enemies within range of the source, nearest first.
    let mut v: Vec<(u64, u64)> = (1..=5u64)
        .filter(|&e| (e as i64 - source as i64).abs() as f32 <= 2.5)
        .map(|e| ((e as i64 - source as i64).unsigned_abs(), e))
        .collect();
    v.sort();
    v.into_iter().map(|(_, e)| e).collect()
}

#[test]
fn chain_jumps_to_nearest_new_enemy() {
    let hits = lightning_chain(0, 3, nearest_on_line);
    assert_eq!(hits, vec![1, 2, 3]);
}

#[test]
fn chain_never_rehits_and_stops_when_out_of_targets() {
    let hits = lightning_chain(0, 10, nearest_on_line);
    assert_eq!(hits, vec![1, 2, 3, 4, 5]);
    let lonely = lightning_chain(0, 3, |_| Vec::new());
    assert!(lonely.is_empty());
    let back_and_forth = lightning_chain(0, 4, |s| if s == 7 { vec![8] } else { vec![7, 8] });
    assert_eq!(back_and_forth, vec![7, 8]);
}

#[test]
fn chain_without_jumps_hits_nothing() {
    assert!(lightning_chain(0, 0, nearest_on_line).is_empty());
    assert!(lightning_chain(0, -2, nearest_on_line).is_empty());
}
