use bevy_rand::prelude::WyRand;
use rand::SeedableRng;
use wizard_survivors::player::{Characters, Overlay};
use wizard_survivors::random::{level_up_offers, step_sound, upgrade_tint, NUMBER_OF_ITEM_CHOICES, UPGRADE_TINTS};

#[test]
fn characters_listed() {
    let all = Characters::all();
    assert_eq!(all, [Characters::Wizzard, Characters::Knight]);
    assert_eq!(Characters::Wizzard.splash_art_path(), "player_wizard_.png");
    assert_eq!(Characters::Knight.splash_art_path(), "player_knight_.png");
    assert_eq!(Characters::Knight.atlas_grid(), (64, 64, 11, 1));
    assert_eq!(Characters::Wizzard.get_idle_indicies(), (0, 5));
    assert_eq!(Characters::Knight.get_idle_indicies(), (0, 4));
}

#[test]
fn overlay_starts_closed() {
    assert_eq!(Overlay::default(), Overlay::Closed);
}

#[test]
fn offers_are_three_valid_kinds() {
    let mut rng = WyRand::seed_from_u64(42);
    for kinds in 1..6 {
        let offers = level_up_offers(&mut rng, kinds);
        assert_eq!(offers.len(), NUMBER_OF_ITEM_CHOICES);
        assert!(offers.iter().all(|&o| o < kinds));
    }
    assert_eq!(level_up_offers(&mut rng, 1), vec![0, 0, 0]);
}

#[test]
fn tints_and_steps_in_range() {
    for _ in 0..50 {
        assert!(upgrade_tint() < UPGRADE_TINTS);
        assert!(step_sound(5) < 5);
    }
    assert_eq!(step_sound(1), 0);
}
