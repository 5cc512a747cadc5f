use wizard_survivors::experience::{gain_xp, level_up, xp_needed};

#[test]
fn xp_needed_grows_with_square_of_level() {
    assert_eq!(xp_needed(0), 0);
    assert_eq!(xp_needed(1), 100);
    assert_eq!(xp_needed(3), 900);
    assert_eq!(xp_needed(6553), 4_294_180_900);
}

#[test]
fn gain_below_threshold_accumulates() {
    let mut xp = 40;
    assert!(!gain_xp(1, &mut xp, 50));
    assert_eq!(xp, 90);
}

#[test]
fn reaching_threshold_levels_up_and_resets() {
    let mut xp = 90;
    assert!(gain_xp(1, &mut xp, 10));
    assert_eq!(xp, 0);
    let mut xp2 = 90;
    assert!(gain_xp(1, &mut xp2, 35));
    assert_eq!(xp2, 0);
}

#[test]
fn gems_needed_is_ceiling_of_threshold_over_gain() {
    // Level 2 needs 400; gems of 30 need ceil(400 / 30) = 14 gems.
    let mut xp = 0;
    let mut gems = 0;
    loop {
        gems += 1;
        if gain_xp(2, &mut xp, 30) {
            break;
        }
    }
    assert_eq!(gems, 14);
}

#[test]
fn level_up_adds_one() {
    let mut level = 1;
    level_up(&mut level);
    assert_eq!(level, 2);
}
