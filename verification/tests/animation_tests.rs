use wizard_survivors::animation::{
    next_frame, AnimationIndices, AnimationPlayback, AnimationStep, PlayerAnimation,
    PlayerAnimationState, IDLE_INTERVAL, WALKING_INTERVAL,
};

#[test]
fn new_animation_idles_at_first_frame() {
    let a = PlayerAnimation::new();
    assert_eq!(a.state(), PlayerAnimationState::Idling);
    assert_eq!(a.frame(), 0);
    assert_eq!(a.get_atlas_index(), 0);
    assert!(!a.changed());
}

#[test]
fn idle_cycle_advances_and_wraps() {
    let mut a = PlayerAnimation::new();
    a.update_timer(IDLE_INTERVAL / 2);
    assert_eq!(a.frame(), 0);
    assert!(!a.changed());
    a.update_timer(IDLE_INTERVAL / 2);
    assert_eq!(a.frame(), 1);
    assert!(a.changed());
    for _ in 0..4 {
        a.update_timer(IDLE_INTERVAL);
    }
    assert_eq!(a.frame(), 0);
    assert_eq!(a.get_atlas_index(), 0);
}

#[test]
fn walking_uses_second_half_of_sheet() {
    let mut a = PlayerAnimation::new();
    a.update_state(PlayerAnimationState::Walking);
    assert_eq!(a.state(), PlayerAnimationState::Walking);
    assert_eq!(a.get_atlas_index(), 6);
    a.update_timer(WALKING_INTERVAL);
    a.update_timer(WALKING_INTERVAL);
    assert_eq!(a.frame(), 2);
    assert_eq!(a.get_atlas_index(), 8);
    for _ in 0..3 {
        a.update_timer(WALKING_INTERVAL);
    }
    assert_eq!(a.frame(), 0);
    assert_eq!(a.get_atlas_index(), 6);
}

#[test]
fn same_state_keeps_frame_other_state_restarts() {
    let mut a = PlayerAnimation::new();
    a.update_timer(IDLE_INTERVAL);
    a.update_timer(IDLE_INTERVAL);
    assert_eq!(a.frame(), 2);
    a.update_state(PlayerAnimationState::Idling);
    assert_eq!(a.frame(), 2);
    a.update_state(PlayerAnimationState::Walking);
    assert_eq!(a.frame(), 0);
    a.update_state(PlayerAnimationState::Idling);
    assert_eq!(a.frame(), 0);
    assert_eq!(a.state(), PlayerAnimationState::Idling);
}

#[test]
fn step_sound_on_first_and_fourth_walking_frame() {
    let mut a = PlayerAnimation::new();
    assert!(!a.step_sound_due());
    a.update_state(PlayerAnimationState::Walking);
    let mut due = Vec::new();
    for _ in 0..5 {
        a.update_timer(WALKING_INTERVAL);
        due.push((a.frame(), a.step_sound_due()));
    }
    assert_eq!(due, vec![(1, false), (2, false), (3, true), (4, false), (0, true)]);
    a.update_timer(1);
    assert!(!a.step_sound_due());
}

#[test]
fn idle_frames_never_play_steps() {
    let mut a = PlayerAnimation::new();
    for _ in 0..5 {
        a.update_timer(IDLE_INTERVAL);
        assert!(!a.step_sound_due());
    }
}

#[test]
fn looping_sprite_goes_back_to_first() {
    let indices = AnimationIndices { first: 2, last: 5 };
    assert_eq!(next_frame(2, indices, AnimationPlayback::Loop), AnimationStep::Show(3));
    assert_eq!(next_frame(5, indices, AnimationPlayback::Loop), AnimationStep::Show(2));
    assert_eq!(next_frame(9, indices, AnimationPlayback::Loop), AnimationStep::Show(2));
}

#[test]
fn one_shot_sprite_despawns_at_last() {
    let indices = AnimationIndices { first: 0, last: 7 };
    assert_eq!(next_frame(6, indices, AnimationPlayback::OnceDespawn), AnimationStep::Show(7));
    assert_eq!(next_frame(7, indices, AnimationPlayback::OnceDespawn), AnimationStep::Despawn);
    assert_eq!(AnimationPlayback::default(), AnimationPlayback::Loop);
}

#[test]
fn one_shot_sprite_lives_last_minus_first_plus_one_steps() {
    let indices = AnimationIndices { first: 0, last: 3 };
    let mut index = indices.first;
    let mut steps = 0;
    loop {
        steps += 1;
        match next_frame(index, indices, AnimationPlayback::OnceDespawn) {
            AnimationStep::Show(n) => index = n,
            AnimationStep::Despawn => break,
        }
    }
    assert_eq!(steps, 4);
}
