//! Sprite animation state: the player's idle/walk cycle and the frame
//! stepping of simple looping or one-shot sprite animations.

use vstd::prelude::*;

use crate::timer::{GameTimer, TimerMode};

verus! {

/// Whether the player stands still or walks.
#[derive(Clone, Copy, Debug, PartialEq, Eq, Structural)]
pub enum PlayerAnimationState {
    Idling,
    Walking,
}

/// Number of idle frames in the player's sheet.
pub const IDLE_FRAMES: usize = 5;

/// Nanoseconds each idle frame is shown (200 ms).
pub const IDLE_INTERVAL: u64 = 200_000_000;

/// Number of walking frames in the player's sheet.
pub const WALKING_FRAMES: usize = 5;

/// Nanoseconds each walking frame is shown (120 ms).
pub const WALKING_INTERVAL: u64 = 120_000_000;

/// Column where the walking frames start in the player's sheet.
pub const WALKING_FIRST_INDEX: usize = 6;

/// Number of columns of the player's sprite sheet.
pub const SHEET_COLUMNS: usize = 11;

/// Number of frames of the cycle played in `state`.
pub open spec fn frame_count(state: PlayerAnimationState) -> nat {
    match state {
        PlayerAnimationState::Idling => IDLE_FRAMES as nat,
        PlayerAnimationState::Walking => WALKING_FRAMES as nat,
    }
}

/// How long each frame of the cycle played in `state` is shown.
pub open spec fn frame_interval(state: PlayerAnimationState) -> u64 {
    match state {
        PlayerAnimationState::Idling => IDLE_INTERVAL,
        PlayerAnimationState::Walking => WALKING_INTERVAL,
    }
}

/// Index in the sprite sheet of `frame` of the cycle played in `state`.
pub open spec fn atlas_index(state: PlayerAnimationState, frame: nat) -> nat {
    match state {
        PlayerAnimationState::Walking => frame + WALKING_FIRST_INDEX as nat,
        PlayerAnimationState::Idling => frame,
    }
}

/// What a `PlayerAnimation` holds, as the contracts see it.
pub struct AnimationView {
    pub state: PlayerAnimationState,
    pub frame: nat,
    pub timer: GameTimer,
}

/// Tracks the player's animation cycle, frame and frame timer.
pub struct PlayerAnimation {
    timer: GameTimer,
    frame: usize,
    state: PlayerAnimationState,
}

impl View for PlayerAnimation {
    type V = AnimationView;

    closed spec fn view(&self) -> AnimationView {
        AnimationView { state: self.state, frame: self.frame as nat, timer: self.timer }
    }
}

/// The start of the cycle played in `state`: first frame, fresh repeating
/// timer of that cycle's frame interval.
pub open spec fn cycle_start(state: PlayerAnimationState) -> AnimationView {
    AnimationView {
        state,
        frame: 0,
        timer: GameTimer::fresh(frame_interval(state), TimerMode::Repeating),
    }
}

impl PlayerAnimation {
    /// The frame lies in the current cycle and the timer is the cycle's
    /// repeating frame timer.
    pub open spec fn wf(&self) -> bool {
        &&& self@.frame < frame_count(self@.state)
        &&& self@.timer.mode == TimerMode::Repeating
        &&& self@.timer.duration == frame_interval(self@.state)
    }

    /// Returns the sprite index in the atlas.
    pub fn get_atlas_index(&self) -> (i: usize)
        requires
            self.wf(),
        ensures
            i == atlas_index(self@.state, self@.frame),
    {
        match self.state {
            PlayerAnimationState::Walking => self.frame + WALKING_FIRST_INDEX,
            PlayerAnimationState::Idling => self.frame,
        }
    }

    fn idling() -> (a: PlayerAnimation)
        ensures
            a@ == cycle_start(PlayerAnimationState::Idling),
            a.wf(),
    {
        PlayerAnimation {
            timer: GameTimer::new(IDLE_INTERVAL, TimerMode::Repeating),
            frame: 0,
            state: PlayerAnimationState::Idling,
        }
    }

    fn walking() -> (a: PlayerAnimation)
        ensures
            a@ == cycle_start(PlayerAnimationState::Walking),
            a.wf(),
    {
        PlayerAnimation {
            timer: GameTimer::new(WALKING_INTERVAL, TimerMode::Repeating),
            frame: 0,
            state: PlayerAnimationState::Walking,
        }
    }

    /// A new animation starts idling.
    pub fn new() -> (a: PlayerAnimation)
        ensures
            a@ == cycle_start(PlayerAnimationState::Idling),
            a.wf(),
    {
        Self::idling()
    }

    /// Advances the frame timer by `delta` nanoseconds; when the timer
    /// finishes the cycle moves on to its next frame.
    pub fn update_timer(&mut self, delta: u64)
        requires
            old(self).wf(),
        ensures
            final(self).wf(),
            final(self)@.state == old(self)@.state,
            final(self)@.timer == old(self)@.timer.ticked(delta as nat),
            final(self)@.frame == if final(self)@.timer.finished {
                (old(self)@.frame + 1) % frame_count(old(self)@.state)
            } else {
                old(self)@.frame
            },
    {
        self.timer.tick(delta);
        if !self.timer.is_finished() {
            return;
        }
        let count = match self.state {
            PlayerAnimationState::Idling => IDLE_FRAMES,
            PlayerAnimationState::Walking => WALKING_FRAMES,
        };
        self.frame = (self.frame + 1) % count;
    }

    /// Switches to the cycle of `state` if it differs from the current one.
    pub fn update_state(&mut self, state: PlayerAnimationState)
        requires
            old(self).wf(),
        ensures
            final(self).wf(),
            state == old(self)@.state ==> final(self)@ == old(self)@,
            state != old(self)@.state ==> final(self)@ == cycle_start(state),
    {
        if self.state != state {
            match state {
                PlayerAnimationState::Idling => *self = Self::idling(),
                PlayerAnimationState::Walking => *self = Self::walking(),
            }
        }
    }

    /// Whether the animation changed frame this tick.
    pub fn changed(&self) -> (b: bool)
        ensures
            b == self@.timer.finished,
    {
        self.timer.is_finished()
    }

    /// The current cycle.
    pub fn state(&self) -> (s: PlayerAnimationState)
        ensures
            s == self@.state,
    {
        self.state
    }

    /// The current frame of the cycle.
    pub fn frame(&self) -> (f: usize)
        ensures
            f == self@.frame,
    {
        self.frame
    }

    /// Whether a footstep sound is due: the player walks and the animation
    /// just entered the first or the fourth walking frame.
    pub fn step_sound_due(&self) -> (b: bool)
        ensures
            b == (self@.state == PlayerAnimationState::Walking && self@.timer.finished && (
            self@.frame == 0 || self@.frame == 3)),
    {
        self.state == PlayerAnimationState::Walking && self.changed() && (self.frame == 0
            || self.frame == 3)
    }
}

/// The sprite index of a well-formed player animation lies in the sheet: idle
/// frames in the first five columns, walking frames in the last five.
pub proof fn lemma_atlas_index_in_sheet(a: &PlayerAnimation)
    requires
        a.wf(),
    ensures
        atlas_index(a@.state, a@.frame) < SHEET_COLUMNS,
        a@.state == PlayerAnimationState::Idling ==> atlas_index(a@.state, a@.frame)
            < IDLE_FRAMES,
        a@.state == PlayerAnimationState::Walking ==> WALKING_FIRST_INDEX <= atlas_index(
            a@.state,
            a@.frame,
        ),
{
}

/// First and last sprite index of a simple sprite animation.
#[derive(Clone, Copy, Debug, PartialEq, Eq, Structural)]
pub struct AnimationIndices {
    pub first: usize,
    pub last: usize,
}

/// What a sprite animation does at its last frame.
#[derive(Clone, Copy, Debug, PartialEq, Eq, Structural)]
pub enum AnimationPlayback {
    /// Starts over at the first frame.
    Loop,
    /// Removes the sprite.
    OnceDespawn,
}

impl Default for AnimationPlayback {
    /// Animations loop unless told otherwise.
    fn default() -> (p: AnimationPlayback)
        ensures
            p == AnimationPlayback::Loop,
    {
        AnimationPlayback::Loop
    }
}

/// What happens to a sprite whose frame timer just finished.
#[derive(Clone, Copy, Debug, PartialEq, Eq, Structural)]
pub enum AnimationStep {
    /// Show this sprite index next.
    Show(usize),
    /// Remove the sprite.
    Despawn,
}

/// The step of a sprite animation that shows `index` when its frame timer
/// finishes.
pub open spec fn spec_next_frame(
    index: usize,
    indices: AnimationIndices,
    playback: AnimationPlayback,
) -> AnimationStep {
    if index >= indices.last {
        match playback {
            AnimationPlayback::Loop => AnimationStep::Show(indices.first),
            AnimationPlayback::OnceDespawn => AnimationStep::Despawn,
        }
    } else {
        AnimationStep::Show((index + 1) as usize)
    }
}

/// The next step of a sprite animation currently showing `index`: the
/// following index, or at (or past) the last index either the first index
/// again or removal.
pub fn next_frame(index: usize, indices: AnimationIndices, playback: AnimationPlayback) -> (s:
    AnimationStep)
    ensures
        s == spec_next_frame(index, indices, playback),
        index < indices.last ==> s == AnimationStep::Show((index + 1) as usize),
        index >= indices.last && playback == AnimationPlayback::Loop ==> s == AnimationStep::Show(
            indices.first,
        ),
        index >= indices.last && playback == AnimationPlayback::OnceDespawn ==> s
            == AnimationStep::Despawn,
{
    if index >= indices.last {
        match playback {
            AnimationPlayback::Loop => AnimationStep::Show(indices.first),
            AnimationPlayback::OnceDespawn => AnimationStep::Despawn,
        }
    } else {
        AnimationStep::Show(index + 1)
    }
}

/// Below its last index an animation always moves on to the following
/// index, the same for looping and one-shot playback, so every index up to
/// the last is shown; only from the last index (or past it) does a looping
/// animation go back to its first index and a one-shot one end.
pub proof fn lemma_next_frame_advances(index: usize, indices: AnimationIndices)
    ensures
        index < indices.last ==> spec_next_frame(index, indices, AnimationPlayback::Loop)
            == AnimationStep::Show((index + 1) as usize),
        index < indices.last ==> spec_next_frame(index, indices, AnimationPlayback::OnceDespawn)
            == AnimationStep::Show((index + 1) as usize),
        index >= indices.last ==> spec_next_frame(index, indices, AnimationPlayback::Loop)
            == AnimationStep::Show(indices.first),
        index >= indices.last ==> spec_next_frame(
            index,
            indices,
            AnimationPlayback::OnceDespawn,
        ) == AnimationStep::Despawn,
{
}

/// A looping animation that shows an index between its first and last index
/// keeps showing one.
pub proof fn lemma_loop_stays_in_range(index: usize, indices: AnimationIndices)
    requires
        indices.first <= index <= indices.last,
    ensures
        spec_next_frame(index, indices, AnimationPlayback::Loop) matches AnimationStep::Show(
            n,
        ) && indices.first <= n <= indices.last,
{
}

/// A one-shot animation started at its first index is removed after exactly
/// `last - first + 1` frame steps, never earlier.
pub proof fn lemma_once_despawns_at_last(index: usize, indices: AnimationIndices)
    requires
        indices.first <= index,
    ensures
        (spec_next_frame(index, indices, AnimationPlayback::OnceDespawn) == AnimationStep::Despawn)
            <==> index >= indices.last,
{
}

} // verus!
