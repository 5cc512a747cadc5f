//! Playable characters and the overlay state shown over gameplay.

use vstd::prelude::*;

verus! {

/// The different playable characters.
#[derive(Clone, Copy, Debug, PartialEq, Eq, Structural)]
pub enum Characters {
    Wizzard,
    Knight,
}

impl Characters {
    /// Every playable character.
    pub fn all() -> (a: [Characters; 2])
        ensures
            a@ == seq![Characters::Wizzard, Characters::Knight],
    {
        [Characters::Wizzard, Characters::Knight]
    }

    /// The image shown for this character on the selection screen.
    pub fn splash_art_path(&self) -> (p: &'static str)
        ensures
            *self == Characters::Wizzard ==> p@ == "player_wizard_.png"@,
            *self == Characters::Knight ==> p@ == "player_knight_.png"@,
    {
        match self {
            Characters::Wizzard => "player_wizard_.png",
            Characters::Knight => "player_knight_.png",
        }
    }

    /// The grid of this character's sprite sheet: tile width, tile height,
    /// columns and rows.
    pub fn atlas_grid(&self) -> (g: (u32, u32, u32, u32))
        ensures
            g == (64u32, 64u32, 11u32, 1u32),
    {
        match self {
            Characters::Wizzard => (64, 64, 11, 1),
            Characters::Knight => (64, 64, 11, 1),
        }
    }

    /// First and last sheet index of this character's idle cycle.
    pub fn get_idle_indicies(&self) -> (r: (usize, usize))
        ensures
            *self == Characters::Wizzard ==> r == (0usize, 5usize),
            *self == Characters::Knight ==> r == (0usize, 4usize),
    {
        match self {
            Characters::Wizzard => (0, 5),
            Characters::Knight => (0, 4),
        }
    }
}

/// The overlay shown over gameplay.
#[derive(Clone, Copy, Debug, PartialEq, Eq, Hash, Structural)]
pub enum Overlay {
    /// No overlay: the game runs.
    Closed,
    /// The level-up choice.
    LevelUp,
}

impl Default for Overlay {
    /// The game starts without an overlay.
    fn default() -> (o: Overlay)
        ensures
            o == Overlay::Closed,
    {
        Overlay::Closed
    }
}

} // verus!
