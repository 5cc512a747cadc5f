//! Game rules of a top-down survivor game: timers, animation state,
//! experience, items, abilities, spells, enemies and waves.
//!
//! Everything here works on plain values; the engine glue lives outside.

pub mod timer;
pub mod animation;
pub mod damage_numbers;
pub mod items;
pub mod experience;
pub mod abilities;
pub mod spells;
pub mod enemy;
pub mod waves;
pub mod player;
pub mod random;
