//! Random choices the game makes: which upgrades to offer, which tint an
//! offer gets, which footstep sound plays.

use vstd::prelude::*;
use bevy_rand::prelude::WyRand;

verus! {

/// The game's seeded generator, shared through the engine.
#[verifier::external_type_specification]
#[verifier::external_body]
pub struct ExWyRand(WyRand);

/// Draws an index below `n` from the game's seeded generator
/// (`rand::Rng::random_range` on a `WyRand` over `0..n`).
///
/// What is drawn depends on the generator's state; the contract states only
/// what holds of every draw: the index lies in `0..n` (an empty range panics,
/// hence `n > 0`). How the generator's state advances is not stated.
#[verifier::external_body]
fn seeded_below(rng: &mut WyRand, n: usize) -> (r: usize)
    requires
        n > 0,
    ensures
        r < n,
{
    rand::Rng::random_range(rng, 0..n)
}

/// Draws an index below `n` from the thread-local generator
/// (`rand::Rng::random_range` on `rand::rng()` over `0..n`).
///
/// What is drawn depends on the generator's state; the contract states only
/// what holds of every draw: the index lies in `0..n`, as the crate documents
/// for a non-empty range (an empty range panics, hence `n > 0`).
#[verifier::external_body]
fn random_below(n: usize) -> (r: usize)
    requires
        n > 0,
    ensures
        r < n,
{
    rand::Rng::random_range(&mut rand::rng(), 0..n)
}

/// How many upgrades the level-up screen offers.
pub const NUMBER_OF_ITEM_CHOICES: usize = 3;

/// How many tints an offered upgrade's label may take.
pub const UPGRADE_TINTS: usize = 4;

/// The upgrades offered on the level-up screen: three indices drawn from the
/// game's generator among `kinds` weapon kinds (repeats are possible).
pub fn level_up_offers(rng: &mut WyRand, kinds: usize) -> (offers: Vec<usize>)
    requires
        kinds > 0,
    ensures
        offers@.len() == NUMBER_OF_ITEM_CHOICES,
        forall|i: int| 0 <= i < offers@.len() ==> offers@[i] < kinds,
{
    let mut offers: Vec<usize> = Vec::new();
    for _i in 0..NUMBER_OF_ITEM_CHOICES
        invariant
            kinds > 0,
            offers@.len() == _i,
            forall|k: int| 0 <= k < offers@.len() ==> offers@[k] < kinds,
    {
        offers.push(seeded_below(rng, kinds));
    }
    offers
}

/// The tint of an offered upgrade's label, among the four label tints.
pub fn upgrade_tint() -> (t: usize)
    ensures
        t < UPGRADE_TINTS,
{
    random_below(UPGRADE_TINTS)
}

/// The footstep sound to play among `count` recorded steps.
pub fn step_sound(count: usize) -> (s: usize)
    requires
        count > 0,
    ensures
        s < count,
{
    random_below(count)
}

} // verus!
