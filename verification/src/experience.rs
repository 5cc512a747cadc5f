//! Experience: gems give experience, enough experience raises the level.

use vstd::prelude::*;

verus! {

/// Experience needed for the first level up; it grows with the square of the
/// level.
pub const BASE_LEVEL_XP: u32 = 100;

/// Experience needed to leave `level`.
pub open spec fn spec_xp_needed(level: nat) -> nat {
    (BASE_LEVEL_XP * level * level) as nat
}

/// Experience needed to leave `level`: the base amount times the level
/// squared.
pub fn xp_needed(level: u32) -> (n: u32)
    requires
        spec_xp_needed(level as nat) <= u32::MAX,
    ensures
        n == spec_xp_needed(level as nat),
{
    assert(level * level <= BASE_LEVEL_XP * level * level && BASE_LEVEL_XP * (level * level)
        == BASE_LEVEL_XP * level * level) by (nonlinear_arith);
    BASE_LEVEL_XP * (level * level)
}

/// Adds `gain` experience at `level`. When the total reaches what the level
/// needs, the experience starts over at zero and a level up is due.
pub fn gain_xp(level: u32, xp: &mut u32, gain: u32) -> (level_up: bool)
    requires
        spec_xp_needed(level as nat) <= u32::MAX,
        *old(xp) + gain <= u32::MAX,
    ensures
        level_up == (*old(xp) + gain >= spec_xp_needed(level as nat)),
        *final(xp) == if level_up {
            0
        } else {
            *old(xp) + gain
        },
{
    let needed = xp_needed(level);
    *xp = *xp + gain;
    if *xp >= needed {
        *xp = 0;
        true
    } else {
        false
    }
}

/// Raises the level by one.
pub fn level_up(level: &mut u32)
    requires
        *old(level) < u32::MAX,
    ensures
        *final(level) == *old(level) + 1,
{
    *level = *level + 1;
}

/// Every gem counts: starting from zero experience, `k` gems of `gain` level
/// the player up at the first `k` whose total reaches what the level needs.
pub proof fn lemma_gems_to_level_up(level: nat, gain: nat, k: nat)
    requires
        gain > 0,
    ensures
        (k * gain >= spec_xp_needed(level)) <==> k >= (spec_xp_needed(level) + gain - 1) / (
        gain as int),
{
    let need = spec_xp_needed(level) as int;
    let g = gain as int;
    let q = (need + g - 1) / g;
    vstd::arithmetic::div_mod::lemma_fundamental_div_mod(need + g - 1, g);
    let r = (need + g - 1) % g;
    assert(0 <= r < g) by {
        vstd::arithmetic::div_mod::lemma_mod_bound(need + g - 1, g);
    }
    assert(need + g - 1 == g * q + r);
    assert(q * g == g * q) by (nonlinear_arith);
    assert((q - 1) * g == g * q - g) by (nonlinear_arith);
    if k >= q {
        assert(k * g >= q * g) by (nonlinear_arith)
            requires
                k >= q,
                g > 0,
        ;
    } else {
        assert(k * g <= (q - 1) * g) by (nonlinear_arith)
            requires
                k <= q - 1,
                g > 0,
        ;
    }
}

} // verus!
