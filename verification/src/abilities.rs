//! Player abilities on the Q, E and R keys, gated by cooldowns.

use vstd::prelude::*;

use crate::enemy::EnemyType;
use crate::timer::{GameTimer, TimerMode};

verus! {

/// The cooldown of an ability: a one-shot timer that is finished when the
/// ability can be used.
#[derive(Clone, Copy, Debug, PartialEq, Eq, Structural)]
pub struct AbilityCooldown(pub GameTimer);

impl AbilityCooldown {
    /// A one-shot timer of `duration` nanoseconds that starts out finished,
    /// so the ability is ready at once: it is ticked through its whole
    /// duration.
    pub fn ready(duration: u64) -> (t: GameTimer)
        ensures
            t == GameTimer::fresh(duration, TimerMode::Once).ticked(duration as nat),
            t.finished,
            t.elapsed == duration,
            t.duration == duration,
            t.mode == TimerMode::Once,
    {
        let mut timer = GameTimer::new(duration, TimerMode::Once);
        timer.tick(duration);
        timer
    }
}

/// Tries to use an ability: only when its cooldown is finished, which then
/// starts over.
pub fn try_use_ability(cooldown: &mut AbilityCooldown) -> (used: bool)
    ensures
        used == old(cooldown).0.finished,
        used ==> final(cooldown).0 == GameTimer::fresh(old(cooldown).0.duration, old(cooldown).0.mode),
        !used ==> *final(cooldown) == *old(cooldown),
{
    if !cooldown.0.is_finished() {
        return false;
    }
    cooldown.0.reset();
    true
}

/// An ability cannot be used twice without its cooldown running out in
/// between: right after a use the cooldown is not finished.
pub proof fn lemma_no_double_use(c: GameTimer)
    requires
        c.finished,
    ensures
        !GameTimer::fresh(c.duration, c.mode).finished,
{
}

/// After a use, a cooldown of duration `d` is ready again exactly when at
/// least `d` nanoseconds have been ticked in total, however the time is split.
pub proof fn lemma_ready_after_duration(d: u64, a: nat, b: nat)
    ensures
        GameTimer::fresh(d, TimerMode::Once).ticked(a).ticked(b).finished <==> a + b >= d,
        GameTimer::fresh(d, TimerMode::Once).ticked(a).finished <==> a >= d,
{
    crate::timer::lemma_once_split_tick(GameTimer::fresh(d, TimerMode::Once), a, b);
}

/// How many walkers a summon converts at most.
pub const SUMMON_COUNT: usize = 3;

/// The walkers among `enemies`, in order.
pub open spec fn walkers(enemies: Seq<(u64, EnemyType)>) -> Seq<u64>
    decreases enemies.len(),
{
    if enemies.len() == 0 {
        Seq::empty()
    } else {
        let rest = walkers(enemies.drop_last());
        if enemies.last().1 == EnemyType::Walker {
            rest.push(enemies.last().0)
        } else {
            rest
        }
    }
}

/// The walkers of a nearest-first list are the entities of its `Walker`
/// entries, in list order: the list filtered by kind, whatever an entry's
/// position. So an entity is among the walkers exactly when the list holds
/// it as a walker, and when the list's first entry is a walker, that entity
/// is the first walker.
pub proof fn lemma_walkers_are_walker_entries(enemies: Seq<(u64, EnemyType)>)
    ensures
        walkers(enemies) == enemies.filter(|e: (u64, EnemyType)| e.1 == EnemyType::Walker).map_values(
            |e: (u64, EnemyType)| e.0,
        ),
        enemies.len() > 0 && enemies[0].1 == EnemyType::Walker ==> walkers(enemies).len() > 0
            && walkers(enemies)[0] == enemies[0].0,
        forall|id: u64|
            #[trigger] walkers(enemies).contains(id) <==> enemies.contains((id, EnemyType::Walker)),
    decreases enemies.len(),
{
    let pred = |e: (u64, EnemyType)| e.1 == EnemyType::Walker;
    let ent = |e: (u64, EnemyType)| e.0;
    if enemies.len() > 0 {
        let init = enemies.drop_last();
        let last = enemies.last();
        lemma_walkers_are_walker_entries(init);
        assert(init.push(last) =~= enemies);
        init.lemma_filter_push(last, pred);
        assert(init.filter(pred).push(last).map_values(ent) =~= init.filter(pred).map_values(
            ent,
        ).push(last.0));
        let w = walkers(enemies);
        let wi = walkers(init);
        if init.len() == 0 {
            assert(wi =~= Seq::<u64>::empty());
        } else {
            assert(init[0] == enemies[0]);
        }
        assert forall|id: u64| #[trigger] w.contains(id) <==> enemies.contains(
            (id, EnemyType::Walker),
        ) by {
            if w.contains(id) {
                let i = choose|i: int| 0 <= i < w.len() && w[i] == id;
                if i < wi.len() {
                    assert(wi[i] == id);
                    assert(wi.contains(id));
                    let j = choose|j: int| 0 <= j < init.len() && init[j] == (id, EnemyType::Walker);
                    assert(enemies[j] == (id, EnemyType::Walker));
                } else {
                    assert(enemies[enemies.len() - 1] == (id, EnemyType::Walker));
                }
            }
            if enemies.contains((id, EnemyType::Walker)) {
                let j = choose|j: int| 0 <= j < enemies.len() && enemies[j] == (id, EnemyType::Walker);
                if j < init.len() {
                    assert(init[j] == (id, EnemyType::Walker));
                    assert(init.contains((id, EnemyType::Walker)));
                    assert(wi.contains(id));
                    let i = choose|i: int| 0 <= i < wi.len() && wi[i] == id;
                    assert(w[i] == id);
                } else {
                    assert(w[w.len() - 1] == id);
                }
            }
        }
    } else {
        reveal(Seq::filter);
        assert(enemies.filter(pred).map_values(ent) =~= Seq::<u64>::empty());
    }
}

/// The walkers a summon turns into minions, with the formation slot each
/// takes: the (at most three) nearest walkers, given `enemies` nearest first,
/// the nearest in the first slot.
pub fn summon_picks(enemies: &Vec<(u64, EnemyType)>) -> (picks: Vec<(u64, usize)>)
    ensures
        picks@.len() == if walkers(enemies@).len() < SUMMON_COUNT {
            walkers(enemies@).len()
        } else {
            SUMMON_COUNT as nat
        },
        forall|i: int|
            0 <= i < picks@.len() ==> (#[trigger] picks@[i]).0 == walkers(enemies@)[i]
                && picks@[i].1 == i,
        forall|i: int|
            0 <= i < picks@.len() ==> (#[trigger] picks@[i]).0 == enemies@.filter(
                |e: (u64, EnemyType)| e.1 == EnemyType::Walker,
            ).map_values(|e: (u64, EnemyType)| e.0)[i],
        enemies@.len() > 0 && enemies@[0].1 == EnemyType::Walker ==> picks@.len() > 0 && picks@[0]
            == (enemies@[0].0, 0usize),
{
    let mut picks: Vec<(u64, usize)> = Vec::new();
    let n = enemies.len();
    let mut i: usize = 0;
    while i < n && picks.len() < SUMMON_COUNT
        invariant
            n == enemies@.len(),
            i <= n,
            picks@.len() <= SUMMON_COUNT,
            picks@.len() == if walkers(enemies@.take(i as int)).len() < SUMMON_COUNT {
                walkers(enemies@.take(i as int)).len()
            } else {
                SUMMON_COUNT as nat
            },
            forall|k: int|
                0 <= k < picks@.len() ==> (#[trigger] picks@[k]).0 == walkers(
                    enemies@.take(i as int),
                )[k] && picks@[k].1 == k,
        decreases n - i,
    {
        assert(enemies@.take((i + 1) as int).drop_last() =~= enemies@.take(i as int));
        if enemies[i].1 == EnemyType::Walker {
            let slot = picks.len();
            picks.push((enemies[i].0, slot));
        }
        i = i + 1;
    }
    proof {
        lemma_walkers_prefix(enemies@, i as int);
        lemma_walkers_are_walker_entries(enemies@);
    }
    picks
}

/// The walkers of a prefix are a prefix of the walkers.
proof fn lemma_walkers_prefix(enemies: Seq<(u64, EnemyType)>, i: int)
    requires
        0 <= i <= enemies.len(),
    ensures
        walkers(enemies.take(i)).len() <= walkers(enemies).len(),
        forall|k: int|
            0 <= k < walkers(enemies.take(i)).len() ==> walkers(enemies.take(i))[k] == walkers(
                enemies,
            )[k],
        i == enemies.len() ==> walkers(enemies.take(i)) == walkers(enemies),
    decreases enemies.len() - i,
{
    if i == enemies.len() {
        assert(enemies.take(i) =~= enemies);
    } else {
        lemma_walkers_prefix(enemies, i + 1);
        assert(enemies.take(i + 1).drop_last() =~= enemies.take(i));
    }
}

/// The keys abilities are bound to.
#[derive(Clone, Copy, Debug, PartialEq, Eq, Structural)]
pub enum AbilityKey {
    Q,
    E,
    R,
}

/// The key slot an ability entity shows in, from the key markers it carries:
/// Q wins over E, E over R; an entity without a marker gets no slot.
pub fn ability_slot(has_q: bool, has_e: bool, has_r: bool) -> (k: Option<AbilityKey>)
    ensures
        has_q ==> k == Some(AbilityKey::Q),
        !has_q && has_e ==> k == Some(AbilityKey::E),
        !has_q && !has_e && has_r ==> k == Some(AbilityKey::R),
        !has_q && !has_e && !has_r ==> k is None,
{
    if has_q {
        Some(AbilityKey::Q)
    } else if has_e {
        Some(AbilityKey::E)
    } else if has_r {
        Some(AbilityKey::R)
    } else {
        None
    }
}

/// The first column of the heads-up display grid where the slot of `key`
/// starts.
pub fn hud_column(key: AbilityKey) -> (c: i16)
    ensures
        key == AbilityKey::Q ==> c == 1,
        key == AbilityKey::E ==> c == 4,
        key == AbilityKey::R ==> c == 7,
{
    match key {
        AbilityKey::Q => 1,
        AbilityKey::E => 4,
        AbilityKey::R => 7,
    }
}

} // verus!
