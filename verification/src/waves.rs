//! Waves of enemies: the plan of waves, the timers that pace spawning and
//! wave changes, and which enemy kinds a new wave strengthens.

use vstd::prelude::*;
use std::collections::VecDeque;

use crate::enemy::EnemyType;
use crate::timer::GameTimer;

verus! {

/// The waves still to come, first wave first.
pub struct WavePlan<W> {
    pub waves: VecDeque<W>,
}

impl<W> WavePlan<W> {
    /// A plan running `waves` in order.
    pub fn new(waves: VecDeque<W>) -> (p: WavePlan<W>)
        ensures
            p.waves@ == waves@,
    {
        WavePlan { waves }
    }

    /// Takes the next wave of the plan; `None` once every wave has run.
    pub fn next_wave(&mut self) -> (w: Option<W>)
        ensures
            old(self).waves@.len() == 0 ==> w is None && final(self).waves@ == old(self).waves@,
            old(self).waves@.len() > 0 ==> w == Some(old(self).waves@[0]) && final(self).waves@
                == old(self).waves@.drop_first(),
    {
        self.waves.pop_front()
    }
}

/// The two timers of the running wave: one paces enemy spawns, the other
/// ends the wave.
#[derive(Clone, Copy, Debug, PartialEq, Eq, Structural)]
pub struct WaveTimers {
    pub spawn: GameTimer,
    pub duration: GameTimer,
}

/// What a tick of the wave timers calls for.
#[derive(Clone, Copy, Debug, PartialEq, Eq, Structural)]
pub struct WaveTick {
    /// Spawn an enemy.
    pub spawn_enemy: bool,
    /// Move on to the next wave and strengthen the enemies.
    pub next_wave: bool,
}

/// A timer after a tick that fired: it starts over when it is finished.
pub open spec fn fired(t: GameTimer, delta: nat) -> GameTimer {
    if t.ticked(delta).finished {
        GameTimer::fresh(t.duration, t.mode)
    } else {
        t.ticked(delta)
    }
}

impl WaveTimers {
    /// Ticks both timers by `delta` nanoseconds; each one that is then
    /// finished calls for its event and starts over.
    pub fn tick(&mut self, delta: u64) -> (t: WaveTick)
        ensures
            t.spawn_enemy == old(self).spawn.ticked(delta as nat).finished,
            t.next_wave == old(self).duration.ticked(delta as nat).finished,
            final(self).spawn == fired(old(self).spawn, delta as nat),
            final(self).duration == fired(old(self).duration, delta as nat),
    {
        self.spawn.tick(delta);
        self.duration.tick(delta);
        let spawn_enemy = self.spawn.is_finished();
        if spawn_enemy {
            self.spawn.reset();
        }
        let next_wave = self.duration.is_finished();
        if next_wave {
            self.duration.reset();
        }
        WaveTick { spawn_enemy, next_wave }
    }
}

/// With one-shot timers, ticks shorter than the spawn interval spawn one enemy
/// per interval: from a fresh spawn timer, a tick spawns exactly when the
/// time since the last spawn reaches the interval, and leaves it fresh again.
pub proof fn lemma_spawn_pacing(t: GameTimer, delta: nat)
    requires
        t.mode == crate::timer::TimerMode::Once,
        !t.finished,
    ensures
        t.ticked(delta).finished <==> t.elapsed + delta >= t.duration,
        t.ticked(delta).finished ==> fired(t, delta) == GameTimer::fresh(t.duration, t.mode),
        !t.ticked(delta).finished ==> fired(t, delta).elapsed == t.elapsed + delta,
{
}

/// The kinds of a wave's pool that a new wave strengthens, in pool order:
/// those with a sprite, other than `NoType`.
pub open spec fn patched(pool: Seq<EnemyType>, with_sprite: Seq<EnemyType>) -> Seq<EnemyType>
    decreases pool.len(),
{
    if pool.len() == 0 {
        Seq::empty()
    } else {
        let rest = patched(pool.drop_last(), with_sprite);
        let k = pool.last();
        if with_sprite.contains(k) && k != EnemyType::NoType {
            rest.push(k)
        } else {
            rest
        }
    }
}

/// The kinds a wave change strengthens are the pool filtered, in pool order,
/// by having a sprite anywhere in `with_sprite`, `NoType` left out: a kind
/// other than `NoType` is strengthened exactly when it is in the pool and
/// has a sprite, wherever that sprite stands in the list, and `NoType` never.
pub proof fn lemma_patched_filters_by_sprite(pool: Seq<EnemyType>, with_sprite: Seq<EnemyType>)
    ensures
        patched(pool, with_sprite) == pool.filter(
            |k: EnemyType| with_sprite.contains(k) && k != EnemyType::NoType,
        ),
        forall|k: EnemyType|
            k != EnemyType::NoType ==> (#[trigger] patched(pool, with_sprite).contains(k) <==> (
            pool.contains(k) && with_sprite.contains(k))),
        !patched(pool, with_sprite).contains(EnemyType::NoType),
    decreases pool.len(),
{
    let pred = |k: EnemyType| with_sprite.contains(k) && k != EnemyType::NoType;
    if pool.len() > 0 {
        let init = pool.drop_last();
        let k = pool.last();
        lemma_patched_filters_by_sprite(init, with_sprite);
        assert(init.push(k) =~= pool);
        init.lemma_filter_push(k, pred);
        let r = patched(pool, with_sprite);
        let ri = patched(init, with_sprite);
        assert forall|x: EnemyType| x != EnemyType::NoType implies (r.contains(x) <==> (
        pool.contains(x) && with_sprite.contains(x))) by {
            if r.contains(x) {
                let i = choose|i: int| 0 <= i < r.len() && r[i] == x;
                if i < ri.len() {
                    assert(ri[i] == x);
                    assert(ri.contains(x));
                    let j = choose|j: int| 0 <= j < init.len() && init[j] == x;
                    assert(pool[j] == x);
                } else {
                    assert(pool[pool.len() - 1] == x);
                }
            }
            if pool.contains(x) && with_sprite.contains(x) {
                let j = choose|j: int| 0 <= j < pool.len() && pool[j] == x;
                if j < init.len() {
                    assert(init[j] == x);
                    assert(init.contains(x));
                    assert(ri.contains(x));
                    let i = choose|i: int| 0 <= i < ri.len() && ri[i] == x;
                    assert(r[i] == x);
                } else {
                    assert(r[r.len() - 1] == x);
                }
            }
        }
        if r.contains(EnemyType::NoType) {
            let i = choose|i: int| 0 <= i < r.len() && r[i] == EnemyType::NoType;
            if i < ri.len() {
                assert(ri[i] == EnemyType::NoType);
            }
        }
    } else {
        reveal(Seq::filter);
    }
}

/// The enemy kinds of `pool` to strengthen at a wave change: each kind that
/// has a sprite in `with_sprite`, skipping `NoType`.
pub fn patch_targets(pool: &Vec<EnemyType>, with_sprite: &Vec<EnemyType>) -> (r: Vec<EnemyType>)
    ensures
        r@ == patched(pool@, with_sprite@),
        r@ == pool@.filter(|k: EnemyType| with_sprite@.contains(k) && k != EnemyType::NoType),
        forall|k: EnemyType|
            k != EnemyType::NoType ==> (#[trigger] r@.contains(k) <==> (pool@.contains(k)
                && with_sprite@.contains(k))),
{
    let mut r: Vec<EnemyType> = Vec::new();
    let n = pool.len();
    for i in 0..n
        invariant
            n == pool@.len(),
            r@ == patched(pool@.take(i as int), with_sprite@),
    {
        let k = pool[i];
        let mut has_sprite = false;
        let m = with_sprite.len();
        for j in 0..m
            invariant
                m == with_sprite@.len(),
                has_sprite == exists|x: int| 0 <= x < j && with_sprite@[x] == k,
        {
            if with_sprite[j] == k {
                has_sprite = true;
            }
        }
        assert(has_sprite == with_sprite@.contains(k));
        if has_sprite && k != EnemyType::NoType {
            r.push(k);
        }
        assert(pool@.take((i + 1) as int).drop_last() =~= pool@.take(i as int));
    }
    assert(pool@.take(n as int) =~= pool@);
    proof {
        lemma_patched_filters_by_sprite(pool@, with_sprite@);
    }
    r
}

} // verus!
