//! The player's spells: picking them up, casting them when their cooldown
//! allows, and the bookkeeping of a few projectiles.

use vstd::prelude::*;

use crate::timer::GameTimer;

verus! {

/// The spells a player can own.
#[derive(Clone, Copy, Debug, PartialEq, Eq, Structural)]
pub enum SpellType {
    Scale,
    Fireball,
    Lightning,
    Orb,
    Thorn,
}

impl SpellType {
    /// Every spell, in a fixed order.
    pub fn all() -> (v: Vec<SpellType>)
        ensures
            v@ == seq![
                SpellType::Scale,
                SpellType::Fireball,
                SpellType::Lightning,
                SpellType::Orb,
                SpellType::Thorn,
            ],
    {
        vec![
            SpellType::Scale,
            SpellType::Fireball,
            SpellType::Lightning,
            SpellType::Orb,
            SpellType::Thorn,
        ]
    }
}

/// What picking up a spell does.
#[derive(Clone, Copy, Debug, PartialEq, Eq, Structural)]
pub enum SpellPickup {
    /// The spell is owned already: upgrade this spell entity.
    Upgrade(u64),
    /// The spell is new: add it to the inventory.
    Add(SpellType),
}

/// Picking up `picked` upgrades the first owned spell of that kind, or adds
/// the spell when none is owned. `owned` lists (entity, kind) of the spells.
pub fn pick_up_spell(owned: &Vec<(u64, SpellType)>, picked: SpellType) -> (r: SpellPickup)
    ensures
        match r {
            SpellPickup::Upgrade(e) => exists|i: int|
                0 <= i < owned@.len() && owned@[i].1 == picked && owned@[i].0 == e && forall|
                    j: int,
                | 0 <= j < i ==> (#[trigger] owned@[j]).1 != picked,
            SpellPickup::Add(s) => s == picked && forall|i: int|
                0 <= i < owned@.len() ==> (#[trigger] owned@[i]).1 != picked,
        },
{
    let n = owned.len();
    for i in 0..n
        invariant
            n == owned@.len(),
            forall|j: int| 0 <= j < i ==> (#[trigger] owned@[j]).1 != picked,
    {
        if owned[i].1 == picked {
            return SpellPickup::Upgrade(owned[i].0);
        }
    }
    SpellPickup::Add(picked)
}

/// A spell in the inventory with its cooldown.
#[derive(Clone, Copy, Debug, PartialEq, Eq, Structural)]
pub struct SpellSlot {
    pub spell: SpellType,
    pub cooldown: GameTimer,
}

/// The spells cast from `slots`, in order: those whose cooldown is finished.
pub open spec fn spells_cast(slots: Seq<SpellSlot>) -> Seq<SpellType>
    decreases slots.len(),
{
    if slots.len() == 0 {
        Seq::empty()
    } else {
        let rest = spells_cast(slots.drop_last());
        if slots.last().cooldown.finished {
            rest.push(slots.last().spell)
        } else {
            rest
        }
    }
}

/// The slot after a cast pass: its cooldown starts over if it was finished.
pub open spec fn after_cast(slot: SpellSlot) -> SpellSlot {
    if slot.cooldown.finished {
        SpellSlot {
            cooldown: GameTimer::fresh(slot.cooldown.duration, slot.cooldown.mode),
            ..slot
        }
    } else {
        slot
    }
}

/// Casts every spell of the inventory whose cooldown is finished, in
/// inventory order, and starts those cooldowns over.
pub fn cast_ready_spells(slots: &mut Vec<SpellSlot>) -> (cast: Vec<SpellType>)
    ensures
        cast@ == spells_cast(old(slots)@),
        cast@ == old(slots)@.filter(|s: SpellSlot| s.cooldown.finished).map_values(
            |s: SpellSlot| s.spell,
        ),
        final(slots)@.len() == old(slots)@.len(),
        forall|i: int|
            0 <= i < old(slots)@.len() ==> final(slots)@[i] == after_cast(old(slots)@[i]),
{
    let mut cast: Vec<SpellType> = Vec::new();
    let n = slots.len();
    let ghost start = slots@;
    for i in 0..n
        invariant
            n == start.len(),
            slots@.len() == n,
            cast@ == spells_cast(start.take(i as int)),
            forall|k: int| 0 <= k < i ==> slots@[k] == after_cast(start[k]),
            forall|k: int| i <= k < n ==> slots@[k] == start[k],
    {
        let mut slot = slots[i];
        if slot.cooldown.is_finished() {
            cast.push(slot.spell);
            slot.cooldown.reset();
        }
        slots.set(i, slot);
        assert(start.take((i + 1) as int).drop_last() =~= start.take(i as int));
    }
    assert(start.take(n as int) =~= start);
    proof {
        lemma_spells_cast_are_ready_slots(start);
    }
    cast
}

/// The spells cast are those of the slots whose cooldown is finished, in
/// inventory order, wherever a slot stands: the slots filtered by readiness.
/// So a ready first slot casts first.
pub proof fn lemma_spells_cast_are_ready_slots(slots: Seq<SpellSlot>)
    ensures
        spells_cast(slots) == slots.filter(|s: SpellSlot| s.cooldown.finished).map_values(
            |s: SpellSlot| s.spell,
        ),
        slots.len() > 0 && slots[0].cooldown.finished ==> spells_cast(slots).len() > 0
            && spells_cast(slots)[0] == slots[0].spell,
    decreases slots.len(),
{
    let ready = |s: SpellSlot| s.cooldown.finished;
    let spell = |s: SpellSlot| s.spell;
    if slots.len() > 0 {
        let init = slots.drop_last();
        let last = slots.last();
        lemma_spells_cast_are_ready_slots(init);
        assert(init.push(last) =~= slots);
        init.lemma_filter_push(last, ready);
        assert(init.filter(ready).push(last).map_values(spell) =~= init.filter(ready).map_values(
            spell,
        ).push(last.spell));
        if init.len() == 0 {
            assert(spells_cast(init) =~= Seq::<SpellType>::empty());
        } else {
            assert(init[0] == slots[0]);
        }
    } else {
        reveal(Seq::filter);
        assert(slots.filter(ready).map_values(spell) =~= Seq::<SpellType>::empty());
    }
}

/// A cast pass leaves no cooldown finished, so a second pass right after it
/// casts nothing.
pub proof fn lemma_second_pass_casts_nothing(slots: Seq<SpellSlot>)
    ensures
        forall|i: int| 0 <= i < slots.len() ==> !(#[trigger] after_cast(slots[i])).cooldown.finished,
        spells_cast(slots.map_values(|s: SpellSlot| after_cast(s))) == Seq::<SpellType>::empty(),
    decreases slots.len(),
{
    if slots.len() > 0 {
        lemma_second_pass_casts_nothing(slots.drop_last());
        assert(slots.map_values(|s: SpellSlot| after_cast(s)).drop_last() =~= slots.drop_last().map_values(
            |s: SpellSlot| after_cast(s),
        ));
    }
}

/// The hits a circle projectile has landed and how many it survives.
#[derive(Clone, Copy, Debug, PartialEq, Eq, Structural)]
pub struct CircleHitCounter {
    pub hits: usize,
    pub max_hits: usize,
}

/// Number of tints a circle projectile cycles through as it lands hits.
pub const CIRCLE_TINTS: usize = 6;

/// What a circle projectile does after landing a hit.
#[derive(Clone, Copy, Debug, PartialEq, Eq, Structural)]
pub struct CircleHit {
    /// The tint to switch to, while tints remain.
    pub tint: Option<usize>,
    /// Whether the projectile is used up.
    pub despawn: bool,
}

impl CircleHitCounter {
    /// Counts a hit: the projectile takes the tint of its new hit count while
    /// there is one, and is used up once it reaches its maximum hits.
    pub fn record_hit(&mut self) -> (h: CircleHit)
        requires
            old(self).hits < usize::MAX,
        ensures
            final(self).hits == old(self).hits + 1,
            final(self).max_hits == old(self).max_hits,
            h.tint == if final(self).hits < CIRCLE_TINTS {
                Some(final(self).hits)
            } else {
                None
            },
            h.despawn == (final(self).hits >= final(self).max_hits),
    {
        self.hits = self.hits + 1;
        let tint = if self.hits < CIRCLE_TINTS {
            Some(self.hits)
        } else {
            None
        };
        CircleHit { tint, despawn: self.hits >= self.max_hits }
    }
}

/// What a thorn whose segment timer ran out removes.
#[derive(Clone, Copy, Debug, PartialEq, Eq, Structural)]
pub enum ThornRemoval {
    /// The child segment at this position.
    Segment(usize),
    /// The thorn's tip itself, once no segment is left.
    Tip,
}

/// One step of a thorn's retraction: when its timer is finished, the last
/// spawned segment is removed (and the timer starts over), or the tip once no
/// child is left. `children` is the number of child segments, if any; the
/// segment count must then name one of them.
pub fn thorn_lifetime(segments: &mut i32, timer: &mut GameTimer, children: Option<usize>) -> (r:
    Option<ThornRemoval>)
    requires
        old(timer).finished ==> *old(segments) > i32::MIN,
        old(timer).finished ==> match children {
            Some(c) => 1 <= *old(segments) <= c,
            None => true,
        },
    ensures
        !old(timer).finished ==> r is None && *final(segments) == *old(segments) && *final(timer)
            == *old(timer),
        old(timer).finished && children is Some ==> r == Some(
            ThornRemoval::Segment((*old(segments) - 1) as usize),
        ) && *final(segments) == *old(segments) - 1 && *final(timer) == GameTimer::fresh(
            old(timer).duration,
            old(timer).mode,
        ),
        old(timer).finished && children is None ==> r == Some(ThornRemoval::Tip)
            && *final(segments) == *old(segments) && *final(timer) == *old(timer),
{
    if timer.is_finished() {
        match children {
            Some(_) => {
                let index = (*segments - 1) as usize;
                *segments = *segments - 1;
                timer.reset();
                Some(ThornRemoval::Segment(index))
            },
            None => Some(ThornRemoval::Tip),
        }
    } else {
        None
    }
}

/// The two timers of a bleeding enemy: how long it bleeds, and the interval
/// between damage ticks.
#[derive(Clone, Copy, Debug, PartialEq, Eq, Structural)]
pub struct BleedTimers {
    pub duration: GameTimer,
    pub tick: GameTimer,
}

/// What a tick of a bleed calls for.
#[derive(Clone, Copy, Debug, PartialEq, Eq, Structural)]
pub struct BleedStep {
    /// Deal one tick of bleed damage.
    pub deal_damage: bool,
    /// The bleed is over and is removed.
    pub expired: bool,
}

impl BleedTimers {
    /// Ticks both timers by `delta` nanoseconds: a finished damage tick deals
    /// damage and starts over; a finished duration ends the bleed.
    pub fn step(&mut self, delta: u64) -> (s: BleedStep)
        ensures
            s.deal_damage == old(self).tick.ticked(delta as nat).finished,
            s.expired == old(self).duration.ticked(delta as nat).finished,
            final(self).duration == old(self).duration.ticked(delta as nat),
            final(self).tick == if s.deal_damage {
                GameTimer::fresh(old(self).tick.duration, old(self).tick.mode)
            } else {
                old(self).tick.ticked(delta as nat)
            },
    {
        self.duration.tick(delta);
        self.tick.tick(delta);
        let deal_damage = self.tick.is_finished();
        if deal_damage {
            self.tick.reset();
        }
        BleedStep { deal_damage, expired: self.duration.is_finished() }
    }
}

/// A bleed damages on every step of exactly its tick interval: from a fresh
/// damage tick of `p`, a step of `p` deals damage (after which the tick is
/// fresh again, by `step`), and the bleed expires exactly at the step where
/// its total time reaches its duration.
pub proof fn lemma_bleed_ticks_every_interval(b: BleedTimers, p: u64)
    requires
        b.tick == GameTimer::fresh(p, crate::timer::TimerMode::Once),
        b.duration.mode == crate::timer::TimerMode::Once,
        !b.duration.finished,
    ensures
        b.tick.ticked(p as nat).finished,
        b.duration.ticked(p as nat).finished <==> b.duration.elapsed + p >= b.duration.duration,
{
}

/// The first entity of `nearest_first` that the bolt may jump to from
/// `source`: not the source itself and not hit before.
pub open spec fn first_eligible(nearest_first: Seq<u64>, source: u64, hit: Seq<u64>) -> Option<
    u64,
>
    decreases nearest_first.len(),
{
    if nearest_first.len() == 0 {
        None
    } else if nearest_first[0] != source && !hit.contains(nearest_first[0]) {
        Some(nearest_first[0])
    } else {
        first_eligible(nearest_first.drop_first(), source, hit)
    }
}

/// Where the `i`-th jump of a bolt cast by `caster` starts: the caster, then
/// each enemy hit in turn.
pub open spec fn jump_source(caster: u64, hits: Seq<u64>, i: int) -> u64 {
    if i == 0 {
        caster
    } else {
        hits[i - 1]
    }
}

proof fn lemma_first_eligible_is_new(nearest_first: Seq<u64>, source: u64, hit: Seq<u64>)
    ensures
        first_eligible(nearest_first, source, hit) matches Some(e) ==> e != source && !hit.contains(
            e,
        ) && nearest_first.contains(e),
    decreases nearest_first.len(),
{
    if nearest_first.len() > 0 {
        lemma_first_eligible_is_new(nearest_first.drop_first(), source, hit);
        if let Some(e) = first_eligible(nearest_first.drop_first(), source, hit) {
            if !(nearest_first[0] != source && !hit.contains(nearest_first[0])) {
                let k = choose|k: int|
                    0 <= k < nearest_first.drop_first().len() && nearest_first.drop_first()[k]
                        == e;
                assert(nearest_first[k + 1] == e);
            }
        }
    }
}

/// The jump from `source` goes to the earliest entry of its nearest-first
/// list that is neither `source` nor hit before, whatever the entities'
/// ids: every entry ahead of it is the source or was hit before, and there
/// is no jump only when every entry is. In particular, when the list's first
/// entry is neither the source nor hit before, it is the next hit.
pub proof fn lemma_first_eligible_is_earliest(nearest_first: Seq<u64>, source: u64, hit: Seq<u64>)
    ensures
        nearest_first.len() > 0 && nearest_first[0] != source && !hit.contains(nearest_first[0])
            ==> first_eligible(nearest_first, source, hit) == Some(nearest_first[0]),
        first_eligible(nearest_first, source, hit) matches Some(e) ==> exists|p: int|
            0 <= p < nearest_first.len() && nearest_first[p] == e && e != source && !hit.contains(e)
                && forall|q: int|
                0 <= q < p ==> #[trigger] nearest_first[q] == source || hit.contains(
                    nearest_first[q],
                ),
        first_eligible(nearest_first, source, hit) is None ==> forall|q: int|
            0 <= q < nearest_first.len() ==> #[trigger] nearest_first[q] == source || hit.contains(
                nearest_first[q],
            ),
    decreases nearest_first.len(),
{
    if nearest_first.len() > 0 {
        let rest = nearest_first.drop_first();
        lemma_first_eligible_is_earliest(rest, source, hit);
        if !(nearest_first[0] != source && !hit.contains(nearest_first[0])) {
            if let Some(e) = first_eligible(rest, source, hit) {
                let p = choose|p: int|
                    0 <= p < rest.len() && rest[p] == e && e != source && !hit.contains(e)
                        && forall|q: int|
                        0 <= q < p ==> #[trigger] rest[q] == source || hit.contains(rest[q]);
                assert(nearest_first[p + 1] == e);
                assert forall|q: int| 0 <= q < p + 1 implies #[trigger] nearest_first[q] == source
                    || hit.contains(nearest_first[q]) by {
                    if q > 0 {
                        assert(nearest_first[q] == rest[q - 1]);
                    }
                }
            } else {
                assert forall|q: int| 0 <= q < nearest_first.len() implies #[trigger] nearest_first[q]
                    == source || hit.contains(nearest_first[q]) by {
                    if q > 0 {
                        assert(nearest_first[q] == rest[q - 1]);
                    }
                }
            }
        }
    }
}

fn find_first_eligible(nearest_first: &Vec<u64>, source: u64, hit: &Vec<u64>) -> (r: Option<u64>)
    ensures
        r == first_eligible(nearest_first@, source, hit@),
{
    let n = nearest_first.len();
    let mut i: usize = 0;
    assert(nearest_first@.skip(0) =~= nearest_first@);
    while i < n
        invariant
            n == nearest_first@.len(),
            i <= n,
            first_eligible(nearest_first@, source, hit@) == first_eligible(
                nearest_first@.skip(i as int),
                source,
                hit@,
            ),
        decreases n - i,
    {
        let e = nearest_first[i];
        let mut seen = false;
        let m = hit.len();
        for j in 0..m
            invariant
                m == hit@.len(),
                seen == exists|x: int| 0 <= x < j && hit@[x] == e,
        {
            if hit[j] == e {
                seen = true;
            }
        }
        assert(seen == hit@.contains(e));
        assert(nearest_first@.skip(i as int)[0] == e);
        if e != source && !seen {
            return Some(e);
        }
        assert(nearest_first@.skip(i as int).drop_first() =~= nearest_first@.skip((i + 1) as int));
        i = i + 1;
    }
    None
}

/// Hit `i` of a chain is justified: it is not the enemy the jump starts from,
/// and it is the first eligible enemy of a list `nearest_first` may give for
/// that source.
pub open spec fn jump_ok<F: Fn(u64) -> Vec<u64>>(
    nearest_first: F,
    caster: u64,
    hits: Seq<u64>,
    i: int,
) -> bool {
    &&& hits[i] != jump_source(caster, hits, i)
    &&& exists|list: Vec<u64>|
        nearest_first.ensures((jump_source(caster, hits, i),), list) && first_eligible(
            list@,
            jump_source(caster, hits, i),
            hits.take(i),
        ) == Some(hits[i])
}

/// Every hit of the chain is justified.
pub open spec fn chain_ok<F: Fn(u64) -> Vec<u64>>(nearest_first: F, caster: u64, hits: Seq<u64>) -> bool {
    forall|i: int| 0 <= i < hits.len() ==> #[trigger] jump_ok(nearest_first, caster, hits, i)
}

proof fn lemma_chain_extend<F: Fn(u64) -> Vec<u64>>(
    nearest_first: F,
    caster: u64,
    hits: Seq<u64>,
    list: Vec<u64>,
    e: u64,
)
    requires
        chain_ok(nearest_first, caster, hits),
        hits.no_duplicates(),
        nearest_first.ensures((jump_source(caster, hits, hits.len() as int),), list),
        first_eligible(list@, jump_source(caster, hits, hits.len() as int), hits) == Some(e),
    ensures
        chain_ok(nearest_first, caster, hits.push(e)),
        hits.push(e).no_duplicates(),
        jump_source(caster, hits.push(e), hits.len() + 1 as int) == e,
{
    let src = jump_source(caster, hits, hits.len() as int);
    lemma_first_eligible_is_new(list@, src, hits);
    let h2 = hits.push(e);
    assert(h2.take(hits.len() as int) =~= hits);
    assert forall|i: int| 0 <= i < h2.len() implies #[trigger] jump_ok(nearest_first, caster, h2, i) by {
        if i < hits.len() {
            assert(jump_ok(nearest_first, caster, hits, i));
            assert(h2[i] == hits[i]);
            assert(jump_source(caster, h2, i) == jump_source(caster, hits, i));
            assert(h2.take(i) =~= hits.take(i));
        } else {
            assert(jump_source(caster, h2, i) == src);
        }
    }
    assert forall|a: int, b: int| 0 <= a < h2.len() && 0 <= b < h2.len() && a != b implies h2[a]
        != h2[b] by {
        if a == hits.len() {
            assert(hits.contains(h2[b]));
        } else if b == hits.len() {
            assert(hits.contains(h2[a]));
        }
    }
}

/// The enemies a chain-lightning bolt cast by `caster` hits, in order.
/// `nearest_first(source)` lists the enemies within the bolt's range of
/// `source`, nearest first; each jump goes to the first of them that is not
/// the source and was not hit before, and the chain stops after `jumps` jumps
/// or, earlier, only when no such enemy is left.
pub fn lightning_chain<F: Fn(u64) -> Vec<u64>>(caster: u64, jumps: i32, nearest_first: F) -> (hits:
    Vec<u64>)
    requires
        forall|s: u64| nearest_first.requires((s,)),
    ensures
        jumps > 0 ==> hits@.len() <= jumps,
        jumps <= 0 ==> hits@.len() == 0,
        hits@.no_duplicates(),
        chain_ok(nearest_first, caster, hits@),
        hits@.len() < jumps ==> exists|list: Vec<u64>|
            nearest_first.ensures((jump_source(caster, hits@, hits@.len() as int),), list)
                && first_eligible(
                list@,
                jump_source(caster, hits@, hits@.len() as int),
                hits@,
            ) is None,
        hits@.len() < jumps ==> exists|list: Vec<u64>|
            nearest_first.ensures((jump_source(caster, hits@, hits@.len() as int),), list)
                && forall|q: int|
                0 <= q < list@.len() ==> #[trigger] list@[q] == jump_source(
                    caster,
                    hits@,
                    hits@.len() as int,
                ) || hits@.contains(list@[q]),
{
    let mut hits: Vec<u64> = Vec::new();
    let mut source = caster;
    let mut k: i32 = 0;
    while k < jumps
        invariant
            forall|s: u64| nearest_first.requires((s,)),
            0 <= k,
            jumps > 0 ==> k <= jumps,
            jumps <= 0 ==> k == 0,
            hits@.len() == k,
            source == jump_source(caster, hits@, hits@.len() as int),
            hits@.no_duplicates(),
            chain_ok(nearest_first, caster, hits@),
        ensures
            jumps > 0 ==> hits@.len() <= jumps,
            jumps <= 0 ==> hits@.len() == 0,
            hits@.no_duplicates(),
            chain_ok(nearest_first, caster, hits@),
            hits@.len() < jumps ==> exists|list: Vec<u64>|
                nearest_first.ensures((jump_source(caster, hits@, hits@.len() as int),), list)
                    && first_eligible(
                    list@,
                    jump_source(caster, hits@, hits@.len() as int),
                    hits@,
                ) is None,
            hits@.len() < jumps ==> exists|list: Vec<u64>|
                nearest_first.ensures((jump_source(caster, hits@, hits@.len() as int),), list)
                    && forall|q: int|
                    0 <= q < list@.len() ==> #[trigger] list@[q] == jump_source(
                        caster,
                        hits@,
                        hits@.len() as int,
                    ) || hits@.contains(list@[q]),
        decreases jumps - k,
    {
        let candidates = nearest_first(source);
        let next = find_first_eligible(&candidates, source, &hits);
        match next {
            None => {
                assert(nearest_first.ensures((source,), candidates));
                proof {
                    lemma_first_eligible_is_earliest(candidates@, source, hits@);
                }
                break;
            },
            Some(enemy) => {
                proof {
                    lemma_chain_extend(nearest_first, caster, hits@, candidates, enemy);
                }
                hits.push(enemy);
                source = enemy;
                k = k + 1;
            },
        }
    }
    hits
}

/// A chain never hits an enemy it hit before, never the enemy it jumps from,
/// and only enemies listed within range of the jump's source.
pub proof fn lemma_chain_hits_are_new<F: Fn(u64) -> Vec<u64>>(
    nearest_first: F,
    caster: u64,
    hits: Seq<u64>,
    i: int,
)
    requires
        chain_ok(nearest_first, caster, hits),
        0 <= i < hits.len(),
    ensures
        !hits.take(i).contains(hits[i]),
        hits[i] != jump_source(caster, hits, i),
        exists|list: Vec<u64>|
            nearest_first.ensures((jump_source(caster, hits, i),), list) && list@.contains(hits[i]),
{
    assert(jump_ok(nearest_first, caster, hits, i));
    let list = choose|list: Vec<u64>|
        nearest_first.ensures((jump_source(caster, hits, i),), list) && first_eligible(
            list@,
            jump_source(caster, hits, i),
            hits.take(i),
        ) == Some(hits[i]);
    lemma_first_eligible_is_new(list@, jump_source(caster, hits, i), hits.take(i));
}

/// Each hit of a chain is, in a list `nearest_first` gives for the jump's
/// source, the earliest entry that is neither that source nor hit before:
/// every entry ahead of it is the source or an earlier hit.
pub proof fn lemma_chain_jumps_to_earliest<F: Fn(u64) -> Vec<u64>>(
    nearest_first: F,
    caster: u64,
    hits: Seq<u64>,
    i: int,
)
    requires
        chain_ok(nearest_first, caster, hits),
        0 <= i < hits.len(),
    ensures
        exists|list: Vec<u64>, p: int|
            nearest_first.ensures((jump_source(caster, hits, i),), list) && 0 <= p < list@.len()
                && list@[p] == hits[i] && forall|q: int|
                0 <= q < p ==> #[trigger] list@[q] == jump_source(caster, hits, i) || hits.take(
                    i,
                ).contains(list@[q]),
{
    assert(jump_ok(nearest_first, caster, hits, i));
    let src = jump_source(caster, hits, i);
    let list = choose|list: Vec<u64>|
        nearest_first.ensures((src,), list) && first_eligible(list@, src, hits.take(i)) == Some(
            hits[i],
        );
    lemma_first_eligible_is_earliest(list@, src, hits.take(i));
    let p = choose|p: int|
        0 <= p < list@.len() && list@[p] == hits[i] && hits[i] != src && !hits.take(i).contains(
            hits[i],
        ) && forall|q: int| 0 <= q < p ==> #[trigger] list@[q] == src || hits.take(i).contains(list@[q]);
    assert(nearest_first.ensures((src,), list) && 0 <= p < list@.len() && list@[p] == hits[i]);
}

/// The hit events that spell projectiles raise on contact.
#[derive(Clone, Copy, Debug, PartialEq, Eq, Structural)]
pub enum SpellHit {
    Scale,
    Fireball,
}

/// The hit event a projectile of `spell` raises on contact: only scales and
/// fireballs raise one.
pub fn hit_event(spell: SpellType) -> (h: Option<SpellHit>)
    ensures
        spell == SpellType::Scale ==> h == Some(SpellHit::Scale),
        spell == SpellType::Fireball ==> h == Some(SpellHit::Fireball),
        spell != SpellType::Scale && spell != SpellType::Fireball ==> h is None,
{
    match spell {
        SpellType::Scale => Some(SpellHit::Scale),
        SpellType::Fireball => Some(SpellHit::Fireball),
        _ => None,
    }
}

} // verus!
