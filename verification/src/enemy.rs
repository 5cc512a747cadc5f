//! Enemies: their kinds, when they attack, when ranged ones hold position,
//! and which leftovers go with them.

use vstd::prelude::*;

use crate::timer::GameTimer;

verus! {

/// The kinds of enemies; `NoType` stands for no kind at all.
#[derive(Clone, Copy, Debug, PartialEq, Eq, Hash, Structural)]
pub enum EnemyType {
    Walker,
    Shooter,
    Sprinter,
    Jumper,
    NoType,
}

/// The special attacks enemies launch when their cooldown runs out.
#[derive(Clone, Copy, Debug, PartialEq, Eq, Structural)]
pub enum EnemyAttack {
    /// A shooter fires a projectile.
    Shoot,
    /// A sprinter charges.
    Charge,
    /// A jumper leaps.
    Jump,
}

/// The attack an enemy of `kind` launches when its cooldown has run out:
/// shooters only while holding position, sprinters and jumpers only while the
/// player is within their range, other kinds never.
pub open spec fn spec_attack(kind: EnemyType, halted: bool, player_in_range: bool) -> Option<
    EnemyAttack,
> {
    match kind {
        EnemyType::Shooter => if halted {
            Some(EnemyAttack::Shoot)
        } else {
            None
        },
        EnemyType::Sprinter => if player_in_range {
            Some(EnemyAttack::Charge)
        } else {
            None
        },
        EnemyType::Jumper => if player_in_range {
            Some(EnemyAttack::Jump)
        } else {
            None
        },
        _ => None,
    }
}

/// Ticks an enemy's attack cooldown by `delta` nanoseconds. When it is then
/// finished it starts over, and the enemy attacks if its kind allows it now;
/// `player_in_range` is false for an enemy without a range.
pub fn enemy_cooldown_step(
    kind: EnemyType,
    cooldown: &mut GameTimer,
    delta: u64,
    halted: bool,
    player_in_range: bool,
) -> (a: Option<EnemyAttack>)
    ensures
        old(cooldown).ticked(delta as nat).finished ==> a == spec_attack(
            kind,
            halted,
            player_in_range,
        ) && *final(cooldown) == GameTimer::fresh(old(cooldown).duration, old(cooldown).mode),
        !old(cooldown).ticked(delta as nat).finished ==> a is None && *final(cooldown) == old(
            cooldown,
        ).ticked(delta as nat),
        a == Some(EnemyAttack::Jump) <==> old(cooldown).ticked(delta as nat).finished && kind
            == EnemyType::Jumper && player_in_range,
        a == Some(EnemyAttack::Charge) <==> old(cooldown).ticked(delta as nat).finished && kind
            == EnemyType::Sprinter && player_in_range,
        a == Some(EnemyAttack::Shoot) <==> old(cooldown).ticked(delta as nat).finished && kind
            == EnemyType::Shooter && halted,
{
    cooldown.tick(delta);
    if cooldown.is_finished() {
        let attack = match kind {
            EnemyType::Shooter => if halted {
                Some(EnemyAttack::Shoot)
            } else {
                None
            },
            EnemyType::Sprinter => if player_in_range {
                Some(EnemyAttack::Charge)
            } else {
                None
            },
            EnemyType::Jumper => if player_in_range {
                Some(EnemyAttack::Jump)
            } else {
                None
            },
            _ => None,
        };
        cooldown.reset();
        attack
    } else {
        None
    }
}

/// Each attack belongs to one kind and one condition, whatever the other
/// flag says: a jumper leaps and a sprinter charges exactly when the player
/// is within range, a shooter shoots exactly when it holds position; with the
/// player out of range, neither a jumper nor a sprinter attacks at all.
pub proof fn lemma_attack_conditions(kind: EnemyType, halted: bool, player_in_range: bool)
    ensures
        spec_attack(kind, halted, player_in_range) == Some(EnemyAttack::Jump) <==> kind
            == EnemyType::Jumper && player_in_range,
        spec_attack(kind, halted, player_in_range) == Some(EnemyAttack::Charge) <==> kind
            == EnemyType::Sprinter && player_in_range,
        spec_attack(kind, halted, player_in_range) == Some(EnemyAttack::Shoot) <==> kind
            == EnemyType::Shooter && halted,
        (kind == EnemyType::Jumper || kind == EnemyType::Sprinter) && !player_in_range
            ==> spec_attack(kind, halted, player_in_range) is None,
{
}

/// Walkers, and enemies of no kind, never launch a special attack.
pub proof fn lemma_walkers_never_attack(halted: bool, in_range: bool)
    ensures
        spec_attack(EnemyType::Walker, halted, in_range) is None,
        spec_attack(EnemyType::NoType, halted, in_range) is None,
{
}

/// Whether a ranged enemy starts or stops holding position.
#[derive(Clone, Copy, Debug, PartialEq, Eq, Structural)]
pub enum HaltAction {
    /// Start holding position.
    Halt,
    /// Resume moving.
    Resume,
    /// Keep doing what it does.
    Keep,
}

/// A ranged enemy halts when the player comes within its range and resumes
/// only once the player is farther than its range plus a buffer, so it does
/// not flicker at the edge.
pub fn halt_action(within_range: bool, beyond_buffer: bool, halted: bool) -> (a: HaltAction)
    ensures
        within_range && !halted ==> a == HaltAction::Halt,
        !(within_range && !halted) && beyond_buffer && halted ==> a == HaltAction::Resume,
        !(within_range && !halted) && !(beyond_buffer && halted) ==> a == HaltAction::Keep,
{
    if within_range && !halted {
        HaltAction::Halt
    } else if beyond_buffer && halted {
        HaltAction::Resume
    } else {
        HaltAction::Keep
    }
}

/// What a charging sprinter touches.
#[derive(Clone, Copy, Debug, PartialEq, Eq, Structural)]
pub enum Contact {
    /// A body whose collision layers are unknown.
    Unknown,
    /// A body with layers: whether it is terrain and whether it is the player.
    Layers { terrain: bool, player: bool },
}

/// What a charging sprinter's contacts call for this step.
#[derive(Clone, Copy, Debug, PartialEq, Eq, Structural)]
pub struct ChargeStep {
    /// How many times the charge hits the player.
    pub player_hits: usize,
    /// Whether the charge ends.
    pub charge_over: bool,
    /// Whether a contact of unknown layers stopped the whole step.
    pub aborted: bool,
}

/// Whether a contact of unknown layers comes up among `c`.
pub open spec fn charge_aborted(c: Seq<Contact>) -> bool
    decreases c.len(),
{
    c.len() > 0 && (c[0] == Contact::Unknown || charge_aborted(c.drop_first()))
}

/// The player contacts among `c` before the first contact of unknown layers.
pub open spec fn charge_hits(c: Seq<Contact>) -> nat
    decreases c.len(),
{
    if c.len() == 0 {
        0
    } else {
        match c[0] {
            Contact::Unknown => 0,
            Contact::Layers { player, .. } => (if player {
                1nat
            } else {
                0nat
            }) + charge_hits(c.drop_first()),
        }
    }
}

/// Whether terrain or the player comes up among `c` before the first contact
/// of unknown layers.
pub open spec fn charge_touches(c: Seq<Contact>) -> bool
    decreases c.len(),
{
    c.len() > 0 && match c[0] {
        Contact::Unknown => false,
        Contact::Layers { terrain, player } => terrain || player || charge_touches(c.drop_first()),
    }
}

/// Reads a charging sprinter's contacts for this step, in order: a contact of
/// unknown layers aborts the whole step; terrain ends the charge; the player
/// is hit and ends it; being out of range ends it too, unless the step
/// aborted.
pub fn charge_contacts(contacts: &Vec<Contact>, out_of_range: bool) -> (s: ChargeStep)
    ensures
        s.aborted == charge_aborted(contacts@),
        s.player_hits == charge_hits(contacts@),
        s.charge_over == (!charge_aborted(contacts@) && (out_of_range || charge_touches(
            contacts@,
        ))),
{
    let n = contacts.len();
    let mut hits: usize = 0;
    let mut over = false;
    let mut i: usize = 0;
    assert(contacts@.skip(0) =~= contacts@);
    while i < n
        invariant
            n == contacts@.len(),
            i <= n,
            hits <= i,
            charge_aborted(contacts@) == charge_aborted(contacts@.skip(i as int)),
            charge_hits(contacts@) == hits + charge_hits(contacts@.skip(i as int)),
            charge_touches(contacts@) == (over || charge_touches(contacts@.skip(i as int))),
        decreases n - i,
    {
        assert(contacts@.skip(i as int)[0] == contacts@[i as int]);
        assert(contacts@.skip(i as int).drop_first() =~= contacts@.skip((i + 1) as int));
        match contacts[i] {
            Contact::Unknown => {
                return ChargeStep { player_hits: hits, charge_over: false, aborted: true };
            },
            Contact::Layers { terrain, player } => {
                if terrain {
                    over = true;
                }
                if player {
                    hits = hits + 1;
                    over = true;
                }
            },
        }
        i = i + 1;
    }
    assert(contacts@.skip(n as int) =~= Seq::<Contact>::empty());
    ChargeStep { player_hits: hits, charge_over: over || out_of_range, aborted: false }
}

/// Whether a contact is the player.
pub open spec fn is_player_contact(x: Contact) -> bool {
    match x {
        Contact::Unknown => false,
        Contact::Layers { player, .. } => player,
    }
}

/// Whether a contact is terrain or the player.
pub open spec fn is_touch_contact(x: Contact) -> bool {
    match x {
        Contact::Unknown => false,
        Contact::Layers { terrain, player } => terrain || player,
    }
}

/// A step reads the contacts in order up to the first one of unknown layers,
/// at `p` (the end when there is none): it aborts exactly when some contact
/// has unknown layers, counts each player contact ahead of `p` once, and
/// touches exactly when a contact ahead of `p` is terrain or the player.
pub proof fn lemma_charge_reads_up_to_unknown(c: Seq<Contact>, p: int)
    requires
        0 <= p <= c.len(),
        p < c.len() ==> c[p] == Contact::Unknown,
        forall|j: int| 0 <= j < p ==> c[j] != Contact::Unknown,
    ensures
        charge_aborted(c) <==> c.contains(Contact::Unknown),
        charge_aborted(c) <==> p < c.len(),
        charge_hits(c) == c.take(p).filter(|x: Contact| is_player_contact(x)).len(),
        charge_touches(c) <==> exists|i: int| 0 <= i < p && is_touch_contact(#[trigger] c[i]),
    decreases p,
{
    let hit = |x: Contact| is_player_contact(x);
    if p == 0 {
        reveal(Seq::filter);
        assert(c.take(0).filter(hit) =~= Seq::<Contact>::empty());
        if c.len() > 0 {
            assert(c.contains(c[0]));
        }
    } else {
        let rest = c.drop_first();
        assert forall|j: int| 0 <= j < p - 1 implies rest[j] != Contact::Unknown by {
            assert(rest[j] == c[j + 1]);
        }
        if p < c.len() {
            assert(rest[p - 1] == c[p]);
        }
        lemma_charge_reads_up_to_unknown(rest, p - 1);
        assert(c.take(p) =~= seq![c[0]] + rest.take(p - 1));
        rest.take(p - 1).lemma_filter_prepend(c[0], hit);
        if c.contains(Contact::Unknown) {
            let j = choose|j: int| 0 <= j < c.len() && c[j] == Contact::Unknown;
            assert(j > 0);
            assert(rest[j - 1] == Contact::Unknown);
        }
        if rest.contains(Contact::Unknown) {
            let j = choose|j: int| 0 <= j < rest.len() && rest[j] == Contact::Unknown;
            assert(c[j + 1] == Contact::Unknown);
        }
        if charge_touches(c) {
            if !is_touch_contact(c[0]) {
                let i = choose|i: int| 0 <= i < p - 1 && is_touch_contact(#[trigger] rest[i]);
                assert(c[i + 1] == rest[i]);
            }
        }
        if exists|i: int| 0 <= i < p && is_touch_contact(#[trigger] c[i]) {
            let i = choose|i: int| 0 <= i < p && is_touch_contact(#[trigger] c[i]);
            if i > 0 {
                assert(rest[i - 1] == c[i]);
            }
        }
    }
}

/// A charge that touches the player ends, unless a contact of unknown layers
/// aborts the step first.
pub proof fn lemma_player_contact_ends_charge(c: Seq<Contact>, i: int)
    requires
        0 <= i < c.len(),
        c[i] matches Contact::Layers { player, .. } && player,
        forall|j: int| 0 <= j < i ==> c[j] != Contact::Unknown,
    ensures
        charge_touches(c),
        charge_hits(c) >= 1,
    decreases i,
{
    if i > 0 {
        assert(c.drop_first()[i - 1] == c[i]);
        assert forall|j: int| 0 <= j < i - 1 implies c.drop_first()[j] != Contact::Unknown by {
            assert(c.drop_first()[j] == c[j + 1]);
        }
        lemma_player_contact_ends_charge(c.drop_first(), i - 1);
        assert(c[0] != Contact::Unknown);
    }
}

/// The two timers of a patch of hazardous terrain: how long it lasts, and the
/// interval between its damage ticks.
#[derive(Clone, Copy, Debug, PartialEq, Eq, Structural)]
pub struct TerrainTimers {
    pub duration: GameTimer,
    pub tick: GameTimer,
}

/// What a tick of hazardous terrain calls for.
#[derive(Clone, Copy, Debug, PartialEq, Eq, Structural)]
pub struct TerrainStep {
    /// Damage the player.
    pub hit_player: bool,
    /// Remove the terrain.
    pub despawn: bool,
}

impl TerrainTimers {
    /// Ticks both timers by `delta` nanoseconds. The player standing on the
    /// terrain is hit when the damage tick is finished, which then starts
    /// over; the terrain goes when its duration is finished.
    pub fn step(&mut self, delta: u64, player_inside: bool) -> (s: TerrainStep)
        ensures
            s.hit_player == (old(self).tick.ticked(delta as nat).finished && player_inside),
            s.despawn == old(self).duration.ticked(delta as nat).finished,
            final(self).duration == old(self).duration.ticked(delta as nat),
            final(self).tick == if s.hit_player {
                GameTimer::fresh(old(self).tick.duration, old(self).tick.mode)
            } else {
                old(self).tick.ticked(delta as nat)
            },
    {
        self.duration.tick(delta);
        self.tick.tick(delta);
        let hit_player = self.tick.is_finished() && player_inside;
        if hit_player {
            self.tick.reset();
        }
        TerrainStep { hit_player, despawn: self.duration.is_finished() }
    }
}

/// The event a hit on the player by an enemy projectile raises: only
/// shooters' projectiles do damage.
pub fn projectile_hits_player(kind: EnemyType) -> (b: bool)
    ensures
        b == (kind == EnemyType::Shooter),
{
    match kind {
        EnemyType::Shooter => true,
        _ => false,
    }
}

/// The entities among `markers` (entity, owner) that belong to `owner`, in
/// order.
pub open spec fn owned_by(markers: Seq<(u64, u64)>, owner: u64) -> Seq<u64>
    decreases markers.len(),
{
    if markers.len() == 0 {
        Seq::empty()
    } else {
        let rest = owned_by(markers.drop_last(), owner);
        if markers.last().1 == owner {
            rest.push(markers.last().0)
        } else {
            rest
        }
    }
}

/// The attack indicators (entity, owner) to remove with the enemy `owner`.
pub fn indicators_of(markers: &Vec<(u64, u64)>, owner: u64) -> (r: Vec<u64>)
    ensures
        r@ == owned_by(markers@, owner),
        r@ == markers@.filter(|m: (u64, u64)| m.1 == owner).map_values(|m: (u64, u64)| m.0),
{
    let mut r: Vec<u64> = Vec::new();
    let n = markers.len();
    for i in 0..n
        invariant
            n == markers@.len(),
            r@ == owned_by(markers@.take(i as int), owner),
    {
        if markers[i].1 == owner {
            r.push(markers[i].0);
        }
        assert(markers@.take((i + 1) as int).drop_last() =~= markers@.take(i as int));
    }
    assert(markers@.take(n as int) =~= markers@);
    proof {
        lemma_owned_by_filters(markers@, owner);
    }
    r
}

/// The entities removed with `owner` are those of its markers, in marker
/// order, wherever a marker stands: the markers filtered by owner.
pub proof fn lemma_owned_by_filters(markers: Seq<(u64, u64)>, owner: u64)
    ensures
        owned_by(markers, owner) == markers.filter(|m: (u64, u64)| m.1 == owner).map_values(
            |m: (u64, u64)| m.0,
        ),
    decreases markers.len(),
{
    let mine = |m: (u64, u64)| m.1 == owner;
    let ent = |m: (u64, u64)| m.0;
    if markers.len() > 0 {
        let init = markers.drop_last();
        let last = markers.last();
        lemma_owned_by_filters(init, owner);
        assert(init.push(last) =~= markers);
        init.lemma_filter_push(last, mine);
        assert(init.filter(mine).push(last).map_values(ent) =~= init.filter(mine).map_values(
            ent,
        ).push(last.0));
    } else {
        reveal(Seq::filter);
        assert(markers.filter(mine).map_values(ent) =~= Seq::<u64>::empty());
    }
}

/// Exactly the markers of `owner` are removed with it: each listed entity is
/// one of its markers, and each of its markers is listed.
pub proof fn lemma_owned_by_exact(markers: Seq<(u64, u64)>, owner: u64)
    ensures
        forall|k: int|
            0 <= k < markers.len() && markers[k].1 == owner ==> owned_by(markers, owner).contains(
                #[trigger] markers[k].0,
            ),
        forall|e: u64|
            owned_by(markers, owner).contains(e) ==> exists|k: int|
                0 <= k < markers.len() && markers[k].1 == owner && markers[k].0 == e,
    decreases markers.len(),
{
    if markers.len() > 0 {
        let rest = markers.drop_last();
        lemma_owned_by_exact(rest, owner);
        assert forall|k: int|
            0 <= k < markers.len() && markers[k].1 == owner implies owned_by(
            markers,
            owner,
        ).contains(#[trigger] markers[k].0) by {
            if k < markers.len() - 1 {
                assert(rest[k] == markers[k]);
                let j = owned_by(rest, owner).index_of(markers[k].0);
                assert(owned_by(markers, owner)[j] == markers[k].0);
            } else {
                assert(owned_by(markers, owner).last() == markers[k].0);
            }
        }
        assert forall|e: u64| owned_by(markers, owner).contains(e) implies exists|k: int|
            0 <= k < markers.len() && markers[k].1 == owner && markers[k].0 == e by {
            if owned_by(rest, owner).contains(e) {
                let k = choose|k: int| 0 <= k < rest.len() && rest[k].1 == owner && rest[k].0 == e;
                assert(markers[k] == rest[k]);
            } else {
                let k = markers.len() - 1;
                assert(markers[k].1 == owner && markers[k].0 == e);
            }
        }
    }
}

} // verus!
