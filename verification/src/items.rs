//! Items: identities, rarity, levels, the stats they modify, and the
//! player's inventory of items.

use vstd::prelude::*;
use vstd::hash_map::StringHashMap;

verus! {

/// Weapons attack by themselves; passives only modify stats.
#[derive(Clone, Copy, Debug, PartialEq, Eq, Hash, Structural)]
pub enum ItemCategory {
    Weapon,
    Passive,
}

/// Rarity is fixed per item; later variants are rarer.
#[derive(Clone, Copy, Debug, PartialEq, Eq, PartialOrd, Ord, Hash, Structural)]
pub enum ItemRarity {
    Common,
    Uncommon,
    Rare,
    Epic,
    Legendary,
}

/// The key an item is registered under.
#[derive(Clone, Debug, PartialEq, Eq, Hash)]
pub struct ItemId(pub String);

/// The current level of an owned item.
#[derive(Clone, Copy, Debug, PartialEq, Eq, Structural)]
pub struct ItemLevel(pub u32);

/// The value of `level as i32`: the same bits read as a signed number.
pub open spec fn level_as_signed(level: u32) -> int {
    if level <= i32::MAX {
        level as int
    } else {
        level - 0x1_0000_0000
    }
}

/// The level an item reaches when upgraded by `amount` (possibly negative):
/// never below zero.
pub open spec fn spec_upgraded_level(level: u32, amount: i32) -> int {
    let sum = level_as_signed(level) + amount;
    if sum < 0 {
        0
    } else {
        sum
    }
}

/// Applies an upgrade of `amount` levels to an item at `level`, computed in
/// signed arithmetic and floored at zero.
pub fn upgraded_level(level: u32, amount: i32) -> (r: u32)
    requires
        i32::MIN <= level_as_signed(level) + amount <= i32::MAX,
    ensures
        r == spec_upgraded_level(level, amount),
{
    let signed: i32 = level as i32;
    assert(signed == level_as_signed(level)) by (bit_vector)
        requires
            signed == level as i32,
    ;
    let sum: i32 = signed + amount;
    if sum < 0 {
        0
    } else {
        sum as u32
    }
}

/// For levels in the signed range, an upgrade by `amount` followed by a
/// downgrade by the same amount restores the level, and a downgrade stops at
/// zero rather than going below.
pub proof fn lemma_upgrade_round_trip(level: u32, amount: i32)
    requires
        level <= i32::MAX,
        amount >= 0,
        level + amount <= i32::MAX,
    ensures
        spec_upgraded_level(level, amount) == level + amount,
        spec_upgraded_level((level + amount) as u32, (-amount) as i32) == level,
        spec_upgraded_level(level, (-amount) as i32) == if level >= amount {
            level - amount
        } else {
            0
        },
{
}

/// The stats items and upgrades modify.
#[derive(Clone, Copy, Debug, PartialEq, Eq, Structural)]
pub enum StatId {
    // Damage stats
    Attack,
    CritChance,
    CritDamage,
    AttackSpeed,
    // Movement and survivability
    MoveSpeed,
    MaxHealth,
    Armor,
    Recovery,
    // Weapon modifiers
    ProjectileCount,
    Duration,
    Area,
    Cooldown,
    // Utility
    PickupRange,
}

/// Number of slots a stat block reserves.
pub const STAT_COUNT: usize = 16;

impl StatId {
    /// The slot of this stat in a stat block: its position in declaration order.
    pub open spec fn spec_index(self) -> nat {
        match self {
            StatId::Attack => 0,
            StatId::CritChance => 1,
            StatId::CritDamage => 2,
            StatId::AttackSpeed => 3,
            StatId::MoveSpeed => 4,
            StatId::MaxHealth => 5,
            StatId::Armor => 6,
            StatId::Recovery => 7,
            StatId::ProjectileCount => 8,
            StatId::Duration => 9,
            StatId::Area => 10,
            StatId::Cooldown => 11,
            StatId::PickupRange => 12,
        }
    }

    /// The slot of this stat in a stat block.
    pub fn index(self) -> (i: usize)
        ensures
            i == self.spec_index(),
            i < STAT_COUNT,
    {
        match self {
            StatId::Attack => 0,
            StatId::CritChance => 1,
            StatId::CritDamage => 2,
            StatId::AttackSpeed => 3,
            StatId::MoveSpeed => 4,
            StatId::MaxHealth => 5,
            StatId::Armor => 6,
            StatId::Recovery => 7,
            StatId::ProjectileCount => 8,
            StatId::Duration => 9,
            StatId::Area => 10,
            StatId::Cooldown => 11,
            StatId::PickupRange => 12,
        }
    }

    /// The name shown for this stat.
    pub open spec fn spec_display_name(self) -> Seq<char> {
        match self {
            StatId::Attack => "Attack"@,
            StatId::CritChance => "Crit Chance"@,
            StatId::CritDamage => "Crit Damage"@,
            StatId::AttackSpeed => "Attack Speed"@,
            StatId::MoveSpeed => "Move Speed"@,
            StatId::MaxHealth => "Max Health"@,
            StatId::Armor => "Armor"@,
            StatId::Recovery => "Recovery"@,
            StatId::ProjectileCount => "Projectile Count"@,
            StatId::Duration => "Duration"@,
            StatId::Area => "Area"@,
            StatId::Cooldown => "Cooldown"@,
            StatId::PickupRange => "Pickup Range"@,
        }
    }

    /// Gets the display name for this stat.
    pub fn display_name(self) -> (s: &'static str)
        ensures
            s@ == self.spec_display_name(),
    {
        match self {
            StatId::Attack => "Attack",
            StatId::CritChance => "Crit Chance",
            StatId::CritDamage => "Crit Damage",
            StatId::AttackSpeed => "Attack Speed",
            StatId::MoveSpeed => "Move Speed",
            StatId::MaxHealth => "Max Health",
            StatId::Armor => "Armor",
            StatId::Recovery => "Recovery",
            StatId::ProjectileCount => "Projectile Count",
            StatId::Duration => "Duration",
            StatId::Area => "Area",
            StatId::Cooldown => "Cooldown",
            StatId::PickupRange => "Pickup Range",
        }
    }
}

/// Distinct stats occupy distinct slots of a stat block.
pub proof fn lemma_stat_index_injective(a: StatId, b: StatId)
    ensures
        a.spec_index() < STAT_COUNT,
        a.spec_index() == b.spec_index() ==> a == b,
{
}

/// One item in an inventory: its entity, identity and level.
#[derive(Clone, Debug)]
pub struct InventoryItem {
    /// The item's entity, as its bits.
    pub entity: u64,
    pub id: ItemId,
    pub level: ItemLevel,
}

/// The items one owner holds, in the order the inventory lists them.
pub struct PlayerInventory {
    pub items: Vec<InventoryItem>,
}

/// The identity of an inventory item, as characters.
pub open spec fn item_key(item: InventoryItem) -> Seq<char> {
    item.id.0@
}

/// Item levels keyed by item identity; where an identity occurs twice the
/// later item's level counts.
pub open spec fn level_map(items: Seq<InventoryItem>) -> Map<Seq<char>, u32>
    decreases items.len(),
{
    if items.len() == 0 {
        Map::empty()
    } else {
        level_map(items.drop_last()).insert(item_key(items.last()), items.last().level.0)
    }
}

impl PlayerInventory {
    /// An inventory listing `items`.
    pub fn new(items: Vec<InventoryItem>) -> (inv: PlayerInventory)
        ensures
            inv.items@ == items@,
    {
        PlayerInventory { items }
    }

    /// Gets all items of the inventory, as (entity, identity, level).
    pub fn get_items(&self) -> (r: Vec<(u64, ItemId, ItemLevel)>)
        ensures
            r@.len() == self.items@.len(),
            forall|i: int|
                0 <= i < r@.len() ==> r@[i].0 == self.items@[i].entity && r@[i].1.0@
                    == item_key(self.items@[i]) && r@[i].2 == self.items@[i].level,
    {
        let mut r: Vec<(u64, ItemId, ItemLevel)> = Vec::new();
        let n = self.items.len();
        for i in 0..n
            invariant
                n == self.items@.len(),
                r@.len() == i,
                forall|k: int|
                    0 <= k < i ==> r@[k].0 == self.items@[k].entity && r@[k].1.0@ == item_key(
                        self.items@[k],
                    ) && r@[k].2 == self.items@[k].level,
        {
            let item = &self.items[i];
            r.push((item.entity, ItemId(item.id.0.clone()), item.level));
        }
        r
    }

    /// Gets the first item whose identity is `item_id`, as (entity, level).
    pub fn get_item(&self, item_id: &str) -> (r: Option<(u64, ItemLevel)>)
        ensures
            match r {
                Some((e, l)) => exists|i: int|
                    0 <= i < self.items@.len() && item_key(self.items@[i]) == item_id@
                        && self.items@[i].entity == e && self.items@[i].level == l && forall|
                        j: int,
                    | 0 <= j < i ==> item_key(#[trigger] self.items@[j]) != item_id@,
                None => forall|i: int|
                    0 <= i < self.items@.len() ==> item_key(#[trigger] self.items@[i])
                        != item_id@,
            },
    {
        let key = String::from_str(item_id);
        let n = self.items.len();
        for i in 0..n
            invariant
                n == self.items@.len(),
                key@ == item_id@,
                forall|j: int| 0 <= j < i ==> item_key(#[trigger] self.items@[j]) != item_id@,
        {
            if self.items[i].id.0 == key {
                return Some((self.items[i].entity, self.items[i].level));
            }
        }
        None
    }

    /// Gets the current level of the first item whose identity is `item_id`.
    pub fn get_item_level(&self, item_id: &str) -> (r: Option<u32>)
        ensures
            match r {
                Some(l) => exists|i: int|
                    0 <= i < self.items@.len() && item_key(self.items@[i]) == item_id@
                        && self.items@[i].level.0 == l && forall|j: int|
                        0 <= j < i ==> item_key(#[trigger] self.items@[j]) != item_id@,
                None => forall|i: int|
                    0 <= i < self.items@.len() ==> item_key(#[trigger] self.items@[i])
                        != item_id@,
            },
    {
        match self.get_item(item_id) {
            Some((_, level)) => Some(level.0),
            None => None,
        }
    }

    /// Checks whether the inventory holds an item whose identity is `item_id`.
    pub fn has_item(&self, item_id: &str) -> (b: bool)
        ensures
            b == exists|i: int|
                0 <= i < self.items@.len() && item_key(#[trigger] self.items@[i]) == item_id@,
    {
        match self.get_item(item_id) {
            Some(_) => true,
            None => false,
        }
    }

    /// Builds a map of item identities to their current levels.
    pub fn build_level_map(&self) -> (m: StringHashMap<u32>)
        ensures
            m@ == level_map(self.items@),
    {
        let mut m: StringHashMap<u32> = StringHashMap::new();
        let n = self.items.len();
        for i in 0..n
            invariant
                n == self.items@.len(),
                m@ == level_map(self.items@.take(i as int)),
        {
            let item = &self.items[i];
            m.insert(item.id.0.clone(), item.level.0);
            assert(self.items@.take((i + 1) as int).drop_last() =~= self.items@.take(i as int));
        }
        assert(self.items@.take(n as int) =~= self.items@);
        m
    }
}

/// An identity is a key of the level map exactly when the inventory holds an
/// item of that identity, which is what `has_item` reports.
pub proof fn lemma_level_map_keys(items: Seq<InventoryItem>, key: Seq<char>)
    ensures
        level_map(items).contains_key(key) <==> exists|i: int|
            0 <= i < items.len() && item_key(#[trigger] items[i]) == key,
    decreases items.len(),
{
    if items.len() > 0 {
        let rest = items.drop_last();
        lemma_level_map_keys(rest, key);
        if level_map(items).contains_key(key) {
            if item_key(items.last()) != key {
                let i = choose|i: int| 0 <= i < rest.len() && item_key(#[trigger] rest[i]) == key;
                assert(items[i] == rest[i]);
            } else {
                assert(item_key(items[items.len() - 1]) == key);
            }
        }
        if exists|i: int| 0 <= i < items.len() && item_key(#[trigger] items[i]) == key {
            let i = choose|i: int| 0 <= i < items.len() && item_key(#[trigger] items[i]) == key;
            if i < items.len() - 1 {
                assert(rest[i] == items[i]);
            }
        }
    }
}

/// In the level map each identity maps to the level of its last occurrence
/// in the inventory.
pub proof fn lemma_level_map_last_wins(items: Seq<InventoryItem>, i: int)
    requires
        0 <= i < items.len(),
        forall|j: int| i < j < items.len() ==> item_key(#[trigger] items[j]) != item_key(items[i]),
    ensures
        level_map(items).contains_key(item_key(items[i])),
        level_map(items)[item_key(items[i])] == items[i].level.0,
    decreases items.len(),
{
    if i < items.len() - 1 {
        lemma_level_map_last_wins(items.drop_last(), i);
        assert(items.drop_last()[i] == items[i]);
        assert forall|j: int| i < j < items.drop_last().len() implies item_key(
            #[trigger] items.drop_last()[j],
        ) != item_key(items.drop_last()[i]) by {
            assert(items.drop_last()[j] == items[j]);
        }
    }
}

} // verus!
