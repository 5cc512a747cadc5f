use wizard_survivors::items::{
    upgraded_level, InventoryItem, ItemId, ItemLevel, ItemRarity, PlayerInventory, StatId,
    STAT_COUNT,
};

fn item(entity: u64, id: &str, level: u32) -> InventoryItem {
    InventoryItem { entity, id: ItemId(id.to_string()), level: ItemLevel(level) }
}

#[test]
fn upgrade_adds_levels() {
    assert_eq!(upgraded_level(3, 2), 5);
    assert_eq!(upgraded_level(0, 1), 1);
}

#[test]
fn downgrade_floors_at_zero() {
    assert_eq!(upgraded_level(3, -1), 2);
    assert_eq!(upgraded_level(3, -5), 0);
    assert_eq!(upgraded_level(0, -1), 0);
}

#[test]
fn huge_levels_read_as_negative() {
    // u32::MAX reads as -1 in signed arithmetic.
    assert_eq!(upgraded_level(u32::MAX, 1), 0);
    assert_eq!(upgraded_level(u32::MAX, 3), 2);
}

#[test]
fn rarity_orders_common_to_legendary() {
    assert!(ItemRarity::Common < ItemRarity::Uncommon);
    assert!(ItemRarity::Rare < ItemRarity::Epic);
    assert!(ItemRarity::Epic < ItemRarity::Legendary);
}

#[test]
fn stat_names_and_slots() {
    assert_eq!(StatId::Attack.display_name(), "Attack");
    assert_eq!(StatId::CritChance.display_name(), "Crit Chance");
    assert_eq!(StatId::ProjectileCount.display_name(), "Projectile Count");
    assert_eq!(StatId::PickupRange.display_name(), "Pickup Range");
    assert_eq!(StatId::Attack.index(), 0);
    assert_eq!(StatId::Cooldown.index(), 11);
    assert_eq!(StatId::PickupRange.index(), 12);
    assert!(StatId::PickupRange.index() < STAT_COUNT);
}

#[test]
fn get_item_finds_first_match() {
    let inv = PlayerInventory::new(vec![
        item(10, "wings", 2),
        item(11, "health", 1),
        item(12, "wings", 5),
    ]);
    assert_eq!(inv.get_item("wings"), Some((10, ItemLevel(2))));
    assert_eq!(inv.get_item("health"), Some((11, ItemLevel(1))));
    assert_eq!(inv.get_item("tome_crit"), None);
    assert_eq!(inv.get_item_level("wings"), Some(2));
    assert_eq!(inv.get_item_level("nothing"), None);
    assert!(inv.has_item("health"));
    assert!(!inv.has_item("heal"));
}

#[test]
fn get_items_lists_everything() {
    let inv = PlayerInventory::new(vec![item(1, "a", 1), item(2, "b", 4)]);
    let all = inv.get_items();
    assert_eq!(all.len(), 2);
    assert_eq!(all[0], (1, ItemId("a".to_string()), ItemLevel(1)));
    assert_eq!(all[1], (2, ItemId("b".to_string()), ItemLevel(4)));
}

#[test]
fn level_map_later_item_wins() {
    let inv = PlayerInventory::new(vec![
        item(1, "a", 1),
        item(2, "b", 4),
        item(3, "a", 7),
    ]);
    let m = inv.build_level_map();
    assert_eq!(m.len(), 2);
    assert_eq!(m.get("a"), Some(&7));
    assert_eq!(m.get("b"), Some(&4));
    assert_eq!(m.get("c"), None);
}

#[test]
fn empty_inventory() {
    let inv = PlayerInventory::new(Vec::new());
    assert!(inv.get_items().is_empty());
    assert!(!inv.has_item("a"));
    assert!(inv.build_level_map().is_empty());
}

#[test]
fn upgrade_then_downgrade_restores_level() {
    assert_eq!(upgraded_level(upgraded_level(3, 4), -4), 3);
    assert_eq!(upgraded_level(2, -7), 0);
}
