use zkgame_vdf::game::{
    base_reward, can_move, check_store_purchase, claimable_hours, gather_cooldown_remaining,
    is_explored, move_distance, time_remaining, StoreError,
};
use zkgame_vdf::inventory::{Inventory, MaterialRequirement};
use zkgame_vdf::{generate_player_id, generate_random_salt, generate_store_id, get_current_timestamp};

fn req(item_type: &str, quantity: u32) -> MaterialRequirement {
    MaterialRequirement { item_type: item_type.to_string(), quantity }
}

#[test]
fn movement_rules() {
    assert_eq!(move_distance(0, 0, 1, 0), 1);
    assert_eq!(move_distance(3, -2, -1, 4), 10);
    assert_eq!(move_distance(i32::MIN, i32::MIN, i32::MAX, i32::MAX), 2 * (u32::MAX as u64));
    assert!(can_move(0, 0, 0, 1));
    assert!(can_move(5, 5, 5, 5));
    assert!(!can_move(0, 0, 1, 1));
    assert!(!can_move(0, 0, 2, 0));
    let cells = vec![(0, 0), (1, 0)];
    assert!(is_explored(&cells, 1, 0));
    assert!(!is_explored(&cells, 0, 1));
    assert!(!is_explored(&[], 0, 0));
}

#[test]
fn claim_rules() {
    assert_eq!(claimable_hours(1000, 1000 + 3599), None);
    assert_eq!(claimable_hours(1000, 1000 + 3600), Some(1));
    assert_eq!(claimable_hours(1000, 1000 + 3 * 3600 + 59), Some(3));
    assert_eq!(claimable_hours(5000, 10), None);
    assert_eq!(base_reward(3), 300);
    assert_eq!(base_reward(u64::MAX), u64::MAX);
}

#[test]
fn timer_rules() {
    assert_eq!(time_remaining(100, 900, 400), 600);
    assert_eq!(time_remaining(100, 900, 1000), 0);
    assert_eq!(time_remaining(100, 900, 2000), 0);
    assert_eq!(time_remaining(100, 900, 50), 900);
    assert_eq!(gather_cooldown_remaining(0, 1_000_000), 0);
    assert_eq!(gather_cooldown_remaining(1000, 1100), 200);
    assert_eq!(gather_cooldown_remaining(1000, 1300), 0);
}

#[test]
fn store_rules() {
    assert_eq!(check_store_purchase(100, 200, 0), Err(StoreError::InsufficientCurrency));
    assert_eq!(check_store_purchase(500, 200, 10), Err(StoreError::TooManyStores));
    assert_eq!(check_store_purchase(200, 200, 9), Ok(()));
}

#[test]
fn inventory_counts() {
    let mut inv = Inventory::new();
    assert_eq!(inv.count("wood"), 0);
    inv.add_item("wood", 2);
    inv.add_item("wood", 3);
    inv.add_item("iron_ore", 1);
    assert_eq!(inv.count("wood"), 5);
    assert_eq!(inv.count("iron_ore"), 1);
    inv.set("wood", 7);
    assert_eq!(inv.count("wood"), 7);
    assert_eq!(inv.entries().len(), 2);
}

#[test]
fn inventory_materials() {
    let mut inv = Inventory::new();
    inv.add_item("iron_ore", 3);
    inv.add_item("wood", 1);
    let sword = vec![req("iron_ore", 3), req("wood", 1)];
    assert!(inv.has_materials(&sword));
    assert!(!inv.has_materials(&[req("iron_ore", 4)]));
    assert!(!inv.has_materials(&[req("gold", 1)]));
    assert!(inv.has_materials(&[]));
    inv.consume_materials(&sword);
    assert_eq!(inv.count("iron_ore"), 0);
    assert_eq!(inv.count("wood"), 0);
    inv.add_item("wood", 2);
    inv.consume_materials(&[req("wood", 5), req("stone", 1)]);
    assert_eq!(inv.count("wood"), 0);
    assert_eq!(inv.count("stone"), 0);
    assert!(inv.entries().iter().all(|(name, _)| name != "stone"));
}

#[test]
fn clock_identifiers() {
    let t = get_current_timestamp().unwrap();
    assert!(t > 1_600_000_000);
    assert!(generate_player_id().unwrap() >= t);
    assert!(generate_store_id().unwrap() >= t);
    assert!(generate_random_salt().is_some());
}
