use std::collections::{BTreeMap, HashMap};

use crystal_server::bag::{bag_step, BagOutcome, BagRequest, Belongings};
use crystal_server::combat::{catch_of, fishing_catch};
use crystal_server::db::{hash_password, make_unique, INVENTORY_SIZE, STORAGE_SIZE};
use crystal_server::entities::{Player, UserItem};
use crystal_server::inventory::{
    add_item_plan, consume_one, damage_equipment, equip_from_bag, item_max_dura, merge_in_bag, move_plan,
    move_slot, remove_count, repair_quote, slots_from_rows, split_in_bag, transfer_slot, unequip_to_bag,
    AddPlan,
};
use crystal_server::quest::{register_kill, reward, QuestProgress};
use crystal_server::services::{refine_cost, remove_storage_password, set_storage_password, unlock_storage};
use crystal_server::types::{MirClass, MirDirection, MirGender, Point};

const CHAR: i32 = 7;

/// A new character's bag: a wooden sword in slot 0, five healing potions in slot 1.
fn starter_bag() -> Vec<Option<UserItem>> {
    let dura = item_max_dura(1);
    let rows = vec![
        (
            0,
            UserItem {
                unique_id: make_unique(CHAR, 0) as u64,
                item_index: 1,
                count: 1,
                current_dura: dura,
                max_dura: dura,
            },
        ),
        (
            1,
            UserItem { unique_id: make_unique(CHAR, 1) as u64, item_index: 3, count: 5, current_dura: 0, max_dura: 0 },
        ),
    ];
    slots_from_rows(&rows, INVENTORY_SIZE)
}

fn occupied(bag: &[Option<UserItem>]) -> Vec<i32> {
    bag.iter().enumerate().filter(|(_, s)| s.is_some()).map(|(i, _)| i as i32).collect()
}

fn player() -> Player {
    Player {
        object_id: 1,
        account_id: "tester".to_string(),
        name: "检修".to_string(),
        class: MirClass::Warrior,
        gender: MirGender::Male,
        level: 1,
        location: Point::new(400, 400),
        direction: MirDirection::Down,
        max_hp: 48,
        hp: 48,
        max_mp: 25,
        mp: 25,
        attack: 1,
        defence: 0,
        experience: 0,
        gold: 0,
        weapon: 0,
        armour: 0,
        character_index: CHAR,
        hp_changed: false,
        equipment: BTreeMap::new(),
        map_index: 0,
        auto_pot_item: 0,
        auto_pot_hp: 0,
        recently_sold: vec![],
        fishing: false,
        fishing_progress: 0,
        auto_fish: false,
        storage_unlocked: false,
        pending_mentor: None,
        can_be_mentor: false,
        pending_marriage: None,
        dead: false,
        a_mode: 0,
        allow_group: true,
        p_mode: 0,
        magic_keys: HashMap::new(),
    }
}

#[test]
fn starter_inventory_and_slots() {
    let slots = starter_bag();
    assert_eq!(slots.len(), INVENTORY_SIZE);
    assert_eq!(slots[0].as_ref().map(|i| i.item_index), Some(1));
    assert_eq!(slots[1].as_ref().map(|i| i.item_index), Some(3));
    assert_eq!(slots[1].as_ref().map(|i| i.count), Some(5));
    assert!(slots[2].is_none());
}

#[test]
fn consume_item_decrements_and_removes() {
    let bag = starter_bag();
    assert_eq!(bag[1].as_ref().unwrap().unique_id, (CHAR as u64) * 1000 + 1);
    let mut count = bag[1].as_ref().unwrap().count;
    assert_eq!(count, 5);
    count = consume_one(count).unwrap();
    assert_eq!(count, 4);
    for _ in 0..3 {
        count = consume_one(count).unwrap();
    }
    assert_eq!(consume_one(count), None);
}

#[test]
fn equip_moves_item_and_returns_old() {
    let mut bag = starter_bag();
    let mut eq = BTreeMap::new();
    assert!(equip_from_bag(&mut bag, &mut eq, 0, 0));
    assert!(bag[0].is_none());
    assert_eq!(eq.get(&0).map(|i| i.item_index), Some(1));
    let back = unequip_to_bag(&mut bag, &mut eq, 0).unwrap();
    assert_eq!(bag[back].as_ref().map(|i| i.item_index), Some(1));
    assert_eq!(eq.get(&0).map(|i| i.item_index), None);
    assert!(bag.iter().any(|s| s.as_ref().map(|i| i.item_index) == Some(1)));
}

#[test]
fn remove_item_count_partial_and_full() {
    assert_eq!(remove_count(5, 2), Some(3));
    assert_eq!(remove_count(3, 3), None);
}

#[test]
fn add_item_merges_stacks() {
    let mut bag = starter_bag();
    let potion = bag[1].as_ref().unwrap().unique_id as i64;
    assert_eq!(add_item_plan(Some(potion), &occupied(&bag), INVENTORY_SIZE as i32), AddPlan::Merge(potion));
    bag[1].as_mut().unwrap().count += 3;
    assert_eq!(bag[1].as_ref().map(|i| i.count), Some(8));
    assert!(bag[2].is_none());
    let sword = bag[0].as_ref().unwrap().unique_id as i64;
    assert_eq!(add_item_plan(Some(sword), &occupied(&bag), INVENTORY_SIZE as i32), AddPlan::Merge(sword));
    assert_eq!(add_item_plan(None, &occupied(&bag), INVENTORY_SIZE as i32), AddPlan::NewSlot(2));
}

#[test]
fn quest_accept_kill_reward_full_flow() {
    let mut progress = vec![QuestProgress { quest_id: 1, killed: 0, completed: false, finished: false }];
    for i in 1..=5 {
        let (matched, done) = register_kill(&mut progress, 3);
        assert!(matched);
        assert_eq!(done, if i < 5 { 0 } else { 1 });
    }
    assert_eq!(progress[0].killed, 5);
    assert!(progress[0].completed);
    assert!(!progress[0].finished);
    let (def, gold, exp) = reward(&mut progress, 1).unwrap();
    assert_eq!(def.id, 1);
    assert!(gold > 0 && exp > 0);
    assert!(progress[0].finished);
    assert!(reward(&mut progress, 1).is_err());
    let (matched, _) = register_kill(&mut progress, 4);
    assert!(!matched);
}

#[test]
fn move_inventory_item_to_empty_and_swap() {
    let mut bag = starter_bag();
    assert_eq!(move_plan(0, 5, true, false), (true, false));
    assert!(move_slot(&mut bag, 0, 5));
    assert!(bag[0].is_none());
    assert_eq!(bag[5].as_ref().map(|i| i.item_index), Some(1));
    assert_eq!(move_plan(5, 1, true, true), (true, true));
    assert!(move_slot(&mut bag, 5, 1));
    assert_eq!(bag[1].as_ref().map(|i| i.item_index), Some(1));
    assert_eq!(bag[5].as_ref().map(|i| i.item_index), Some(3));
}

#[test]
fn split_inventory_item_creates_new_stack() {
    let mut bag = starter_bag();
    assert_eq!(split_in_bag(&mut bag, CHAR, 1, 2), Some(2));
    assert_eq!(bag[1].as_ref().map(|i| i.count), Some(3));
    assert_eq!(bag[2].as_ref().map(|i| i.count), Some(2));
    assert_eq!(split_in_bag(&mut bag, CHAR, 1, 3), None);
    assert_eq!(split_in_bag(&mut bag, CHAR, 2, 2), None);
}

#[test]
fn storage_store_take_and_swap() {
    let mut bag = starter_bag();
    let mut storage: Vec<Option<UserItem>> = vec![None; STORAGE_SIZE];
    assert!(transfer_slot(&mut bag, &mut storage, 0, 0));
    assert_eq!(storage[0].as_ref().map(|i| i.item_index), Some(1));
    assert!(bag[0].is_none());
    assert!(transfer_slot(&mut bag, &mut storage, 1, 1));
    // three more potions land in the first free bag slot
    assert_eq!(add_item_plan(None, &occupied(&bag), INVENTORY_SIZE as i32), AddPlan::NewSlot(0));
    assert!(transfer_slot(&mut storage, &mut bag, 1, 3));
    assert_eq!(bag[3].as_ref().map(|i| i.item_index), Some(3));
    assert!(storage[1].is_none());
    assert_eq!(storage[0].as_ref().map(|i| i.item_index), Some(1));
}

#[test]
fn equipment_durability_and_repair() {
    let mut bag = starter_bag();
    let mut p = player();
    assert!(equip_from_bag(&mut bag, &mut p.equipment, 0, 0));
    assert_eq!(p.equipment.get(&0).map(|i| i.max_dura), Some(20));
    assert_eq!(p.equipment.get(&0).map(|i| i.current_dura), Some(20));
    assert!(!damage_equipment(&mut p, 0, 5));
    assert_eq!(p.equipment.get(&0).unwrap().current_dura, 15);
    assert_eq!(repair_quote(15, 20, 1), Some((15, 20, 5)));
    let potion = bag[1].as_ref().unwrap();
    assert_eq!(repair_quote(potion.current_dura, potion.max_dura, 1), None);
}

#[test]
fn merge_inventory_items_combines_same_stack() {
    let mut bag = starter_bag();
    bag[1].as_mut().unwrap().count += 6;
    assert_eq!(bag[1].as_ref().map(|i| i.count), Some(11));
    let split = split_in_bag(&mut bag, CHAR, 1, 4).unwrap();
    assert_eq!(bag[1].as_ref().unwrap().count, 7);
    assert_eq!(bag[split].as_ref().unwrap().count, 4);
    let kept = bag[1].as_ref().unwrap().unique_id;
    assert_eq!(merge_in_bag(&mut bag, split, 1), (true, 11));
    assert_eq!(bag[1].as_ref().map(|i| i.count), Some(11));
    assert_eq!(bag[1].as_ref().unwrap().unique_id, kept);
    assert!(bag[split].is_none());
    assert!(!merge_in_bag(&mut bag, 1, 0).0);
}

#[test]
fn storage_password_set_verify_clear() {
    let none: Option<(String, i64)> = None;
    assert_eq!(unlock_storage(&none, "").1, false);
    let (res, h) = set_storage_password(&none, "", "1234", 1000);
    assert_eq!(res.result, 1);
    let h = h.unwrap();
    assert_eq!(h, hash_password("1234"));
    let stored = Some((h, 1000i64));
    assert_eq!(stored.as_ref().unwrap().1, 1000);
    assert_eq!(unlock_storage(&stored, "1234"), (1, true));
    assert_eq!(unlock_storage(&stored, "wrong"), (2, true));
    let (res, h2) = set_storage_password(&stored, "1234", "5678", 2000);
    assert_eq!(res.last_set_time, 2000);
    let h2 = h2.unwrap();
    assert_eq!(h2, hash_password("5678"));
    let stored = Some((h2, 2000i64));
    let (res, clear) = remove_storage_password(&stored, "5678");
    assert!(clear);
    assert!(!res.has_password);
}

#[test]
fn next_refine_monotonic() {
    assert_eq!(refine_cost(0), 50);
    assert_eq!(refine_cost(1), 100);
    assert!(refine_cost(0) < refine_cost(1));
    assert!(refine_cost(1) < refine_cost(5));
}

fn belongings() -> Belongings {
    Belongings { bag: starter_bag(), equipment: BTreeMap::new(), storage: vec![None; STORAGE_SIZE] }
}

#[test]
fn item_requests_on_belongings() {
    let mut b = belongings();
    let sword = make_unique(CHAR, 0) as u64;
    let potion = make_unique(CHAR, 1) as u64;
    // a potion does not fit the weapon slot
    assert_eq!(bag_step(&mut b, CHAR, false, BagRequest::Equip { grid: 1, uid: potion, to: 0 }), BagOutcome::Failed);
    assert_eq!(bag_step(&mut b, CHAR, false, BagRequest::Equip { grid: 1, uid: sword, to: 0 }), BagOutcome::Done);
    assert!(b.bag[0].is_none());
    assert_eq!(b.equipment.get(&0).map(|i| i.unique_id), Some(sword));
    assert_eq!(bag_step(&mut b, CHAR, false, BagRequest::Equip { grid: 2, uid: 0, to: 0 }), BagOutcome::Done);
    assert!(b.equipment.is_empty());
    assert_eq!(b.bag[0].map(|i| i.unique_id), Some(sword));
    assert_eq!(bag_step(&mut b, CHAR, false, BagRequest::Move { grid: 1, from: 0, to: 5 }), BagOutcome::Done);
    assert_eq!(b.bag[5].map(|i| i.item_index), Some(1));
    assert_eq!(bag_step(&mut b, CHAR, false, BagRequest::Move { grid: 1, from: 0, to: 99 }), BagOutcome::Failed);
    assert_eq!(bag_step(&mut b, CHAR, false, BagRequest::Split { grid: 1, uid: potion, count: 2 }), BagOutcome::Done);
    assert_eq!(b.bag[0].map(|i| i.count), Some(2));
    assert_eq!(b.bag[1].map(|i| i.count), Some(3));
    let split = b.bag[0].unwrap().unique_id;
    assert_eq!(bag_step(&mut b, CHAR, false, BagRequest::Merge { id_from: split, id_to: potion }), BagOutcome::Done);
    assert_eq!(b.bag[1].map(|i| i.count), Some(5));
    assert_eq!(bag_step(&mut b, CHAR, true, BagRequest::Store { from: 1, to: 0 }), BagOutcome::Locked);
    assert_eq!(bag_step(&mut b, CHAR, false, BagRequest::Store { from: 1, to: 0 }), BagOutcome::Done);
    assert_eq!(b.storage[0].map(|i| i.unique_id), Some(potion));
    assert_eq!(bag_step(&mut b, CHAR, false, BagRequest::TakeBack { from: 0, to: 7 }), BagOutcome::Done);
    assert_eq!(b.bag[7].map(|i| i.unique_id), Some(potion));
    assert_eq!(bag_step(&mut b, CHAR, false, BagRequest::Split { grid: 1, uid: 424242, count: 1 }), BagOutcome::Failed);
}

#[test]
fn a_bite_brings_in_a_potion_or_a_pouch() {
    assert_eq!(catch_of(0), 3);
    assert_eq!(catch_of(1), 5);
    let c = fishing_catch();
    assert!(c == 3 || c == 5);
}
