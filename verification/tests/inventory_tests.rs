use std::collections::{BTreeMap, HashMap};

use crystal_server::combat::{enter_world_player, move_player, MoveKind};
use crystal_server::db::CharacterRow;
use crystal_server::entities::{Player, UserItem};
use crystal_server::inventory::{
    add_item_plan, consume_one, equip_on_player, equip_plan, first_free_slot, fits_slot,
    item_max_dura, merge_plan, move_plan, remove_count, repair_quote, slots_from_rows,
    split_plan, unequip_on_player, wear, AddPlan,
};
use crystal_server::services::{
    gameshop_items, gameshop_quote, mentor_request_check, reincarnate, remove_storage_password,
    set_storage_password, unlock_storage, MentorRefusal, ShopError,
};
use crystal_server::db::hash_password;
use crystal_server::types::{MirClass, MirDirection, MirGender, Point};
use crystal_server::world::World;

fn item(uid: u64, index: i32, count: u16) -> UserItem {
    UserItem { unique_id: uid, item_index: index, count, current_dura: 0, max_dura: 0 }
}

fn row(index: i32, hp: i32) -> CharacterRow {
    CharacterRow {
        index,
        name: "测试".to_string(),
        class: 1,
        gender: 1,
        level: 3,
        x: 405,
        y: 411,
        direction: 4,
        hp,
        mp: 7,
        gold: 1000,
        experience: 55,
    }
}

#[test]
fn free_slots_and_additions() {
    assert_eq!(first_free_slot(&vec![0, 1, 3], 40), Some(2));
    assert_eq!(first_free_slot(&vec![], 40), Some(0));
    assert_eq!(first_free_slot(&vec![1, 0], 2), None);
    assert_eq!(add_item_plan(Some(7001), &vec![0, 1], 40), AddPlan::Merge(7001));
    assert_eq!(add_item_plan(None, &vec![0, 1], 40), AddPlan::NewSlot(2));
    assert_eq!(add_item_plan(None, &vec![0, 1], 2), AddPlan::Full);
    assert_eq!(item_max_dura(1), 20);
    assert_eq!(item_max_dura(2), 25);
    assert_eq!(item_max_dura(3), 0);
    assert_eq!(item_max_dura(42), 0);
}

#[test]
fn slots_layout_and_stacks() {
    let slots = slots_from_rows(&vec![(1, item(1, 3, 5)), (0, item(2, 1, 1)), (45, item(3, 1, 1))], 40);
    assert_eq!(slots.len(), 40);
    assert_eq!(slots[0].map(|i| i.item_index), Some(1));
    assert_eq!(slots[1].map(|i| i.count), Some(5));
    assert!(slots[2].is_none());
    assert_eq!(consume_one(5), Some(4));
    assert_eq!(consume_one(1), None);
    assert_eq!(remove_count(5, 2), Some(3));
    assert_eq!(remove_count(3, 3), None);
    assert_eq!(remove_count(3, 0), Some(2));
    assert_eq!(split_plan(5, 2, Some(2)), Some((3, 2)));
    assert_eq!(split_plan(3, 3, Some(2)), None);
    assert_eq!(split_plan(3, 0, Some(2)), None);
    assert_eq!(split_plan(3, 1, None), None);
    assert_eq!(merge_plan(false, Some((3, 2)), Some((3, 4))), (true, 6));
    assert_eq!(merge_plan(false, Some((3, 2)), Some((1, 4))), (false, 0));
    assert_eq!(merge_plan(true, Some((3, 2)), Some((3, 4))), (false, 0));
    assert_eq!(merge_plan(false, None, Some((3, 4))), (false, 0));
    assert_eq!(move_plan(0, 5, true, false), (true, false));
    assert_eq!(move_plan(5, 1, true, true), (true, true));
    assert_eq!(move_plan(2, 3, false, true), (false, false));
    assert_eq!(move_plan(4, 4, false, false), (true, false));
}

#[test]
fn equipment_rules() {
    assert!(fits_slot(1, 0));
    assert!(fits_slot(2, 1));
    assert!(!fits_slot(1, 1));
    assert!(!fits_slot(3, 0));
    assert!(!fits_slot(99, 0));
    assert_eq!(equip_plan(false, &vec![0, 1], 2), Some(None));
    assert_eq!(equip_plan(true, &vec![0, 2], 40), Some(Some(1)));
    assert_eq!(equip_plan(true, &vec![0, 1], 2), None);
    assert_eq!(wear(20, 20, 5), Some(15));
    assert_eq!(wear(3, 20, 5), Some(0));
    assert_eq!(wear(0, 0, 5), None);
    assert_eq!(repair_quote(15, 20, 1), Some((15, 20, 5)));
    assert_eq!(repair_quote(0, 20, u32::MAX), Some((0, 20, u32::MAX)));
    assert_eq!(repair_quote(5, 0, 1), None);
}

#[test]
fn entering_the_world_builds_the_player() {
    let mut w = World::new();
    let mut eq = BTreeMap::new();
    eq.insert(0, UserItem { unique_id: 1000, item_index: 1, count: 1, current_dura: 20, max_dura: 20 });
    let p = enter_world_player(&mut w, "acc", &row(1, 30), 3, eq);
    assert_eq!(p.object_id, 1);
    assert_eq!(p.name, "测试");
    assert_eq!(p.class, MirClass::Wizard);
    assert_eq!(p.gender, MirGender::Female);
    assert_eq!(p.location, Point::new(405, 411));
    assert_eq!(p.direction, MirDirection::Down);
    assert_eq!((p.max_hp, p.hp, p.max_mp, p.mp), (64, 30, 35, 7));
    assert_eq!((p.attack, p.defence, p.weapon), (1 + 1 + 2, 1, 1));
    assert_eq!((p.gold, p.experience), (1000, 0));
    assert!(!p.dead);
    let dead = enter_world_player(&mut w, "acc", &row(2, -4), 3, BTreeMap::new());
    assert!(dead.dead);
    assert_eq!(dead.hp, 0);
    assert_eq!(dead.object_id, 2);
}

fn fresh_player(x: i32, y: i32) -> Player {
    let mut w = World::new();
    let mut p = enter_world_player(&mut w, "acc", &row(1, 30), 3, BTreeMap::new());
    p.location = Point::new(x, y);
    p
}

#[test]
fn moving_walks_runs_turns_and_takes_portals() {
    let w = World::new();
    let mut p = fresh_player(404, 409);
    assert_eq!(move_player(&w, &mut p, MirDirection::Down, 2), Some((MoveKind::Run, None)));
    assert_eq!(p.location, Point::new(404, 411));
    assert_eq!(move_player(&w, &mut p, MirDirection::Left, 0), Some((MoveKind::Turn, None)));
    assert_eq!(p.direction, MirDirection::Left);
    let r = move_player(&w, &mut p, MirDirection::Down, 1);
    assert_eq!(r, Some((MoveKind::Walk, Some((100, 8, 6)))));
    assert_eq!((p.map_index, p.location), (100, Point::new(8, 6)));
    let mut edge = fresh_player(0, 0);
    assert_eq!(move_player(&w, &mut edge, MirDirection::Up, 1), None);
    assert_eq!(edge.location, Point::new(0, 0));
    let _unused: HashMap<u8, u8> = HashMap::new();
}

#[test]
fn wearing_and_reincarnating() {
    let mut p = fresh_player(400, 400);
    equip_on_player(&mut p, 1, UserItem { unique_id: 9, item_index: 2, count: 1, current_dura: 25, max_dura: 25 });
    assert_eq!((p.defence, p.armour), (1 + 1, 2));
    unequip_on_player(&mut p, 1);
    assert_eq!((p.defence, p.armour), (1, 0));
    p.gold = 77;
    reincarnate(&mut p);
    assert_eq!((p.level, p.max_hp, p.hp, p.max_mp, p.mp, p.attack, p.defence, p.gold), (1, 48, 48, 25, 25, 1, 0, 77));
}

#[test]
fn storage_password_rules() {
    let (r, h) = set_storage_password(&None, "", "1234", 50);
    assert_eq!((r.result, r.has_password, r.last_set_time), (1, true, 50));
    let stored = Some((h.clone().unwrap(), 50i64));
    assert_eq!(h.unwrap(), hash_password("1234"));
    let (r2, h2) = set_storage_password(&None, "x", "1234", 50);
    assert_eq!((r2.result, r2.has_password), (2, false));
    assert!(h2.is_none());
    let (r3, h3) = set_storage_password(&stored, "bad", "9", 60);
    assert_eq!((r3.result, r3.last_set_time), (2, 50));
    assert!(h3.is_none());
    let (r4, h4) = set_storage_password(&stored, "1234", "9", 60);
    assert_eq!((r4.result, r4.last_set_time), (1, 60));
    assert_eq!(h4.unwrap(), hash_password("9"));
    assert_eq!(unlock_storage(&stored, "1234"), (1, true));
    assert_eq!(unlock_storage(&stored, "nope"), (2, true));
    assert_eq!(unlock_storage(&None, "any"), (1, false));
    let (rr, clear) = remove_storage_password(&stored, "1234");
    assert!(clear && rr.removing && rr.result == 1);
    let (rr2, clear2) = remove_storage_password(&stored, "x");
    assert!(!clear2 && rr2.result == 2 && rr2.has_password);
    assert_eq!(remove_storage_password(&None, "x").0.has_password, false);
}

#[test]
fn game_shop_and_mentors() {
    assert_eq!(gameshop_items().len(), 2);
    let (it, qty, cost, left) = gameshop_quote(2, 3, 0, 1000).unwrap();
    assert_eq!((it.item_index, qty, cost, left), (2, 3, 360, 97));
    assert_eq!(gameshop_quote(4, 0, 0, 50).unwrap().1, 1);
    assert_eq!(gameshop_quote(4, 2, 0, 99).unwrap_err(), ShopError::NotEnoughGold);
    assert_eq!(gameshop_quote(7, 1, 0, 999).unwrap_err(), ShopError::NoSuchItem);
    assert_eq!(gameshop_quote(4, 1, 1, 999).unwrap_err(), ShopError::UnsupportedPayment);
    assert_eq!(mentor_request_check("a", &None), Err(MentorRefusal::Offline));
    assert_eq!(mentor_request_check("a", &Some(("a".to_string(), true))), Err(MentorRefusal::IsSelf));
    assert_eq!(mentor_request_check("a", &Some(("b".to_string(), false))), Err(MentorRefusal::NotAccepting));
    assert_eq!(mentor_request_check("a", &Some(("b".to_string(), true))), Ok(()));
}
