use std::collections::{BTreeMap, HashMap};

use crystal_server::combat::{
    cast_line, facing_player, fishing_step, monster_died, respawn_tick, set_auto_fish, RESPAWN_TICKS,
};
use crystal_server::inventory::{
    equip_from_bag, first_empty_slot, merge_in_bag, move_equipment, move_slot, split_in_bag, transfer_slot,
    unequip_to_bag,
};
use crystal_server::entities::{GroundItem, Monster, Npc, Player, UserItem};
use crystal_server::magics::bind_magic_key;
use crystal_server::mail::{collected, delete_check, first_attachment, send_check, shown_gold, DeleteRefusal};
use crystal_server::market::{buy_check, market_page, may_get_back, MarketOrder};
use crystal_server::objects::{
    drop_gold, drop_ground_item, dropped_count, find_npc, npc_name, npc_shop, world_state_for,
};
use crystal_server::quest::{
    quest_of_npc, quest_status, quest_talk, quests, reward_target, QuestProgress, QuestStatus, QuestTalk,
};
use crystal_server::services::{
    answer_marriage, answer_mentor, ask_mentor, divorce_partner, friend_add_outcome, online_flags,
    proposal_check, propose, refine_cost, toggle_mentoring, PendingReply, ProposalRefusal,
};
use crystal_server::shop::{
    buy_back_quote, buy_cost, buy_item, forget_sale, record_sale, sell_value, BUY_BACK_LIMIT,
};
use crystal_server::trade::{gold_offer_allowed, pay, request_check, settle_gold, RequestRefusal};
use crystal_server::types::{MirClass, MirDirection, MirGender, Point};
use crystal_server::world::World;

fn player(id: u32, x: i32, y: i32) -> Player {
    Player {
        object_id: id,
        account_id: "acc".to_string(),
        name: format!("p{id}"),
        class: MirClass::Warrior,
        gender: MirGender::Male,
        level: 1,
        location: Point::new(x, y),
        direction: MirDirection::Right,
        max_hp: 48,
        hp: 48,
        max_mp: 10,
        mp: 10,
        attack: 5,
        defence: 0,
        experience: 0,
        gold: 100,
        weapon: 0,
        armour: 0,
        character_index: id as i32,
        hp_changed: false,
        equipment: BTreeMap::new(),
        map_index: 0,
        auto_pot_item: 0,
        auto_pot_hp: 0,
        recently_sold: vec![],
        fishing: false,
        fishing_progress: 0,
        auto_fish: false,
        storage_unlocked: false,
        pending_mentor: None,
        can_be_mentor: true,
        pending_marriage: None,
        dead: false,
        a_mode: 0,
        allow_group: true,
        p_mode: 0,
        magic_keys: HashMap::new(),
    }
}

fn order(seller: &str, price: u32) -> MarketOrder {
    MarketOrder { order_id: 1, seller: seller.to_string(), item_uid: 77, price }
}

#[test]
fn market_purchase_checks_in_order() {
    let o = order("seller", 50);
    assert_eq!(buy_check("buyer", true, 100, 50, Some(&o)), Err(0));
    assert_eq!(buy_check("buyer", false, 100, 50, None), Err(2));
    assert_eq!(buy_check("seller", false, 100, 50, Some(&o)), Err(6));
    assert_eq!(buy_check("buyer", false, 100, 49, Some(&o)), Err(4));
    assert_eq!(buy_check("buyer", false, 49, 60, Some(&o)), Err(4));
    assert_eq!(buy_check("buyer", false, 50, 50, Some(&o)), Ok(50));
    assert!(may_get_back("seller", Some(&o)));
    assert!(!may_get_back("buyer", Some(&o)));
    assert!(!may_get_back("seller", None));
}

#[test]
fn mail_rules() {
    assert_eq!(send_check("me", "me", Some(3), 0, 0), Err(2));
    assert_eq!(send_check("me", "you", None, 0, 0), Err(1));
    assert_eq!(send_check("me", "you", Some(3), 10, 9), Err(3));
    assert_eq!(send_check("me", "you", Some(3), 10, 10), Ok(3));
    assert_eq!(send_check("me", "you", Some(3), 0, 0), Ok(3));
    assert_eq!(first_attachment(&vec![0, 0, 42, 7]), Some(42));
    assert_eq!(first_attachment(&vec![0, 0]), None);
    assert_eq!(first_attachment(&vec![]), None);
    assert!(collected(0, false));
    assert!(!collected(5, false));
    assert!(!collected(0, true));
    assert_eq!(shown_gold(-5), 0);
    assert_eq!(shown_gold(1234), 1234);
    assert_eq!(delete_check(5, false, false), Err(DeleteRefusal::HasAttachment));
    assert_eq!(delete_check(0, true, true), Err(DeleteRefusal::HasAttachment));
    assert_eq!(delete_check(0, false, true), Err(DeleteRefusal::Locked));
    assert_eq!(delete_check(0, false, false), Ok(()));
}

#[test]
fn merchant_buying_selling_and_buy_back() {
    assert_eq!(buy_cost(1, 3), Some(60));
    assert_eq!(buy_cost(9, 1), None);
    assert_eq!(buy_cost(2, u16::MAX), Some(30 * 65535));
    let mut p = player(1, 0, 0);
    assert!(buy_item(&mut p, 3, 5));
    assert_eq!(p.gold, 50);
    assert!(!buy_item(&mut p, 2, 2));
    assert_eq!(p.gold, 50);
    assert!(!buy_item(&mut p, 42, 1));
    assert_eq!(sell_value(1, 1), Some(10));
    assert_eq!(sell_value(3, 3), Some(15));
    assert_eq!(sell_value(0, 1), None);

    for uid in 0..BUY_BACK_LIMIT as u64 {
        record_sale(&mut p, uid, 3, 1, 5);
    }
    assert_eq!(p.recently_sold.len(), BUY_BACK_LIMIT);
    record_sale(&mut p, 100, 1, 1, 10);
    assert_eq!(p.recently_sold.len(), BUY_BACK_LIMIT);
    assert_eq!(p.recently_sold[0].0, 1);
    assert_eq!(*p.recently_sold.last().unwrap(), (100, 1, 1, 10));
    assert_eq!(buy_back_quote(&p, 100), Some((1, 10)));
    assert_eq!(buy_back_quote(&p, 0), None);
    record_sale(&mut p, 200, 1, 1, 0);
    assert_eq!(buy_back_quote(&p, 200), None);
    record_sale(&mut p, 300, 99, 1, 10);
    assert_eq!(buy_back_quote(&p, 300), None);
    forget_sale(&mut p, 100);
    assert!(p.recently_sold.iter().all(|s| s.0 != 100));
    assert_eq!(p.recently_sold.len(), BUY_BACK_LIMIT - 1);
}

#[test]
fn answering_mentor_and_marriage_invitations() {
    let mut p = player(1, 0, 0);
    assert_eq!(answer_mentor(&mut p, Some(9), true), PendingReply::NoPending);
    p.pending_mentor = Some("master".to_string());
    assert_eq!(answer_mentor(&mut p, None, true), PendingReply::PartnerOffline);
    assert_eq!(p.pending_mentor.as_deref(), Some("master"));
    assert_eq!(answer_mentor(&mut p, Some(9), false), PendingReply::Declined { partner: 9 });
    assert_eq!(p.pending_mentor, None);
    p.pending_marriage = Some("love".to_string());
    assert_eq!(answer_marriage(&mut p, Some(4), true), PendingReply::Accepted { partner: 4 });
    assert_eq!(p.pending_marriage, None);
    assert_eq!(divorce_partner(1, Some(2), Some(1)), Some(2));
    assert_eq!(divorce_partner(1, Some(2), Some(3)), None);
    assert_eq!(divorce_partner(1, None, Some(1)), None);
    assert_eq!(refine_cost(0), 50);
    assert_eq!(refine_cost(1), 100);
    assert!(refine_cost(0) < refine_cost(1));
}

#[test]
fn trade_settlement_moves_gold_both_ways() {
    let mut a = player(1, 0, 0);
    let mut b = player(2, 1, 0);
    a.gold = 100;
    b.gold = 10;
    assert!(pay(&mut a, &mut b, 30));
    assert_eq!((a.gold, b.gold), (70, 40));
    assert!(!pay(&mut a, &mut b, 0));
    assert!(!pay(&mut a, &mut b, 71));
    assert_eq!((a.gold, b.gold), (70, 40));
    settle_gold(&mut a, &mut b, 20, 5);
    assert_eq!((a.gold, b.gold), (55, 55));
    assert_eq!(a.gold + b.gold, 110);
    b.gold = u32::MAX - 1;
    assert!(pay(&mut a, &mut b, 10));
    assert_eq!(b.gold, u32::MAX);
    assert_eq!(request_check(true, false, None), Err(RequestRefusal::Dead));
    assert_eq!(request_check(false, true, None), Err(RequestRefusal::Busy));
    assert_eq!(request_check(false, false, None), Err(RequestRefusal::NoOneFacing));
    assert_eq!(request_check(false, false, Some((true, false))), Err(RequestRefusal::TargetDead));
    assert_eq!(request_check(false, false, Some((false, true))), Err(RequestRefusal::TargetBusy));
    assert_eq!(request_check(false, false, Some((false, false))), Ok(()));
}

#[test]
fn facing_player_is_the_one_ahead_on_the_same_map() {
    let me = player(1, 10, 10);
    let mut other_map = player(2, 11, 10);
    other_map.map_index = 5;
    let behind = player(3, 9, 10);
    let ahead = player(4, 11, 10);
    let ps = vec![me.clone(), other_map, behind, ahead];
    assert_eq!(facing_player(&me, &ps), Some(3));
    let lonely = vec![me.clone()];
    assert_eq!(facing_player(&me, &lonely), None);
}

fn ground(id: u32, map: u32) -> GroundItem {
    GroundItem { object_id: id, item_index: 1, count: 1, location: Point::new(0, 0), unique_id: 0, map_index: map, gold: 0 }
}

fn npc(id: u32, map: u32) -> Npc {
    Npc { object_id: id, name: "n".to_string(), image: 0, location: Point::new(0, 0), shop_items: vec![], map_index: map }
}

#[test]
fn drops_and_what_a_map_shows() {
    let mut w = World::new();
    w.next_object_id = 500;
    let p = player(1, 7, 8);
    let item = UserItem { unique_id: 9, item_index: 3, count: 4, current_dura: 0, max_dura: 0 };
    let g = drop_ground_item(&mut w, &p, item);
    assert_eq!(
        g,
        GroundItem { object_id: 500, item_index: 3, count: 4, location: Point::new(7, 8), unique_id: 9, map_index: 0, gold: 0 }
    );
    let gold = drop_gold(&mut w, &p, 25);
    assert_eq!((gold.object_id, gold.gold, gold.item_index), (501, 25, 0));
    assert_eq!(dropped_count(3, 5), 3);
    assert_eq!(dropped_count(9, 5), 5);
    let ms: Vec<Monster> = vec![];
    let gs = vec![ground(1, 0), ground(2, 1), ground(3, 0)];
    let ns = vec![npc(7, 1), npc(8, 0)];
    let (m_ids, g_ids, n_ids) = world_state_for(0, &ms, &gs, &ns);
    assert!(m_ids.is_empty());
    assert_eq!(g_ids, vec![1, 3]);
    assert_eq!(n_ids, vec![8]);
    assert_eq!(find_npc(&ns, 8), Some(1));
    assert_eq!(find_npc(&ns, 9), None);
    assert_eq!(npc_name(&ns, 7).as_deref(), Some("n"));
    assert_eq!(npc_shop(&ns, 8), Some(vec![]));
    assert_eq!(npc_shop(&ns, 9), None);
}

#[test]
fn picking_up_gold_and_items() {
    let mut p = player(1, 10, 10);
    p.gold = 5;
    let mut heap = ground(3, 0);
    heap.location = Point::new(10, 11);
    heap.gold = 20;
    let mut far = ground(4, 0);
    far.location = Point::new(12, 10);
    let mut near_item = ground(5, 0);
    near_item.location = Point::new(9, 10);
    let mut items = vec![far, heap, near_item];
    let got = crystal_server::combat::pick_up(&mut p, &mut items);
    assert_eq!(got.map(|g| g.object_id), Some(3));
    assert_eq!(p.gold, 25);
    assert_eq!(items.len(), 2);
    let got = crystal_server::combat::pick_up(&mut p, &mut items);
    assert_eq!(got.map(|g| (g.object_id, g.item_index)), Some((5, 1)));
    assert_eq!(p.gold, 25);
    assert_eq!(crystal_server::combat::pick_up(&mut p, &mut items), None);
    assert_eq!(items.len(), 1);
}

#[test]
fn equipment_wears_out() {
    let mut p = player(1, 0, 0);
    p.equipment.insert(0, UserItem { unique_id: 1, item_index: 1, count: 1, current_dura: 3, max_dura: 20 });
    crystal_server::entities::recompute_stats(&mut p);
    assert_eq!(p.attack, 1 + 2);
    assert!(!crystal_server::inventory::damage_equipment(&mut p, 0, 2));
    assert_eq!(p.equipment[&0].current_dura, 1);
    assert!(crystal_server::inventory::damage_equipment(&mut p, 0, 5));
    assert_eq!(p.equipment[&0].current_dura, 0);
    assert_eq!(p.attack, 1);
    assert!(!crystal_server::inventory::damage_equipment(&mut p, 0, 5));
    assert!(!crystal_server::inventory::damage_equipment(&mut p, 7, 5));
}


#[test]
fn magic_keys_are_unique_per_key() {
    let mut keys: HashMap<u8, u8> = HashMap::new();
    bind_magic_key(&mut keys, 1, 3);
    bind_magic_key(&mut keys, 2, 4);
    assert_eq!(keys.get(&1), Some(&3));
    // key 3 moves to spell 5
    bind_magic_key(&mut keys, 5, 3);
    assert_eq!(keys.get(&1), None);
    assert_eq!(keys.get(&5), Some(&3));
    assert_eq!(keys.get(&2), Some(&4));
    // key 0 unbinds
    bind_magic_key(&mut keys, 2, 0);
    assert_eq!(keys.get(&2), None);
    assert_eq!(keys.len(), 1);
}

#[test]
fn quest_npc_talk_follows_progress() {
    let q = quests()[0];
    assert_eq!(quest_talk(&q, &vec![]), QuestTalk::Offer);
    let rows = vec![QuestProgress { quest_id: 1, killed: 2, completed: false, finished: false }];
    assert_eq!(quest_talk(&q, &rows), QuestTalk::InProgress { killed: 2, target: 5 });
    let done = vec![QuestProgress { quest_id: 1, killed: 5, completed: true, finished: false }];
    assert_eq!(quest_talk(&q, &done), QuestTalk::Completed);
}

#[test]
fn killing_a_monster_pays_out() {
    let mut w = World::new();
    let mut p = player(1, 400, 400);
    p.gold = 0;
    let m = Monster {
        object_id: 100,
        name: "骷髅".to_string(),
        image: 3,
        location: Point::new(401, 400),
        direction: MirDirection::Up,
        level: 3,
        max_hp: 20,
        hp: 0,
        attack: 3,
        defence: 1,
        exp_reward: 12,
        gold_reward: 8,
        drops: vec![1, 0, 3],
        dead: true,
        dead_ticks: 0,
        harvested: false,
        harvest_item: 6,
        target: None,
        cooldown: 0,
        map_index: 0,
        ranged: false,
    };
    let mut rows = vec![QuestProgress { quest_id: 1, killed: 0, completed: false, finished: false }];
    let drops = monster_died(&mut w, &mut p, &m, &mut rows);
    assert_eq!(drops.len(), 2);
    assert_eq!((drops[0].item_index, drops[1].item_index), (1, 3));
    assert!(drops.iter().all(|d| d.location == m.location && d.map_index == 0 && d.count == 1));
    // 12 experience: level 1 needs 10, so level 2 with 2 left
    assert_eq!((p.level, p.experience), (2, 2));
    assert_eq!(p.gold, 8);
    assert_eq!(rows[0].killed, 1);
}

fn item(uid: u64, idx: i32) -> Option<UserItem> {
    Some(UserItem { unique_id: uid, item_index: idx, count: 1, current_dura: 0, max_dura: 0 })
}

#[test]
fn storing_taking_and_moving_keep_items() {
    let mut bag = vec![item(1, 1), None, item(2, 3)];
    let mut storage = vec![None, item(9, 5)];
    assert!(!transfer_slot(&mut bag, &mut storage, 1, 0));
    assert!(transfer_slot(&mut bag, &mut storage, 0, 0));
    assert_eq!(bag, vec![None, None, item(2, 3)]);
    assert_eq!(storage, vec![item(1, 1), item(9, 5)]);
    // taking back onto an occupied bag slot swaps
    assert!(transfer_slot(&mut storage, &mut bag, 1, 2));
    assert_eq!(storage, vec![item(1, 1), item(2, 3)]);
    assert_eq!(bag, vec![None, None, item(9, 5)]);
    assert!(move_slot(&mut bag, 2, 0));
    assert_eq!(bag, vec![item(9, 5), None, None]);
    assert!(!move_slot(&mut bag, 1, 0));
    assert!(move_slot(&mut bag, 1, 1));
    let mut eq = BTreeMap::new();
    eq.insert(0, item(5, 1).unwrap());
    assert!(!move_equipment(&mut eq, 3, 0));
    assert!(move_equipment(&mut eq, 0, 4));
    assert_eq!(eq.get(&4).map(|i| i.unique_id), Some(5));
    assert!(eq.get(&0).is_none());
    eq.insert(0, item(6, 2).unwrap());
    assert!(move_equipment(&mut eq, 0, 4));
    assert_eq!((eq[&0].unique_id, eq[&4].unique_id), (5, 6));
}

#[test]
fn market_paging() {
    assert_eq!(market_page(0, 0), (0, 0, 0));
    assert_eq!(market_page(25, 0), (3, 0, 10));
    assert_eq!(market_page(25, 2), (3, 20, 25));
    assert_eq!(market_page(25, 3), (3, 25, 25));
    assert_eq!(market_page(25, -4), (3, 0, 10));
    assert_eq!(market_page(10, 1), (1, 10, 10));
    assert_eq!(market_page(25, i32::MAX), (3, 25, 25));
}

#[test]
fn trade_gold_offers_and_fishing_switches() {
    assert!(gold_offer_allowed(10, 100, 0));
    assert!(!gold_offer_allowed(0, 100, 0));
    assert!(!gold_offer_allowed(101, 100, 0));
    assert!(gold_offer_allowed(10, 100, 90));
    assert!(!gold_offer_allowed(10, 100, 91));
    let mut p = player(1, 0, 0);
    cast_line(&mut p, true);
    assert!(p.fishing);
    p.auto_fish = true;
    set_auto_fish(&mut p, false);
    assert!(!p.fishing && !p.auto_fish && p.fishing_progress == 0);
    assert!(!fishing_step(&mut p));
}

#[test]
fn friends() {
    assert_eq!(friend_add_outcome(1, None, false), (false, None));
    assert_eq!(friend_add_outcome(1, Some(1), false), (false, None));
    assert_eq!(friend_add_outcome(1, Some(2), true), (false, Some(2)));
    assert_eq!(friend_add_outcome(1, Some(2), false), (true, Some(2)));
    assert_eq!(online_flags(&vec![3, 4, 5], &vec![5, 3]), vec![true, false, true]);
    assert!(online_flags(&vec![], &vec![1]).is_empty());
}

#[test]
fn quest_choice_and_status_lines() {
    assert_eq!(quest_of_npc("任务管理员").map(|q| q.id), Some(1));
    assert!(quest_of_npc("铁匠铺").is_none());
    let rows = vec![
        QuestProgress { quest_id: 1, killed: 5, completed: true, finished: true },
        QuestProgress { quest_id: 2, killed: 3, completed: true, finished: false },
    ];
    assert_eq!(reward_target(Some("任务管理员"), &rows), Some(1));
    assert_eq!(reward_target(Some("铁匠铺"), &rows), Some(2));
    assert_eq!(reward_target(None, &rows), Some(2));
    assert_eq!(reward_target(None, &vec![]), None);
    assert_eq!(quest_status(&rows[0]), QuestStatus::Rewarded);
    assert_eq!(quest_status(&rows[1]), QuestStatus::Claimable);
    let going = QuestProgress { quest_id: 2, killed: 1, completed: false, finished: false };
    assert_eq!(quest_status(&going), QuestStatus::Progress { killed: 1, target: 3 });
    let unknown = QuestProgress { quest_id: 99, killed: 0, completed: false, finished: false };
    assert_eq!(quest_status(&unknown), QuestStatus::Unknown);
}

#[test]
fn proposals_mentor_requests_and_map_centre() {
    assert_eq!(proposal_check(1, None), Err(ProposalRefusal::Offline));
    assert_eq!(proposal_check(1, Some(1)), Err(ProposalRefusal::IsSelf));
    assert_eq!(proposal_check(1, Some(2)), Ok(2));
    let mut a = player(1, 0, 0);
    let mut b = player(2, 0, 0);
    propose(&mut a, &mut b, "p2");
    assert_eq!(a.pending_marriage.as_deref(), Some("p2"));
    assert_eq!(b.pending_marriage.as_deref(), Some("p1"));
    ask_mentor(&mut b, "p1");
    assert_eq!(b.pending_mentor.as_deref(), Some("p1"));
    assert!(!toggle_mentoring(&mut a));
    assert!(!a.can_be_mentor);
    assert!(toggle_mentoring(&mut a));
    let w = World::new();
    assert_eq!(w.map_centre(0), (400, 400));
    assert_eq!(w.map_centre(77), (400, 400));
}

#[test]
fn a_dead_monster_comes_back_after_thirty_ticks() {
    let mut m = Monster {
        object_id: 1,
        name: "稻草人".to_string(),
        image: 2,
        location: Point::new(0, 0),
        direction: MirDirection::Up,
        level: 1,
        max_hp: 10,
        hp: 0,
        attack: 1,
        defence: 0,
        exp_reward: 1,
        gold_reward: 1,
        drops: vec![],
        dead: true,
        dead_ticks: 0,
        harvested: true,
        harvest_item: 0,
        target: Some(4),
        cooldown: 2,
        map_index: 0,
        ranged: false,
    };
    for k in 1..RESPAWN_TICKS {
        assert!(!respawn_tick(&mut m));
        assert!(m.dead);
        assert_eq!(m.dead_ticks, k);
    }
    assert!(respawn_tick(&mut m));
    assert!(!m.dead && !m.harvested);
    assert_eq!((m.hp, m.target, m.cooldown, m.dead_ticks), (10, None, 0, 0));
    // a living monster is left alone
    assert!(!respawn_tick(&mut m));
}

#[test]
fn a_fish_bites_on_the_thirteenth_tick() {
    let mut p = player(1, 0, 0);
    cast_line(&mut p, true);
    for _ in 0..12 {
        assert!(!fishing_step(&mut p));
    }
    assert_eq!(p.fishing_progress, 96);
    assert!(fishing_step(&mut p));
    assert_eq!(p.fishing_progress, 0);
    assert!(!p.fishing);
    // with automatic casting the line stays out
    p.auto_fish = true;
    cast_line(&mut p, true);
    for _ in 0..13 {
        fishing_step(&mut p);
    }
    assert!(p.fishing);
}

fn stack(uid: u64, idx: i32, count: u16) -> Option<UserItem> {
    Some(UserItem { unique_id: uid, item_index: idx, count, current_dura: 0, max_dura: 0 })
}

#[test]
fn wearing_and_taking_off_through_the_bag() {
    let sword = UserItem { unique_id: 1000, item_index: 1, count: 1, current_dura: 20, max_dura: 20 };
    let mut bag = vec![Some(sword), stack(1001, 3, 5), None, None];
    let mut eq = BTreeMap::new();
    assert_eq!(first_empty_slot(&bag), Some(2));
    assert!(equip_from_bag(&mut bag, &mut eq, 0, 0));
    assert_eq!(bag[0], None);
    assert_eq!(eq[&0], sword);
    // a second weapon swaps with the first, which goes to the first empty slot
    let club = UserItem { unique_id: 7, item_index: 1, count: 1, current_dura: 5, max_dura: 20 };
    bag[3] = Some(club);
    assert!(equip_from_bag(&mut bag, &mut eq, 3, 0));
    assert_eq!(eq[&0], club);
    assert_eq!(bag[0], Some(sword));
    assert_eq!(bag[3], None);
    // a full bag refuses the swap
    let mut full = vec![Some(club), stack(2, 3, 1)];
    let mut eq2 = BTreeMap::new();
    eq2.insert(0, sword);
    assert!(!equip_from_bag(&mut full, &mut eq2, 0, 0));
    assert_eq!(eq2[&0], sword);
    assert_eq!(unequip_to_bag(&mut full, &mut eq2, 0), None);
    assert_eq!(unequip_to_bag(&mut bag, &mut eq, 5), None);
    assert_eq!(unequip_to_bag(&mut bag, &mut eq, 0), Some(2));
    assert_eq!(bag[2], Some(club));
    assert!(eq.is_empty());
}

#[test]
fn splitting_and_merging_stacks() {
    let mut bag = vec![stack(1001, 3, 5), None, stack(9, 1, 1)];
    assert_eq!(split_in_bag(&mut bag, 1, 0, 0), None);
    assert_eq!(split_in_bag(&mut bag, 1, 0, 5), None);
    assert_eq!(split_in_bag(&mut bag, 1, 0, 2), Some(1));
    assert_eq!(bag[0].unwrap().count, 3);
    assert_eq!(bag[1], stack(1001, 3, 2));
    assert_eq!(split_in_bag(&mut bag, 1, 0, 1), None);
    assert_eq!(merge_in_bag(&mut bag, 1, 1), (false, 0));
    assert_eq!(merge_in_bag(&mut bag, 1, 2), (false, 0));
    assert_eq!(merge_in_bag(&mut bag, 1, 0), (true, 5));
    assert_eq!(bag[0].unwrap().count, 5);
    assert_eq!(bag[1], None);
}
