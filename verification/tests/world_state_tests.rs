use std::collections::{BTreeMap, HashMap};

use crystal_server::combat::{
    monster_ai_step, monster_hit_player, player_died, player_harvest, player_hit_monster,
    player_range_attack, revive_player, teleport_player, MonsterAction, MAX_ATTACK_RANGE,
};
use crystal_server::entities::{regen_step, Monster, Player};
use crystal_server::inventory::{add_item_plan, AddPlan};
use crystal_server::maps::load_map_bytes;
use crystal_server::objects::world_state_for;
use crystal_server::types::{MirClass, MirDirection, MirGender, Point};
use crystal_server::world::World;

fn open_map(index: u32, w: u16, h: u16) -> crystal_server::maps::GameMap {
    let mut b = vec![0u8; 8 + w as usize * h as usize * 26];
    b[0] = 1;
    b[2] = 0x43;
    b[3] = 0x23;
    b[4..6].copy_from_slice(&w.to_le_bytes());
    b[6..8].copy_from_slice(&h.to_le_bytes());
    load_map_bytes(index, &b).unwrap()
}

fn test_player(oid: u32, loc: Point) -> Player {
    Player {
        object_id: oid,
        account_id: "t".into(),
        name: format!("P{oid}"),
        class: MirClass::Warrior,
        gender: MirGender::Male,
        level: 5,
        location: loc,
        direction: MirDirection::Up,
        max_hp: 100,
        hp: 100,
        max_mp: 50,
        mp: 50,
        attack: 10,
        defence: 2,
        experience: 0,
        gold: 0,
        weapon: 0,
        armour: 0,
        character_index: oid as i32,
        hp_changed: false,
        equipment: BTreeMap::new(),
        map_index: 0,
        auto_pot_item: 0,
        auto_pot_hp: 0,
        recently_sold: vec![],
        fishing: false,
        fishing_progress: 0,
        auto_fish: false,
        storage_unlocked: false,
        pending_mentor: None,
        can_be_mentor: false,
        pending_marriage: None,
        dead: false,
        a_mode: 0,
        allow_group: true,
        p_mode: 0,
        magic_keys: HashMap::new(),
    }
}

fn target_monster(oid: u32, loc: Point) -> Monster {
    Monster {
        object_id: oid,
        name: "靶子".into(),
        image: 3,
        location: loc,
        direction: MirDirection::Up,
        level: 1,
        max_hp: 1000,
        hp: 1000,
        attack: 0,
        defence: 0,
        exp_reward: 0,
        gold_reward: 0,
        drops: vec![],
        dead: false,
        dead_ticks: 0,
        harvested: false,
        harvest_item: 0,
        target: None,
        cooldown: 0,
        map_index: 0,
        ranged: false,
    }
}

#[test]
fn teleport_player_switches_map() {
    let mut world = World::with_map(open_map(0, 10, 10));
    world.register_map(open_map(100, 10, 10));
    let mut p = test_player(1, Point::new(404, 411));
    p.direction = MirDirection::Down;
    teleport_player(&world, &mut p, 100, 8, 6);
    assert_eq!(p.map_index, 100);
    let map = world.get_map(100);
    assert!(map.is_walkable(p.location.x, p.location.y));
}

#[test]
fn monsters_are_tagged_with_map() {
    let mut m1 = target_monster(1, Point::new(1, 0));
    m1.map_index = 0;
    let mut m2 = target_monster(2, Point::new(2, 0));
    m2.map_index = 100;
    let ms = vec![m1, m2];
    assert_eq!(ms[0].map_index, 0);
    assert_eq!(ms[1].map_index, 100);
    // each map shows only its own monsters
    assert_eq!(world_state_for(0, &ms, &vec![], &vec![]).0, vec![1]);
    assert_eq!(world_state_for(100, &ms, &vec![], &vec![]).0, vec![2]);
}

#[test]
fn death_retention_keeps_corpse_until_town_revive() {
    let world = World::new();
    let mut p = test_player(1, Point::new(420, 420));
    player_died(&mut p);
    assert!(p.dead);
    assert_eq!(p.hp, 0);
    assert_eq!(p.location, Point::new(420, 420));
    // no regeneration for a corpse
    assert_eq!(regen_step(&p), (None, None));
    assert_eq!(p.hp, 0);
    assert!(revive_player(&world, &mut p));
    assert!(!p.dead);
    assert_eq!(p.hp, p.max_hp);
    assert_eq!(p.location, Point::new(400, 400));
}

#[test]
fn revive_rejects_alive_player() {
    let world = World::new();
    let mut p = test_player(1, Point::new(400, 400));
    assert!(!revive_player(&world, &mut p));
}

#[test]
fn range_attack_hits_within_max_range_only() {
    let p = test_player(1, Point::new(400, 400));
    let mut ms = vec![
        target_monster(10, Point::new(405, 400)),
        target_monster(11, Point::new(400 + MAX_ATTACK_RANGE + 2, 400)),
    ];
    let hit = player_range_attack(&p, &ms, 10);
    let (loc, dmg) = hit.expect("a bow shot within range hits");
    assert_eq!(loc, Point::new(405, 400));
    assert_eq!(player_hit_monster(&mut ms[0], 1, dmg), Some(false));
    assert!(ms[0].hp < 1000);
    assert_eq!(player_range_attack(&p, &ms, 11), None);
    assert_eq!(ms[1].hp, 1000);
}

#[test]
fn ranged_monster_shoots_without_moving() {
    let world = World::new();
    let mut players = vec![test_player(1, Point::new(400, 400))];
    let mut m = Monster {
        object_id: 7,
        name: "远程蛛".into(),
        image: 4,
        location: Point::new(404, 400),
        direction: MirDirection::Left,
        level: 4,
        max_hp: 26,
        hp: 26,
        attack: 5,
        defence: 2,
        exp_reward: 20,
        gold_reward: 12,
        drops: vec![],
        dead: false,
        dead_ticks: 0,
        harvested: false,
        harvest_item: 0,
        target: None,
        cooldown: 0,
        map_index: 0,
        ranged: true,
    };
    let action = monster_ai_step(&world, &mut m, &players);
    match action {
        MonsterAction::Attack { player_id, damage, ranged } => {
            assert_eq!(player_id, 1);
            assert!(ranged);
            monster_hit_player(&mut m, &mut players[0], damage);
        }
        other => panic!("expected a shot, got {other:?}"),
    }
    assert!(players[0].hp < players[0].max_hp);
    assert_eq!(m.location, Point::new(404, 400));
    assert_eq!(m.target, Some(1));
}

#[test]
fn monsters_ignore_dead_players() {
    let world = World::new();
    let mut players = vec![test_player(1, Point::new(400, 400))];
    let mut m = Monster {
        object_id: 7,
        name: "近战骷".into(),
        image: 3,
        location: Point::new(401, 400),
        direction: MirDirection::Left,
        level: 3,
        max_hp: 20,
        hp: 20,
        attack: 3,
        defence: 1,
        exp_reward: 12,
        gold_reward: 8,
        drops: vec![],
        dead: false,
        dead_ticks: 0,
        harvested: false,
        harvest_item: 0,
        target: None,
        cooldown: 0,
        map_index: 0,
        ranged: false,
    };
    player_died(&mut players[0]);
    assert_eq!(monster_ai_step(&world, &mut m, &players), MonsterAction::Idle);
    assert_eq!(m.target, None);
    assert_eq!(players[0].hp, 0);
}

#[test]
fn harvest_dead_monster_grants_item_and_marks_harvested() {
    let mut p = test_player(1, Point::new(400, 400));
    let mut corpse = target_monster(10, Point::new(401, 400));
    corpse.name = "骷髅".into();
    corpse.level = 3;
    corpse.max_hp = 20;
    corpse.hp = 0;
    corpse.dead = true;
    corpse.dead_ticks = 1;
    corpse.harvest_item = 6;
    let mut ms = vec![corpse];
    let got = player_harvest(&mut p, &mut ms, MirDirection::Right);
    assert_eq!(got, Some((10, 6)));
    assert!(ms[0].harvested);
    // the harvested item goes into the (empty) bag
    assert_eq!(add_item_plan(None, &vec![], 40), AddPlan::NewSlot(0));
    assert_eq!(player_harvest(&mut p, &mut ms, MirDirection::Right), None);
}

#[test]
fn harvest_ignores_alive_monsters_and_empty_cells() {
    let mut p = test_player(1, Point::new(400, 400));
    let mut alive = target_monster(11, Point::new(401, 400));
    alive.name = "蜘蛛".into();
    alive.harvest_item = 6;
    alive.ranged = true;
    let mut ms = vec![alive];
    assert_eq!(player_harvest(&mut p, &mut ms, MirDirection::Right), None);
    assert_eq!(player_harvest(&mut p, &mut ms, MirDirection::Left), None);
}
