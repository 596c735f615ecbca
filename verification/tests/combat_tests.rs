use std::collections::{BTreeMap, HashMap};

use crystal_server::combat::{
    fishing_step, monster_ai_step, monster_drops, monster_hit_player, pickup_target, player_attack,
    player_harvest, player_hit_monster, player_magic_attack, player_range_attack, respawn_tick,
    revive_player, seed_monsters, seed_npcs, MonsterAction,
};
use crystal_server::entities::{
    equipment_slots, gain_experience, gain_gold, recompute_stats, regen_step, remove_gold,
    use_consumable, xp_needed, GroundItem, Monster, Player, UserItem,
};
use crystal_server::types::{MirClass, MirDirection, MirGender, Point};
use crystal_server::world::World;

fn player(id: u32, x: i32, y: i32) -> Player {
    Player {
        object_id: id,
        account_id: "acc".to_string(),
        name: format!("p{id}"),
        class: MirClass::Warrior,
        gender: MirGender::Male,
        level: 1,
        location: Point::new(x, y),
        direction: MirDirection::Down,
        max_hp: 48,
        hp: 48,
        max_mp: 10,
        mp: 10,
        attack: 5,
        defence: 0,
        experience: 0,
        gold: 0,
        weapon: 0,
        armour: 0,
        character_index: 1,
        hp_changed: false,
        equipment: BTreeMap::new(),
        map_index: 0,
        auto_pot_item: 0,
        auto_pot_hp: 0,
        recently_sold: vec![],
        fishing: false,
        fishing_progress: 0,
        auto_fish: false,
        storage_unlocked: false,
        pending_mentor: None,
        can_be_mentor: true,
        pending_marriage: None,
        dead: false,
        a_mode: 0,
        allow_group: true,
        p_mode: 0,
        magic_keys: HashMap::new(),
    }
}

fn monster(id: u32, x: i32, y: i32) -> Monster {
    Monster {
        object_id: id,
        name: "骷髅".to_string(),
        image: 3,
        location: Point::new(x, y),
        direction: MirDirection::Up,
        level: 3,
        max_hp: 20,
        hp: 20,
        attack: 3,
        defence: 1,
        exp_reward: 12,
        gold_reward: 8,
        drops: vec![1, 0, 3],
        dead: false,
        dead_ticks: 0,
        harvested: false,
        harvest_item: 6,
        target: None,
        cooldown: 0,
        map_index: 0,
        ranged: false,
    }
}

#[test]
fn experience_levels_up_and_keeps_remainder() {
    let mut p = player(1, 0, 0);
    assert_eq!(xp_needed(7), 70);
    assert!(!gain_experience(&mut p, 9));
    assert_eq!((p.level, p.experience), (1, 9));
    // 9 + 26 = 35: level 1 costs 10, level 2 costs 20, 5 left at level 3
    assert!(gain_experience(&mut p, 26));
    assert_eq!((p.level, p.experience), (3, 5));
    assert_eq!((p.max_hp, p.hp, p.max_mp, p.mp, p.attack), (58, 58, 16, 16, 7));
}

#[test]
fn experience_stops_at_level_fifty() {
    let mut p = player(1, 0, 0);
    p.level = 49;
    assert!(gain_experience(&mut p, 1000));
    assert_eq!((p.level, p.experience), (50, 510));
}

#[test]
fn gold_saturates_and_removal_needs_funds() {
    let mut p = player(1, 0, 0);
    gain_gold(&mut p, u32::MAX - 1);
    gain_gold(&mut p, 5);
    assert_eq!(p.gold, u32::MAX);
    assert!(remove_gold(&mut p, 10));
    assert_eq!(p.gold, u32::MAX - 10);
    p.gold = 3;
    assert!(!remove_gold(&mut p, 4));
    assert_eq!(p.gold, 3);
}

#[test]
fn equipment_bonus_and_broken_items() {
    let mut p = player(1, 0, 0);
    p.level = 4;
    p.equipment.insert(0, UserItem { unique_id: 1, item_index: 1, count: 1, current_dura: 5, max_dura: 10 });
    p.equipment.insert(1, UserItem { unique_id: 2, item_index: 2, count: 1, current_dura: 0, max_dura: 10 });
    recompute_stats(&mut p);
    assert_eq!((p.attack, p.defence, p.weapon, p.armour), (1 + 2 + 2, 2, 1, 0));
    let slots = equipment_slots(&p);
    assert_eq!(slots.len(), 14);
    assert_eq!(slots[0].unwrap().unique_id, 1);
    assert!(slots[2].is_none());
}

#[test]
fn regeneration_and_potions() {
    let mut p = player(1, 0, 0);
    p.hp = 46;
    p.mp = 9;
    assert_eq!(regen_step(&p), (Some((48, 10)), None));
    p.auto_pot_item = 3;
    p.auto_pot_hp = 46;
    assert_eq!(regen_step(&p).1, Some(3));
    p.dead = true;
    assert_eq!(regen_step(&p), (None, None));
    p.dead = false;
    p.hp = 10;
    assert!(use_consumable(&mut p, 3));
    assert_eq!(p.hp, 40);
    assert!(!use_consumable(&mut p, 1));
    assert!(!use_consumable(&mut p, 77));
    assert!(use_consumable(&mut p, 3));
    assert_eq!(p.hp, 48);
}

#[test]
fn monster_notices_chases_and_attacks() {
    let world = World::new();
    let players = vec![player(7, 404, 400)];
    let mut m = monster(100, 400, 400);
    // distance 4: noticed, not adjacent, not ranged: a chase step to the right
    let a = monster_ai_step(&world, &mut m, &players);
    assert_eq!(a, MonsterAction::Move { to: Point::new(401, 400), dir: MirDirection::Right });
    assert_eq!(m.target, Some(7));
    assert_eq!(m.cooldown, 1);
    // resting
    assert_eq!(monster_ai_step(&world, &mut m, &players), MonsterAction::Idle);
    assert_eq!(m.cooldown, 0);
    m.location = Point::new(403, 400);
    let hit = monster_ai_step(&world, &mut m, &players);
    assert_eq!(hit, MonsterAction::Attack { player_id: 7, damage: 3, ranged: false });
}

#[test]
fn ranged_monster_shoots_and_dead_players_are_ignored() {
    let world = World::new();
    let mut players = vec![player(7, 405, 400)];
    let mut m = monster(100, 400, 400);
    m.ranged = true;
    m.attack = 0;
    let a = monster_ai_step(&world, &mut m, &players);
    assert_eq!(a, MonsterAction::Attack { player_id: 7, damage: 1, ranged: true });
    players[0].dead = true;
    assert_eq!(monster_ai_step(&world, &mut m, &players), MonsterAction::Idle);
    assert_eq!(m.target, None);
    // out of perception
    let far = vec![player(8, 410, 400)];
    assert_eq!(monster_ai_step(&world, &mut m, &far), MonsterAction::Idle);
    assert_eq!(m.target, None);
}

#[test]
fn hits_deaths_and_revival() {
    let world = World::new();
    let mut m = monster(100, 400, 400);
    let mut p = player(7, 401, 400);
    assert!(!monster_hit_player(&mut m, &mut p, 10));
    assert_eq!((p.hp, m.cooldown), (38, 3));
    assert!(monster_hit_player(&mut m, &mut p, 100));
    assert!(p.dead && p.hp == 0);
    assert_eq!(player_hit_monster(&mut m, 7, 5), Some(false));
    assert_eq!((m.hp, m.target, m.cooldown), (15, Some(7), 2));
    assert_eq!(player_hit_monster(&mut m, 7, 50), Some(true));
    assert!(m.dead && m.hp == 0);
    assert_eq!(player_hit_monster(&mut m, 7, 1), None);
    p.map_index = 5;
    assert!(revive_player(&world, &mut p));
    assert!(!p.dead);
    assert_eq!((p.hp, p.mp, p.map_index, p.location), (48, 10, 0, Point::new(400, 400)));
    assert!(!revive_player(&world, &mut p));
}

#[test]
fn melee_magic_and_bow_attacks() {
    let mut p = player(7, 400, 400);
    let ms = vec![monster(1, 401, 401), monster(2, 400, 399)];
    // facing up: the monster in front is hit first
    let (id, dmg) = player_attack(&p, &ms, MirDirection::Up).unwrap();
    assert_eq!(id, 2);
    assert!((5..=7).contains(&dmg));
    // facing left: nothing in front, the first neighbour (row by row) is hit
    assert_eq!(player_attack(&p, &ms, MirDirection::Left).unwrap().0, 2);
    let far = vec![monster(3, 410, 410)];
    assert!(player_attack(&p, &far, MirDirection::Up).is_none());
    // spell: a monster on the line up is hit, mana is spent
    let (tid, loc, sdmg) = player_magic_attack(&mut p, &ms, MirDirection::Up, 1).unwrap();
    assert_eq!((tid, loc, sdmg), (2, Point::new(400, 399), 15 + 2 - 1));
    assert_eq!(p.mp, 5);
    assert!(player_magic_attack(&mut p, &ms, MirDirection::Up, 2).is_none());
    assert!(player_magic_attack(&mut p, &ms, MirDirection::Up, 9).is_none());
    // bow: within nine cells only
    let (bl, bd) = player_range_attack(&p, &far, 3).unwrap_or((Point::new(0, 0), 0));
    assert_eq!((bl, bd), (Point::new(0, 0), 0));
    let near = vec![monster(4, 403, 400)];
    let (l, d) = player_range_attack(&p, &near, 4).unwrap();
    assert_eq!(l, Point::new(403, 400));
    assert!((5 * 3 + 1..=5 * 3 + 3).contains(&d));
    assert!(player_range_attack(&p, &near, 99).is_none());
}

#[test]
fn harvest_pickup_respawn_drops_fishing() {
    let mut p = player(7, 400, 400);
    let mut ms = vec![monster(1, 400, 398), monster(2, 401, 399)];
    ms[0].dead = true;
    ms[1].dead = true;
    ms[1].harvest_item = 0;
    assert_eq!(player_harvest(&mut p, &mut ms, MirDirection::Up), Some((1, 6)));
    assert!(ms[0].harvested);
    assert_eq!(p.direction, MirDirection::Up);
    assert_eq!(player_harvest(&mut p, &mut ms, MirDirection::Up), None);
    let items = vec![
        GroundItem { object_id: 9, item_index: 3, count: 1, location: Point::new(402, 400), unique_id: 1, map_index: 0, gold: 0 },
        GroundItem { object_id: 8, item_index: 3, count: 1, location: Point::new(401, 400), unique_id: 2, map_index: 0, gold: 0 },
    ];
    assert_eq!(pickup_target(&p, &items), Some(8));
    let mut m = monster(5, 0, 0);
    m.dead = true;
    m.dead_ticks = 28;
    assert!(!respawn_tick(&mut m));
    assert!(respawn_tick(&mut m));
    assert!(!m.dead && m.hp == m.max_hp && m.dead_ticks == 0);
    let mut w = World::new();
    let drops = monster_drops(&mut w, &m);
    assert_eq!(drops.iter().map(|g| g.item_index).collect::<Vec<_>>(), vec![1, 3]);
    assert_ne!(drops[0].object_id, drops[1].object_id);
    p.fishing = true;
    let mut bites = 0;
    for _ in 0..13 {
        if fishing_step(&mut p) {
            bites += 1;
        }
    }
    assert_eq!(bites, 1);
    assert!(!p.fishing);
}

#[test]
fn seeding_spawns_configured_monsters_and_npcs() {
    let mut w = World::new();
    let ms = seed_monsters(&mut w, &vec![0, 100]);
    assert_eq!(ms.len(), 24);
    assert_eq!(ms[0].object_id, 1);
    assert_eq!(ms[0].location, Point::new(400, 400));
    assert_eq!(ms[0].image, 3);
    assert_eq!(ms[1].image, 4);
    assert_eq!(ms[2].image, 2);
    assert_eq!(ms[20].map_index, 100);
    assert_eq!(ms[20].location, Point::new(8, 5));
    assert_eq!(ms[23].object_id, 24);
    assert_eq!(ms[0].drops, vec![1, 2, 3, 4, 5]);
    let npcs = seed_npcs(&mut w);
    assert_eq!(npcs.len(), 3);
    assert_eq!(npcs[0].name, "铁匠铺");
    assert_eq!(npcs[0].location, Point::new(404, 400));
    assert_eq!(npcs[1].name, "任务管理员");
    assert_eq!(npcs[2].location, Point::new(404, 412));
}
