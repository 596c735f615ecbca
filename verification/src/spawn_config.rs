//! Spawn configuration: the monster templates and, per map, the cells where
//! monsters are spawned. This is the single source the world seeds monsters
//! from; maps and points can be added here without touching combat or
//! spawning logic.
//!
//! - three monster templates (scarecrow, skeleton, spider);
//! - map 0: twenty points around the starting town;
//! - maps 100 and 101: four points each.
use vstd::prelude::*;

verus! {

/// A monster template.
#[derive(Debug, Clone, Copy)]
pub struct MonsterTemplate {
    pub image: u16,
    pub name: &'static str,
    pub level: u16,
    pub hp: i32,
    pub attack: i32,
    pub defence: i32,
    pub exp: u32,
    pub gold: u32,
    /// Attacks from a distance (shoots within range).
    pub ranged: bool,
    /// Item index harvested from the corpse (0 = cannot be harvested).
    pub harvest_item: i32,
}

/// The spawn points of one map.
#[derive(Debug, Clone)]
pub struct MapSpawn {
    pub map_index: u32,
    pub points: Vec<(i32, i32)>,
}

/// The monster templates, in order.
pub open spec fn template_table() -> Seq<MonsterTemplate> {
    seq![
        MonsterTemplate { image: 2, name: "稻草人", level: 1, hp: 12, attack: 1, defence: 0, exp: 5, gold: 3, ranged: false, harvest_item: 0 },
        MonsterTemplate { image: 3, name: "骷髅", level: 3, hp: 20, attack: 3, defence: 1, exp: 12, gold: 8, ranged: false, harvest_item: 6 },
        MonsterTemplate { image: 4, name: "蜘蛛", level: 4, hp: 26, attack: 5, defence: 2, exp: 20, gold: 12, ranged: true, harvest_item: 0 },
    ]
}

/// Spawn points of map 0.
pub open spec fn town_points() -> Seq<(i32, i32)> {
    seq![
        (400i32, 400i32), (403, 402), (406, 400), (401, 405), (405, 405),
        (398, 403), (407, 403), (403, 399), (399, 407), (406, 407),
        (402, 402), (404, 398), (397, 401), (408, 405), (401, 399),
        (407, 401), (404, 408), (399, 404), (406, 405), (402, 406),
    ]
}

/// Spawn points of map 100.
pub open spec fn map100_points() -> Seq<(i32, i32)> {
    seq![(8i32, 5i32), (9, 6), (11, 7), (12, 8)]
}

/// Spawn points of map 101.
pub open spec fn map101_points() -> Seq<(i32, i32)> {
    seq![(10i32, 14i32), (12, 15), (13, 12), (11, 11)]
}

/// The maps that have spawn points, in order, with their points.
pub open spec fn spawn_table() -> Seq<(u32, Seq<(i32, i32)>)> {
    seq![(0u32, town_points()), (100u32, map100_points()), (101u32, map101_points())]
}

/// The spawn points of map `map_index` (none for a map without an entry).
pub open spec fn spec_spawn_points(map_index: u32) -> Seq<(i32, i32)> {
    if map_index == 0 {
        town_points()
    } else if map_index == 100 {
        map100_points()
    } else if map_index == 101 {
        map101_points()
    } else {
        Seq::empty()
    }
}

/// All monster templates. Each has positive hit points and experience and
/// a non-negative attack.
pub fn monster_templates() -> (r: [MonsterTemplate; 3])
    ensures
        r@ == template_table(),
        forall|i: int| 0 <= i < 3 ==> (#[trigger] r@[i]).hp > 0 && r@[i].attack >= 0 && r@[i].exp > 0,
{
    let r = [
        MonsterTemplate { image: 2, name: "稻草人", level: 1, hp: 12, attack: 1, defence: 0, exp: 5, gold: 3, ranged: false, harvest_item: 0 },
        MonsterTemplate { image: 3, name: "骷髅", level: 3, hp: 20, attack: 3, defence: 1, exp: 12, gold: 8, ranged: false, harvest_item: 6 },
        MonsterTemplate { image: 4, name: "蜘蛛", level: 4, hp: 26, attack: 5, defence: 2, exp: 20, gold: 12, ranged: true, harvest_item: 0 },
    ];
    assert(r@ =~= template_table());
    r
}

fn town_points_vec() -> (r: Vec<(i32, i32)>)
    ensures
        r@ == town_points(),
{
    let r = vec![
        (400i32, 400i32), (403, 402), (406, 400), (401, 405), (405, 405),
        (398, 403), (407, 403), (403, 399), (399, 407), (406, 407),
        (402, 402), (404, 398), (397, 401), (408, 405), (401, 399),
        (407, 401), (404, 408), (399, 404), (406, 405), (402, 406),
    ];
    assert(r@ =~= town_points());
    r
}

/// The whole spawn configuration, one entry per map; no map has two entries.
pub fn spawn_config() -> (r: Vec<MapSpawn>)
    ensures
        r@.len() == spawn_table().len(),
        forall|i: int|
            0 <= i < r@.len() ==> (#[trigger] r@[i]).map_index == spawn_table()[i].0
                && r@[i].points@ == spawn_table()[i].1,
        forall|i: int, j: int|
            0 <= i < j < r@.len() ==> (#[trigger] r@[i]).map_index != (#[trigger] r@[j]).map_index,
{
    let p100 = vec![(8i32, 5i32), (9, 6), (11, 7), (12, 8)];
    assert(p100@ =~= map100_points());
    let p101 = vec![(10i32, 14i32), (12, 15), (13, 12), (11, 11)];
    assert(p101@ =~= map101_points());
    let r = vec![
        MapSpawn { map_index: 0, points: town_points_vec() },
        MapSpawn { map_index: 100, points: p100 },
        MapSpawn { map_index: 101, points: p101 },
    ];
    r
}

fn copy_points(v: &Vec<(i32, i32)>) -> (r: Vec<(i32, i32)>)
    ensures
        r@ == v@,
{
    let mut r: Vec<(i32, i32)> = Vec::new();
    let mut i: usize = 0;
    while i < v.len()
        invariant
            i <= v.len(),
            r@ == v@.take(i as int),
        decreases v.len() - i,
    {
        r.push(v[i]);
        i = i + 1;
        assert(r@ =~= v@.take(i as int));
    }
    assert(v@.take(v.len() as int) =~= v@);
    r
}

/// The spawn points of map `map_index`; empty for a map without an entry.
pub fn spawn_points_for(map_index: u32) -> (r: Vec<(i32, i32)>)
    ensures
        r@ == spec_spawn_points(map_index),
{
    let config = spawn_config();
    let mut i: usize = 0;
    while i < config.len()
        invariant
            i <= config.len(),
            config@.len() == spawn_table().len(),
            forall|k: int|
                0 <= k < config@.len() ==> (#[trigger] config@[k]).map_index == spawn_table()[k].0
                    && config@[k].points@ == spawn_table()[k].1,
            forall|k: int| 0 <= k < i ==> (#[trigger] spawn_table()[k]).0 != map_index,
        decreases config.len() - i,
    {
        if config[i].map_index == map_index {
            return copy_points(&config[i].points);
        }
        i = i + 1;
    }
    assert(spawn_table()[0].0 != map_index);
    assert(spawn_table()[1].0 != map_index);
    assert(spawn_table()[2].0 != map_index);
    Vec::new()
}

} // verus!
