//! Combat and the world tick: monster AI decisions, player attacks (melee,
//! spell, bow), hits and deaths, revival, harvesting corpses, picking up,
//! respawning monsters and fishing.
//!
//! Entity tables are passed as lists in the order the caller walks its
//! tables; where a rule looks for "a monster at a cell" it takes the first
//! one of that order. Object ids are unique within a table.
use rand::Rng;
use vstd::prelude::*;

use std::collections::{BTreeMap, HashMap};

use crate::db::CharacterRow;
use crate::entities::{
    gain_experience, gain_gold, level_up, progress_of, recompute_stats, room_to_level, slot_bonus,
    GroundItem, Monster, Npc, Player, Progress, UserItem, ARMOUR_SLOT, WEAPON_SLOT,
};
use crate::quest::{register_kill, spec_register_kill, QuestProgress};
use crate::maps::GameMap;
use crate::spawn_config::{monster_templates, spawn_points_for, spec_spawn_points, template_table};
use crate::types::{dir_num, MirDirection, MirGender, Point};
use crate::world::{
    abs, chase_best, coord_ok, dist, direction_offset, manhattan, spec_nearest, spec_offset, World,
};

verus! {

// ----------------------------------------------------------------------------
// Searching lists
// ----------------------------------------------------------------------------

/// `k` is the first index of `s` whose element satisfies `p`.
pub open spec fn is_first<T>(s: Seq<T>, p: spec_fn(T) -> bool, k: int) -> bool {
    &&& 0 <= k < s.len()
    &&& p(s[k])
    &&& forall|j: int| 0 <= j < k ==> !p(#[trigger] s[j])
}

/// The first index of `s` whose element satisfies `p`.
pub open spec fn first_match<T>(s: Seq<T>, p: spec_fn(T) -> bool) -> Option<int> {
    if exists|k: int| is_first(s, p, k) {
        Some(choose|k: int| is_first(s, p, k))
    } else {
        None
    }
}

pub proof fn lemma_first_match<T>(s: Seq<T>, p: spec_fn(T) -> bool, k: int)
    requires
        is_first(s, p, k),
    ensures
        first_match(s, p) == Some(k),
{
    let c = choose|c: int| is_first(s, p, c);
    if c < k {
        assert(!p(s[c]));
    } else if k < c {
        assert(!p(s[k]));
    }
}

/// A living monster of map `map` on cell (x, y).
pub open spec fn alive_at(map: u32, x: int, y: int) -> spec_fn(Monster) -> bool {
    |m: Monster| !m.dead && m.map_index == map && m.location.x == x && m.location.y == y
}

/// An unharvested corpse of map `map` on cell (x, y).
pub open spec fn corpse_at(map: u32, x: int, y: int) -> spec_fn(Monster) -> bool {
    |m: Monster| m.dead && !m.harvested && m.map_index == map && m.location.x == x && m.location.y
        == y
}

/// The monster with object id `id`.
pub open spec fn monster_id(id: u32) -> spec_fn(Monster) -> bool {
    |m: Monster| m.object_id == id
}

/// The player with object id `id`.
pub open spec fn player_id(id: u32) -> spec_fn(Player) -> bool {
    |p: Player| p.object_id == id
}

/// The first monster (index) that `alive_at(map, x, y)` picks.
fn find_alive_at(ms: &Vec<Monster>, map: u32, x: i32, y: i32) -> (r: Option<usize>)
    ensures
        match r {
            Some(k) => first_match(ms@, alive_at(map, x as int, y as int)) == Some(k as int),
            None => first_match(ms@, alive_at(map, x as int, y as int)) is None,
        },
{
    let ghost p = alive_at(map, x as int, y as int);
    let mut i: usize = 0;
    while i < ms.len()
        invariant
            i <= ms.len(),
            p == alive_at(map, x as int, y as int),
            forall|j: int| 0 <= j < i ==> !p(#[trigger] ms@[j]),
        decreases ms.len() - i,
    {
        let m = &ms[i];
        if !m.dead && m.map_index == map && m.location.x == x && m.location.y == y {
            proof {
                lemma_first_match(ms@, p, i as int);
            }
            return Some(i);
        }
        i = i + 1;
    }
    None
}

/// The first monster (index) that `corpse_at(map, x, y)` picks.
fn find_corpse_at(ms: &Vec<Monster>, map: u32, x: i32, y: i32) -> (r: Option<usize>)
    ensures
        match r {
            Some(k) => first_match(ms@, corpse_at(map, x as int, y as int)) == Some(k as int),
            None => first_match(ms@, corpse_at(map, x as int, y as int)) is None,
        },
{
    let ghost p = corpse_at(map, x as int, y as int);
    let mut i: usize = 0;
    while i < ms.len()
        invariant
            i <= ms.len(),
            p == corpse_at(map, x as int, y as int),
            forall|j: int| 0 <= j < i ==> !p(#[trigger] ms@[j]),
        decreases ms.len() - i,
    {
        let m = &ms[i];
        if m.dead && !m.harvested && m.map_index == map && m.location.x == x && m.location.y == y {
            proof {
                lemma_first_match(ms@, p, i as int);
            }
            return Some(i);
        }
        i = i + 1;
    }
    None
}

/// Another player of `me`'s map on the cell one step ahead of `me`.
pub open spec fn in_front_of(me: Player) -> spec_fn(Player) -> bool {
    |q: Player|
        q.object_id != me.object_id && q.map_index == me.map_index && q.location.x == me.location.x
            + spec_offset(me.direction, 1).0 && q.location.y == me.location.y + spec_offset(
            me.direction,
            1,
        ).1
}

/// The player (index) that `me` faces: the first other player of the same
/// map on the cell one step ahead (whom a trade request goes to).
pub fn facing_player(me: &Player, ps: &Vec<Player>) -> (r: Option<usize>)
    requires
        small(me.location),
    ensures
        match r {
            Some(k) => first_match(ps@, in_front_of(*me)) == Some(k as int),
            None => first_match(ps@, in_front_of(*me)) is None,
        },
{
    let ghost p = in_front_of(*me);
    let (dx, dy) = direction_offset(me.direction, 1);
    let fx = me.location.x + dx;
    let fy = me.location.y + dy;
    let mut i: usize = 0;
    while i < ps.len()
        invariant
            i <= ps.len(),
            p == in_front_of(*me),
            fx == me.location.x + spec_offset(me.direction, 1).0,
            fy == me.location.y + spec_offset(me.direction, 1).1,
            forall|j: int| 0 <= j < i ==> !p(#[trigger] ps@[j]),
        decreases ps.len() - i,
    {
        let q = &ps[i];
        if q.object_id != me.object_id && q.map_index == me.map_index && q.location.x == fx
            && q.location.y == fy {
            proof {
                lemma_first_match(ps@, p, i as int);
            }
            return Some(i);
        }
        i = i + 1;
    }
    None
}

/// The monster (index) with object id `id`.
pub fn find_monster(ms: &Vec<Monster>, id: u32) -> (r: Option<usize>)
    ensures
        match r {
            Some(k) => first_match(ms@, monster_id(id)) == Some(k as int),
            None => first_match(ms@, monster_id(id)) is None,
        },
{
    let ghost p = monster_id(id);
    let mut i: usize = 0;
    while i < ms.len()
        invariant
            i <= ms.len(),
            p == monster_id(id),
            forall|j: int| 0 <= j < i ==> !p(#[trigger] ms@[j]),
        decreases ms.len() - i,
    {
        if ms[i].object_id == id {
            proof {
                lemma_first_match(ms@, p, i as int);
            }
            return Some(i);
        }
        i = i + 1;
    }
    None
}

/// The player (index) with object id `id`.
pub fn find_player(ps: &Vec<Player>, id: u32) -> (r: Option<usize>)
    ensures
        match r {
            Some(k) => first_match(ps@, player_id(id)) == Some(k as int),
            None => first_match(ps@, player_id(id)) is None,
        },
{
    let ghost p = player_id(id);
    let mut i: usize = 0;
    while i < ps.len()
        invariant
            i <= ps.len(),
            p == player_id(id),
            forall|j: int| 0 <= j < i ==> !p(#[trigger] ps@[j]),
        decreases ps.len() - i,
    {
        if ps[i].object_id == id {
            proof {
                lemma_first_match(ps@, p, i as int);
            }
            return Some(i);
        }
        i = i + 1;
    }
    None
}

// ----------------------------------------------------------------------------
// Monster AI
// ----------------------------------------------------------------------------

/// A monster notices players within this distance.
pub const PERCEPTION: i32 = 5;

/// A monster gives up a target farther than this.
pub const LEASH: i32 = 12;

/// Range of a ranged monster.
pub const MONSTER_RANGE: i32 = 6;

/// What a monster does in one tick.
#[derive(Debug, Clone, Copy, PartialEq, Eq, Structural)]
pub enum MonsterAction {
    /// Nothing (cooling down, dead, no target, or nowhere to go).
    Idle,
    /// Stepped to `to`, facing `dir`.
    Move { to: Point, dir: MirDirection },
    /// Attacks player `player_id` for `damage`, from a distance if `ranged`.
    Attack { player_id: u32, damage: i32, ranged: bool },
}

/// Integer division rounding toward zero (as `/` on machine integers).
pub open spec fn tdiv(a: int, b: int) -> int {
    if a >= 0 {
        a / b
    } else {
        -((-a) / b)
    }
}

/// A player the monster can fight: on its map and alive.
pub open spec fn in_reach(m: Monster) -> spec_fn(Player) -> bool {
    |p: Player| p.map_index == m.map_index && !p.dead
}

/// The nearest candidate among the first `k` players for a monster without a
/// target: on its map, alive, within `PERCEPTION`; the earlier one on a tie.
/// (index, distance).
pub open spec fn nearest_player(m: Monster, ps: Seq<Player>, k: nat) -> Option<(int, int)>
    decreases k,
{
    if k == 0 {
        None
    } else {
        let prev = nearest_player(m, ps, (k - 1) as nat);
        let p = ps[k - 1];
        let d = dist(m.location, p.location);
        if p.map_index == m.map_index && !p.dead && d <= PERCEPTION && (match prev {
            None => true,
            Some((_, nd)) => d < nd,
        }) {
            Some(((k - 1) as int, d))
        } else {
            prev
        }
    }
}

/// The monster's target after re-checking: the old target while it is still
/// in reach, otherwise the nearest player that the monster notices.
pub open spec fn ai_target(m: Monster, ps: Seq<Player>) -> Option<u32> {
    let kept = match m.target {
        Some(tid) => match first_match(ps, player_id(tid)) {
            Some(k) => if in_reach(m)(ps[k]) {
                Some(tid)
            } else {
                None
            },
            None => None,
        },
        None => None,
    };
    match kept {
        Some(t) => Some(t),
        None => match nearest_player(m, ps, ps.len()) {
            Some((k, _)) => Some(ps[k].object_id),
            None => None,
        },
    }
}

/// The monster's state and action after one AI tick, with the main map of
/// world `w` for chasing:
/// - a cooling-down monster only counts its cool-down down;
/// - a dead monster does nothing;
/// - otherwise it (re)selects its target (`ai_target`); with a target within
///   `LEASH` it attacks an adjacent target (damage `max(attack, 1)` minus
///   half the target's defence, at least 1), shoots from up to
///   `MONSTER_RANGE` if ranged (a quarter of the defence), or takes a chase
///   step toward it (and then rests one tick).
pub open spec fn ai_step(w: World, m: Monster, ps: Seq<Player>) -> (Monster, MonsterAction) {
    if m.cooldown > 0 {
        (Monster { cooldown: (m.cooldown - 1) as u32, ..m }, MonsterAction::Idle)
    } else if m.dead {
        (m, MonsterAction::Idle)
    } else {
        let t = ai_target(m, ps);
        let m1 = Monster { target: t, ..m };
        match t {
            None => (m1, MonsterAction::Idle),
            Some(tid) => match first_match(ps, player_id(tid)) {
                None => (m1, MonsterAction::Idle),
                Some(k) => {
                    let p = ps[k];
                    let d = dist(m.location, p.location);
                    let a = if m.attack > 1 { m.attack as int } else { 1 };
                    if d > LEASH {
                        (m1, MonsterAction::Idle)
                    } else if d <= 1 {
                        let dmg = a - tdiv(p.defence as int, 2);
                        (
                            m1,
                            MonsterAction::Attack {
                                player_id: tid,
                                damage: if dmg > 1 { dmg as i32 } else { 1 },
                                ranged: false,
                            },
                        )
                    } else if m.ranged && d <= MONSTER_RANGE {
                        let dmg = a - tdiv(p.defence as int, 4);
                        (
                            m1,
                            MonsterAction::Attack {
                                player_id: tid,
                                damage: if dmg > 1 { dmg as i32 } else { 1 },
                                ranged: true,
                            },
                        )
                    } else {
                        match chase_best(w.map, m.location, p.location, 8) {
                            None => (m1, MonsterAction::Idle),
                            Some((c, dir, _, _)) => {
                                let to = Point { x: c.0 as i32, y: c.1 as i32 };
                                (
                                    Monster { location: to, direction: dir, cooldown: 1, ..m1 },
                                    MonsterAction::Move { to, dir },
                                )
                            },
                        }
                    }
                },
            },
        }
    }
}

/// No two players of the list share an object id (as in a table keyed by it).
pub open spec fn unique_player_ids(ps: Seq<Player>) -> bool {
    forall|i: int, j: int|
        0 <= i < j < ps.len() ==> (#[trigger] ps[i]).object_id != (#[trigger] ps[j]).object_id
}

proof fn lemma_nearest_player(m: Monster, ps: Seq<Player>, k: nat)
    requires
        k <= ps.len(),
    ensures
        nearest_player(m, ps, k) matches Some((i, d)) ==> {
            &&& 0 <= i < k
            &&& ps[i].map_index == m.map_index
            &&& !ps[i].dead
            &&& d == dist(m.location, ps[i].location)
            &&& d <= PERCEPTION
        },
    decreases k,
{
    if k > 0 {
        lemma_nearest_player(m, ps, (k - 1) as nat);
    }
}

/// A monster only ever targets a player on its own map who is alive: the
/// target it keeps or picks is such a player.
pub proof fn law_ai_target_in_reach(m: Monster, ps: Seq<Player>)
    ensures
        ai_target(m, ps) matches Some(t) ==> exists|k: int|
            0 <= k < ps.len() && (#[trigger] ps[k]).object_id == t && ps[k].map_index
                == m.map_index && !ps[k].dead,
{
    lemma_nearest_player(m, ps, ps.len());
    match m.target {
        Some(tid) => match first_match(ps, player_id(tid)) {
            Some(k) => {
                assert(is_first(ps, player_id(tid), k));
            },
            None => {},
        },
        None => {},
    }
}

/// A monster attacks only a living player of its map, adjacent to it, or
/// (a ranged monster) within `MONSTER_RANGE`; a monster that is cooling down
/// or dead does nothing.
pub proof fn law_ai_attacks_in_range(w: World, m: Monster, ps: Seq<Player>)
    requires
        unique_player_ids(ps),
    ensures
        ai_step(w, m, ps).1 matches MonsterAction::Attack { player_id: t, ranged, .. } ==> exists|
            k: int,
        |
            0 <= k < ps.len() && (#[trigger] ps[k]).object_id == t && ps[k].map_index
                == m.map_index && !ps[k].dead && dist(m.location, ps[k].location) <= (if ranged {
                MONSTER_RANGE as int
            } else {
                1
            }),
        (m.cooldown > 0 || m.dead) ==> ai_step(w, m, ps).1 == MonsterAction::Idle,
{
    law_ai_target_in_reach(m, ps);
    if m.cooldown == 0 && !m.dead {
        match ai_target(m, ps) {
            Some(tid) => match first_match(ps, player_id(tid)) {
                Some(k) => {
                    assert(is_first(ps, player_id(tid), k));
                    let j = choose|j: int|
                        0 <= j < ps.len() && (#[trigger] ps[j]).object_id == tid && ps[j].map_index
                            == m.map_index && !ps[j].dead;
                    if j < k {
                        assert(!player_id(tid)(ps[j]));
                    }
                    if k < j {
                        assert(ps[k].object_id == tid);
                    }
                },
                None => {},
            },
            None => {},
        }
    }
}

/// Coordinates of the monster and of every player small enough for the
/// distance arithmetic.
pub open spec fn ai_coords_ok(m: Monster, ps: Seq<Player>) -> bool {
    &&& small(m.location)
    &&& forall|i: int| 0 <= i < ps.len() ==> small((#[trigger] ps[i]).location)
}

/// A cell whose coordinates lie within 2^28 of the origin. Distances are
/// computed in `i32` as the sum of the two coordinate differences (and the
/// cells around a cell by adding one); between two such cells each
/// difference is below 2^29, so the sum stays below 2^30 and no step can
/// overflow `i32`, which the same arithmetic would on cells far apart.
pub open spec fn small(p: Point) -> bool {
    -0x0FFF_FFFF <= p.x <= 0x0FFF_FFFF && -0x0FFF_FFFF <= p.y <= 0x0FFF_FFFF
}

fn nearest_candidate(m: &Monster, ps: &Vec<Player>) -> (r: Option<(usize, i32)>)
    requires
        ai_coords_ok(*m, ps@),
    ensures
        match r {
            None => nearest_player(*m, ps@, ps@.len()) is None,
            Some((k, d)) => nearest_player(*m, ps@, ps@.len()) == Some((k as int, d as int)) && k
                < ps@.len(),
        },
{
    let mut best: Option<(usize, i32)> = None;
    let mut i: usize = 0;
    while i < ps.len()
        invariant
            i <= ps.len(),
            ai_coords_ok(*m, ps@),
            match best {
                None => nearest_player(*m, ps@, i as nat) is None,
                Some((k, d)) => nearest_player(*m, ps@, i as nat) == Some((k as int, d as int)) && k
                    < i && 0 <= d <= PERCEPTION,
            },
        decreases ps.len() - i,
    {
        let p = &ps[i];
        if p.map_index == m.map_index && !p.dead {
            assert(small(ps@[i as int].location));
            let d = manhattan(m.location, p.location);
            let closer = match best {
                None => true,
                Some((_, nd)) => d < nd,
            };
            if d <= PERCEPTION && closer {
                best = Some((i, d));
            }
        }
        i = i + 1;
    }
    best
}

/// One AI tick of monster `m` (see `ai_step`): updates the monster and
/// returns what it does. Attacks are carried out by the caller (see
/// `monster_hit_player`). The bounds asked for are where the `i32`
/// arithmetic stays in range: coordinates as in `small` (distances), the
/// monster's attack below `i32::MAX - 2^30` (an attack plus its roll), and
/// each player's defence within 2^30 of zero (that sum minus a defence).
pub fn monster_ai_step(w: &World, m: &mut Monster, ps: &Vec<Player>) -> (r: MonsterAction)
    requires
        w.wf(),
        ai_coords_ok(*old(m), ps@),
        old(m).attack < i32::MAX - 0x4000_0000,
        forall|i: int|
            0 <= i < ps@.len() ==> -0x4000_0000 <= (#[trigger] ps@[i]).defence <= 0x4000_0000,
    ensures
        (*final(m), r) == ai_step(*w, *old(m), ps@),
{
    if m.cooldown > 0 {
        m.cooldown = m.cooldown - 1;
        return MonsterAction::Idle;
    }
    if m.dead {
        return MonsterAction::Idle;
    }
    let mut target: Option<u32> = None;
    match m.target {
        Some(tid) => match find_player(ps, tid) {
            Some(k) => {
                if ps[k].map_index == m.map_index && !ps[k].dead {
                    target = Some(tid);
                }
            },
            None => {},
        },
        None => {},
    }
    let ghost kept = target;
    assert(kept == match old(m).target {
        Some(tid) => match first_match(ps@, player_id(tid)) {
            Some(k) => if in_reach(*old(m))(ps@[k]) {
                Some(tid)
            } else {
                None
            },
            None => None,
        },
        None => None,
    });
    if target.is_none() {
        match nearest_candidate(m, ps) {
            Some((k, _)) => {
                target = Some(ps[k].object_id);
            },
            None => {},
        }
    }
    assert(target == ai_target(*old(m), ps@));
    m.target = target;
    let tid = match target {
        Some(t) => t,
        None => return MonsterAction::Idle,
    };
    let k = match find_player(ps, tid) {
        Some(k) => k,
        None => return MonsterAction::Idle,
    };
    let p = &ps[k];
    assert(small(ps@[k as int].location));
    let d = manhattan(m.location, p.location);
    let a = if m.attack > 1 { m.attack } else { 1 };
    if d > LEASH {
        return MonsterAction::Idle;
    }
    assert(-0x4000_0000 <= ps@[k as int].defence <= 0x4000_0000);
    if d <= 1 {
        let dmg = a - p.defence / 2;
        return MonsterAction::Attack { player_id: tid, damage: if dmg > 1 { dmg } else { 1 }, ranged: false };
    }
    if m.ranged && d <= MONSTER_RANGE {
        let dmg = a - p.defence / 4;
        return MonsterAction::Attack { player_id: tid, damage: if dmg > 1 { dmg } else { 1 }, ranged: true };
    }
    let ghost mm = *m;
    match w.chase_step(m.location, p.location) {
        Some((to, dir)) => {
            m.location = to;
            m.direction = dir;
            m.cooldown = 1;
            assert(*m == Monster { location: to, direction: dir, cooldown: 1, ..mm });
            MonsterAction::Move { to, dir }
        },
        None => MonsterAction::Idle,
    }
}

// ----------------------------------------------------------------------------
// Hits, deaths and revival
// ----------------------------------------------------------------------------

/// Monster `m` hits player `p` for `dmg`: the monster rests three ticks; the
/// player loses `dmg` hit points, and is killed (hit points 0, dead) when
/// they drop to 0 or below. Returns whether the hit killed the player.
pub fn monster_hit_player(m: &mut Monster, p: &mut Player, dmg: i32) -> (killed: bool)
    requires
        old(p).hp - dmg >= i32::MIN,
        old(p).hp - dmg <= i32::MAX,
    ensures
        *final(m) == (Monster { cooldown: 3, ..*old(m) }),
        killed == (old(p).hp - dmg <= 0),
        *final(p) == (Player {
            hp: if killed { 0 } else { (old(p).hp - dmg) as i32 },
            dead: old(p).dead || killed,
            ..*old(p)
        }),
{
    m.cooldown = 3;
    p.hp = p.hp - dmg;
    if p.hp <= 0 {
        p.hp = 0;
        player_died(p);
        true
    } else {
        false
    }
}

/// A player dies: no hit points left, and the body stays where it fell.
pub fn player_died(p: &mut Player)
    ensures
        *final(p) == (Player { hp: 0, dead: true, ..*old(p) }),
{
    p.hp = 0;
    p.dead = true;
}

/// Player `player_id` hits monster `m` for `dmg`. A dead monster is not hit
/// (`None`). Otherwise the monster turns on the player, rests two ticks and
/// loses `dmg` hit points; at 0 or below it dies (hit points 0, death ticks
/// restarted). Returns whether it died.
pub fn player_hit_monster(m: &mut Monster, player_id: u32, dmg: i32) -> (r: Option<bool>)
    requires
        old(m).hp - dmg >= i32::MIN,
        old(m).hp - dmg <= i32::MAX,
    ensures
        old(m).dead ==> r is None && *final(m) == *old(m),
        !old(m).dead ==> {
            let died = old(m).hp - dmg <= 0;
            &&& r == Some(died)
            &&& *final(m) == (Monster {
                target: Some(player_id),
                cooldown: 2,
                hp: if died { 0 } else { (old(m).hp - dmg) as i32 },
                dead: died,
                dead_ticks: if died { 0 } else { old(m).dead_ticks },
                ..*old(m)
            })
        },
{
    if m.dead {
        return None;
    }
    m.target = Some(player_id);
    m.cooldown = 2;
    m.hp = m.hp - dmg;
    if m.hp <= 0 {
        m.hp = 0;
        m.dead = true;
        m.dead_ticks = 0;
        Some(true)
    } else {
        Some(false)
    }
}

/// Moves a player to map `map_index`, to the walkable cell that
/// `nearest_walkable_on` finds near (x, y).
pub fn teleport_player(w: &World, p: &mut Player, map_index: u32, x: i32, y: i32)
    requires
        w.wf(),
        -0x3FFF_FFFF <= x <= 0x3FFF_FFFF,
        -0x3FFF_FFFF <= y <= 0x3FFF_FFFF,
    ensures
        final(p).map_index == map_index,
        (final(p).location.x as int, final(p).location.y as int) == crate::world::spec_nearest(
            w.spec_get_map(map_index),
            x as int,
            y as int,
        ),
        *final(p) == (Player { map_index: final(p).map_index, location: final(p).location, ..*old(p) }),
{
    let (wx, wy) = w.nearest_walkable_on(map_index, x, y);
    p.map_index = map_index;
    p.location = Point::new(wx, wy);
}

/// Revives a dead player in town: the player is moved to map 0 near the
/// starting point (the cell found near the start, then the cell found near
/// that one) with full hit and mana points. A living player is left alone
/// (false).
pub fn revive_player(w: &World, p: &mut Player) -> (r: bool)
    requires
        w.wf(),
    ensures
        r == old(p).dead,
        !r ==> *final(p) == *old(p),
        r ==> {
            let (sx, sy) = crate::world::spec_nearest(w.spec_get_map(0), 400, 400);
            &&& !final(p).dead
            &&& final(p).hp == old(p).max_hp
            &&& final(p).mp == old(p).max_mp
            &&& final(p).map_index == 0
            &&& (final(p).location.x as int, final(p).location.y as int)
                == crate::world::spec_nearest(w.spec_get_map(0), sx, sy)
            &&& *final(p) == (Player {
                dead: false,
                hp: old(p).max_hp,
                mp: old(p).max_mp,
                map_index: 0,
                location: final(p).location,
                ..*old(p)
            })
        },
{
    if !p.dead {
        return false;
    }
    let start = crate::world::spawn_point();
    let (sx, sy) = w.nearest_walkable_on(0, start.x, start.y);
    proof {
        lemma_nearest_in_range(w.spec_get_map(0), 400, 400);
    }
    teleport_player(w, p, 0, sx, sy);
    p.dead = false;
    p.hp = p.max_hp;
    p.mp = p.max_mp;
    true
}

/// The cell `nearest_walkable_on` finds near a small cell is small too.
proof fn lemma_nearest_in_range(m: crate::maps::GameMap, x: int, y: int)
    requires
        m.wf(),
        -0x3FFF_0000 <= x <= 0x3FFF_0000,
        -0x3FFF_0000 <= y <= 0x3FFF_0000,
    ensures
        -0x3FFF_FFFF <= crate::world::spec_nearest(m, x, y).0 <= 0x3FFF_FFFF,
        -0x3FFF_FFFF <= crate::world::spec_nearest(m, x, y).1 <= 0x3FFF_FFFF,
{
    if exists|r: int, dy: int, dx: int| crate::world::first_ring_hit(m, x, y, r, dy, dx) {
        let (r, dy, dx) = choose|r: int, dy: int, dx: int|
            crate::world::first_ring_hit(m, x, y, r, dy, dx);
        assert(crate::world::ring_cell(r, dy, dx));
    }
}

// ----------------------------------------------------------------------------
// Player attacks
// ----------------------------------------------------------------------------

/// `rand::thread_rng().gen_range(lo..=hi)`: a random number from `lo` to
/// `hi`. The contract claims only that range (the call panics on an empty
/// range, which `requires` leaves out).
#[verifier::external_body]
fn rand_range(lo: i32, hi: i32) -> (r: i32)
    requires
        lo <= hi,
    ensures
        lo <= r <= hi,
{
    rand::thread_rng().gen_range(lo..=hi)
}

/// A value small enough for the damage arithmetic: a damage is computed in
/// `i32` as an attack plus a roll (at most a few hundred, the magic bonus
/// included) minus a defence, and with both within 2^28 of zero the result
/// stays within 2^30, away from the ends of `i32` where it would overflow.
pub open spec fn stat_ok(v: i32) -> bool {
    -0x1000_0000 <= v <= 0x1000_0000
}

/// Every monster of the list has a small defence and lies on a small cell.
pub open spec fn monsters_ok(ms: Seq<Monster>) -> bool {
    forall|i: int|
        0 <= i < ms.len() ==> stat_ok((#[trigger] ms[i]).defence) && small(ms[i].location)
}

/// The first monster (index) found on the cells `cells`, trying them in
/// order: on each cell, the first living monster of map `map` there.
pub open spec fn first_on_cells(ms: Seq<Monster>, map: u32, cells: Seq<(int, int)>) -> Option<int>
    decreases cells.len(),
{
    if cells.len() == 0 {
        None
    } else {
        match first_match(ms, alive_at(map, cells[0].0, cells[0].1)) {
            Some(k) => Some(k),
            None => first_on_cells(ms, map, cells.drop_first()),
        }
    }
}

/// The cells a melee attack tries: the cell in front, then the eight cells
/// around the attacker, row by row.
pub open spec fn melee_cells(loc: Point, dir: MirDirection) -> Seq<(int, int)> {
    let (dx, dy) = spec_offset(dir, 1);
    let (x, y) = (loc.x as int, loc.y as int);
    seq![
        (x + dx, y + dy),
        (x - 1, y - 1),
        (x, y - 1),
        (x + 1, y - 1),
        (x - 1, y),
        (x + 1, y),
        (x - 1, y + 1),
        (x, y + 1),
        (x + 1, y + 1),
    ]
}

fn scan_cells(ms: &Vec<Monster>, map: u32, cells: &Vec<(i32, i32)>) -> (r: Option<usize>)
    ensures
        match r {
            Some(k) => first_on_cells(ms@, map, cells@.map_values(|c: (i32, i32)| (c.0 as int, c.1 as int)))
                == Some(k as int) && k < ms@.len(),
            None => first_on_cells(ms@, map, cells@.map_values(|c: (i32, i32)| (c.0 as int, c.1 as int)))
                is None,
        },
{
    let ghost all = cells@.map_values(|c: (i32, i32)| (c.0 as int, c.1 as int));
    assert(all.subrange(0, all.len() as int) =~= all);
    let mut i: usize = 0;
    while i < cells.len()
        invariant
            i <= cells.len(),
            all == cells@.map_values(|c: (i32, i32)| (c.0 as int, c.1 as int)),
            first_on_cells(ms@, map, all) == first_on_cells(ms@, map, all.subrange(i as int, all.len() as int)),
        decreases cells.len() - i,
    {
        let (x, y) = cells[i];
        let ghost rest = all.subrange(i as int, all.len() as int);
        assert(rest[0] == (x as int, y as int));
        assert(rest.drop_first() =~= all.subrange(i + 1, all.len() as int));
        match find_alive_at(ms, map, x, y) {
            Some(k) => {
                return Some(k);
            },
            None => {},
        }
        i = i + 1;
    }
    None
}

/// The monster (index) a melee attack of `player` facing `dir` hits.
pub fn melee_target(player: &Player, ms: &Vec<Monster>, dir: MirDirection) -> (r: Option<usize>)
    requires
        small(player.location),
    ensures
        match r {
            Some(k) => first_on_cells(ms@, player.map_index, melee_cells(player.location, dir))
                == Some(k as int) && k < ms@.len(),
            None => first_on_cells(ms@, player.map_index, melee_cells(player.location, dir)) is None,
        },
{
    let (dx, dy) = direction_offset(dir, 1);
    let x = player.location.x;
    let y = player.location.y;
    let cells: Vec<(i32, i32)> = vec![
        (x + dx, y + dy),
        (x - 1, y - 1),
        (x, y - 1),
        (x + 1, y - 1),
        (x - 1, y),
        (x + 1, y),
        (x - 1, y + 1),
        (x, y + 1),
        (x + 1, y + 1),
    ];
    assert(cells@.map_values(|c: (i32, i32)| (c.0 as int, c.1 as int)) =~= melee_cells(
        player.location,
        dir,
    ));
    scan_cells(ms, player.map_index, &cells)
}

/// Melee damage: attack plus the roll, minus the (non-negative part of the)
/// defence, at least 1.
pub open spec fn melee_damage(attack: int, roll: int, defence: int) -> int {
    let d = attack + roll - (if defence > 0 { defence } else { 0 });
    if d > 1 {
        d
    } else {
        1
    }
}

/// A melee attack of `player` facing `dir`: nothing for a dead player or
/// when no monster is found (see `melee_target`); otherwise the monster's
/// object id and the damage for a roll from 1 to 3.
pub fn player_attack(player: &Player, ms: &Vec<Monster>, dir: MirDirection) -> (r: Option<(u32, i32)>)
    requires
        small(player.location),
        stat_ok(player.attack),
        monsters_ok(ms@),
    ensures
        player.dead ==> r is None,
        !player.dead ==> match first_on_cells(ms@, player.map_index, melee_cells(player.location, dir)) {
            None => r is None,
            Some(k) => r matches Some((id, dmg)) && id == ms@[k].object_id && exists|roll: int|
                1 <= roll <= 3 && dmg == melee_damage(player.attack as int, roll, ms@[k].defence as int),
        },
{
    if player.dead {
        return None;
    }
    let k = match melee_target(player, ms, dir) {
        Some(k) => k,
        None => return None,
    };
    let roll = rand_range(1, 3);
    let m = &ms[k];
    assert(stat_ok(ms@[k as int].defence));
    let def = if m.defence > 0 { m.defence } else { 0 };
    let d = player.attack + roll - def;
    let dmg = if d > 1 { d } else { 1 };
    assert(dmg == melee_damage(player.attack as int, roll as int, m.defence as int));
    Some((m.object_id, dmg))
}

/// The cells of a spell's line: 1 to `range` steps in direction `dir`.
pub open spec fn line_cells(loc: Point, dir: MirDirection, range: int) -> Seq<(int, int)> {
    let (dx, dy) = spec_offset(dir, 1);
    Seq::new(range as nat, |i: int| (loc.x + dx * (i + 1), loc.y + dy * (i + 1)))
}

pub open spec fn sgn(a: int) -> int {
    if a > 0 {
        1
    } else if a < 0 {
        -1
    } else {
        0
    }
}

/// Offset (ox, oy) lies on the side that direction (dx, dy) faces.
pub open spec fn faces(dx: int, dy: int, ox: int, oy: int) -> bool {
    (dx != 0 && sgn(ox) == dx) || (dy != 0 && sgn(oy) == dy)
}

/// Fallback spell target among the first `k` monsters when none stands on
/// the line: the nearest living monster of the caster's map, on the side the
/// caster faces, within range; the earlier one on a tie. (index, distance).
pub open spec fn spell_fallback(
    ms: Seq<Monster>,
    p: Player,
    dir: MirDirection,
    range: int,
    k: nat,
) -> Option<(int, int)>
    decreases k,
{
    if k == 0 {
        None
    } else {
        let prev = spell_fallback(ms, p, dir, range, (k - 1) as nat);
        let m = ms[k - 1];
        let (dx, dy) = spec_offset(dir, 1);
        let d = dist(p.location, m.location);
        if !m.dead && m.map_index == p.map_index && faces(
            dx,
            dy,
            m.location.x - p.location.x,
            m.location.y - p.location.y,
        ) && d <= range && (match prev {
            None => true,
            Some((_, bd)) => d < bd,
        }) {
            Some(((k - 1) as int, d))
        } else {
            prev
        }
    }
}

/// The monster (index) a spell of range `range` cast by `p` facing `dir`
/// hits: the first one found on the line, else the fallback.
pub open spec fn spell_target(ms: Seq<Monster>, p: Player, dir: MirDirection, range: int) -> Option<
    int,
> {
    match first_on_cells(ms, p.map_index, line_cells(p.location, dir, range)) {
        Some(k) => Some(k),
        None => match spell_fallback(ms, p, dir, range, ms.len()) {
            Some((k, _)) => Some(k),
            None => None,
        },
    }
}

fn spell_fallback_exec(ms: &Vec<Monster>, p: &Player, dir: MirDirection, range: i32) -> (r: Option<usize>)
    requires
        small(p.location),
        monsters_ok(ms@),
        0 <= range <= 255,
    ensures
        match r {
            None => spell_fallback(ms@, *p, dir, range as int, ms@.len()) is None,
            Some(k) => spell_fallback(ms@, *p, dir, range as int, ms@.len()) matches Some((k2, _))
                && k2 == k as int && k < ms@.len(),
        },
{
    let (dx, dy) = direction_offset(dir, 1);
    let mut best: Option<(usize, i32)> = None;
    let mut i: usize = 0;
    while i < ms.len()
        invariant
            i <= ms.len(),
            small(p.location),
            monsters_ok(ms@),
            (dx as int, dy as int) == spec_offset(dir, 1),
            match best {
                None => spell_fallback(ms@, *p, dir, range as int, i as nat) is None,
                Some((k, d)) => spell_fallback(ms@, *p, dir, range as int, i as nat) == Some(
                    (k as int, d as int),
                ) && k < i,
            },
        decreases ms.len() - i,
    {
        let m = &ms[i];
        assert(small(ms@[i as int].location));
        if !m.dead && m.map_index == p.map_index {
            let ox = m.location.x - p.location.x;
            let oy = m.location.y - p.location.y;
            let sx: i32 = if ox > 0 { 1 } else if ox < 0 { -1 } else { 0 };
            let sy: i32 = if oy > 0 { 1 } else if oy < 0 { -1 } else { 0 };
            let aligned = (dx != 0 && sx == dx) || (dy != 0 && sy == dy);
            let d = manhattan(p.location, m.location);
            if aligned && d <= range {
                let closer = match best {
                    None => true,
                    Some((_, bd)) => d < bd,
                };
                if closer {
                    best = Some((i, d));
                }
            }
        }
        i = i + 1;
    }
    match best {
        Some((k, _)) => Some(k),
        None => None,
    }
}

/// Spell damage: the spell's damage plus half the caster's attack, minus the
/// (non-negative part of the) target's defence, at least 1.
pub open spec fn spell_damage(damage: int, attack: int, defence: int) -> int {
    let d = damage + tdiv(attack, 2) - (if defence > 0 { defence } else { 0 });
    if d > 1 {
        d
    } else {
        1
    }
}

/// A spell cast by `player` facing `dir`. Nothing happens (`None`) for a dead
/// player, an unknown spell, too little mana, or no target (see
/// `spell_target`). Otherwise the spell's base cost is taken from the mana
/// (not below 0) and the target's object id and cell and the damage are
/// returned.
pub fn player_magic_attack(player: &mut Player, ms: &Vec<Monster>, dir: MirDirection, spell: u8) -> (r:
    Option<(u32, Point, i32)>)
    requires
        small(old(player).location),
        stat_ok(old(player).attack),
        stat_ok(old(player).mp),
        monsters_ok(ms@),
    ensures
        ({
            let p = *old(player);
            match crate::magics::spec_find_magic(spell) {
                None => r is None && *final(player) == p,
                Some(t) => if p.dead || p.mp < t.base_cost {
                    r is None && *final(player) == p
                } else {
                    match spell_target(ms@, p, dir, t.range as int) {
                        None => r is None && *final(player) == p,
                        Some(k) => {
                            let m = ms@[k];
                            let mp = p.mp - t.base_cost;
                            &&& r == Some(
                                (
                                    m.object_id,
                                    m.location,
                                    spell_damage(
                                        t.damage as int,
                                        p.attack as int,
                                        m.defence as int,
                                    ) as i32,
                                ),
                            )
                            &&& *final(player) == (Player {
                                mp: if mp > 0 { mp as i32 } else { 0 },
                                ..p
                            })
                        },
                    }
                },
            }
        }),
{
    if player.dead {
        return None;
    }
    let t = match crate::magics::find(spell) {
        Some(t) => t,
        None => return None,
    };
    if player.mp < t.base_cost as i32 {
        return None;
    }
    let (dx, dy) = direction_offset(dir, 1);
    let x = player.location.x;
    let y = player.location.y;
    let mut cells: Vec<(i32, i32)> = Vec::new();
    let mut step: i32 = 1;
    while step <= t.range as i32
        invariant
            1 <= step <= t.range as i32 + 1,
            t.range <= 255,
            (dx as int, dy as int) == spec_offset(dir, 1),
            small(player.location),
            x == player.location.x,
            y == player.location.y,
            cells@.len() == step - 1,
            forall|i: int|
                0 <= i < cells@.len() ==> (#[trigger] cells@[i]).0 == x + dx * (i + 1)
                    && cells@[i].1 == y + dy * (i + 1),
        decreases t.range as i32 + 1 - step,
    {
        assert(-255 <= dx * step <= 255 && -255 <= dy * step <= 255) by (nonlinear_arith)
            requires
                -1 <= dx <= 1,
                -1 <= dy <= 1,
                1 <= step <= 255,
        ;
        cells.push((x + dx * step, y + dy * step));
        step = step + 1;
    }
    assert(cells@.map_values(|c: (i32, i32)| (c.0 as int, c.1 as int)) =~= line_cells(
        player.location,
        dir,
        t.range as int,
    ));
    let target = match scan_cells(ms, player.map_index, &cells) {
        Some(k) => Some(k),
        None => spell_fallback_exec(ms, player, dir, t.range as i32),
    };
    let k = match target {
        Some(k) => k,
        None => return None,
    };
    let m = &ms[k];
    assert(stat_ok(ms@[k as int].defence));
    let mp = player.mp - t.base_cost as i32;
    player.mp = if mp > 0 { mp } else { 0 };
    let def = if m.defence > 0 { m.defence } else { 0 };
    let d = t.damage + player.attack / 2 - def;
    let dmg = if d > 1 { d } else { 1 };
    Some((m.object_id, m.location, dmg))
}

/// Farthest reach of a bow attack.
pub const MAX_ATTACK_RANGE: i32 = 9;

/// Bow damage at distance `d` with roll `roll`: the attack times
/// `1 + (MAX_ATTACK_RANGE - d) / 3` (at least 1), plus the roll, at least 1.
pub open spec fn range_damage(attack: int, d: int, roll: int) -> int {
    let falloff = 1 + (MAX_ATTACK_RANGE - d) / 3;
    let v = attack * (if falloff > 1 { falloff } else { 1 }) + roll;
    if v > 1 {
        v
    } else {
        1
    }
}

/// A bow attack of `player` at monster `target_id`: it must be alive, on the
/// player's map and within `MAX_ATTACK_RANGE`; then the target's cell and the
/// damage for a roll from 1 to 3 are returned. `None` otherwise, and for a
/// dead player.
pub fn player_range_attack(player: &Player, ms: &Vec<Monster>, target_id: u32) -> (r: Option<(Point, i32)>)
    requires
        small(player.location),
        stat_ok(player.attack),
        monsters_ok(ms@),
    ensures
        ({
            let ok = !player.dead && (first_match(ms@, monster_id(target_id)) matches Some(k) && !ms@[k].dead
                && ms@[k].map_index == player.map_index && dist(player.location, ms@[k].location)
                <= MAX_ATTACK_RANGE);
            &&& ok == r is Some
            &&& r matches Some((loc, dmg)) ==> {
                let k = first_match(ms@, monster_id(target_id))->0;
                &&& loc == ms@[k].location
                &&& exists|roll: int|
                    1 <= roll <= 3 && dmg == range_damage(
                        player.attack as int,
                        dist(player.location, ms@[k].location),
                        roll,
                    )
            }
        }),
{
    if player.dead {
        return None;
    }
    let k = match find_monster(ms, target_id) {
        Some(k) => k,
        None => return None,
    };
    let m = &ms[k];
    if m.dead || m.map_index != player.map_index {
        return None;
    }
    assert(small(ms@[k as int].location));
    let d = manhattan(player.location, m.location);
    if d > MAX_ATTACK_RANGE {
        return None;
    }
    let roll = rand_range(1, 3);
    let falloff = 1 + (MAX_ATTACK_RANGE - d) / 3;
    let f = if falloff > 1 { falloff } else { 1 };
    assert(1 <= f <= 4);
    assert(-0x4000_0000 <= player.attack * f <= 0x4000_0000) by (nonlinear_arith)
        requires
            -0x1000_0000 <= player.attack <= 0x1000_0000,
            1 <= f <= 4,
    ;
    let v = player.attack * f + roll;
    let dmg = if v > 1 { v } else { 1 };
    assert(dmg == range_damage(player.attack as int, d as int, roll as int));
    Some((m.location, dmg))
}

/// Some element satisfying `p` makes the first match exist, no later than
/// that element and satisfying `p`.
proof fn lemma_first_match_some<T>(s: Seq<T>, p: spec_fn(T) -> bool, k: int)
    requires
        0 <= k < s.len(),
        p(s[k]),
    ensures
        first_match(s, p) matches Some(h) && 0 <= h <= k && p(s[h]),
    decreases k,
{
    if exists|j: int| 0 <= j < k && p(s[j]) {
        let j = choose|j: int| 0 <= j < k && p(s[j]);
        lemma_first_match_some(s, p, j);
    } else {
        assert(is_first(s, p, k));
        lemma_first_match(s, p, k);
    }
}

/// A first match is an element satisfying `p`.
proof fn lemma_first_match_holds<T>(s: Seq<T>, p: spec_fn(T) -> bool)
    ensures
        first_match(s, p) matches Some(h) ==> 0 <= h < s.len() && p(s[h]),
{
    if first_match(s, p) is Some {
        let h = first_match(s, p)->0;
        assert(is_first(s, p, h));
    }
}

/// A monster found on a list of cells is alive, on the map, and stands on one
/// of the cells.
proof fn lemma_first_on_cells(ms: Seq<Monster>, map: u32, cells: Seq<(int, int)>)
    ensures
        first_on_cells(ms, map, cells) matches Some(h) ==> 0 <= h < ms.len() && exists|i: int|
            0 <= i < cells.len() && #[trigger] cells[i] == (ms[h].location.x as int, ms[h].location.y as int)
                && !ms[h].dead && ms[h].map_index == map,
    decreases cells.len(),
{
    if cells.len() > 0 {
        let p = alive_at(map, cells[0].0, cells[0].1);
        lemma_first_match_holds(ms, p);
        lemma_first_on_cells(ms, map, cells.drop_first());
        match first_match(ms, p) {
            Some(h) => {
                assert(cells[0] == (ms[h].location.x as int, ms[h].location.y as int));
            },
            None => {
                if first_on_cells(ms, map, cells.drop_first()) is Some {
                    let h = first_on_cells(ms, map, cells.drop_first())->0;
                    let i = choose|i: int|
                        0 <= i < cells.drop_first().len() && #[trigger] cells.drop_first()[i] == (
                            ms[h].location.x as int,
                            ms[h].location.y as int,
                        ) && !ms[h].dead && ms[h].map_index == map;
                    assert(cells[i + 1] == cells.drop_first()[i]);
                }
            },
        }
    }
}

/// A melee attack goes to the cell in front first: when a living monster of
/// the attacker's map stands on the cell one step ahead, the monster hit
/// stands on that cell. Whatever monster is hit is alive, on the attacker's
/// map, and next to the attacker (at most one cell off in each coordinate).
pub proof fn law_melee_prefers_front(ms: Seq<Monster>, map: u32, loc: Point, dir: MirDirection)
    ensures
        ({
            let (dx, dy) = spec_offset(dir, 1);
            (exists|k: int|
                0 <= k < ms.len() && !ms[k].dead && ms[k].map_index == map && ms[k].location.x == loc.x + dx
                    && ms[k].location.y == loc.y + dy) ==> (first_on_cells(ms, map, melee_cells(loc, dir)) matches Some(
                h,
            ) && ms[h].location.x == loc.x + dx && ms[h].location.y == loc.y + dy)
        }),
        first_on_cells(ms, map, melee_cells(loc, dir)) matches Some(h) ==> 0 <= h < ms.len() && !ms[h].dead
            && ms[h].map_index == map && -1 <= ms[h].location.x - loc.x <= 1 && -1 <= ms[h].location.y - loc.y
            <= 1,
{
    let (dx, dy) = spec_offset(dir, 1);
    let cells = melee_cells(loc, dir);
    let p = alive_at(map, loc.x + dx, loc.y + dy);
    assert(cells[0] == (loc.x + dx, loc.y + dy));
    if exists|k: int|
        0 <= k < ms.len() && !ms[k].dead && ms[k].map_index == map && ms[k].location.x == loc.x + dx
            && ms[k].location.y == loc.y + dy {
        let k = choose|k: int|
            0 <= k < ms.len() && !ms[k].dead && ms[k].map_index == map && ms[k].location.x == loc.x + dx
                && ms[k].location.y == loc.y + dy;
        assert(p(ms[k]));
        lemma_first_match_some(ms, p, k);
    }
    lemma_first_on_cells(ms, map, cells);
    assert(-1 <= dx <= 1 && -1 <= dy <= 1);
    assert forall|i: int| 0 <= i < cells.len() implies -1 <= #[trigger] cells[i].0 - loc.x <= 1 && -1 <= cells[i].1
        - loc.y <= 1 by {
        if i == 0 {
        } else if i == 1 {
        } else if i == 2 {
        } else if i == 3 {
        } else if i == 4 {
        } else if i == 5 {
        } else if i == 6 {
        } else if i == 7 {
        } else {
        }
    }
}

/// The offset of `s` steps of (dx, dy).
pub open spec fn steps_of(dx: int, dy: int, s: int) -> (int, int) {
    (dx * s, dy * s)
}

/// A melee attack misses only when no living monster of the attacker's map
/// stands on any of the eight cells around the attacker.
pub proof fn law_melee_reaches_neighbours(ms: Seq<Monster>, map: u32, loc: Point, dir: MirDirection, k: int)
    requires
        0 <= k < ms.len(),
        !ms[k].dead,
        ms[k].map_index == map,
        -1 <= ms[k].location.x - loc.x <= 1,
        -1 <= ms[k].location.y - loc.y <= 1,
        !(ms[k].location.x == loc.x && ms[k].location.y == loc.y),
    ensures
        first_on_cells(ms, map, melee_cells(loc, dir)) is Some,
{
    let cells = melee_cells(loc, dir);
    let (ox, oy) = (ms[k].location.x - loc.x, ms[k].location.y - loc.y);
    let i: int = if oy == -1 {
        2 + ox
    } else if oy == 0 {
        if ox == -1 { 4 } else { 5 }
    } else {
        7 + ox
    };
    assert(cells[i] == (ms[k].location.x as int, ms[k].location.y as int));
    assert(alive_at(map, cells[i].0, cells[i].1)(ms[k]));
    lemma_first_on_cells_reach(ms, map, cells, i, k);
}

/// What the fallback of a spell picks is alive, on the caster's map, within
/// range and on the side the caster faces.
proof fn lemma_spell_fallback(ms: Seq<Monster>, p: Player, dir: MirDirection, range: int, k: nat)
    requires
        k <= ms.len(),
    ensures
        spell_fallback(ms, p, dir, range, k) matches Some((h, d)) ==> 0 <= h < k && !ms[h].dead
            && ms[h].map_index == p.map_index && d == dist(p.location, ms[h].location) && d <= range && ({
            let (dx, dy) = spec_offset(dir, 1);
            let (ox, oy) = (ms[h].location.x - p.location.x, ms[h].location.y - p.location.y);
            (dx != 0 && sgn(ox) == dx) || (dy != 0 && sgn(oy) == dy)
        }),
    decreases k,
{
    if k > 0 {
        lemma_spell_fallback(ms, p, dir, range, (k - 1) as nat);
    }
}

/// A spell hits a living monster of the caster's map that stands on the
/// cast line (1 to `range` steps ahead) or, failing that, lies within range
/// on the side the caster faces: the sign of its offset matches the
/// direction's non-zero component. A monster behind the caster, off the
/// line, is never hit.
pub proof fn law_spell_target_ahead(ms: Seq<Monster>, p: Player, dir: MirDirection, range: int)
    requires
        0 <= range,
    ensures
        spell_target(ms, p, dir, range) matches Some(k) ==> 0 <= k < ms.len() && !ms[k].dead && ms[k].map_index
            == p.map_index && ({
            let (dx, dy) = spec_offset(dir, 1);
            let (ox, oy) = (ms[k].location.x - p.location.x, ms[k].location.y - p.location.y);
            ||| exists|s: int| 1 <= s <= range && #[trigger] steps_of(dx, dy, s) == (ox, oy)
            ||| ((dx != 0 && sgn(ox) == dx) || (dy != 0 && sgn(oy) == dy)) && dist(p.location, ms[k].location)
                <= range
        }),
{
    let (dx, dy) = spec_offset(dir, 1);
    let cells = line_cells(p.location, dir, range);
    lemma_first_on_cells(ms, p.map_index, cells);
    lemma_spell_fallback(ms, p, dir, range, ms.len());
    match first_on_cells(ms, p.map_index, cells) {
        Some(k) => {
            let i = choose|i: int|
                0 <= i < cells.len() && #[trigger] cells[i] == (ms[k].location.x as int, ms[k].location.y as int)
                    && !ms[k].dead && ms[k].map_index == p.map_index;
            let (ox, oy) = (ms[k].location.x - p.location.x, ms[k].location.y - p.location.y);
            assert(ox == dx * (i + 1) && oy == dy * (i + 1));
            assert(1 <= i + 1 <= range);
            assert(steps_of(dx, dy, i + 1) == (ox, oy));
        },
        None => {},
    }
}

/// A living monster of the map on cell `i` of the list makes the search find
/// a monster standing on that cell or an earlier one.
proof fn lemma_first_on_cells_reach(ms: Seq<Monster>, map: u32, cells: Seq<(int, int)>, i: int, k: int)
    requires
        0 <= i < cells.len(),
        0 <= k < ms.len(),
        alive_at(map, cells[i].0, cells[i].1)(ms[k]),
    ensures
        first_on_cells(ms, map, cells) matches Some(h) && 0 <= h < ms.len() && exists|j: int|
            0 <= j <= i && #[trigger] cells[j] == (ms[h].location.x as int, ms[h].location.y as int),
    decreases i,
{
    let p = alive_at(map, cells[0].0, cells[0].1);
    lemma_first_match_holds(ms, p);
    if first_match(ms, p) is Some {
        let h = first_match(ms, p)->0;
        assert(cells[0] == (ms[h].location.x as int, ms[h].location.y as int));
    } else {
        if i == 0 {
            lemma_first_match_some(ms, p, k);
        } else {
            let rest = cells.drop_first();
            assert(rest[i - 1] == cells[i]);
            lemma_first_on_cells_reach(ms, map, rest, i - 1, k);
            let h = first_on_cells(ms, map, rest)->0;
            let j = choose|j: int| 0 <= j <= i - 1 && #[trigger] rest[j] == (ms[h].location.x as int, ms[h].location.y as int);
            assert(cells[j + 1] == rest[j]);
        }
    }
}

/// Monster `j` qualifies as a spell's fallback target: alive, on the
/// caster's map, within range and on the side the caster faces.
pub open spec fn spell_candidate(ms: Seq<Monster>, p: Player, dir: MirDirection, range: int, j: int) -> bool {
    let (dx, dy) = spec_offset(dir, 1);
    let (ox, oy) = (ms[j].location.x - p.location.x, ms[j].location.y - p.location.y);
    &&& !ms[j].dead
    &&& ms[j].map_index == p.map_index
    &&& dist(p.location, ms[j].location) <= range
    &&& ((dx != 0 && sgn(ox) == dx) || (dy != 0 && sgn(oy) == dy))
}

/// The fallback picks the nearest candidate among the first `k` monsters.
proof fn lemma_spell_fallback_nearest(ms: Seq<Monster>, p: Player, dir: MirDirection, range: int, k: nat, j: int)
    requires
        k <= ms.len(),
        0 <= j < k,
        spell_candidate(ms, p, dir, range, j),
    ensures
        spell_fallback(ms, p, dir, range, k) matches Some((h, d)) && d <= dist(p.location, ms[j].location),
    decreases k,
{
    if j < k - 1 {
        lemma_spell_fallback_nearest(ms, p, dir, range, (k - 1) as nat, j);
    } else {
        lemma_spell_fallback(ms, p, dir, range, (k - 1) as nat);
    }
}

/// A spell goes along its line first: when a living monster of the
/// caster's map stands `s` steps ahead (within range), the monster hit
/// stands on the line no farther than that. When none stands on the line
/// and some monster qualifies as a fallback (see `spell_candidate`), a
/// monster is hit, and it is no farther from the caster than any of them.
pub proof fn law_spell_line_then_nearest(ms: Seq<Monster>, p: Player, dir: MirDirection, range: int)
    requires
        0 <= range,
    ensures
        ({
            let (dx, dy) = spec_offset(dir, 1);
            &&& forall|s: int, k: int| #![trigger steps_of(dx, dy, s), ms[k]]
                1 <= s <= range && 0 <= k < ms.len() && !ms[k].dead && ms[k].map_index == p.map_index
                    && steps_of(dx, dy, s) == (ms[k].location.x - p.location.x, ms[k].location.y
                    - p.location.y) ==> (spell_target(ms, p, dir, range) matches Some(h) && 0 <= h < ms.len()
                    && exists|t: int|
                    1 <= t <= s && #[trigger] steps_of(dx, dy, t) == (ms[h].location.x - p.location.x,
                        ms[h].location.y - p.location.y))
            &&& (forall|s: int, k: int| #![trigger steps_of(dx, dy, s), ms[k]]
                1 <= s <= range && 0 <= k < ms.len() ==> !(!ms[k].dead && ms[k].map_index == p.map_index
                    && steps_of(dx, dy, s) == (ms[k].location.x - p.location.x, ms[k].location.y
                    - p.location.y))) ==> forall|j: int|
                0 <= j < ms.len() && #[trigger] spell_candidate(ms, p, dir, range, j) ==> (spell_target(
                    ms,
                    p,
                    dir,
                    range,
                ) matches Some(h) && 0 <= h < ms.len() && dist(p.location, ms[h].location) <= dist(
                    p.location,
                    ms[j].location,
                ))
        }),
{
    let (dx, dy) = spec_offset(dir, 1);
    let cells = line_cells(p.location, dir, range);
    assert forall|s: int, k: int| #![trigger steps_of(dx, dy, s), ms[k]]
        1 <= s <= range && 0 <= k < ms.len() && !ms[k].dead && ms[k].map_index == p.map_index
            && steps_of(dx, dy, s) == (ms[k].location.x - p.location.x, ms[k].location.y
            - p.location.y) implies (spell_target(ms, p, dir, range) matches Some(h) && 0 <= h < ms.len()
            && exists|t: int|
            1 <= t <= s && #[trigger] steps_of(dx, dy, t) == (ms[h].location.x - p.location.x, ms[h].location.y
                - p.location.y)) by {
        assert(cells[s - 1] == (ms[k].location.x as int, ms[k].location.y as int));
        lemma_first_on_cells_reach(ms, p.map_index, cells, s - 1, k);
        let h = first_on_cells(ms, p.map_index, cells)->0;
        let j = choose|j: int|
            0 <= j <= s - 1 && #[trigger] cells[j] == (ms[h].location.x as int, ms[h].location.y as int);
        assert(steps_of(dx, dy, j + 1) == (ms[h].location.x - p.location.x, ms[h].location.y - p.location.y));
    }
    if forall|s: int, k: int| #![trigger steps_of(dx, dy, s), ms[k]]
        1 <= s <= range && 0 <= k < ms.len() ==> !(!ms[k].dead && ms[k].map_index == p.map_index
            && steps_of(dx, dy, s) == (ms[k].location.x - p.location.x, ms[k].location.y
            - p.location.y)) {
        lemma_first_on_cells(ms, p.map_index, cells);
        if first_on_cells(ms, p.map_index, cells) is Some {
            let h = first_on_cells(ms, p.map_index, cells)->0;
            let i = choose|i: int|
                0 <= i < cells.len() && #[trigger] cells[i] == (ms[h].location.x as int, ms[h].location.y as int)
                    && !ms[h].dead && ms[h].map_index == p.map_index;
            assert(steps_of(dx, dy, i + 1) == (ms[h].location.x - p.location.x, ms[h].location.y - p.location.y));
            assert(false);
        }
        assert forall|j: int|
            0 <= j < ms.len() && #[trigger] spell_candidate(ms, p, dir, range, j) implies (spell_target(
                ms,
                p,
                dir,
                range,
            ) matches Some(h) && 0 <= h < ms.len() && dist(p.location, ms[h].location) <= dist(
                p.location,
                ms[j].location,
            )) by {
            lemma_spell_fallback_nearest(ms, p, dir, range, ms.len(), j);
            lemma_spell_fallback(ms, p, dir, range, ms.len());
        }
    }
}

/// Melee damage is at least 1; it never falls as the attack or the roll
/// grows, never rises as the defence grows, a defence of 0 or below takes
/// nothing off, and above the floor each point of defence takes exactly one
/// point off: against no defence it is the attack plus the roll.
pub proof fn law_melee_damage_order(a1: int, a2: int, r1: int, r2: int, d1: int, d2: int)
    requires
        a1 <= a2,
        r1 <= r2,
        d1 <= d2,
    ensures
        melee_damage(a1, r1, d1) >= 1,
        melee_damage(a1, r1, d2) <= melee_damage(a2, r2, d1),
        d2 <= 0 ==> melee_damage(a1, r1, d2) == melee_damage(a1, r1, 0),
        melee_damage(a1, r1, 0) == (if a1 + r1 > 1 { a1 + r1 } else { 1 }),
        0 <= d2 && a1 + r1 - d2 >= 1 ==> melee_damage(a1, r1, d2) + d2 == a1 + r1,
{
}

/// Spell damage is at least 1; it never falls as the spell's damage or the
/// caster's attack grows, never rises as the defence grows, and against no
/// defence it is the spell's damage plus half the attack (rounded toward 0).
pub proof fn law_spell_damage_order(s1: int, s2: int, a1: int, a2: int, d1: int, d2: int)
    requires
        s1 <= s2,
        a1 <= a2,
        d1 <= d2,
    ensures
        spell_damage(s1, a1, d1) >= 1,
        spell_damage(s1, a1, d2) <= spell_damage(s2, a2, d1),
        d2 <= 0 ==> spell_damage(s1, a1, d2) == spell_damage(s1, a1, 0),
        a1 >= 0 ==> spell_damage(s1, a1, 0) == (if s1 + a1 / 2 > 1 { s1 + a1 / 2 } else { 1 }),
{
    assert(tdiv(a1, 2) <= tdiv(a2, 2));
}

/// Bow damage does not grow with distance (for a non-negative attack), and
/// it falls off in bands of three cells: at 7 to 9 cells (the farthest reach)
/// it is the attack plus the roll, at 4 to 6 twice the attack plus the roll,
/// at 1 to 3 three times, and point-blank four times; never below 1.
pub proof fn law_range_damage_falls_off(attack: int, roll: int, d1: int, d2: int)
    requires
        0 <= d1 <= d2 <= MAX_ATTACK_RANGE,
    ensures
        attack >= 0 ==> range_damage(attack, d2, roll) <= range_damage(attack, d1, roll),
        range_damage(attack, MAX_ATTACK_RANGE as int, roll) == (if attack + roll > 1 {
            attack + roll
        } else {
            1
        }),
        7 <= d1 ==> range_damage(attack, d1, roll) == (if attack + roll > 1 { attack + roll } else { 1 }),
        4 <= d1 <= 6 ==> range_damage(attack, d1, roll) == (if 2 * attack + roll > 1 {
            2 * attack + roll
        } else {
            1
        }),
        1 <= d1 <= 3 ==> range_damage(attack, d1, roll) == (if 3 * attack + roll > 1 {
            3 * attack + roll
        } else {
            1
        }),
        d1 == 0 ==> range_damage(attack, d1, roll) == (if 4 * attack + roll > 1 {
            4 * attack + roll
        } else {
            1
        }),
        range_damage(attack, d1, roll) >= 1,
{
    lemma_range_band(attack, roll, d1);
    lemma_range_band(attack, roll, d2);
    lemma_range_band(attack, roll, MAX_ATTACK_RANGE as int);
}

/// The damage of one distance, band by band.
proof fn lemma_range_band(attack: int, roll: int, d: int)
    requires
        0 <= d <= MAX_ATTACK_RANGE,
    ensures
        range_damage(attack, d, roll) == ({
            let f = if d >= 7 { 1int } else if d >= 4 { 2int } else if d >= 1 { 3int } else { 4int };
            if attack * f + roll > 1 { attack * f + roll } else { 1 }
        }),
{
    let q = (MAX_ATTACK_RANGE - d) / 3;
    if d >= 7 {
        assert(q == 0);
    } else if d >= 4 {
        assert(q == 1);
    } else if d >= 1 {
        assert(q == 2);
    } else {
        assert(q == 3);
    }
}

// ----------------------------------------------------------------------------
// Harvesting and picking up
// ----------------------------------------------------------------------------

/// The cells a harvest looks at: the 3 x 3 block centred on the cell in front
/// of the player, row by row.
pub open spec fn harvest_cells(loc: Point, dir: MirDirection) -> Seq<(int, int)> {
    let (dx, dy) = spec_offset(dir, 1);
    let (fx, fy) = (loc.x + dx, loc.y + dy);
    seq![
        (fx - 1, fy - 1),
        (fx, fy - 1),
        (fx + 1, fy - 1),
        (fx - 1, fy),
        (fx, fy),
        (fx + 1, fy),
        (fx - 1, fy + 1),
        (fx, fy + 1),
        (fx + 1, fy + 1),
    ]
}

/// The corpse (index) a harvest takes: on each cell in order, the first
/// unharvested corpse of the map there, if it yields an item.
pub open spec fn harvest_scan(ms: Seq<Monster>, map: u32, cells: Seq<(int, int)>) -> Option<int>
    decreases cells.len(),
{
    if cells.len() == 0 {
        None
    } else {
        match first_match(ms, corpse_at(map, cells[0].0, cells[0].1)) {
            Some(k) => if ms[k].harvest_item > 0 {
                Some(k)
            } else {
                harvest_scan(ms, map, cells.drop_first())
            },
            None => harvest_scan(ms, map, cells.drop_first()),
        }
    }
}

/// A harvest by `player` facing `dir`. A dead player does nothing. Otherwise
/// the player turns to `dir`, and the corpse found (see `harvest_scan`) is
/// marked harvested; its object id and harvest item are returned (`None` if
/// there is no corpse to harvest).
pub fn player_harvest(player: &mut Player, ms: &mut Vec<Monster>, dir: MirDirection) -> (r: Option<(u32, i32)>)
    requires
        small(old(player).location),
    ensures
        old(player).dead ==> r is None && *final(player) == *old(player) && final(ms)@ == old(ms)@,
        !old(player).dead ==> {
            &&& *final(player) == (Player { direction: dir, ..*old(player) })
            &&& match harvest_scan(old(ms)@, old(player).map_index, harvest_cells(old(player).location, dir)) {
                None => r is None && final(ms)@ == old(ms)@,
                Some(k) => r == Some((old(ms)@[k].object_id, old(ms)@[k].harvest_item))
                    && final(ms)@ == old(ms)@.update(k, Monster { harvested: true, ..old(ms)@[k] }),
            }
        },
{
    if player.dead {
        return None;
    }
    player.direction = dir;
    let (dx, dy) = direction_offset(dir, 1);
    let fx = player.location.x + dx;
    let fy = player.location.y + dy;
    let ghost cells = harvest_cells(player.location, dir);
    let map = player.map_index;
    assert(cells.subrange(0, 9) =~= cells);
    let mut i: i32 = 0;
    while i < 9
        invariant
            0 <= i <= 9,
            cells == harvest_cells(old(player).location, dir),
            map == old(player).map_index,
            small(old(player).location),
            (fx as int, fy as int) == (old(player).location.x + spec_offset(dir, 1).0, old(player).location.y + spec_offset(dir, 1).1),
            ms@ == old(ms)@,
            !old(player).dead,
            *player == (Player { direction: dir, ..*old(player) }),
            harvest_scan(ms@, map, cells) == harvest_scan(ms@, map, cells.subrange(i as int, 9)),
        decreases 9 - i,
    {
        let ox = i % 3 - 1;
        let oy = i / 3 - 1;
        let px = fx + ox;
        let py = fy + oy;
        let ghost rest = cells.subrange(i as int, 9);
        assert(rest[0] == (px as int, py as int));
        assert(rest.drop_first() =~= cells.subrange(i + 1, 9));
        match find_corpse_at(ms, map, px, py) {
            Some(k) => {
                if ms[k].harvest_item > 0 {
                    ms[k].harvested = true;
                    return Some((ms[k].object_id, ms[k].harvest_item));
                }
            },
            None => {},
        }
        i = i + 1;
    }
    assert(cells.subrange(9, 9).len() == 0);
    None
}

/// An item on the ground of map `map` within one step (Manhattan) of `loc`.
pub open spec fn within_reach(map: u32, loc: Point) -> spec_fn(GroundItem) -> bool {
    |g: GroundItem| g.map_index == map && dist(g.location, loc) <= 1
}

fn pickup_index(player: &Player, items: &Vec<GroundItem>) -> (r: Option<usize>)
    requires
        small(player.location),
        forall|i: int| 0 <= i < items@.len() ==> small((#[trigger] items@[i]).location),
    ensures
        match r {
            Some(k) => first_match(items@, within_reach(player.map_index, player.location)) == Some(
                k as int,
            ),
            None => first_match(items@, within_reach(player.map_index, player.location)) is None,
        },
{
    let ghost p = within_reach(player.map_index, player.location);
    let mut i: usize = 0;
    while i < items.len()
        invariant
            i <= items.len(),
            p == within_reach(player.map_index, player.location),
            small(player.location),
            forall|j: int| 0 <= j < items@.len() ==> small((#[trigger] items@[j]).location),
            forall|j: int| 0 <= j < i ==> !p(#[trigger] items@[j]),
        decreases items.len() - i,
    {
        let g = &items[i];
        assert(small(items@[i as int].location));
        if g.map_index == player.map_index && manhattan(g.location, player.location) <= 1 {
            proof {
                lemma_first_match(items@, p, i as int);
            }
            return Some(i);
        }
        i = i + 1;
    }
    None
}

/// The ground item `player` picks up: the first one (in table order) on the
/// player's map within one step.
pub fn pickup_target(player: &Player, items: &Vec<GroundItem>) -> (r: Option<u32>)
    requires
        small(player.location),
        forall|i: int| 0 <= i < items@.len() ==> small((#[trigger] items@[i]).location),
    ensures
        match first_match(items@, within_reach(player.map_index, player.location)) {
            Some(k) => r == Some(items@[k].object_id),
            None => r is None,
        },
{
    match pickup_index(player, items) {
        Some(k) => Some(items[k].object_id),
        None => None,
    }
}

/// Player `p` picks up the ground item found by `pickup_target`: it leaves
/// the ground; a heap of gold goes straight into the player's purse (up to
/// `u32::MAX`), an item is returned for the bag. `None` when nothing is in
/// reach.
pub fn pick_up(p: &mut Player, items: &mut Vec<GroundItem>) -> (r: Option<GroundItem>)
    requires
        small(old(p).location),
        forall|i: int| 0 <= i < old(items)@.len() ==> small((#[trigger] old(items)@[i]).location),
    ensures
        match first_match(old(items)@, within_reach(old(p).map_index, old(p).location)) {
            None => r is None && *final(p) == *old(p) && final(items)@ == old(items)@,
            Some(k) => {
                let g = old(items)@[k];
                &&& r == Some(g)
                &&& final(items)@ == old(items)@.remove(k)
                &&& final(p).gold == (if g.gold > 0 {
                    if old(p).gold + g.gold > u32::MAX {
                        u32::MAX as int
                    } else {
                        old(p).gold + g.gold
                    }
                } else {
                    old(p).gold as int
                })
                &&& *final(p) == (Player { gold: final(p).gold, ..*old(p) })
            },
        },
{
    let k = match pickup_index(p, items) {
        Some(k) => k,
        None => return None,
    };
    let g = items.remove(k);
    if g.gold > 0 {
        gain_gold(p, g.gold);
    }
    Some(g)
}

// ----------------------------------------------------------------------------
// Respawning, drops and fishing
// ----------------------------------------------------------------------------

/// Ticks a dead monster stays dead.
pub const RESPAWN_TICKS: u32 = 30;

/// One respawn tick of monster `m` (see `respawn_tick`): the monster after
/// it, and whether it came back to life.
pub open spec fn respawn_next(m: Monster) -> (Monster, bool) {
    if !m.dead {
        (m, false)
    } else {
        let t = (m.dead_ticks + 1) as u32;
        if t >= RESPAWN_TICKS {
            (
                Monster {
                    dead: false,
                    dead_ticks: 0,
                    harvested: false,
                    hp: m.max_hp,
                    target: None,
                    cooldown: 0,
                    ..m
                },
                true,
            )
        } else {
            (Monster { dead_ticks: t, ..m }, false)
        }
    }
}

/// Monster `m` after `n` respawn ticks.
pub open spec fn after_ticks(m: Monster, n: nat) -> Monster
    decreases n,
{
    if n == 0 {
        m
    } else {
        respawn_next(after_ticks(m, (n - 1) as nat)).0
    }
}

/// One respawn tick of a monster: a dead monster counts a tick; at
/// `RESPAWN_TICKS` it comes back to life with full hit points, no target,
/// no cool-down and an unharvested body. Returns whether it came back.
pub fn respawn_tick(m: &mut Monster) -> (r: bool)
    requires
        old(m).dead_ticks < u32::MAX,
    ensures
        (*final(m), r) == respawn_next(*old(m)),
{
    if !m.dead {
        return false;
    }
    m.dead_ticks = m.dead_ticks + 1;
    if m.dead_ticks >= RESPAWN_TICKS {
        m.dead = false;
        m.dead_ticks = 0;
        m.harvested = false;
        m.hp = m.max_hp;
        m.target = None;
        m.cooldown = 0;
        true
    } else {
        false
    }
}

/// `n` wrapped into a `u32` (ids wrap around after `u32::MAX`).
pub open spec fn wrap32(n: int) -> u32 {
    (n % 0x1_0000_0000) as u32
}

/// `n` wrapped into a `u64`.
pub open spec fn wrap64(n: int) -> u64 {
    (n % 0x1_0000_0000_0000_0000) as u64
}

proof fn lemma_wrap32_step(a: int, x: u32)
    requires
        a >= 0,
        x == wrap32(a),
    ensures
        (if x == u32::MAX { 0 } else { x + 1 }) == wrap32(a + 1),
{
}

proof fn lemma_wrap64_step(a: int, x: u64)
    requires
        a >= 0,
        x == wrap64(a),
    ensures
        (if x == u64::MAX { 0 } else { x + 1 }) == wrap64(a + 1),
{
}

proof fn lemma_ticks_before_revival(m: Monster, k: nat)
    requires
        m.dead,
        m.dead_ticks == 0,
        k < RESPAWN_TICKS,
    ensures
        after_ticks(m, k) == (Monster { dead_ticks: k as u32, ..m }),
    decreases k,
{
    if k > 0 {
        lemma_ticks_before_revival(m, (k - 1) as nat);
    } else {
        assert(m == (Monster { dead_ticks: 0u32, ..m }));
    }
}

/// A monster killed now stays dead, as a corpse, for the next
/// `RESPAWN_TICKS - 1` ticks and is back on the tick after, with full hit
/// points, no target and an unharvested body.
pub proof fn law_respawn_after_ticks(m: Monster, k: nat)
    requires
        m.dead,
        m.dead_ticks == 0,
        k < RESPAWN_TICKS,
    ensures
        after_ticks(m, k) == (Monster { dead_ticks: k as u32, ..m }),
        after_ticks(m, RESPAWN_TICKS as nat) == (Monster {
            dead: false,
            dead_ticks: 0,
            harvested: false,
            hp: m.max_hp,
            target: None,
            cooldown: 0,
            ..m
        }),
{
    lemma_ticks_before_revival(m, k);
    lemma_ticks_before_revival(m, (RESPAWN_TICKS - 1) as nat);
}

/// The items a dead monster leaves on its cell: one ground item per positive
/// drop entry, in order, with object ids and item unique ids handed out by
/// the world one after the other.
pub fn monster_drops(w: &mut World, m: &Monster) -> (r: Vec<GroundItem>)
    ensures
        r@.len() == m.drops@.filter(|d: i32| d > 0).len(),
        forall|i: int|
            0 <= i < r@.len() ==> {
                &&& (#[trigger] r@[i]).item_index == m.drops@.filter(|d: i32| d > 0)[i]
                &&& r@[i].count == 1
                &&& r@[i].location == m.location
                &&& r@[i].map_index == m.map_index
                &&& r@[i].gold == 0
                &&& r@[i].object_id == wrap32(old(w).next_object_id + i)
                &&& r@[i].unique_id == wrap64(old(w).next_item_unique + i)
            },
        final(w).next_object_id == wrap32(old(w).next_object_id + r@.len()),
        final(w).next_item_unique == wrap64(old(w).next_item_unique + r@.len()),
        final(w).map == old(w).map,
        final(w).maps@ == old(w).maps@,
{
    let ghost pos = |d: i32| d > 0;
    let ghost oid0 = w.next_object_id as int;
    let ghost uid0 = w.next_item_unique as int;
    let mut r: Vec<GroundItem> = Vec::new();
    let mut i: usize = 0;
    while i < m.drops.len()
        invariant
            i <= m.drops.len(),
            pos == (|d: i32| d > 0),
            oid0 == old(w).next_object_id,
            uid0 == old(w).next_item_unique,
            r@.len() == m.drops@.take(i as int).filter(pos).len(),
            forall|j: int|
                0 <= j < r@.len() ==> {
                    &&& (#[trigger] r@[j]).item_index == m.drops@.take(i as int).filter(pos)[j]
                    &&& r@[j].count == 1
                    &&& r@[j].location == m.location
                    &&& r@[j].map_index == m.map_index
                    &&& r@[j].gold == 0
                    &&& r@[j].object_id == wrap32(oid0 + j)
                    &&& r@[j].unique_id == wrap64(uid0 + j)
                },
            w.next_object_id == wrap32(oid0 + r@.len()),
            w.next_item_unique == wrap64(uid0 + r@.len()),
            w.map == old(w).map,
            w.maps@ == old(w).maps@,
        decreases m.drops.len() - i,
    {
        let d = m.drops[i];
        proof {
            assert(m.drops@.take(i + 1) =~= m.drops@.take(i as int).push(d));
            m.drops@.take(i as int).lemma_filter_push(d, pos);
        }
        if d > 0 {
            proof {
                lemma_wrap32_step(oid0 + r@.len(), w.next_object_id);
                lemma_wrap64_step(uid0 + r@.len(), w.next_item_unique);
            }
            let oid = w.next_object_id();
            let uid = w.next_item_unique();
            r.push(
                GroundItem {
                    object_id: oid,
                    item_index: d,
                    count: 1,
                    location: m.location,
                    unique_id: uid,
                    map_index: m.map_index,
                    gold: 0,
                },
            );
        }
        i = i + 1;
    }
    assert(m.drops@.take(m.drops@.len() as int) =~= m.drops@);
    r
}

/// A monster killed by player `p`: its drops fall on its cell (see
/// `monster_drops`), the player gains its experience (if any, levelling up
/// as far as it covers) and its gold (if any), and the kill counts for the
/// player's quests. Returns the dropped items.
pub fn monster_died(w: &mut World, p: &mut Player, m: &Monster, quests: &mut Vec<QuestProgress>) -> (r: Vec<
    GroundItem,
>)
    requires
        old(p).experience + m.exp_reward <= u32::MAX,
        room_to_level(progress_of(*old(p))),
    ensures
        r@.len() == m.drops@.filter(|d: i32| d > 0).len(),
        forall|i: int|
            0 <= i < r@.len() ==> {
                &&& (#[trigger] r@[i]).item_index == m.drops@.filter(|d: i32| d > 0)[i]
                &&& r@[i].count == 1
                &&& r@[i].location == m.location
                &&& r@[i].map_index == m.map_index
                &&& r@[i].gold == 0
                &&& r@[i].object_id == wrap32(old(w).next_object_id + i)
                &&& r@[i].unique_id == wrap64(old(w).next_item_unique + i)
            },
        final(w).next_object_id == wrap32(old(w).next_object_id + r@.len()),
        final(w).next_item_unique == wrap64(old(w).next_item_unique + r@.len()),
        final(w).map == old(w).map,
        final(w).maps@ == old(w).maps@,
        progress_of(*final(p)) == (if m.exp_reward > 0 {
            level_up(Progress { experience: (old(p).experience + m.exp_reward) as u32, ..progress_of(*old(p)) })
        } else {
            progress_of(*old(p))
        }),
        final(p).gold == (if old(p).gold + m.gold_reward > u32::MAX {
            u32::MAX as int
        } else {
            old(p).gold + m.gold_reward
        }),
        *final(p) == (Player {
            level: final(p).level,
            experience: final(p).experience,
            max_hp: final(p).max_hp,
            hp: final(p).hp,
            max_mp: final(p).max_mp,
            mp: final(p).mp,
            attack: final(p).attack,
            gold: final(p).gold,
            ..*old(p)
        }),
        final(quests)@ == spec_register_kill(old(quests)@, m.image).0,
{
    let r = monster_drops(w, m);
    if m.exp_reward > 0 {
        gain_experience(p, m.exp_reward);
    }
    if m.gold_reward > 0 {
        gain_gold(p, m.gold_reward);
    }
    register_kill(quests, m.image);
    r
}

/// One fishing tick of player `p` (see `fishing_step`): the player after
/// it, and whether a fish bit.
pub open spec fn fishing_next(p: Player) -> (Player, bool) {
    if !p.fishing {
        (p, false)
    } else {
        let prog = if p.fishing_progress + 8 > u16::MAX {
            u16::MAX as int
        } else {
            p.fishing_progress + 8
        };
        if prog >= 100 {
            (Player { fishing_progress: 0, fishing: p.auto_fish, ..p }, true)
        } else {
            (Player { fishing_progress: prog as u16, ..p }, false)
        }
    }
}

/// Player `p` after `n` fishing ticks.
pub open spec fn after_fishing(p: Player, n: nat) -> Player
    decreases n,
{
    if n == 0 {
        p
    } else {
        fishing_next(after_fishing(p, (n - 1) as nat)).0
    }
}

/// One fishing tick of a player: a fishing player gains 8 progress (up to
/// `u16::MAX`); at 100 a fish bites: progress restarts and, unless the player
/// fishes on automatically, fishing stops. Returns whether a fish bit.
pub fn fishing_step(p: &mut Player) -> (caught: bool)
    ensures
        (*final(p), caught) == fishing_next(*old(p)),
{
    if !p.fishing {
        return false;
    }
    p.fishing_progress = p.fishing_progress.saturating_add(8);
    if p.fishing_progress >= 100 {
        p.fishing_progress = 0;
        if !p.auto_fish {
            p.fishing = false;
        }
        true
    } else {
        false
    }
}

proof fn lemma_fishing_progress(p: Player, k: nat)
    requires
        p.fishing,
        p.fishing_progress == 0,
        k <= 12,
    ensures
        after_fishing(p, k) == (Player { fishing_progress: (8 * k) as u16, ..p }),
        k < 12 ==> !fishing_next(after_fishing(p, k)).1,
    decreases k,
{
    if k > 0 {
        lemma_fishing_progress(p, (k - 1) as nat);
    } else {
        assert(p == (Player { fishing_progress: 0u16, ..p }));
    }
}

/// A line cast out with no progress gets its first bite on the 13th tick
/// (8 progress a tick, a bite at 100), not before; after the bite progress
/// restarts and the player goes on fishing only with automatic casting.
pub proof fn law_bite_on_thirteenth_tick(p: Player, k: nat)
    requires
        p.fishing,
        p.fishing_progress == 0,
        k < 12,
    ensures
        !fishing_next(after_fishing(p, k)).1,
        fishing_next(after_fishing(p, 12)).1,
        after_fishing(p, 13) == (Player { fishing_progress: 0, fishing: p.auto_fish, ..p }),
{
    lemma_fishing_progress(p, k);
    lemma_fishing_progress(p, 12);
}

/// The player casts out (`cast_out`) or reels in: fishing starts or stops,
/// with no progress.
pub fn cast_line(p: &mut Player, cast_out: bool)
    ensures
        *final(p) == (Player { fishing: cast_out, fishing_progress: 0, ..*old(p) }),
{
    p.fishing = cast_out;
    p.fishing_progress = 0;
}

/// The player turns automatic casting on or off; turning it off also stops
/// fishing.
pub fn set_auto_fish(p: &mut Player, auto_cast: bool)
    ensures
        auto_cast ==> *final(p) == (Player { auto_fish: true, ..*old(p) }),
        !auto_cast ==> *final(p) == (Player {
            auto_fish: false,
            fishing: false,
            fishing_progress: 0,
            ..*old(p)
        }),
{
    p.auto_fish = auto_cast;
    if !auto_cast {
        p.fishing = false;
        p.fishing_progress = 0;
    }
}

/// The item a bite brings in for draw `d`: a healing potion (3) for 0, a
/// money pouch (5) otherwise.
pub open spec fn spec_catch(d: i32) -> i32 {
    if d == 0 {
        3
    } else {
        5
    }
}

/// The item a bite brings in for draw `d` (see `spec_catch`).
pub fn catch_of(d: i32) -> (r: i32)
    ensures
        r == spec_catch(d),
{
    if d == 0 {
        3
    } else {
        5
    }
}

/// What a bite brings in: the item `catch_of` gives for a draw of 0 or 1,
/// drawn at random.
pub fn fishing_catch() -> (r: i32)
    ensures
        exists|d: i32| 0 <= d <= 1 && r == #[trigger] spec_catch(d),
{
    let d = rand_range(0, 1);
    catch_of(d)
}

// ----------------------------------------------------------------------------
// Seeding the world
// ----------------------------------------------------------------------------

/// The spawn points of the maps `maps`, in order, each with its map.
pub open spec fn seed_points(maps: Seq<u32>) -> Seq<(u32, (i32, i32))>
    decreases maps.len(),
{
    if maps.len() == 0 {
        Seq::empty()
    } else {
        seed_points(maps.drop_last()) + spec_spawn_points(maps.last()).map_values(
            |p: (i32, i32)| (maps.last(), p),
        )
    }
}

/// Where a monster spawned at (cx, cy) of map `m` stands: there if the cell
/// is walkable, else the cell `nearest_walkable_on` finds.
pub open spec fn spawn_cell(m: GameMap, cx: int, cy: int) -> (int, int) {
    if m.walkable_at(cx, cy) {
        (cx, cy)
    } else {
        spec_nearest(m, cx, cy)
    }
}

/// `m` is the monster spawned with object id `oid` at spawn point `at` of
/// world `w`: template number `oid % 3`, at full health, facing up, with the
/// standard drops.
pub open spec fn spawned(w: World, m: Monster, at: (u32, (i32, i32)), oid: int) -> bool {
    let t = template_table()[oid % 3];
    let (mi, (cx, cy)) = at;
    let c = spawn_cell(w.spec_get_map(mi), cx as int, cy as int);
    &&& m.object_id == oid
    &&& m.name@ == t.name@
    &&& m.image == t.image
    &&& m.location.x == c.0 && m.location.y == c.1
    &&& m.direction == MirDirection::Up
    &&& m.level == t.level
    &&& m.max_hp == t.hp && m.hp == t.hp
    &&& m.attack == t.attack && m.defence == t.defence
    &&& m.exp_reward == t.exp && m.gold_reward == t.gold
    &&& m.drops@ == seq![1i32, 2, 3, 4, 5]
    &&& !m.dead && m.dead_ticks == 0 && !m.harvested
    &&& m.harvest_item == t.harvest_item
    &&& m.target is None && m.cooldown == 0
    &&& m.map_index == mi
    &&& m.ranged == t.ranged
}

proof fn lemma_seed_points_step(maps: Seq<u32>, i: int)
    requires
        0 <= i < maps.len(),
    ensures
        seed_points(maps.take(i + 1)) == seed_points(maps.take(i)) + spec_spawn_points(
            maps[i],
        ).map_values(|p: (i32, i32)| (maps[i], p)),
{
    assert(maps.take(i + 1).drop_last() =~= maps.take(i));
}

proof fn lemma_seed_points_len(maps: Seq<u32>)
    ensures
        seed_points(maps).len() <= 20 * maps.len(),
    decreases maps.len(),
{
    if maps.len() > 0 {
        lemma_seed_points_len(maps.drop_last());
    }
}

/// Spawns the monsters of the maps `map_indexes` (in that order): one per
/// spawn point, with object ids counted up from the world's next object id
/// (which is taken once), the template chosen by the id.
pub fn seed_monsters(w: &mut World, map_indexes: &Vec<u32>) -> (r: Vec<Monster>)
    requires
        old(w).wf(),
        old(w).next_object_id + 20 * map_indexes@.len() < u32::MAX,
    ensures
        final(w).wf(),
        final(w).map == old(w).map,
        final(w).maps@ == old(w).maps@,
        final(w).next_object_id == old(w).next_object_id + 1,
        r@.len() == seed_points(map_indexes@).len(),
        forall|i: int|
            0 <= i < r@.len() ==> spawned(
                *old(w),
                #[trigger] r@[i],
                seed_points(map_indexes@)[i],
                old(w).next_object_id + i,
            ),
{
    let ghost w0 = *w;
    let oid0 = w.next_object_id();
    let mut oid = oid0;
    let templates = monster_templates();
    let ghost maps = map_indexes@;
    proof {
        lemma_seed_points_len(maps);
        assert(maps.take(0) =~= Seq::<u32>::empty());
    }
    let mut r: Vec<Monster> = Vec::new();
    let mut i: usize = 0;
    while i < map_indexes.len()
        invariant
            i <= map_indexes.len(),
            maps == map_indexes@,
            templates@ == template_table(),
            w.wf(),
            w.map == w0.map,
            w.maps@ == w0.maps@,
            w.next_object_id == w0.next_object_id + 1,
            oid0 == w0.next_object_id,
            w0.next_object_id + 20 * maps.len() < u32::MAX,
            seed_points(maps).len() <= 20 * maps.len(),
            r@.len() == seed_points(maps.take(i as int)).len(),
            oid == oid0 + r@.len(),
            r@.len() <= 20 * i,
            forall|k: int|
                0 <= k < r@.len() ==> spawned(
                    w0,
                    #[trigger] r@[k],
                    seed_points(maps.take(i as int))[k],
                    oid0 + k,
                ),
        decreases map_indexes.len() - i,
    {
        let mi = map_indexes[i];
        let points = spawn_points_for(mi);
        let ghost before = r@;
        let ghost pre = seed_points(maps.take(i as int));
        let ghost add = spec_spawn_points(mi).map_values(|p: (i32, i32)| (mi, p));
        proof {
            lemma_seed_points_step(maps, i as int);
        }
        let mut j: usize = 0;
        while j < points.len()
            invariant
                j <= points.len(),
                points@ == spec_spawn_points(mi),
                points@.len() <= 20,
                templates@ == template_table(),
                w.wf(),
                w.map == w0.map,
                w.maps@ == w0.maps@,
                oid0 == w0.next_object_id,
                w0.next_object_id + 20 * maps.len() < u32::MAX,
                before.len() <= 20 * i,
                i < maps.len(),
                add == spec_spawn_points(mi).map_values(|p: (i32, i32)| (mi, p)),
                r@.len() == before.len() + j,
                oid == oid0 + r@.len(),
                forall|k: int| 0 <= k < before.len() ==> #[trigger] r@[k] == before[k],
                forall|k: int|
                    0 <= k < before.len() ==> spawned(w0, #[trigger] before[k], pre[k], oid0 + k),
                before.len() == pre.len(),
                forall|k: int|
                    0 <= k < j ==> spawned(
                        w0,
                        #[trigger] r@[before.len() + k],
                        add[k],
                        oid0 + before.len() + k,
                    ),
            decreases points.len() - j,
        {
            let (cx, cy) = points[j];
            let t = templates[(oid % 3) as usize];
            let map = w.get_map(mi);
            let (wx, wy) = if map.is_walkable(cx, cy) {
                (cx, cy)
            } else {
                w.nearest_walkable_on(mi, cx, cy)
            };
            let m = Monster {
                object_id: oid,
                name: t.name.to_string(),
                image: t.image,
                location: Point::new(wx, wy),
                direction: MirDirection::Up,
                level: t.level,
                max_hp: t.hp,
                hp: t.hp,
                attack: t.attack,
                defence: t.defence,
                exp_reward: t.exp,
                gold_reward: t.gold,
                drops: vec![1, 2, 3, 4, 5],
                dead: false,
                dead_ticks: 0,
                harvested: false,
                harvest_item: t.harvest_item,
                target: None,
                cooldown: 0,
                map_index: mi,
                ranged: t.ranged,
            };
            assert(m.drops@ =~= seq![1i32, 2, 3, 4, 5]);
            assert(add[j as int] == (mi, (cx, cy)));
            assert(spawned(w0, m, add[j as int], oid0 + before.len() + j));
            r.push(m);
            oid = oid + 1;
            j = j + 1;
        }
        proof {
            assert(r@.len() == seed_points(maps.take(i + 1)).len());
            assert forall|k: int| 0 <= k < r@.len() implies spawned(
                w0,
                #[trigger] r@[k],
                seed_points(maps.take(i + 1))[k],
                oid0 + k,
            ) by {
                if k < before.len() {
                    assert(r@[k] == before[k]);
                } else {
                    assert(spawned(w0, r@[before.len() + (k - before.len())], add[k - before.len()], oid0 + before.len() + (k - before.len())));
                }
            }
        }
        i = i + 1;
    }
    proof {
        assert(maps.take(maps.len() as int) =~= maps);
    }
    r
}

/// The NPCs of the starting town: the blacksmith's shop (selling items 1 to
/// 5), the quest master and the marker of the portal to map 100, each on the
/// walkable cell found near its place, with fresh object ids.
pub fn seed_npcs(w: &mut World) -> (r: Vec<Npc>)
    requires
        old(w).wf(),
    ensures
        final(w).wf(),
        final(w).map == old(w).map,
        final(w).maps@ == old(w).maps@,
        r@.len() == 3,
        r@[0].name@ == "铁匠铺"@ && r@[0].shop_items@ == seq![1i32, 2, 3, 4, 5],
        r@[1].name@ == "任务管理员"@ && r@[1].shop_items@.len() == 0,
        r@[2].name@ == "传送门(0100)"@ && r@[2].shop_items@.len() == 0,
        forall|i: int| 0 <= i < 3 ==> (#[trigger] r@[i]).map_index == 0 && r@[i].image == 0,
        (r@[0].location.x as int, r@[0].location.y as int) == spec_nearest(
            old(w).spec_get_map(old(w).map.index),
            404,
            400,
        ),
        (r@[1].location.x as int, r@[1].location.y as int) == spec_nearest(
            old(w).spec_get_map(old(w).map.index),
            402,
            400,
        ),
        (r@[2].location.x as int, r@[2].location.y as int) == spec_nearest(
            old(w).spec_get_map(old(w).map.index),
            404,
            412,
        ),
        r@[0].object_id == old(w).next_object_id,
{
    let (sx, sy) = w.nearest_walkable(404, 400);
    let shop = Npc {
        object_id: w.next_object_id(),
        name: "铁匠铺".to_string(),
        image: 0,
        location: Point::new(sx, sy),
        shop_items: vec![1, 2, 3, 4, 5],
        map_index: 0,
    };
    assert(shop.shop_items@ =~= seq![1i32, 2, 3, 4, 5]);
    let (qx, qy) = w.nearest_walkable(402, 400);
    let quest_npc = Npc {
        object_id: w.next_object_id(),
        name: "任务管理员".to_string(),
        image: 0,
        location: Point::new(qx, qy),
        shop_items: Vec::new(),
        map_index: 0,
    };
    let (px, py) = w.nearest_walkable(404, 412);
    let portal_npc = Npc {
        object_id: w.next_object_id(),
        name: "传送门(0100)".to_string(),
        image: 0,
        location: Point::new(px, py),
        shop_items: Vec::new(),
        map_index: 0,
    };
    vec![shop, quest_npc, portal_npc]
}

// ----------------------------------------------------------------------------
// Entering the world and moving
// ----------------------------------------------------------------------------

/// The player that enters the world for stored character `ch` of account
/// `account_id` at level `level`, wearing `equipment`: a fresh object id, on
/// map 0 at the walkable cell `nearest_walkable` finds near the stored
/// position, base stats of the level (hit points `40 + 8 * level`, mana
/// `20 + 5 * level`), the stored hit points (not below 0; dead at 0 or
/// below), mana and gold, attack and defence from the level and equipment
/// (see `recompute_stats`). The stored position must lie within 2^30 of the
/// origin: the search for a walkable cell looks at cells around it, and
/// their coordinates are computed in `i32`.
pub fn enter_world_player(
    w: &mut World,
    account_id: &str,
    ch: &CharacterRow,
    level: u16,
    equipment: BTreeMap<i32, UserItem>,
) -> (r: Player)
    requires
        old(w).wf(),
        -0x3FFF_FFFF <= ch.x <= 0x3FFF_FFFF,
        -0x3FFF_FFFF <= ch.y <= 0x3FFF_FFFF,
    ensures
        final(w).wf(),
        final(w).map == old(w).map,
        final(w).maps@ == old(w).maps@,
        r.object_id == old(w).next_object_id,
        r.account_id@ == account_id@,
        r.name@ == ch.name@,
        r.class == crate::net::spec_class(ch.class),
        r.gender == (if ch.gender == 0 { MirGender::Male } else { MirGender::Female }),
        r.level == level,
        (r.location.x as int, r.location.y as int) == spec_nearest(
            old(w).spec_get_map(old(w).map.index),
            ch.x as int,
            ch.y as int,
        ),
        dir_num(r.direction) == (ch.direction as u8) % 8,
        r.max_hp == 40 + 8 * level,
        r.hp == (if ch.hp > 0 { ch.hp } else { 0 }),
        r.max_mp == 20 + 5 * level,
        r.mp == ch.mp,
        r.dead == (ch.hp <= 0),
        r.gold == ch.gold as u32,
        r.experience == 0,
        r.map_index == 0,
        r.equipment@ == equipment@,
        r.attack == 1 + level / 2 + match slot_bonus(equipment@, WEAPON_SLOT) {
            Some((b, _)) => b as int,
            None => 0,
        },
        r.defence == level / 2 + match slot_bonus(equipment@, ARMOUR_SLOT) {
            Some((b, _)) => b as int,
            None => 0,
        },
        !r.can_be_mentor && r.allow_group && !r.fishing,
        r.character_index == ch.index,
        r.weapon == match slot_bonus(equipment@, WEAPON_SLOT) {
            Some((_, look)) => look,
            None => 0,
        },
        r.armour == match slot_bonus(equipment@, ARMOUR_SLOT) {
            Some((_, look)) => look,
            None => 0,
        },
        !r.hp_changed && r.auto_pot_item == 0 && r.auto_pot_hp == 0 && r.recently_sold@.len() == 0,
        r.fishing_progress == 0 && !r.auto_fish && !r.storage_unlocked,
        r.pending_mentor is None && r.pending_marriage is None,
        r.a_mode == 0 && r.p_mode == 0 && r.magic_keys@.len() == 0,
{
    let object_id = w.next_object_id();
    let class = crate::net::class_from_db(ch.class);
    let (base_hp, base_attack) = crate::net::base_stats(class, level);
    let (sx, sy) = w.nearest_walkable(ch.x, ch.y);
    let mut player = Player {
        object_id,
        account_id: account_id.to_string(),
        name: ch.name.clone(),
        class,
        gender: crate::net::num_gender(ch.gender),
        level,
        location: Point::new(sx, sy),
        direction: MirDirection::from_u8(#[verifier::truncate] (ch.direction as u8)),
        max_hp: base_hp,
        hp: if ch.hp > 0 { ch.hp } else { 0 },
        max_mp: 20 + level as i32 * 5,
        mp: ch.mp,
        attack: base_attack,
        defence: (level / 2) as i32,
        experience: 0,
        gold: #[verifier::truncate] (ch.gold as u32),
        weapon: 0,
        armour: 0,
        character_index: ch.index,
        hp_changed: false,
        equipment,
        map_index: 0,
        auto_pot_item: 0,
        auto_pot_hp: 0,
        recently_sold: Vec::new(),
        fishing: false,
        fishing_progress: 0,
        auto_fish: false,
        storage_unlocked: false,
        pending_mentor: None,
        can_be_mentor: false,
        pending_marriage: None,
        dead: ch.hp <= 0,
        a_mode: 0,
        allow_group: true,
        p_mode: 0,
        magic_keys: HashMap::new(),
    };
    recompute_stats(&mut player);
    player
}

/// How a move looks to other players.
#[derive(Debug, Clone, Copy, PartialEq, Eq, Structural)]
pub enum MoveKind {
    Turn,
    Walk,
    Run,
}

/// A move of `steps` cells (0 turns, 1 walks, 2 runs) in direction `dir` by
/// player `p` on its map. Nothing happens (`None`) when the target cell is not
/// walkable. Otherwise the player stands there facing `dir`; a walk or run
/// that ends on a portal takes the player on to the portal's destination
/// (as `teleport_player` does). Returns how the move looks and the portal
/// taken, if any.
pub fn move_player(w: &World, p: &mut Player, dir: MirDirection, steps: i32) -> (r: Option<(MoveKind, Option<(u32, i32, i32)>)>)
    requires
        w.wf(),
        small(old(p).location),
        0 <= steps <= 2,
    ensures
        ({
            let (dx, dy) = spec_offset(dir, steps as int);
            let (nx, ny) = (old(p).location.x + dx, old(p).location.y + dy);
            if !w.spec_get_map(old(p).map_index).walkable_at(nx, ny) {
                r is None && *final(p) == *old(p)
            } else {
                let moved = Player { location: Point { x: nx as i32, y: ny as i32 }, direction: dir, ..*old(p) };
                let portal = if steps > 0 { crate::world::spec_portal_at(old(p).map_index, nx as i32, ny as i32) } else { None };
                &&& r == Some((if steps == 2 { MoveKind::Run } else if steps == 1 { MoveKind::Walk } else { MoveKind::Turn }, portal))
                &&& match portal {
                    None => *final(p) == moved,
                    Some((dm, tx, ty)) => {
                        &&& final(p).map_index == dm
                        &&& (final(p).location.x as int, final(p).location.y as int) == spec_nearest(w.spec_get_map(dm), tx as int, ty as int)
                        &&& *final(p) == (Player { map_index: final(p).map_index, location: final(p).location, ..moved })
                    },
                }
            }
        }),
{
    let new_loc = match w.try_move_on(p.map_index, p.location, dir, steps) {
        Some(l) => l,
        None => return None,
    };
    p.location = new_loc;
    p.direction = dir;
    let kind = if steps == 2 {
        MoveKind::Run
    } else if steps == 1 {
        MoveKind::Walk
    } else {
        MoveKind::Turn
    };
    if steps > 0 {
        match w.portal_at(p.map_index, new_loc.x, new_loc.y) {
            Some((dm, dx, dy)) => {
                assert(crate::world::portal_table()[0].dest_x == 8);
                teleport_player(w, p, dm, dx, dy);
                return Some((kind, Some((dm, dx, dy))));
            },
            None => {},
        }
    }
    Some((kind, None))
}

} // verus!
