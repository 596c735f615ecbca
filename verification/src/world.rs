//! World rules: the maps of the world and movement on them (steps, collision,
//! portals, chasing), and the game rules applied to players and monsters
//! (combat, experience and levelling, regeneration, harvesting, pick-up,
//! monster AI decisions, respawning).
//!
//! Coordinates grow to the right (x) and downwards (y). Entities live in the
//! caller's tables; each rule here takes the entities it reads and returns or
//! updates what the rule decides.
use std::collections::HashMap;
use vstd::prelude::*;

use crate::maps::{load_map_bytes, le_u16, le_u32, spec_load, v100_blocked, GameMap};
use crate::types::{dir_num, MirDirection, Point};

verus! {

broadcast use vstd::std_specs::hash::group_hash_axioms;

/// Size of the built-in map used when no map file is present.
pub const MAP_WIDTH: i32 = 800;

pub const MAP_HEIGHT: i32 = 800;

/// Where players start (and revive).
pub fn spawn_point() -> (r: Point)
    ensures
        r == (Point { x: 400, y: 400 }),
{
    Point { x: 400, y: 400 }
}

impl Point {
    pub fn new(x: i32, y: i32) -> (r: Point)
        ensures
            r == (Point { x, y }),
    {
        Point { x, y }
    }
}

// ----------------------------------------------------------------------------
// Portals
// ----------------------------------------------------------------------------

/// A portal: stepping on (`x`, `y`) of map `src_map` takes the player to
/// (`dest_x`, `dest_y`) of map `dest_map`.
#[derive(Debug, Clone, Copy, PartialEq, Eq, Structural)]
pub struct PortalDef {
    pub src_map: u32,
    pub x: i32,
    pub y: i32,
    pub dest_map: u32,
    pub dest_x: i32,
    pub dest_y: i32,
}

/// The portals of the world: the starting town (map 0) and cave map 100 lead
/// to each other.
pub open spec fn portal_table() -> Seq<PortalDef> {
    seq![
        PortalDef { src_map: 0, x: 404, y: 412, dest_map: 100, dest_x: 8, dest_y: 6 },
        PortalDef { src_map: 100, x: 4, y: 4, dest_map: 0, dest_x: 404, dest_y: 404 },
    ]
}

pub fn portals() -> (r: Vec<PortalDef>)
    ensures
        r@ == portal_table(),
{
    let r = vec![
        PortalDef { src_map: 0, x: 404, y: 412, dest_map: 100, dest_x: 8, dest_y: 6 },
        PortalDef { src_map: 100, x: 4, y: 4, dest_map: 0, dest_x: 404, dest_y: 404 },
    ];
    assert(r@ =~= portal_table());
    r
}

/// The destination of the portal on (`x`, `y`) of map `map_index`, if any.
pub open spec fn spec_portal_at(map_index: u32, x: i32, y: i32) -> Option<(u32, i32, i32)> {
    if exists|k: int|
        0 <= k < portal_table().len() && (#[trigger] portal_table()[k]).src_map == map_index
            && portal_table()[k].x == x && portal_table()[k].y == y {
        let k = choose|k: int|
            0 <= k < portal_table().len() && (#[trigger] portal_table()[k]).src_map == map_index
                && portal_table()[k].x == x && portal_table()[k].y == y;
        Some((portal_table()[k].dest_map, portal_table()[k].dest_x, portal_table()[k].dest_y))
    } else {
        None
    }
}

// ----------------------------------------------------------------------------
// The built-in map
// ----------------------------------------------------------------------------

/// All cells of a grid walkable.
pub open spec fn all_walkable(g: Seq<u8>) -> bool {
    forall|k: int| 0 <= k < g.len() ==> g[k] == 1
}

proof fn lemma_zero_cell_open(b: Seq<u8>, k: int)
    requires
        0 <= k,
        8 + 26 * k + 26 <= b.len(),
        forall|i: int| 8 <= i < b.len() ==> b[i] == 0,
    ensures
        !v100_blocked(b, k),
{
    let c = 8 + 26 * k;
    assert(b[c + 2] == 0 && b[c + 3] == 0 && b[c + 4] == 0 && b[c + 5] == 0);
    assert(b[c + 12] == 0 && b[c + 13] == 0);
    assert(((0u8 as u32) | ((0u8 as u32) << 8u32) | ((0u8 as u32) << 16u32) | ((0u8 as u32)
        << 24u32)) as u32 == 0u32) by (bit_vector);
    assert(((0u8 as u16) | ((0u8 as u16) << 8u16)) as u16 == 0u16) by (bit_vector);
    assert(le_u32(b, c + 2) == 0u32);
    assert(le_u16(b, c + 12) == 0u16);
    assert(0u32 & 0x2000_0000u32 == 0u32) by (bit_vector);
    assert(0u16 & 0x8000u16 == 0u16) by (bit_vector);
}

/// The map used when no real map is present: map 0, 800 x 800 cells, all
/// walkable.
pub fn default_map() -> (r: GameMap)
    ensures
        r.wf(),
        r.index == 0,
        r.width == 800,
        r.height == 800,
        all_walkable(r.cells()),
{
    let n: usize = 8 + 800 * 800 * 26;
    let mut b: Vec<u8> = vec![0u8; n];
    assert forall|i: int| 0 <= i < b@.len() implies b@[i] == 0 by {
        assert(cloned(0u8, b@[i]));
    }
    b.set(0, 1);
    b.set(2, 0x43);
    b.set(3, 0x23);
    b.set(4, 0x20);
    b.set(5, 0x03);
    b.set(6, 0x20);
    b.set(7, 0x03);
    let ghost bs = b@;
    assert(bs[4] == 0x20 && bs[5] == 0x03 && bs[6] == 0x20 && bs[7] == 0x03);
    assert(((0x20u8 as u16) | ((0x03u8 as u16) << 8u16)) as u16 == 800u16) by (bit_vector);
    assert(le_u16(bs, 4) == 800u16);
    assert(le_u16(bs, 6) == 800u16);
    proof {
        assert forall|k: int| 0 <= k < 800 * 800 implies !v100_blocked(bs, k) by {
            lemma_zero_cell_open(bs, k);
        }
    }
    match load_map_bytes(0, b.as_slice()) {
        Ok(m) => {
            assert(spec_load(bs) is Ok);
            m
        },
        Err(_) => {
            assert(false);
            GameMap { index: 0, width: 0, height: 0, walkable: Vec::new() }
        },
    }
}

// ----------------------------------------------------------------------------
// Directions and distances
// ----------------------------------------------------------------------------

/// The (dx, dy) of `steps` steps in direction `d` (y grows downwards).
pub open spec fn spec_offset(d: MirDirection, steps: int) -> (int, int) {
    match d {
        MirDirection::Up => (0, -steps),
        MirDirection::UpRight => (steps, -steps),
        MirDirection::Right => (steps, 0),
        MirDirection::DownRight => (steps, steps),
        MirDirection::Down => (0, steps),
        MirDirection::DownLeft => (-steps, steps),
        MirDirection::Left => (-steps, 0),
        MirDirection::UpLeft => (-steps, -steps),
    }
}

/// The offset of `steps` steps in direction `dir`.
pub fn direction_offset(dir: MirDirection, steps: i32) -> (r: (i32, i32))
    requires
        steps > i32::MIN,
    ensures
        (r.0 as int, r.1 as int) == spec_offset(dir, steps as int),
{
    match dir {
        MirDirection::Up => (0, -steps),
        MirDirection::UpRight => (steps, -steps),
        MirDirection::Right => (steps, 0),
        MirDirection::DownRight => (steps, steps),
        MirDirection::Down => (0, steps),
        MirDirection::DownLeft => (-steps, steps),
        MirDirection::Left => (-steps, 0),
        MirDirection::UpLeft => (-steps, -steps),
    }
}

/// The direction of a unit step (dx, dy); `Up` for anything else.
pub open spec fn spec_dir_from_delta(dx: int, dy: int) -> MirDirection {
    if dx == 0 && dy == -1 {
        MirDirection::Up
    } else if dx == 1 && dy == -1 {
        MirDirection::UpRight
    } else if dx == 1 && dy == 0 {
        MirDirection::Right
    } else if dx == 1 && dy == 1 {
        MirDirection::DownRight
    } else if dx == 0 && dy == 1 {
        MirDirection::Down
    } else if dx == -1 && dy == 1 {
        MirDirection::DownLeft
    } else if dx == -1 && dy == 0 {
        MirDirection::Left
    } else if dx == -1 && dy == -1 {
        MirDirection::UpLeft
    } else {
        MirDirection::Up
    }
}

/// The direction of the unit step (`dx`, `dy`).
pub fn dir_from_delta(dx: i32, dy: i32) -> (r: MirDirection)
    ensures
        r == spec_dir_from_delta(dx as int, dy as int),
{
    match (dx, dy) {
        (0, -1) => MirDirection::Up,
        (1, -1) => MirDirection::UpRight,
        (1, 0) => MirDirection::Right,
        (1, 1) => MirDirection::DownRight,
        (0, 1) => MirDirection::Down,
        (-1, 1) => MirDirection::DownLeft,
        (-1, 0) => MirDirection::Left,
        (-1, -1) => MirDirection::UpLeft,
        _ => MirDirection::Up,
    }
}

pub open spec fn abs(a: int) -> int {
    if a < 0 {
        -a
    } else {
        a
    }
}

pub open spec fn sign(a: int) -> int {
    if a > 0 {
        1
    } else if a < 0 {
        -1
    } else {
        0
    }
}

/// Manhattan distance between two cells.
pub open spec fn dist(a: Point, b: Point) -> int {
    abs(a.x - b.x) + abs(a.y - b.y)
}

/// Coordinates small enough that differences and distances of two of them
/// fit in an `i32`.
pub open spec fn coord_ok(p: Point) -> bool {
    -0x3FFF_FFFF <= p.x <= 0x3FFF_FFFF && -0x3FFF_FFFF <= p.y <= 0x3FFF_FFFF
}

/// Manhattan distance between `a` and `b`.
pub fn manhattan(a: Point, b: Point) -> (r: i32)
    requires
        abs(a.x - b.x) + abs(a.y - b.y) <= i32::MAX,
    ensures
        r == dist(a, b),
{
    let dx: i64 = a.x as i64 - b.x as i64;
    let dy: i64 = a.y as i64 - b.y as i64;
    let ax: i64 = if dx < 0 { -dx } else { dx };
    let ay: i64 = if dy < 0 { -dy } else { dy };
    (ax + ay) as i32
}

/// The unit step toward `to`, along the axis of the larger distance (the x
/// axis on a tie), and no step when `to` is `from`.
pub open spec fn spec_axis_step(from: Point, to: Point) -> (int, int) {
    let dx = to.x - from.x;
    let dy = to.y - from.y;
    if abs(dx) >= abs(dy) && dx != 0 {
        (sign(dx), 0)
    } else if dy != 0 {
        (0, sign(dy))
    } else {
        (sign(dx), 0)
    }
}

/// The (dx, dy) of one step from `from` toward `to`, along the axis where the
/// distance is larger.
pub fn chase_step(from: Point, to: Point) -> (r: (i32, i32))
    requires
        i32::MIN < to.x - from.x <= i32::MAX,
        i32::MIN < to.y - from.y <= i32::MAX,
    ensures
        (r.0 as int, r.1 as int) == spec_axis_step(from, to),
{
    let dx = to.x - from.x;
    let dy = to.y - from.y;
    let ax = if dx < 0 { -dx } else { dx };
    let ay = if dy < 0 { -dy } else { dy };
    let sx: i32 = if dx > 0 { 1 } else if dx < 0 { -1 } else { 0 };
    let sy: i32 = if dy > 0 { 1 } else if dy < 0 { -1 } else { 0 };
    if ax >= ay && dx != 0 {
        (sx, 0)
    } else if dy != 0 {
        (0, sy)
    } else {
        (sx, 0)
    }
}

// ----------------------------------------------------------------------------
// Maps of the world
// ----------------------------------------------------------------------------

/// The maps of the world and its id counters. `map` is the main map; `maps`
/// holds every registered map by its index.
pub struct World {
    pub map: GameMap,
    pub maps: HashMap<u32, GameMap>,
    pub next_object_id: u32,
    pub next_item_unique: u64,
}

/// The ring of radius `r` around a cell, scanned row by row: offset (dx, dy)
/// with Chebyshev norm `r`, for the radii searched (below 40).
pub open spec fn ring_cell(r: int, dy: int, dx: int) -> bool {
    &&& 0 <= r < 40
    &&& -r <= dy <= r
    &&& -r <= dx <= r
    &&& (abs(dx) == r || abs(dy) == r)
}

/// (r1, dy1, dx1) comes before (r2, dy2, dx2) in the search order.
pub open spec fn scan_before(r1: int, dy1: int, dx1: int, r2: int, dy2: int, dx2: int) -> bool {
    r1 < r2 || (r1 == r2 && (dy1 < dy2 || (dy1 == dy2 && dx1 < dx2)))
}

/// The cell at offset (dx, dy) of ring `r` around (x, y) is walkable.
pub open spec fn ring_hit(m: GameMap, x: int, y: int, r: int, dy: int, dx: int) -> bool {
    ring_cell(r, dy, dx) && m.walkable_at(x + dx, y + dy)
}

/// (r, dy, dx) is the first walkable ring cell in search order.
pub open spec fn first_ring_hit(m: GameMap, x: int, y: int, r: int, dy: int, dx: int) -> bool {
    &&& ring_hit(m, x, y, r, dy, dx)
    &&& forall|r2: int, dy2: int, dx2: int|
        #![trigger ring_hit(m, x, y, r2, dy2, dx2)]
        scan_before(r2, dy2, dx2, r, dy, dx) ==> !ring_hit(m, x, y, r2, dy2, dx2)
}

/// Where `nearest_walkable_on` lands from (x, y) on map `m`: the first
/// walkable cell of the rings of radius 0 to 39 around it, or the centre of
/// the map if there is none.
pub open spec fn spec_nearest(m: GameMap, x: int, y: int) -> (int, int) {
    if exists|r: int, dy: int, dx: int| first_ring_hit(m, x, y, r, dy, dx) {
        let (r, dy, dx) = choose|r: int, dy: int, dx: int| first_ring_hit(m, x, y, r, dy, dx);
        (x + dx, y + dy)
    } else {
        ((m.width / 2) as int, (m.height / 2) as int)
    }
}

proof fn lemma_first_ring_hit_unique(m: GameMap, x: int, y: int, r: int, dy: int, dx: int)
    requires
        first_ring_hit(m, x, y, r, dy, dx),
    ensures
        spec_nearest(m, x, y) == (x + dx, y + dy),
{
    let (r2, dy2, dx2) = choose|r2: int, dy2: int, dx2: int| first_ring_hit(m, x, y, r2, dy2, dx2);
    assert(first_ring_hit(m, x, y, r2, dy2, dx2));
    if scan_before(r2, dy2, dx2, r, dy, dx) {
        assert(!ring_hit(m, x, y, r2, dy2, dx2));
    } else if scan_before(r, dy, dx, r2, dy2, dx2) {
        assert(!ring_hit(m, x, y, r, dy, dx));
    }
}

/// The first walkable cell of the rings of radius 0 to 39 around (x, y) on
/// map `map`, scanning each ring row by row; the map's centre if there is none.
pub fn nearest_walkable_in(map: &GameMap, x: i32, y: i32) -> (r: (i32, i32))
    requires
        map.wf(),
        -0x3FFF_FFFF <= x <= 0x3FFF_FFFF,
        -0x3FFF_FFFF <= y <= 0x3FFF_FFFF,
    ensures
        (r.0 as int, r.1 as int) == spec_nearest(*map, x as int, y as int),
{
    let ghost m = *map;
    let mut r: i32 = 0;
    while r < 40
        invariant
            0 <= r <= 40,
            m == *map,
            map.wf(),
            -0x3FFF_FFFF <= x <= 0x3FFF_FFFF,
            -0x3FFF_FFFF <= y <= 0x3FFF_FFFF,
            forall|r2: int, dy2: int, dx2: int|
                #![trigger ring_hit(m, x as int, y as int, r2, dy2, dx2)]
                r2 < r ==> !ring_hit(m, x as int, y as int, r2, dy2, dx2),
        decreases 40 - r,
    {
        let mut dy: i32 = -r;
        while dy <= r
            invariant
                0 <= r < 40,
                -r <= dy <= r + 1,
                m == *map,
                map.wf(),
                -0x3FFF_FFFF <= x <= 0x3FFF_FFFF,
                -0x3FFF_FFFF <= y <= 0x3FFF_FFFF,
                forall|r2: int, dy2: int, dx2: int|
                    #![trigger ring_hit(m, x as int, y as int, r2, dy2, dx2)]
                    scan_before(r2, dy2, dx2, r as int, dy as int, -r as int) ==> !ring_hit(
                        m,
                        x as int,
                        y as int,
                        r2,
                        dy2,
                        dx2,
                    ),
            decreases r + 1 - dy,
        {
            let mut dx: i32 = -r;
            while dx <= r
                invariant
                    0 <= r < 40,
                    -r <= dy <= r,
                    -r <= dx <= r + 1,
                    m == *map,
                    map.wf(),
                    -0x3FFF_FFFF <= x <= 0x3FFF_FFFF,
                    -0x3FFF_FFFF <= y <= 0x3FFF_FFFF,
                    forall|r2: int, dy2: int, dx2: int|
                        #![trigger ring_hit(m, x as int, y as int, r2, dy2, dx2)]
                        scan_before(r2, dy2, dx2, r as int, dy as int, dx as int) ==> !ring_hit(
                            m,
                            x as int,
                            y as int,
                            r2,
                            dy2,
                            dx2,
                        ),
                decreases r + 1 - dx,
            {
                let adx = if dx < 0 { -dx } else { dx };
                let ady = if dy < 0 { -dy } else { dy };
                let on_ring = adx == r || ady == r;
                if on_ring && map.is_walkable(x + dx, y + dy) {
                    proof {
                        assert(ring_hit(m, x as int, y as int, r as int, dy as int, dx as int));
                        assert(first_ring_hit(m, x as int, y as int, r as int, dy as int, dx as int));
                        lemma_first_ring_hit_unique(m, x as int, y as int, r as int, dy as int, dx as int);
                    }
                    return (x + dx, y + dy);
                }
                proof {
                    assert(!ring_hit(m, x as int, y as int, r as int, dy as int, dx as int));
                }
                dx = dx + 1;
            }
            proof {
                assert forall|r2: int, dy2: int, dx2: int|
                    scan_before(r2, dy2, dx2, r as int, dy + 1, -r as int) implies !ring_hit(
                        m,
                        x as int,
                        y as int,
                        r2,
                        dy2,
                        dx2,
                    ) by {
                    if !scan_before(r2, dy2, dx2, r as int, dy as int, dx as int) {
                        assert(!ring_cell(r2, dy2, dx2));
                    }
                }
            }
            dy = dy + 1;
        }
        proof {
            assert forall|r2: int, dy2: int, dx2: int| r2 < r + 1 implies !ring_hit(
                m,
                x as int,
                y as int,
                r2,
                dy2,
                dx2,
            ) by {
                if !scan_before(r2, dy2, dx2, r as int, dy as int, -r as int) {
                    assert(!ring_cell(r2, dy2, dx2));
                }
            }
        }
        r = r + 1;
    }
    proof {
        assert forall|r2: int, dy2: int, dx2: int| !first_ring_hit(m, x as int, y as int, r2, dy2, dx2) by {
            if r2 >= 40 {
                assert(!ring_cell(r2, dy2, dx2));
            }
        }
    }
    ((map.width / 2) as i32, (map.height / 2) as i32)
}

/// The eight directions in the order the chase step tries them.
pub open spec fn all_dirs() -> Seq<MirDirection> {
    seq![
        MirDirection::Up,
        MirDirection::UpRight,
        MirDirection::Right,
        MirDirection::DownRight,
        MirDirection::Down,
        MirDirection::DownLeft,
        MirDirection::Left,
        MirDirection::UpLeft,
    ]
}

/// The cell one step from `from` in direction `d`.
pub open spec fn step_cell(from: Point, d: MirDirection) -> (int, int) {
    (from.x + spec_offset(d, 1).0, from.y + spec_offset(d, 1).1)
}

/// How many coordinates of (cx, cy) equal those of `to` (0, 1 or 2).
pub open spec fn on_axis(cx: int, cy: int, to: Point) -> int {
    (if cx == to.x { 1int } else { 0int }) + (if cy == to.y { 1int } else { 0int })
}

/// The best of the first `k` directions for a chase step on map `m`: among
/// the walkable neighbour cells, the one nearest to `to`, a tie going to the
/// cell sharing more coordinates with `to`, a remaining tie to the earlier
/// direction. (cell, direction, distance, shared coordinates).
pub open spec fn chase_best(m: GameMap, from: Point, to: Point, k: nat) -> Option<
    ((int, int), MirDirection, int, int),
>
    decreases k,
{
    if k == 0 {
        None
    } else {
        let prev = chase_best(m, from, to, (k - 1) as nat);
        let d = all_dirs()[k - 1];
        let c = step_cell(from, d);
        if !m.walkable_at(c.0, c.1) {
            prev
        } else {
            let dd = abs(c.0 - to.x) + abs(c.1 - to.y);
            let ax = on_axis(c.0, c.1, to);
            match prev {
                None => Some((c, d, dd, ax)),
                Some((_, _, bd, bt)) => if dd < bd || (dd == bd && ax > bt) {
                    Some((c, d, dd, ax))
                } else {
                    prev
                },
            }
        }
    }
}

proof fn lemma_chase_best_min(m: GameMap, from: Point, to: Point, k: nat)
    requires
        k <= 8,
    ensures
        match chase_best(m, from, to, k) {
            None => forall|j: int|
                0 <= j < k ==> !m.walkable_at(
                    #[trigger] step_cell(from, all_dirs()[j]).0,
                    step_cell(from, all_dirs()[j]).1,
                ),
            Some((c, d, dd, _)) => {
                &&& m.walkable_at(c.0, c.1)
                &&& c == step_cell(from, d)
                &&& dd == abs(c.0 - to.x) + abs(c.1 - to.y)
                &&& forall|j: int|
                    0 <= j < k && m.walkable_at(
                        #[trigger] step_cell(from, all_dirs()[j]).0,
                        step_cell(from, all_dirs()[j]).1,
                    ) ==> dd <= abs(step_cell(from, all_dirs()[j]).0 - to.x) + abs(
                        step_cell(from, all_dirs()[j]).1 - to.y,
                    )
            },
        },
    decreases k,
{
    if k > 0 {
        lemma_chase_best_min(m, from, to, (k - 1) as nat);
    }
}

impl World {
    /// Every map is consistent, and registered under its own index.
    pub open spec fn wf(&self) -> bool {
        &&& self.map.wf()
        &&& forall|k: u32| #[trigger] self.maps@.contains_key(k) ==> self.maps@[k].wf()
            && self.maps@[k].index == k
    }

    /// The map with index `i`; the main map if none is registered.
    pub open spec fn spec_get_map(&self, i: u32) -> GameMap {
        if self.maps@.contains_key(i) {
            self.maps@[i]
        } else {
            self.map
        }
    }

    /// A world on the built-in 800 x 800 open map.
    pub fn new() -> (r: World)
        ensures
            r.wf(),
            r.map.index == 0 && r.map.width == 800 && r.map.height == 800,
            all_walkable(r.map.cells()),
            r.maps@.dom() == set![0u32],
            r.maps@[0].cells() == r.map.cells(),
            r.maps@[0].width == 800 && r.maps@[0].height == 800,
            r.next_object_id == 1,
            r.next_item_unique == 1,
    {
        World::with_map(default_map())
    }

    /// A world whose main map is `map`, registered under its index.
    pub fn with_map(map: GameMap) -> (r: World)
        requires
            map.wf(),
        ensures
            r.wf(),
            r.map == map,
            r.maps@.dom() == set![map.index],
            r.maps@[map.index].cells() == map.cells(),
            r.maps@[map.index].width == map.width,
            r.maps@[map.index].height == map.height,
            r.next_object_id == 1,
            r.next_item_unique == 1,
    {
        let mut maps: HashMap<u32, GameMap> = HashMap::new();
        let copy = map.duplicate();
        maps.insert(map.index, copy);
        assert(maps@.dom() =~= set![map.index]);
        World { map, maps, next_object_id: 1, next_item_unique: 1 }
    }

    /// Registers `map` under its index (replacing a map of that index).
    pub fn register_map(&mut self, map: GameMap)
        requires
            old(self).wf(),
            map.wf(),
        ensures
            final(self).wf(),
            final(self).map == old(self).map,
            final(self).maps@ == old(self).maps@.insert(map.index, map),
            final(self).next_object_id == old(self).next_object_id,
            final(self).next_item_unique == old(self).next_item_unique,
    {
        self.maps.insert(map.index, map);
    }

    /// The map with index `map_index`, or the main map if none is registered.
    pub fn get_map(&self, map_index: u32) -> (r: &GameMap)
        requires
            self.wf(),
        ensures
            *r == self.spec_get_map(map_index),
            r.wf(),
    {
        match self.maps.get(&map_index) {
            Some(m) => m,
            None => &self.map,
        }
    }

    /// Whether (x, y) is walkable on the main map.
    pub fn is_walkable(&self, x: i32, y: i32) -> (r: bool)
        requires
            self.wf(),
        ensures
            r == self.map.walkable_at(x as int, y as int),
    {
        self.map.is_walkable(x, y)
    }

    /// Whether (x, y) is walkable on map `map_index`.
    pub fn is_walkable_on(&self, map_index: u32, x: i32, y: i32) -> (r: bool)
        requires
            self.wf(),
        ensures
            r == self.spec_get_map(map_index).walkable_at(x as int, y as int),
    {
        self.get_map(map_index).is_walkable(x, y)
    }

    /// A walkable cell near (x, y) on the main map (see `nearest_walkable_in`).
    pub fn nearest_walkable(&self, x: i32, y: i32) -> (r: (i32, i32))
        requires
            self.wf(),
            -0x3FFF_FFFF <= x <= 0x3FFF_FFFF,
            -0x3FFF_FFFF <= y <= 0x3FFF_FFFF,
        ensures
            (r.0 as int, r.1 as int) == spec_nearest(
                self.spec_get_map(self.map.index),
                x as int,
                y as int,
            ),
    {
        self.nearest_walkable_on(self.map.index, x, y)
    }

    /// A walkable cell near (x, y) on map `map_index` (see
    /// `nearest_walkable_in`).
    pub fn nearest_walkable_on(&self, map_index: u32, x: i32, y: i32) -> (r: (i32, i32))
        requires
            self.wf(),
            -0x3FFF_FFFF <= x <= 0x3FFF_FFFF,
            -0x3FFF_FFFF <= y <= 0x3FFF_FFFF,
        ensures
            (r.0 as int, r.1 as int) == spec_nearest(
                self.spec_get_map(map_index),
                x as int,
                y as int,
            ),
    {
        nearest_walkable_in(self.get_map(map_index), x, y)
    }

    /// A move of `steps` cells from `location` in direction `dir` on map
    /// `map_index`: the new cell if it is walkable, `None` otherwise.
    pub fn try_move_on(&self, map_index: u32, location: Point, dir: MirDirection, steps: i32) -> (r:
        Option<Point>)
        requires
            self.wf(),
            coord_ok(location),
            -0x3FFF_FFFF <= steps <= 0x3FFF_FFFF,
        ensures
            ({
                let (dx, dy) = spec_offset(dir, steps as int);
                let m = self.spec_get_map(map_index);
                if m.walkable_at(location.x + dx, location.y + dy) {
                    r == Some(Point { x: (location.x + dx) as i32, y: (location.y + dy) as i32 })
                } else {
                    r is None
                }
            }),
    {
        let map = self.get_map(map_index);
        let (dx, dy) = direction_offset(dir, steps);
        let nx = location.x + dx;
        let ny = location.y + dy;
        if !map.is_walkable(nx, ny) {
            return None;
        }
        Some(Point::new(nx, ny))
    }

    /// A move of `steps` cells on the main map.
    pub fn try_move(&self, location: Point, dir: MirDirection, steps: i32) -> (r: Option<Point>)
        requires
            self.wf(),
            coord_ok(location),
            -0x3FFF_FFFF <= steps <= 0x3FFF_FFFF,
        ensures
            ({
                let (dx, dy) = spec_offset(dir, steps as int);
                if self.map.walkable_at(location.x + dx, location.y + dy) {
                    r == Some(Point { x: (location.x + dx) as i32, y: (location.y + dy) as i32 })
                } else {
                    r is None
                }
            }),
    {
        let (dx, dy) = direction_offset(dir, steps);
        let nx = location.x + dx;
        let ny = location.y + dy;
        if !self.map.is_walkable(nx, ny) {
            return None;
        }
        Some(Point::new(nx, ny))
    }

    /// Whether `to` is one step (or no step) from `from` and walkable on the
    /// main map.
    pub fn walkable_line(&self, from: Point, to: Point) -> (r: bool)
        requires
            self.wf(),
            coord_ok(from),
            coord_ok(to),
        ensures
            r == (abs(to.x - from.x) <= 1 && abs(to.y - from.y) <= 1 && self.map.walkable_at(
                to.x as int,
                to.y as int,
            )),
    {
        let dx = to.x - from.x;
        let dy = to.y - from.y;
        let adx = if dx < 0 { -dx } else { dx };
        let ady = if dy < 0 { -dy } else { dy };
        if adx > 1 || ady > 1 {
            return false;
        }
        self.map.is_walkable(to.x, to.y)
    }

    /// One chase step on the main map from `from` toward `to`: of the eight
    /// walkable neighbour cells, the nearest to `to`, preferring on a tie the
    /// cell sharing more coordinates with `to`, then the earlier direction
    /// (clockwise from up). `None` when no neighbour is walkable.
    pub fn chase_step(&self, from: Point, to: Point) -> (r: Option<(Point, MirDirection)>)
        requires
            self.wf(),
            coord_ok(from),
            coord_ok(to),
            dist(from, to) + 2 <= i32::MAX,
        ensures
            match chase_best(self.map, from, to, 8) {
                None => r is None,
                Some((c, d, _, _)) => r == Some((Point { x: c.0 as i32, y: c.1 as i32 }, d)),
            },
            r matches Some((p, d)) ==> {
                &&& self.map.walkable_at(p.x as int, p.y as int)
                &&& (p.x as int, p.y as int) == step_cell(from, d)
                &&& forall|j: int|
                    0 <= j < 8 && self.map.walkable_at(
                        #[trigger] step_cell(from, all_dirs()[j]).0,
                        step_cell(from, all_dirs()[j]).1,
                    ) ==> dist(p, to) <= abs(step_cell(from, all_dirs()[j]).0 - to.x) + abs(
                        step_cell(from, all_dirs()[j]).1 - to.y,
                    )
            },
    {
        let all = [
            MirDirection::Up,
            MirDirection::UpRight,
            MirDirection::Right,
            MirDirection::DownRight,
            MirDirection::Down,
            MirDirection::DownLeft,
            MirDirection::Left,
            MirDirection::UpLeft,
        ];
        assert(all@ =~= all_dirs());
        let mut best: Option<(Point, MirDirection, i32, i32)> = None;
        let mut k: usize = 0;
        while k < 8
            invariant
                self.wf(),
                coord_ok(from),
                coord_ok(to),
                all@ == all_dirs(),
                k <= 8,
                match chase_best(self.map, from, to, k as nat) {
                    None => best is None,
                    Some((c, d, dd, ax)) => best == Some(
                        (Point { x: c.0 as i32, y: c.1 as i32 }, d, dd as i32, ax as i32),
                    ) && c.0 == c.0 as i32 && c.1 == c.1 as i32 && 0 <= dd <= i32::MAX && 0 <= ax
                        <= 2,
                },
                dist(from, to) + 2 <= i32::MAX,
            decreases 8 - k,
        {
            let dir = all[k];
            match self.try_move(from, dir, 1) {
                None => {},
                Some(cand) => {
                    let d = manhattan(cand, to);
                    let ax: i32 = (if cand.x == to.x { 1i32 } else { 0i32 }) + (if cand.y == to.y {
                        1i32
                    } else {
                        0i32
                    });
                    let better = match best {
                        None => true,
                        Some((_, _, bd, bt)) => d < bd || (d == bd && ax > bt),
                    };
                    if better {
                        best = Some((cand, dir, d, ax));
                    }
                },
            }
            k = k + 1;
        }
        proof {
            lemma_chase_best_min(self.map, from, to, 8);
        }
        match best {
            Some((loc, dir, _, _)) => Some((loc, dir)),
            None => None,
        }
    }

    /// The destination (map, x, y) of the portal on (x, y) of map
    /// `map_index`, if there is one.
    pub fn portal_at(&self, map_index: u32, x: i32, y: i32) -> (r: Option<(u32, i32, i32)>)
        ensures
            r == spec_portal_at(map_index, x, y),
    {
        let ps = portals();
        let mut i: usize = 0;
        while i < ps.len()
            invariant
                ps@ == portal_table(),
                i <= ps.len(),
                forall|j: int|
                    0 <= j < i ==> !((#[trigger] portal_table()[j]).src_map == map_index
                        && portal_table()[j].x == x && portal_table()[j].y == y),
            decreases ps.len() - i,
        {
            let p = ps[i];
            if p.src_map == map_index && p.x == x && p.y == y {
                proof {
                    let k = choose|k: int|
                        0 <= k < portal_table().len() && (#[trigger] portal_table()[k]).src_map
                            == map_index && portal_table()[k].x == x && portal_table()[k].y == y;
                    assert(portal_table()[0].src_map != portal_table()[1].src_map);
                    assert(k == i);
                }
                return Some((p.dest_map, p.dest_x, p.dest_y));
            }
            i = i + 1;
        }
        None
    }

    /// The centre cell of map `map_index` (where a jump to that map lands
    /// before the nearest walkable cell is looked for): half its width and
    /// half its height, rounded down.
    pub fn map_centre(&self, map_index: u32) -> (r: (i32, i32))
        requires
            self.wf(),
        ensures
            r.0 == self.spec_get_map(map_index).width / 2,
            r.1 == self.spec_get_map(map_index).height / 2,
    {
        let m = self.get_map(map_index);
        ((m.width / 2) as i32, (m.height / 2) as i32)
    }

    /// Hands out the next object id (ids wrap around after `u32::MAX`).
    pub fn next_object_id(&mut self) -> (r: u32)
        ensures
            r == old(self).next_object_id,
            final(self).next_object_id == (if r == u32::MAX { 0 } else { r + 1 }),
            final(self).map == old(self).map,
            final(self).maps@ == old(self).maps@,
            final(self).next_item_unique == old(self).next_item_unique,
    {
        let r = self.next_object_id;
        self.next_object_id = if r == u32::MAX { 0 } else { r + 1 };
        r
    }

    /// Hands out the next item unique id (wrapping after `u64::MAX`).
    pub fn next_item_unique(&mut self) -> (r: u64)
        ensures
            r == old(self).next_item_unique,
            final(self).next_item_unique == (if r == u64::MAX { 0 } else { r + 1 }),
            final(self).map == old(self).map,
            final(self).maps@ == old(self).maps@,
            final(self).next_object_id == old(self).next_object_id,
    {
        let r = self.next_item_unique;
        self.next_item_unique = if r == u64::MAX { 0 } else { r + 1 };
        r
    }
}

} // verus!
