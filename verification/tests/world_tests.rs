use crystal_server::maps::load_map_bytes;
use crystal_server::types::{MirDirection, Point};
use crystal_server::world::{
    chase_step, default_map, dir_from_delta, direction_offset, manhattan, portals, World,
};

#[test]
fn chase_step_prioritizes_larger_axis() {
    let from = Point::new(0, 0);
    assert_eq!(chase_step(from, Point::new(5, 2)), (1, 0));
    assert_eq!(chase_step(from, Point::new(2, 5)), (0, 1));
    assert_eq!(chase_step(from, Point::new(0, 3)), (0, 1));
    assert_eq!(chase_step(from, Point::new(-3, 0)), (-1, 0));
}

#[test]
fn dir_from_delta_cardinals_and_diagonals() {
    assert_eq!(dir_from_delta(0, -1), MirDirection::Up);
    assert_eq!(dir_from_delta(1, 0), MirDirection::Right);
    assert_eq!(dir_from_delta(1, 1), MirDirection::DownRight);
    assert_eq!(dir_from_delta(-1, -1), MirDirection::UpLeft);
    assert_eq!(dir_from_delta(0, 0), MirDirection::Up);
}

#[test]
fn try_move_bounds_and_walls() {
    let world = World::new();
    assert_eq!(world.try_move(Point::new(0, 0), MirDirection::Up, 1), None);
    assert_eq!(world.try_move(Point::new(0, 0), MirDirection::Right, 1), Some(Point::new(1, 0)));
    assert_eq!(world.try_move(Point::new(799, 0), MirDirection::Right, 1), None);
}

fn map_3x3_with_centre_wall() -> Vec<u8> {
    let mut b = vec![0u8; 8 + 3 * 3 * 26];
    b[0] = 1;
    b[2] = 0x43;
    b[3] = 0x23;
    b[4..6].copy_from_slice(&3u16.to_le_bytes());
    b[6..8].copy_from_slice(&3u16.to_le_bytes());
    let cell = 8 + 4 * 26;
    let hi = cell + 2;
    let orig = u32::from_le_bytes([b[hi], b[hi + 1], b[hi + 2], b[hi + 3]]);
    let v = orig | 0x2000_0000;
    b[hi..hi + 4].copy_from_slice(&v.to_le_bytes());
    b
}

#[test]
fn try_move_respects_wall() {
    let m = load_map_bytes(0, &map_3x3_with_centre_wall()).unwrap();
    let world = World::with_map(m);
    assert_eq!(world.try_move(Point::new(1, 0), MirDirection::Down, 1), None);
    assert_eq!(world.try_move(Point::new(1, 0), MirDirection::Left, 1), Some(Point::new(0, 0)));
}

#[test]
fn portal_at_matches_config() {
    let world = World::new();
    assert_eq!(world.portal_at(0, 404, 412), Some((100, 8, 6)));
    assert_eq!(world.portal_at(100, 4, 4), Some((0, 404, 404)));
    assert_eq!(world.portal_at(0, 400, 400), None);
    assert_eq!(world.portal_at(1, 404, 412), None);
}

#[test]
fn walk_onto_portal_detects_dest() {
    let world = World::new();
    let new_loc = world.try_move(Point::new(404, 411), MirDirection::Down, 1);
    assert_eq!(new_loc, Some(Point::new(404, 412)));
    if let Some(Point { x, y }) = new_loc {
        assert_eq!(world.portal_at(0, x, y), Some((100, 8, 6)));
    }
}

#[test]
fn default_map_is_open_800_square() {
    let m = default_map();
    assert_eq!((m.index, m.width, m.height), (0, 800, 800));
    assert!(m.walkable.iter().all(|&c| c == 1));
    assert_eq!(portals().len(), 2);
}

#[test]
fn offsets_and_distances() {
    assert_eq!(direction_offset(MirDirection::UpRight, 2), (2, -2));
    assert_eq!(direction_offset(MirDirection::Left, 3), (-3, 0));
    assert_eq!(manhattan(Point::new(1, 1), Point::new(-2, 5)), 7);
    assert_eq!(MirDirection::from_u8(11), MirDirection::DownRight);
    assert_eq!(MirDirection::DownLeft.to_u8(), 5);
}

#[test]
fn nearest_walkable_searches_rings() {
    let m = load_map_bytes(0, &map_3x3_with_centre_wall()).unwrap();
    let mut world = World::with_map(m);
    // the centre is a wall; ring 1 is scanned row by row from the top-left
    assert_eq!(world.nearest_walkable(1, 1), (0, 0));
    assert_eq!(world.nearest_walkable(2, 2), (2, 2));
    // far outside the map: no ring reaches it, the map's centre is used
    assert_eq!(world.nearest_walkable(100, 100), (1, 1));
    let other = load_map_bytes(7, &map_3x3_with_centre_wall()).unwrap();
    world.register_map(other);
    assert!(world.get_map(7).contains(2, 2));
    assert!(!world.is_walkable_on(7, 1, 1));
    assert_eq!(world.try_move_on(7, Point::new(0, 0), MirDirection::Right, 1), Some(Point::new(1, 0)));
    // unknown map index falls back to the main map
    assert_eq!(world.get_map(42).index, 0);
    assert_eq!(world.nearest_walkable_on(42, 1, 1), (0, 0));
}

#[test]
fn chase_step_on_map_goes_around_walls() {
    let m = load_map_bytes(0, &map_3x3_with_centre_wall()).unwrap();
    let world = World::with_map(m);
    // from (1,0) toward (1,2): straight down is a wall; both diagonals are as near,
    // up-right comes first clockwise from up among equals... but down-right/down-left are nearer
    let step = world.chase_step(Point::new(1, 0), Point::new(1, 2)).unwrap();
    assert!(step.0 == Point::new(2, 1) || step.0 == Point::new(0, 1));
    assert_eq!(step, (Point::new(2, 1), MirDirection::DownRight));
    assert!(world.walkable_line(Point::new(1, 0), Point::new(2, 1)));
    assert!(!world.walkable_line(Point::new(1, 0), Point::new(1, 1)));
    assert!(!world.walkable_line(Point::new(0, 0), Point::new(2, 2)));
}

#[test]
fn id_counters_advance() {
    let mut world = World::new();
    assert_eq!(world.next_object_id(), 1);
    assert_eq!(world.next_object_id(), 2);
    assert_eq!(world.next_item_unique(), 1);
}
