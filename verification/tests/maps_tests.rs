use crystal_server::maps::{load_map_bytes, MapError};

fn fake_map_bytes(w: u16, h: u16) -> Vec<u8> {
    let mut b = vec![0u8; 8 + (w as usize) * (h as usize) * 26];
    b[0] = 1;
    b[2] = 0x43;
    b[3] = 0x23;
    b[4..6].copy_from_slice(&w.to_le_bytes());
    b[6..8].copy_from_slice(&h.to_le_bytes());
    b
}

fn fake_v1(w: u16, h: u16, xor: u16) -> Vec<u8> {
    let mut b = vec![0u8; 54 + w as usize * h as usize * 15];
    b[0] = 0x10;
    b[1] = 0x4d;
    b[2] = 0x61;
    b[21..23].copy_from_slice(&(w ^ xor).to_le_bytes());
    b[23..25].copy_from_slice(&xor.to_le_bytes());
    b[25..27].copy_from_slice(&(h ^ xor).to_le_bytes());
    let mut off = 54usize;
    for _ in 0..(w as usize * h as usize) {
        b[off..off + 4].copy_from_slice(&0xAA38_AA38u32.to_le_bytes());
        b[off + 6..off + 8].copy_from_slice(&xor.to_le_bytes());
        off += 15;
    }
    b
}

#[test]
fn parses_header_and_all_walkable() {
    let m = load_map_bytes(0, &fake_map_bytes(700, 700)).unwrap();
    assert_eq!(m.width, 700);
    assert_eq!(m.height, 700);
    assert!(m.is_walkable(0, 0));
    assert!(m.is_walkable(699, 699));
    assert!(!m.contains(700, 0));
}

#[test]
fn rejects_bad_signature() {
    let mut b = fake_map_bytes(10, 10);
    b[2] = 0x00;
    assert!(load_map_bytes(0, &b).is_err());
}

#[test]
fn marks_highwall_as_blocked() {
    let mut b = fake_map_bytes(4, 4);
    let cell = 8usize;
    let hi_i32 = cell + 2;
    let orig = u32::from_le_bytes([b[hi_i32], b[hi_i32 + 1], b[hi_i32 + 2], b[hi_i32 + 3]]);
    let v = orig | 0x2000_0000;
    b[hi_i32..hi_i32 + 4].copy_from_slice(&v.to_le_bytes());
    let m = load_map_bytes(0, &b).unwrap();
    assert!(!m.is_walkable(0, 0));
    assert!(m.is_walkable(1, 0));
}

#[test]
fn rejects_truncated_file() {
    let b = vec![1, 0, 0x43, 0x23, 0xff, 0xff, 0xff, 0xff, 0];
    assert!(load_map_bytes(0, &b).is_err());
}

#[test]
fn parses_v1_wemade_map() {
    let b = fake_v1(4, 3, 0x1234);
    let m = load_map_bytes(9, &b).unwrap();
    assert_eq!((m.width, m.height), (4, 3));
    assert!(m.is_walkable(0, 0));
    assert!(m.is_walkable(3, 2));
}

#[test]
fn v1_marks_wall_blocked() {
    let mut b = fake_v1(3, 3, 0x100);
    let off = 54 + 4 * 15;
    let cell = 0xAA38_AA38u32 ^ 0x2000_0000;
    b[off..off + 4].copy_from_slice(&cell.to_le_bytes());
    let m = load_map_bytes(9, &b).unwrap();
    assert!(!m.is_walkable(1, 1));
    assert!(m.is_walkable(0, 0));
}

#[test]
fn map_error_kinds() {
    assert_eq!(load_map_bytes(0, &[1, 0, 0x43]).unwrap_err(), MapError::TooShort);
    let b = vec![1, 0, 0x43, 0x23, 0xff, 0xff, 0xff, 0xff, 0];
    assert_eq!(load_map_bytes(0, &b).unwrap_err(), MapError::V100Truncated);
    let mut bad = fake_v1(2, 2, 0);
    bad[21] = 0;
    bad[22] = 0;
    assert_eq!(load_map_bytes(0, &bad).unwrap_err(), MapError::V1BadSize);
    let mut short = fake_v1(2, 2, 0);
    short.truncate(60);
    assert_eq!(load_map_bytes(0, &short).unwrap_err(), MapError::V1Truncated);
    assert_eq!(load_map_bytes(0, &[7u8; 10]).unwrap_err(), MapError::UnsupportedFormat);
}

#[test]
fn low_wall_blocks_and_records_run_column_by_column() {
    // a 3 x 2 map: record k is cell (k / 2, k % 2); record 1 is cell (0, 1)
    let mut b = fake_map_bytes(3, 2);
    let c = 8 + 1 * 26 + 12;
    b[c + 1] = 0x80;
    let m = load_map_bytes(4, &b).unwrap();
    assert_eq!(m.index, 4);
    assert!(!m.is_walkable(0, 1));
    assert!(m.is_walkable(1, 0));
    assert!(!m.is_walkable(-1, 0));
    // the grid itself is kept row by row: cell (x, y) at y * 3 + x
    assert_eq!(m.walkable, vec![1, 1, 1, 0, 1, 1]);
}

#[test]
fn high_wall_record_order_on_square_and_non_square_maps() {
    let mut b = fake_map_bytes(2, 2);
    let off = 8 + 26 + 2;
    let v = u32::from_le_bytes([b[off], b[off + 1], b[off + 2], b[off + 3]]) | 0x2000_0000;
    b[off..off + 4].copy_from_slice(&v.to_le_bytes());
    let m = load_map_bytes(0, &b).unwrap();
    assert!(!m.is_walkable(0, 1));
    assert!(m.is_walkable(1, 0));

    // 4 wide, 3 high: record 5 is cell (1, 2)
    let mut b = fake_map_bytes(4, 3);
    let off = 8 + 5 * 26 + 2;
    let v = u32::from_le_bytes([b[off], b[off + 1], b[off + 2], b[off + 3]]) | 0x2000_0000;
    b[off..off + 4].copy_from_slice(&v.to_le_bytes());
    let m = load_map_bytes(0, &b).unwrap();
    assert!(!m.is_walkable(1, 2));
    assert!(m.is_walkable(1, 1));
    assert!(m.is_walkable(2, 1));
    assert_eq!(m.walkable.iter().filter(|&&c| c == 0).count(), 1);
}

#[test]
fn v1_records_run_column_by_column() {
    // 3 wide, 2 high: record 2 is cell (1, 0)
    let mut b = fake_v1(3, 2, 0x100);
    let off = 54 + 2 * 15;
    let cell = 0xAA38_AA38u32 ^ 0x2000_0000;
    b[off..off + 4].copy_from_slice(&cell.to_le_bytes());
    let m = load_map_bytes(9, &b).unwrap();
    assert!(!m.is_walkable(1, 0));
    assert!(m.is_walkable(2, 0));
    assert!(m.is_walkable(0, 1));
}
