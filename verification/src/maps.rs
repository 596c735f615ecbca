//! Crystal `.map` files: parsing of the two supported on-disk formats into a
//! collision grid, and walkability queries on that grid.
//!
//! V100 (`[1, 0, 'C', '#']` signature): width/height as little-endian u16 at
//! offsets 4 and 6, then 26 bytes per cell starting at offset 8, the cells
//! column by column (x outer, y inner: record `k` is cell `(k / H, k % H)`).
//! A cell is blocked when bit 29 of the u32 at record+2 (high wall) or bit 15
//! of the u16 at record+12 (low wall) is set.
//!
//! v1 ("Map 2010 Ver 1.0", first byte 0x10, third byte 0x61): width, xor key and
//! height as little-endian u16 at 21, 23, 25 (width and height are stored xored
//! with the key), then 15 bytes per cell starting at offset 54, in the same
//! column-by-column order. A cell is blocked when bit 29 of
//! `u32@record ^ 0xAA38AA38` or bit 15 of `u16@record+6 ^ key` is set.
use vstd::prelude::*;

verus! {

/// A loaded game map with its collision grid (one byte per cell: 1 = walkable,
/// 0 = blocked), cells numbered row by row: cell `y * width + x`.
#[derive(Debug, Clone)]
pub struct GameMap {
    pub index: u32,
    pub width: u32,
    pub height: u32,
    /// One byte per cell: 1 = walkable, 0 = blocked.
    pub walkable: Vec<u8>,
}

/// Why a byte buffer could not be read as a map.
#[derive(Debug, Clone, Copy, PartialEq, Eq, Structural)]
pub enum MapError {
    /// Fewer than 8 bytes.
    TooShort,
    /// V100 header announces more cells than the buffer holds.
    V100Truncated,
    /// v1 header announces a width or height outside `1..=10000`.
    V1BadSize,
    /// v1 header announces more cells than the buffer holds.
    V1Truncated,
    /// Neither signature matches.
    UnsupportedFormat,
}

/// Little-endian u16 at byte offset `p`.
pub open spec fn le_u16(b: Seq<u8>, p: int) -> u16 {
    ((b[p] as u16) | ((b[p + 1] as u16) << 8u16)) as u16
}

/// Little-endian u32 at byte offset `p`.
pub open spec fn le_u32(b: Seq<u8>, p: int) -> u32 {
    ((b[p] as u32) | ((b[p + 1] as u32) << 8u32) | ((b[p + 2] as u32) << 16u32) | ((b[p + 3] as u32)
        << 24u32)) as u32
}

pub open spec fn is_v100(b: Seq<u8>) -> bool {
    b.len() >= 8 && b[0] == 1 && b[1] == 0 && b[2] == 0x43 && b[3] == 0x23
}

pub open spec fn is_v1(b: Seq<u8>) -> bool {
    b.len() >= 8 && !is_v100(b) && b[0] == 0x10 && b.len() > 2 && b[2] == 0x61
}

/// Record `k` of a V100 file is a high wall or a low wall.
pub open spec fn v100_blocked(b: Seq<u8>, k: int) -> bool {
    let c = 8 + 26 * k;
    (le_u32(b, c + 2) & 0x2000_0000u32) != 0 || (le_u16(b, c + 12) & 0x8000u16) != 0
}

/// Record `k` of a v1 file (with xor key `key`) is a high wall or a low wall.
pub open spec fn v1_blocked(b: Seq<u8>, key: u16, k: int) -> bool {
    let c = 54 + 15 * k;
    ((le_u32(b, c) ^ 0xAA38_AA38u32) & 0x2000_0000u32) != 0 || (((le_u16(b, c + 6) as u32) ^ (
    key as u32)) & 0x8000u32) != 0
}

/// The file record of grid cell `i` (cell `(x, y)` with `i = y * w + x`) of a
/// `w` x `h` map: records run column by column, so it is record `x * h + y`.
pub open spec fn cell_record(i: int, w: int, h: int) -> int {
    (i % w) * h + i / w
}

/// The first `n` cells (row by row) of the collision grid of a `w` x `h` map
/// whose record `k` is blocked iff `blocked(k)`.
pub open spec fn grid(n: nat, w: int, h: int, blocked: spec_fn(int) -> bool) -> Seq<u8> {
    Seq::new(n, |i: int| if blocked(cell_record(i, w, h)) { 0u8 } else { 1u8 })
}

/// The record of a cell of the map is one of the map's records.
pub proof fn lemma_cell_record_in_range(i: int, w: int, h: int)
    requires
        0 < w,
        0 < h,
        0 <= i < w * h,
    ensures
        0 <= cell_record(i, w, h) < w * h,
        0 <= i % w < w,
        0 <= i / w < h,
{
    assert(0 <= i % w < w) by (nonlinear_arith)
        requires
            0 < w,
            0 <= i,
    ;
    assert(i == w * (i / w) + i % w) by (nonlinear_arith)
        requires
            0 < w,
    ;
    assert(0 <= i / w < h) by (nonlinear_arith)
        requires
            0 < w,
            0 <= i < w * h,
            i == w * (i / w) + i % w,
            0 <= i % w,
    ;
    let x = i % w;
    let y = i / w;
    assert(0 <= x * h + y < w * h) by (nonlinear_arith)
        requires
            0 <= x < w,
            0 <= y < h,
    ;
}

/// v1 width / height field after removing the xor key.
pub open spec fn v1_dim(b: Seq<u8>, p: int) -> u16 {
    le_u16(b, p) ^ le_u16(b, 23)
}

/// What `load_map_bytes` makes of a buffer: the map's width, height and grid,
/// or the reason it is refused.
pub open spec fn spec_load(b: Seq<u8>) -> Result<(u32, u32, Seq<u8>), MapError> {
    if b.len() < 8 {
        Err(MapError::TooShort)
    } else if is_v100(b) {
        let w = le_u16(b, 4) as int;
        let h = le_u16(b, 6) as int;
        if b.len() < 8 + w * h * 26 {
            Err(MapError::V100Truncated)
        } else {
            Ok((w as u32, h as u32, grid((w * h) as nat, w, h, |k: int| v100_blocked(b, k))))
        }
    } else if is_v1(b) {
        let w = v1_dim(b, 21) as int;
        let h = v1_dim(b, 25) as int;
        if w == 0 || h == 0 || w > 10000 || h > 10000 {
            Err(MapError::V1BadSize)
        } else if b.len() < 54 + w * h * 15 {
            Err(MapError::V1Truncated)
        } else {
            Ok((w as u32, h as u32, grid((w * h) as nat, w, h, |k: int| v1_blocked(b, le_u16(b, 23), k))))
        }
    } else {
        Err(MapError::UnsupportedFormat)
    }
}

impl GameMap {
    /// Internal consistency: one grid byte per cell, dimensions within u16.
    pub open spec fn wf(&self) -> bool {
        &&& self.width <= 0xFFFF
        &&& self.height <= 0xFFFF
        &&& self.walkable@.len() == self.width as int * self.height as int
    }

    /// The collision grid, row by row.
    pub open spec fn cells(&self) -> Seq<u8> {
        self.walkable@
    }

    /// Cell number of `(x, y)`, if the coordinate lies on the map.
    pub open spec fn spec_idx(&self, x: int, y: int) -> Option<int> {
        if 0 <= x < self.width && 0 <= y < self.height {
            Some(y * self.width + x)
        } else {
            None
        }
    }

    /// `(x, y)` lies on the map and its cell is walkable.
    pub open spec fn walkable_at(&self, x: int, y: int) -> bool {
        match self.spec_idx(x, y) {
            Some(i) => self.cells()[i] == 1,
            None => false,
        }
    }

    proof fn lemma_idx_in_grid(&self, x: int, y: int)
        requires
            self.wf(),
            0 <= x < self.width,
            0 <= y < self.height,
        ensures
            0 <= y * self.width + x < self.width * self.height,
    {
        assert(y * self.width + x < self.width * self.height) by (nonlinear_arith)
            requires
                0 <= x < self.width,
                0 <= y < self.height,
        ;
        assert(0 <= y * self.width) by (nonlinear_arith)
            requires
                0 <= y,
                0 <= self.width,
        ;
    }

    fn idx(&self, x: i32, y: i32) -> (r: Option<usize>)
        requires
            self.wf(),
        ensures
            match self.spec_idx(x as int, y as int) {
                Some(i) => r == Some(i as usize),
                None => r is None,
            },
    {
        if x < 0 || y < 0 || x >= self.width as i32 || y >= self.height as i32 {
            return None;
        }
        proof {
            self.lemma_idx_in_grid(x as int, y as int);
            assert(self.walkable@.len() == self.walkable.len());
            assert(y as int * self.width as int <= y as int * self.width as int + x as int);
        }
        Some((y as usize) * self.width as usize + x as usize)
    }

    /// A copy of the map.
    pub fn duplicate(&self) -> (r: GameMap)
        ensures
            r.index == self.index,
            r.width == self.width,
            r.height == self.height,
            r.cells() == self.cells(),
    {
        let w = self.walkable.clone();
        assert(w@ =~= self.walkable@);
        GameMap { index: self.index, width: self.width, height: self.height, walkable: w }
    }

    /// Whether `(x, y)` lies on the map.
    pub fn contains(&self, x: i32, y: i32) -> (r: bool)
        requires
            self.wf(),
        ensures
            r == (0 <= x < self.width && 0 <= y < self.height),
    {
        self.idx(x, y).is_some()
    }

    /// Whether `(x, y)` lies on the map and is not a wall.
    pub fn is_walkable(&self, x: i32, y: i32) -> (r: bool)
        requires
            self.wf(),
        ensures
            r == self.walkable_at(x as int, y as int),
    {
        proof {
            if 0 <= x < self.width && 0 <= y < self.height {
                self.lemma_idx_in_grid(x as int, y as int);
            }
        }
        match self.idx(x, y) {
            Some(i) => {
                assert(self.walkable@.len() == self.walkable.len());
                self.walkable[i] == 1
            },
            None => false,
        }
    }
}

pub(crate) fn le16(b: &[u8], p: usize) -> (r: u16)
    requires
        p + 1 < b@.len(),
    ensures
        r == le_u16(b@, p as int),
{
    ((b[p] as u16) | ((b[p + 1] as u16) << 8u16)) as u16
}

pub(crate) fn le32(b: &[u8], p: usize) -> (r: u32)
    requires
        p + 3 < b@.len(),
    ensures
        r == le_u32(b@, p as int),
{
    ((b[p] as u32) | ((b[p + 1] as u32) << 8u32) | ((b[p + 2] as u32) << 16u32) | ((b[p + 3] as u32)
        << 24u32)) as u32
}

/// Parses a map from its file bytes, recognising the V100 and v1 formats.
///
/// A buffer that carries the v1 signature but is shorter than its 27-byte
/// header is not accepted: the header fields would be read past its end.
pub fn load_map_bytes(index: u32, bytes: &[u8]) -> (r: Result<GameMap, MapError>)
    requires
        !(is_v1(bytes@) && bytes@.len() < 27),
    ensures
        match (r, spec_load(bytes@)) {
            (Ok(m), Ok((w, h, g))) => m.wf() && m.index == index && m.width == w && m.height == h
                && m.cells() == g,
            (Err(e), Err(e2)) => e == e2,
            _ => false,
        },
{
    if bytes.len() < 8 {
        return Err(MapError::TooShort);
    }
    if bytes[0] == 1 && bytes[1] == 0 && bytes[2] == 0x43 && bytes[3] == 0x23 {
        return load_v100(index, bytes);
    }
    if bytes[0] == 0x10 && bytes.len() > 2 && bytes[2] == 0x61 {
        return load_v1(index, bytes);
    }
    Err(MapError::UnsupportedFormat)
}

fn load_v100(index: u32, bytes: &[u8]) -> (r: Result<GameMap, MapError>)
    requires
        is_v100(bytes@),
    ensures
        match (r, spec_load(bytes@)) {
            (Ok(m), Ok((w, h, g))) => m.wf() && m.index == index && m.width == w && m.height == h
                && m.cells() == g,
            (Err(e), Err(e2)) => e == e2,
            _ => false,
        },
{
    let width = le16(bytes, 4) as u32;
    let height = le16(bytes, 6) as u32;
    assert((width as u64) * (height as u64) <= 0xFFFF * 0xFFFF) by (nonlinear_arith)
        requires
            width <= 0xFFFF,
            height <= 0xFFFF,
    ;
    let n: u64 = (width as u64) * (height as u64);
    let expected: u64 = 8 + n * 26;
    if (bytes.len() as u64) < expected {
        return Err(MapError::V100Truncated);
    }
    let ghost b = bytes@;
    let ghost blocked = |k: int| v100_blocked(b, k);
    assert(b.len() == bytes.len());
    let n = n as usize;
    let mut walkable: Vec<u8> = Vec::new();
    let mut i: usize = 0;
    while i < n
        invariant
            b == bytes@,
            is_v100(b),
            n == width as int * height as int,
            width <= 0xFFFF,
            height <= 0xFFFF,
            b.len() >= 8 + n * 26,
            b.len() <= usize::MAX,
            blocked == (|j: int| v100_blocked(b, j)),
            i <= n,
            walkable@ == grid(i as nat, width as int, height as int, blocked),
        decreases n - i,
    {
        proof {
            assert(width > 0 && height > 0) by (nonlinear_arith)
                requires
                    i < width as int * height as int,
                    0 <= i,
            ;
            lemma_cell_record_in_range(i as int, width as int, height as int);
        }
        let x = i % (width as usize);
        let y = i / (width as usize);
        let k: usize = x * (height as usize) + y;
        assert(k == cell_record(i as int, width as int, height as int));
        let c: usize = 8 + 26 * k;
        let hi = (le32(bytes, c + 2) & 0x2000_0000u32) != 0;
        let lo = (le16(bytes, c + 12) & 0x8000u16) != 0;
        assert(hi || lo <==> blocked(k as int));
        let ghost prev = walkable@;
        walkable.push(if hi || lo { 0u8 } else { 1u8 });
        assert(walkable@ == prev.push(if blocked(k as int) { 0u8 } else { 1u8 }));
        i = i + 1;
        assert(walkable@ =~= grid(i as nat, width as int, height as int, blocked));
    }
    Ok(GameMap { index, width, height, walkable })
}

fn load_v1(index: u32, bytes: &[u8]) -> (r: Result<GameMap, MapError>)
    requires
        is_v1(bytes@),
        bytes@.len() >= 27,
    ensures
        match (r, spec_load(bytes@)) {
            (Ok(m), Ok((w, h, g))) => m.wf() && m.index == index && m.width == w && m.height == h
                && m.cells() == g,
            (Err(e), Err(e2)) => e == e2,
            _ => false,
        },
{
    let key = le16(bytes, 23);
    let w16 = le16(bytes, 21) ^ key;
    let h16 = le16(bytes, 25) ^ key;
    if w16 == 0 || h16 == 0 || w16 > 10000 || h16 > 10000 {
        return Err(MapError::V1BadSize);
    }
    let width = w16 as u32;
    let height = h16 as u32;
    assert((width as u64) * (height as u64) <= 10000 * 10000) by (nonlinear_arith)
        requires
            width <= 10000,
            height <= 10000,
    ;
    let n: u64 = (width as u64) * (height as u64);
    let expected: u64 = 54 + n * 15;
    if (bytes.len() as u64) < expected {
        return Err(MapError::V1Truncated);
    }
    let ghost b = bytes@;
    let ghost blocked = |k: int| v1_blocked(b, key, k);
    assert(b.len() == bytes.len());
    let n = n as usize;
    let mut walkable: Vec<u8> = Vec::new();
    let mut i: usize = 0;
    while i < n
        invariant
            b == bytes@,
            key == le_u16(b, 23),
            n == width as int * height as int,
            0 < width <= 10000,
            0 < height <= 10000,
            b.len() >= 54 + n * 15,
            b.len() <= usize::MAX,
            blocked == (|j: int| v1_blocked(b, key, j)),
            i <= n,
            walkable@ == grid(i as nat, width as int, height as int, blocked),
        decreases n - i,
    {
        proof {
            lemma_cell_record_in_range(i as int, width as int, height as int);
        }
        let x = i % (width as usize);
        let y = i / (width as usize);
        let k: usize = x * (height as usize) + y;
        assert(k == cell_record(i as int, width as int, height as int));
        let c: usize = 54 + 15 * k;
        let hi = ((le32(bytes, c) ^ 0xAA38_AA38u32) & 0x2000_0000u32) != 0;
        let lw = (((le16(bytes, c + 6) as u32) ^ (key as u32)) & 0x8000u32) != 0;
        assert(hi || lw <==> blocked(k as int));
        let ghost prev = walkable@;
        walkable.push(if hi || lw { 0u8 } else { 1u8 });
        assert(walkable@ == prev.push(if blocked(k as int) { 0u8 } else { 1u8 }));
        i = i + 1;
        assert(walkable@ =~= grid(i as nat, width as int, height as int, blocked));
    }
    Ok(GameMap { index, width, height, walkable })
}

} // verus!
