//! Plain game types shared by the rules: character class and gender, the
//! eight facing directions, map points, and a spell as the client sees it.
use vstd::prelude::*;

verus! {

/// Character class.
#[derive(Debug, Clone, Copy, PartialEq, Eq, Structural)]
pub enum MirClass {
    Warrior,
    Wizard,
    Taoist,
    Assassin,
    Archer,
}

/// Character gender.
#[derive(Debug, Clone, Copy, PartialEq, Eq, Structural)]
pub enum MirGender {
    Male,
    Female,
}

/// Facing direction, clockwise from up (north).
#[derive(Debug, Clone, Copy, PartialEq, Eq, Structural)]
pub enum MirDirection {
    Up,
    UpRight,
    Right,
    DownRight,
    Down,
    DownLeft,
    Left,
    UpLeft,
}

/// The number of a direction (0 = up, clockwise to 7 = up-left).
pub open spec fn dir_num(d: MirDirection) -> u8 {
    match d {
        MirDirection::Up => 0,
        MirDirection::UpRight => 1,
        MirDirection::Right => 2,
        MirDirection::DownRight => 3,
        MirDirection::Down => 4,
        MirDirection::DownLeft => 5,
        MirDirection::Left => 6,
        MirDirection::UpLeft => 7,
    }
}

impl MirDirection {
    /// The direction with number `n mod 8`.
    pub fn from_u8(n: u8) -> (r: MirDirection)
        ensures
            dir_num(r) == n % 8,
    {
        match n % 8 {
            0 => MirDirection::Up,
            1 => MirDirection::UpRight,
            2 => MirDirection::Right,
            3 => MirDirection::DownRight,
            4 => MirDirection::Down,
            5 => MirDirection::DownLeft,
            6 => MirDirection::Left,
            _ => MirDirection::UpLeft,
        }
    }

    /// The number of this direction.
    pub fn to_u8(&self) -> (r: u8)
        ensures
            r == dir_num(*self),
    {
        match self {
            MirDirection::Up => 0,
            MirDirection::UpRight => 1,
            MirDirection::Right => 2,
            MirDirection::DownRight => 3,
            MirDirection::Down => 4,
            MirDirection::DownLeft => 5,
            MirDirection::Left => 6,
            MirDirection::UpLeft => 7,
        }
    }
}

/// A map cell.
#[derive(Debug, Clone, Copy, PartialEq, Eq, Structural)]
pub struct Point {
    pub x: i32,
    pub y: i32,
}

/// A spell as sent to the client.
#[derive(Debug)]
pub struct ClientMagic {
    pub name: String,
    pub spell: u8,
    pub base_cost: u8,
    pub level_cost: u8,
    pub icon: u8,
    pub level1: u8,
    pub level2: u8,
    pub level3: u8,
    pub need1: u16,
    pub need2: u16,
    pub need3: u16,
    pub level: u8,
    pub key: u8,
    pub experience: u16,
    pub delay: i64,
    pub range: u8,
    pub cast_time: i64,
}

} // verus!
