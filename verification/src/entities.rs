//! The entities of the world (players, monsters, items on the ground, NPCs)
//! and the rules for a player's progression: experience and levels, gold,
//! equipment bonuses, regeneration and consumables.
use std::collections::BTreeMap;
use std::collections::HashMap;
use vstd::prelude::*;

use crate::items::{find, spec_find_item};
use crate::types::{MirClass, MirDirection, MirGender, Point};

verus! {

broadcast use vstd::std_specs::btree::group_btree_axioms;

/// An item instance (in a bag, on the body or on the ground).
#[derive(Debug, Clone, Copy, PartialEq, Eq, Structural)]
pub struct UserItem {
    pub unique_id: u64,
    pub item_index: i32,
    pub count: u16,
    pub current_dura: u16,
    pub max_dura: u16,
}

/// A player in the world.
#[derive(Debug, Clone)]
pub struct Player {
    pub object_id: u32,
    pub account_id: String,
    pub name: String,
    pub class: MirClass,
    pub gender: MirGender,
    pub level: u16,
    pub location: Point,
    pub direction: MirDirection,
    pub max_hp: i32,
    pub hp: i32,
    pub max_mp: i32,
    pub mp: i32,
    pub attack: i32,
    pub defence: i32,
    pub experience: u32,
    pub gold: u32,
    pub weapon: i16,
    pub armour: i16,
    pub character_index: i32,
    pub hp_changed: bool,
    /// Worn equipment: equipment slot -> item.
    pub equipment: BTreeMap<i32, UserItem>,
    /// The map the player is on.
    pub map_index: u32,
    /// Consumable to drink automatically (0 = off) ...
    pub auto_pot_item: i32,
    /// ... when hit points drop to this value or below.
    pub auto_pot_hp: u32,
    /// Recent sales (unique id, item index, count, price), for buying back.
    pub recently_sold: Vec<(u64, i32, u16, u32)>,
    pub fishing: bool,
    /// Fishing progress, 0 to 100.
    pub fishing_progress: u16,
    /// Cast again after a catch.
    pub auto_fish: bool,
    pub storage_unlocked: bool,
    /// Name of the player who offered to be this player's mentor.
    pub pending_mentor: Option<String>,
    pub can_be_mentor: bool,
    /// Name of the player who proposed marriage.
    pub pending_marriage: Option<String>,
    /// Dead (the body stays until the player revives in town).
    pub dead: bool,
    /// Attack mode (0 peace, 1 group, 2 guild, 3 enemy guild, 4 red name, 5 all).
    pub a_mode: u8,
    pub allow_group: bool,
    pub p_mode: u8,
    /// Spell -> hot key.
    pub magic_keys: HashMap<u8, u8>,
}

/// An item (or a heap of gold) lying on the ground.
#[derive(Debug, Clone, Copy, PartialEq, Eq, Structural)]
pub struct GroundItem {
    pub object_id: u32,
    pub item_index: i32,
    pub count: u16,
    pub location: Point,
    pub unique_id: u64,
    pub map_index: u32,
    /// Above 0: a heap of this much gold rather than an item.
    pub gold: u32,
}

/// A monster.
#[derive(Debug, Clone)]
pub struct Monster {
    pub object_id: u32,
    pub name: String,
    pub image: u16,
    pub location: Point,
    pub direction: MirDirection,
    pub level: u16,
    pub max_hp: i32,
    pub hp: i32,
    pub attack: i32,
    pub defence: i32,
    pub exp_reward: u32,
    pub gold_reward: u32,
    pub drops: Vec<i32>,
    pub dead: bool,
    /// Ticks since death (the monster revives at a threshold).
    pub dead_ticks: u32,
    /// The corpse was harvested.
    pub harvested: bool,
    /// Item harvested from the corpse (0 = none).
    pub harvest_item: i32,
    /// The player the monster is after.
    pub target: Option<u32>,
    pub cooldown: u32,
    pub map_index: u32,
    /// Shoots from a distance rather than fighting at close range.
    pub ranged: bool,
}

/// A non-player character (shopkeeper, quest giver, portal marker).
#[derive(Debug, Clone)]
pub struct Npc {
    pub object_id: u32,
    pub name: String,
    pub image: u16,
    pub location: Point,
    pub shop_items: Vec<i32>,
    pub map_index: u32,
}

// ----------------------------------------------------------------------------
// Experience and levels
// ----------------------------------------------------------------------------

/// The highest level reached by experience.
pub const MAX_LEVEL: u16 = 50;

/// Experience needed to go from `level` to the next level.
pub open spec fn spec_xp_needed(level: u16) -> u32 {
    (level * 10) as u32
}

/// Experience needed to go from `level` to the next level: ten per level.
pub fn xp_needed(level: u16) -> (r: u32)
    ensures
        r == level * 10,
        r == spec_xp_needed(level),
{
    (level as u32) * 10
}

/// The part of a player that levelling changes.
pub struct Progress {
    pub level: u16,
    pub experience: u32,
    pub max_hp: i32,
    pub hp: i32,
    pub max_mp: i32,
    pub mp: i32,
    pub attack: i32,
}

pub open spec fn progress_of(p: Player) -> Progress {
    Progress {
        level: p.level,
        experience: p.experience,
        max_hp: p.max_hp,
        hp: p.hp,
        max_mp: p.max_mp,
        mp: p.mp,
        attack: p.attack,
    }
}

/// Levels gained while the experience covers the next level and the level is
/// below the maximum: each level costs `xp_needed`, and adds 5 maximum hit
/// points, 3 maximum mana points and 1 attack, and refills hit and mana
/// points.
pub open spec fn level_up(s: Progress) -> Progress
    decreases 50 - s.level,
{
    if s.level < 50 && s.experience >= spec_xp_needed(s.level) {
        level_up(
            Progress {
                level: (s.level + 1) as u16,
                experience: (s.experience - spec_xp_needed(s.level)) as u32,
                max_hp: (s.max_hp + 5) as i32,
                hp: (s.max_hp + 5) as i32,
                max_mp: (s.max_mp + 3) as i32,
                mp: (s.max_mp + 3) as i32,
                attack: (s.attack + 1) as i32,
            },
        )
    } else {
        s
    }
}

/// Stats small enough for every level still to gain up to the maximum.
pub open spec fn room_to_level(s: Progress) -> bool {
    s.level >= 50 || {
        &&& s.max_hp + 5 * (50 - s.level) <= i32::MAX
        &&& s.max_mp + 3 * (50 - s.level) <= i32::MAX
        &&& s.attack + (50 - s.level) <= i32::MAX
    }
}

/// Experience spent on reaching `level` from level 0: the sum of
/// `10 * l` for `l < level`.
pub open spec fn xp_spent(level: int) -> int {
    5 * level * (level - 1)
}

/// Levelling keeps the total experience (spent plus held), stops at the
/// maximum level or when the next level is not covered, and never lowers
/// the level or the stats.
pub proof fn law_level_up(s: Progress)
    requires
        room_to_level(s),
    ensures
        xp_spent(level_up(s).level as int) + level_up(s).experience == xp_spent(s.level as int)
            + s.experience,
        level_up(s).level >= 50 || level_up(s).experience < spec_xp_needed(level_up(s).level),
        level_up(s).level >= s.level,
        level_up(s).max_hp - s.max_hp == 5 * (level_up(s).level - s.level),
        level_up(s).max_mp - s.max_mp == 3 * (level_up(s).level - s.level),
        level_up(s).attack - s.attack == level_up(s).level - s.level,
        level_up(s).level > s.level ==> level_up(s).hp == level_up(s).max_hp && level_up(s).mp
            == level_up(s).max_mp,
        level_up(s).level == s.level ==> level_up(s) == s,
    decreases 50 - s.level,
{
    if s.level < 50 && s.experience >= spec_xp_needed(s.level) {
        let n = Progress {
            level: (s.level + 1) as u16,
            experience: (s.experience - spec_xp_needed(s.level)) as u32,
            max_hp: (s.max_hp + 5) as i32,
            hp: (s.max_hp + 5) as i32,
            max_mp: (s.max_mp + 3) as i32,
            mp: (s.max_mp + 3) as i32,
            attack: (s.attack + 1) as i32,
        };
        assert(room_to_level(n));
        law_level_up(n);
        let l = s.level as int;
        assert(xp_spent(l + 1) == xp_spent(l) + 10 * l) by (nonlinear_arith);
    }
}

/// Adds `amount` experience to the player and levels up as far as the
/// experience covers (see `level_up`). Returns whether a level was gained.
pub fn gain_experience(p: &mut Player, amount: u32) -> (leveled: bool)
    requires
        old(p).experience + amount <= u32::MAX,
        room_to_level(progress_of(*old(p))),
    ensures
        progress_of(*final(p)) == level_up(
            Progress { experience: (old(p).experience + amount) as u32, ..progress_of(*old(p)) },
        ),
        leveled == (final(p).level > old(p).level),
        *final(p) == (Player {
            level: final(p).level,
            experience: final(p).experience,
            max_hp: final(p).max_hp,
            hp: final(p).hp,
            max_mp: final(p).max_mp,
            mp: final(p).mp,
            attack: final(p).attack,
            ..*old(p)
        }),
{
    p.experience = p.experience + amount;
    let ghost start = progress_of(*p);
    let mut leveled = false;
    while p.level < 50 && p.experience >= xp_needed(p.level)
        invariant
            level_up(progress_of(*p)) == level_up(start),
            leveled == (p.level > start.level),
            p.level >= start.level,
            p.max_hp == start.max_hp + 5 * (p.level - start.level),
            p.max_mp == start.max_mp + 3 * (p.level - start.level),
            p.attack == start.attack + (p.level - start.level),
            room_to_level(start),
            p.level <= 50 || p.level == start.level,
            *p == (Player {
                level: p.level,
                experience: p.experience,
                max_hp: p.max_hp,
                hp: p.hp,
                max_mp: p.max_mp,
                mp: p.mp,
                attack: p.attack,
                ..*old(p)
            }),
            start.level == old(p).level,
        decreases 50 - p.level,
    {
        p.experience = p.experience - xp_needed(p.level);
        p.level = p.level + 1;
        p.max_hp = p.max_hp + 5;
        p.hp = p.max_hp;
        p.max_mp = p.max_mp + 3;
        p.mp = p.max_mp;
        p.attack = p.attack + 1;
        leveled = true;
    }
    leveled
}

// ----------------------------------------------------------------------------
// Gold
// ----------------------------------------------------------------------------

/// Adds gold, stopping at `u32::MAX`.
pub fn gain_gold(p: &mut Player, amount: u32)
    ensures
        final(p).gold == (if old(p).gold + amount > u32::MAX { u32::MAX as int } else {
            old(p).gold + amount
        }),
        *final(p) == (Player { gold: final(p).gold, ..*old(p) }),
{
    p.gold = p.gold.saturating_add(amount);
}

/// The player's gold.
pub fn player_gold(p: &Player) -> (r: u32)
    ensures
        r == p.gold,
{
    p.gold
}

/// Takes `amount` gold if the player has that much; returns whether it did.
pub fn remove_gold(p: &mut Player, amount: u32) -> (ok: bool)
    ensures
        ok == (old(p).gold >= amount),
        final(p).gold == (if ok { old(p).gold - amount } else { old(p).gold as int }),
        *final(p) == (Player { gold: final(p).gold, ..*old(p) }),
{
    if p.gold >= amount {
        p.gold = p.gold - amount;
        true
    } else {
        false
    }
}

// ----------------------------------------------------------------------------
// Equipment
// ----------------------------------------------------------------------------

/// Number of equipment slots (unused slots included).
pub const EQUIPMENT_SLOTS: usize = 14;

/// The slot of the weapon and of the armour.
pub const WEAPON_SLOT: i32 = 0;

pub const ARMOUR_SLOT: i32 = 1;

/// The player's equipment as the fixed list of slots (empty slots `None`).
pub fn equipment_slots(player: &Player) -> (r: Vec<Option<UserItem>>)
    ensures
        r@.len() == EQUIPMENT_SLOTS,
        forall|i: int|
            0 <= i < EQUIPMENT_SLOTS ==> #[trigger] r@[i] == (if player.equipment@.contains_key(
                i as i32,
            ) {
                Some(player.equipment@[i as i32])
            } else {
                None
            }),
{
    let mut r: Vec<Option<UserItem>> = Vec::new();
    let mut i: usize = 0;
    while i < EQUIPMENT_SLOTS
        invariant
            i <= EQUIPMENT_SLOTS,
            r@.len() == i,
            forall|j: int|
                0 <= j < i ==> #[trigger] r@[j] == (if player.equipment@.contains_key(j as i32) {
                    Some(player.equipment@[j as i32])
                } else {
                    None
                }),
        decreases EQUIPMENT_SLOTS - i,
    {
        let slot = i as i32;
        match player.equipment.get(&slot) {
            Some(it) => r.push(Some(*it)),
            None => r.push(None),
        }
        i = i + 1;
    }
    r
}

/// An item with a durability whose durability is used up gives no bonus.
pub open spec fn broken(it: UserItem) -> bool {
    it.max_dura > 0 && it.current_dura == 0
}

/// The bonus and look (item index) that the item in `slot` gives, if any:
/// the slot holds an item of the table that is not broken.
pub open spec fn slot_bonus(equipment: Map<i32, UserItem>, slot: i32) -> Option<(i32, i16)> {
    if equipment.contains_key(slot) {
        match spec_find_item(equipment[slot].item_index) {
            Some(t) => if broken(equipment[slot]) {
                None
            } else {
                Some((t.bonus, t.index as i16))
            },
            None => None,
        }
    } else {
        None
    }
}

fn slot_bonus_of(equipment: &BTreeMap<i32, UserItem>, slot: i32) -> (r: Option<(i32, i16)>)
    ensures
        r == slot_bonus(equipment@, slot),
{
    match equipment.get(&slot) {
        Some(it) => match find(it.item_index) {
            Some(t) => {
                if it.max_dura > 0 && it.current_dura == 0 {
                    None
                } else {
                    Some((t.bonus, t.index as i16))
                }
            },
            None => None,
        },
        None => None,
    }
}

/// Recomputes attack, defence and the weapon and armour looks from the level
/// and the equipment: attack is `1 + level / 2` plus the bonus of a working
/// weapon, defence `level / 2` plus the bonus of working armour.
pub fn recompute_stats(player: &mut Player)
    ensures
        final(player).attack == 1 + old(player).level / 2 + match slot_bonus(
            old(player).equipment@,
            WEAPON_SLOT,
        ) {
            Some((b, _)) => b as int,
            None => 0,
        },
        final(player).defence == old(player).level / 2 + match slot_bonus(
            old(player).equipment@,
            ARMOUR_SLOT,
        ) {
            Some((b, _)) => b as int,
            None => 0,
        },
        final(player).weapon == match slot_bonus(old(player).equipment@, WEAPON_SLOT) {
            Some((_, look)) => look,
            None => 0,
        },
        final(player).armour == match slot_bonus(old(player).equipment@, ARMOUR_SLOT) {
            Some((_, look)) => look,
            None => 0,
        },
        *final(player) == (Player {
            attack: final(player).attack,
            defence: final(player).defence,
            weapon: final(player).weapon,
            armour: final(player).armour,
            ..*old(player)
        }),
{
    let base_attack: i32 = 1 + (player.level / 2) as i32;
    let base_defence: i32 = (player.level / 2) as i32;
    let mut attack = base_attack;
    let mut defence = base_defence;
    player.weapon = 0;
    player.armour = 0;
    match slot_bonus_of(&player.equipment, WEAPON_SLOT) {
        Some((b, look)) => {
            player.weapon = look;
            attack = attack + b;
        },
        None => {},
    }
    match slot_bonus_of(&player.equipment, ARMOUR_SLOT) {
        Some((b, look)) => {
            player.armour = look;
            defence = defence + b;
        },
        None => {},
    }
    player.attack = attack;
    player.defence = defence;
}

/// Sets the durability of the item worn in `slot` to `new_dura` (as the
/// store reported it after wear) and recomputes the stats. Returns whether
/// the item broke with this wear (its durability went from above 0 to 0).
pub fn apply_durability(player: &mut Player, slot: i32, new_dura: u16) -> (broke_now: bool)
    ensures
        old(player).equipment@.contains_key(slot) ==> final(player).equipment@ == old(
            player,
        ).equipment@.insert(
            slot,
            UserItem { current_dura: new_dura, ..old(player).equipment@[slot] },
        ),
        !old(player).equipment@.contains_key(slot) ==> final(player).equipment@ == old(
            player,
        ).equipment@,
        broke_now == (old(player).equipment@.contains_key(slot)
            && old(player).equipment@[slot].current_dura > 0 && new_dura == 0),
        final(player).attack == 1 + final(player).level / 2 + match slot_bonus(
            final(player).equipment@,
            WEAPON_SLOT,
        ) {
            Some((b, _)) => b as int,
            None => 0,
        },
        final(player).defence == final(player).level / 2 + match slot_bonus(
            final(player).equipment@,
            ARMOUR_SLOT,
        ) {
            Some((b, _)) => b as int,
            None => 0,
        },
        *final(player) == (Player {
            equipment: final(player).equipment,
            attack: final(player).attack,
            defence: final(player).defence,
            weapon: final(player).weapon,
            armour: final(player).armour,
            ..*old(player)
        }),
{
    let mut broke_now = false;
    match player.equipment.get(&slot) {
        Some(it) => {
            let prev = it.current_dura;
            let updated = UserItem { current_dura: new_dura, ..*it };
            player.equipment.insert(slot, updated);
            broke_now = prev > 0 && new_dura == 0;
        },
        None => {},
    }
    recompute_stats(player);
    broke_now
}

// ----------------------------------------------------------------------------
// Regeneration and consumables
// ----------------------------------------------------------------------------

/// What one regeneration tick does for a player: a living wounded player
/// gets 4 hit points and 2 mana points back (up to the maxima); a living
/// player at or below the auto-potion threshold, with an auto-potion item
/// set, drinks one. (new hp and mp, item to drink).
pub open spec fn spec_regen(p: Player) -> (Option<(i32, i32)>, Option<i32>) {
    if p.dead {
        (None, None)
    } else {
        (
            if p.hp < p.max_hp {
                Some(
                    (
                        if p.hp + 4 < p.max_hp { (p.hp + 4) as i32 } else { p.max_hp },
                        if p.mp + 2 < p.max_mp { (p.mp + 2) as i32 } else { p.max_mp },
                    ),
                )
            } else {
                None
            },
            if p.auto_pot_item > 0 && p.auto_pot_hp > 0 && (p.hp as u32) <= p.auto_pot_hp {
                Some(p.auto_pot_item)
            } else {
                None
            },
        )
    }
}

/// The regeneration tick of one player (see `spec_regen`).
pub fn regen_step(p: &Player) -> (r: (Option<(i32, i32)>, Option<i32>))
    requires
        p.hp + 4 <= i32::MAX,
        p.mp + 2 <= i32::MAX,
    ensures
        r == spec_regen(*p),
{
    if p.dead {
        return (None, None);
    }
    let heal = if p.hp < p.max_hp {
        let nhp = if p.hp + 4 < p.max_hp { p.hp + 4 } else { p.max_hp };
        let nmp = if p.mp + 2 < p.max_mp { p.mp + 2 } else { p.max_mp };
        Some((nhp, nmp))
    } else {
        None
    };
    let pot = if p.auto_pot_item > 0 && p.auto_pot_hp > 0 && (p.hp as u32) <= p.auto_pot_hp {
        Some(p.auto_pot_item)
    } else {
        None
    };
    (heal, pot)
}

/// Uses a consumable of item `item_index`: an item of the table that heals
/// restores that many hit points (up to the maximum). Returns whether it was
/// used.
pub fn use_consumable(p: &mut Player, item_index: i32) -> (used: bool)
    requires
        old(p).hp + 30 <= i32::MAX,
    ensures
        used == (spec_find_item(item_index) matches Some(t) && t.heal > 0),
        used ==> final(p).hp == (if old(p).hp + spec_find_item(item_index)->0.heal < old(p).max_hp {
            old(p).hp + spec_find_item(item_index)->0.heal
        } else {
            old(p).max_hp as int
        }),
        !used ==> final(p).hp == old(p).hp,
        *final(p) == (Player { hp: final(p).hp, ..*old(p) }),
{
    let t = match find(item_index) {
        Some(t) => t,
        None => return false,
    };
    if t.heal <= 0 {
        return false;
    }
    assert(t.heal <= 30);
    let h = p.hp + t.heal;
    p.hp = if h < p.max_hp { h } else { p.max_hp };
    true
}

} // verus!
