//! Item requests of a player on its belongings: the bag, what it wears and
//! its storage. The caller loads the bag and the storage from the store,
//! hands them over with the player's equipment, and saves what comes back.
use std::collections::BTreeMap;
use vstd::prelude::*;

use crate::entities::UserItem;
use crate::inventory::{
    count_of, is_first_empty, lemma_count_update, units, equip_from_bag, first_empty, fits_slot, merge_in_bag, move_equipment, move_slot, spec_fits_slot,
    split_in_bag, transfer_slot, unequip_to_bag,
};

verus! {

/// The grid of the bag.
pub const GRID_INVENTORY: u8 = 1;
/// The grid of what is worn.
pub const GRID_EQUIPMENT: u8 = 2;

/// What a player owns, as far as item requests are concerned.
pub struct Belongings {
    pub bag: Vec<Option<UserItem>>,
    /// Equipment slot -> item worn.
    pub equipment: BTreeMap<i32, UserItem>,
    pub storage: Vec<Option<UserItem>>,
}

/// Abstract value of `Belongings`.
pub struct BelongingsV {
    pub bag: Seq<Option<UserItem>>,
    pub equipment: Map<i32, UserItem>,
    pub storage: Seq<Option<UserItem>>,
}

impl View for Belongings {
    type V = BelongingsV;

    open spec fn view(&self) -> BelongingsV {
        BelongingsV { bag: self.bag@, equipment: self.equipment@, storage: self.storage@ }
    }
}

/// An item request.
#[derive(Debug, Clone, Copy, PartialEq, Eq, Structural)]
pub enum BagRequest {
    /// Move between two slots of grid `grid` (bag or equipment).
    Move { grid: u8, from: i32, to: i32 },
    /// Bag slot `from` into storage slot `to`.
    Store { from: i32, to: i32 },
    /// Storage slot `from` into bag slot `to`.
    TakeBack { from: i32, to: i32 },
    /// Split `count` off the bag stack `uid`.
    Split { grid: u8, uid: u64, count: u16 },
    /// Merge bag stack `id_from` into bag stack `id_to`.
    Merge { id_from: u64, id_to: u64 },
    /// From the bag: put on item `uid` in equipment slot `to`; from the
    /// equipment: take off what slot `to` holds.
    Equip { grid: u8, uid: u64, to: i32 },
}

/// How an item request ended.
#[derive(Debug, Clone, Copy, PartialEq, Eq, Structural)]
pub enum BagOutcome {
    Done,
    /// Refused; nothing changed.
    Failed,
    /// The storage is locked by its password; nothing changed.
    Locked,
}

/// The first bag slot holding the item with unique id `uid`.
pub open spec fn slot_of(bag: Seq<Option<UserItem>>, uid: u64) -> Option<int> {
    if exists|k: int| is_slot_of(bag, uid, k) {
        Some(choose|k: int| is_slot_of(bag, uid, k))
    } else {
        None
    }
}

/// `k` is the first bag slot holding `uid`.
pub open spec fn is_slot_of(bag: Seq<Option<UserItem>>, uid: u64, k: int) -> bool {
    &&& 0 <= k < bag.len()
    &&& bag[k] matches Some(it) && it.unique_id == uid
    &&& forall|j: int| 0 <= j < k ==> !(#[trigger] bag[j] matches Some(it) && it.unique_id == uid)
}

/// A slot index that lies in a list of `len` slots.
pub open spec fn in_range(i: i32, len: nat) -> bool {
    0 <= i < len
}

/// Moving a bag slot onto another (a swap).
pub open spec fn spec_move(bag: Seq<Option<UserItem>>, from: int, to: int) -> Option<Seq<Option<UserItem>>> {
    if from == to {
        Some(bag)
    } else if bag[from] is Some {
        Some(bag.update(from, bag[to]).update(to, bag[from]))
    } else {
        None
    }
}

/// Moving an equipment slot onto another (a swap).
pub open spec fn spec_move_equipment(eq: Map<i32, UserItem>, from: i32, to: i32) -> Option<Map<i32, UserItem>> {
    if from == to {
        Some(eq)
    } else if eq.contains_key(from) {
        Some(
            if eq.contains_key(to) {
                eq.insert(to, eq[from]).insert(from, eq[to])
            } else {
                eq.remove(from).insert(to, eq[from])
            },
        )
    } else {
        None
    }
}

/// Splitting `count` off the stack in bag slot `from` into the first empty
/// slot, as a new stack whose unique id the slot gives.
pub open spec fn spec_split(bag: Seq<Option<UserItem>>, ci: i32, from: int, count: u16) -> Option<
    Seq<Option<UserItem>>,
> {
    match bag[from] {
        Some(it) => if count == 0 || count >= it.count {
            None
        } else {
            match first_empty(bag) {
                None => None,
                Some(f) => Some(
                    bag.update(from, Some(UserItem { count: (it.count - count) as u16, ..it })).update(
                        f,
                        Some(
                            UserItem {
                                unique_id: (ci * 1000 + f) as u64,
                                item_index: it.item_index,
                                count,
                                current_dura: it.current_dura,
                                max_dura: it.max_dura,
                            },
                        ),
                    ),
                ),
            }
        },
        None => None,
    }
}

/// Merging bag stack `from` into bag stack `to` of the same kind (their
/// counts must fit together).
pub open spec fn spec_merge(bag: Seq<Option<UserItem>>, from: int, to: int) -> Option<Seq<Option<UserItem>>> {
    match (bag[from], bag[to]) {
        (Some(a), Some(b)) => if from != to && a.item_index == b.item_index && a.count + b.count
            <= u16::MAX {
            Some(bag.update(to, Some(UserItem { count: (a.count + b.count) as u16, ..b })).update(from, None))
        } else {
            None
        },
        _ => None,
    }
}

/// Putting on the item of bag slot `from` in equipment slot `to`: what `to`
/// held goes, as a single item, to the first empty bag slot (none: refused).
pub open spec fn spec_equip(b: BelongingsV, from: int, to: i32) -> Option<BelongingsV> {
    let item = b.bag[from]->0;
    if !b.equipment.contains_key(to) {
        Some(BelongingsV { bag: b.bag.update(from, None), equipment: b.equipment.insert(to, item), ..b })
    } else {
        match first_empty(b.bag) {
            None => None,
            Some(f) => Some(
                BelongingsV {
                    bag: b.bag.update(f, Some(UserItem { count: 1, ..b.equipment[to] })).update(from, None),
                    equipment: b.equipment.insert(to, item),
                    ..b
                },
            ),
        }
    }
}

/// Taking off what equipment slot `slot` holds into the first empty bag slot.
pub open spec fn spec_unequip(b: BelongingsV, slot: i32) -> Option<BelongingsV> {
    match (b.equipment.contains_key(slot), first_empty(b.bag)) {
        (true, Some(f)) => Some(
            BelongingsV {
                bag: b.bag.update(f, Some(UserItem { count: 1, ..b.equipment[slot] })),
                equipment: b.equipment.remove(slot),
                ..b
            },
        ),
        _ => None,
    }
}

/// The belongings after a change, or unchanged with `Failed`.
pub open spec fn done_or_failed(b: BelongingsV, after: Option<BelongingsV>) -> (BelongingsV, BagOutcome) {
    match after {
        Some(a) => (a, BagOutcome::Done),
        None => (b, BagOutcome::Failed),
    }
}

/// One item request (see `bag_step`). `locked`: the storage has a password
/// that this session has not unlocked; `ci`: the character's index, which
/// a split stack's unique id is made from.
pub open spec fn spec_bag_step(b: BelongingsV, ci: i32, locked: bool, req: BagRequest) -> (BelongingsV, BagOutcome) {
    match req {
        BagRequest::Move { grid, from, to } => if grid == GRID_INVENTORY {
            if in_range(from, b.bag.len()) && in_range(to, b.bag.len()) {
                done_or_failed(
                    b,
                    match spec_move(b.bag, from as int, to as int) {
                        Some(bag) => Some(BelongingsV { bag, ..b }),
                        None => None,
                    },
                )
            } else {
                (b, BagOutcome::Failed)
            }
        } else if grid == GRID_EQUIPMENT {
            done_or_failed(
                b,
                match spec_move_equipment(b.equipment, from, to) {
                    Some(equipment) => Some(BelongingsV { equipment, ..b }),
                    None => None,
                },
            )
        } else {
            (b, BagOutcome::Failed)
        },
        BagRequest::Store { from, to } => if locked {
            (b, BagOutcome::Locked)
        } else if in_range(from, b.bag.len()) && in_range(to, b.storage.len()) && b.bag[from as int] is Some {
            (
                BelongingsV {
                    bag: b.bag.update(from as int, b.storage[to as int]),
                    storage: b.storage.update(to as int, b.bag[from as int]),
                    ..b
                },
                BagOutcome::Done,
            )
        } else {
            (b, BagOutcome::Failed)
        },
        BagRequest::TakeBack { from, to } => if locked {
            (b, BagOutcome::Locked)
        } else if in_range(from, b.storage.len()) && in_range(to, b.bag.len()) && b.storage[from as int] is Some {
            (
                BelongingsV {
                    storage: b.storage.update(from as int, b.bag[to as int]),
                    bag: b.bag.update(to as int, b.storage[from as int]),
                    ..b
                },
                BagOutcome::Done,
            )
        } else {
            (b, BagOutcome::Failed)
        },
        BagRequest::Split { grid, uid, count } => if grid != GRID_INVENTORY {
            (b, BagOutcome::Failed)
        } else {
            match slot_of(b.bag, uid) {
                Some(f) => done_or_failed(
                    b,
                    match spec_split(b.bag, ci, f, count) {
                        Some(bag) => Some(BelongingsV { bag, ..b }),
                        None => None,
                    },
                ),
                None => (b, BagOutcome::Failed),
            }
        },
        BagRequest::Merge { id_from, id_to } => match (slot_of(b.bag, id_from), slot_of(b.bag, id_to)) {
            (Some(f), Some(t)) => done_or_failed(
                b,
                match spec_merge(b.bag, f, t) {
                    Some(bag) => Some(BelongingsV { bag, ..b }),
                    None => None,
                },
            ),
            _ => (b, BagOutcome::Failed),
        },
        BagRequest::Equip { grid, uid, to } => if grid == GRID_INVENTORY {
            match slot_of(b.bag, uid) {
                Some(f) => if spec_fits_slot(b.bag[f]->0.item_index, to) {
                    done_or_failed(b, spec_equip(b, f, to))
                } else {
                    (b, BagOutcome::Failed)
                },
                None => (b, BagOutcome::Failed),
            }
        } else if grid == GRID_EQUIPMENT {
            done_or_failed(b, spec_unequip(b, to))
        } else {
            (b, BagOutcome::Failed)
        },
    }
}

/// The first bag slot holding `uid` (see `slot_of`).
pub fn find_uid(bag: &Vec<Option<UserItem>>, uid: u64) -> (r: Option<usize>)
    ensures
        match r {
            Some(k) => slot_of(bag@, uid) == Some(k as int),
            None => slot_of(bag@, uid) is None,
        },
{
    let mut i: usize = 0;
    while i < bag.len()
        invariant
            i <= bag@.len(),
            forall|j: int| 0 <= j < i ==> !(#[trigger] bag@[j] matches Some(it) && it.unique_id == uid),
        decreases bag@.len() - i,
    {
        let hit = match bag[i] {
            Some(it) => it.unique_id == uid,
            None => false,
        };
        if hit {
            proof {
                assert(is_slot_of(bag@, uid, i as int));
                let c = choose|c: int| is_slot_of(bag@, uid, c);
                if c < i {
                    assert(!(bag@[c] matches Some(it) && it.unique_id == uid));
                } else if i < c {
                    assert(bag@[i as int] matches Some(it) && it.unique_id == uid);
                }
            }
            return Some(i);
        }
        i = i + 1;
    }
    assert(!exists|k: int| is_slot_of(bag@, uid, k));
    None
}

/// Carries out item request `req` on `b` (see `spec_bag_step`): moves within
/// the bag or the equipment, storing and taking back (refused while the
/// storage is locked), splitting and merging stacks, putting on (the item
/// must fit the slot) and taking off. Slots out of range, unknown unique ids
/// and any refusal of the underlying rule leave everything as it was.
pub fn bag_step(b: &mut Belongings, ci: i32, locked: bool, req: BagRequest) -> (r: BagOutcome)
    requires
        old(b).bag@.len() <= i32::MAX,
    ensures
        (final(b)@, r) == spec_bag_step(old(b)@, ci, locked, req),
{
    let ghost b0 = b@;
    match req {
        BagRequest::Move { grid, from, to } => {
            if grid == GRID_INVENTORY {
                if from < 0 || to < 0 || from as usize >= b.bag.len() || to as usize >= b.bag.len() {
                    return BagOutcome::Failed;
                }
                if move_slot(&mut b.bag, from as usize, to as usize) {
                    BagOutcome::Done
                } else {
                    BagOutcome::Failed
                }
            } else if grid == GRID_EQUIPMENT {
                if move_equipment(&mut b.equipment, from, to) {
                    BagOutcome::Done
                } else {
                    BagOutcome::Failed
                }
            } else {
                BagOutcome::Failed
            }
        },
        BagRequest::Store { from, to } => {
            if locked {
                return BagOutcome::Locked;
            }
            if from < 0 || to < 0 || from as usize >= b.bag.len() || to as usize >= b.storage.len() {
                return BagOutcome::Failed;
            }
            if transfer_slot(&mut b.bag, &mut b.storage, from as usize, to as usize) {
                BagOutcome::Done
            } else {
                BagOutcome::Failed
            }
        },
        BagRequest::TakeBack { from, to } => {
            if locked {
                return BagOutcome::Locked;
            }
            if from < 0 || to < 0 || from as usize >= b.storage.len() || to as usize >= b.bag.len() {
                return BagOutcome::Failed;
            }
            if transfer_slot(&mut b.storage, &mut b.bag, from as usize, to as usize) {
                BagOutcome::Done
            } else {
                BagOutcome::Failed
            }
        },
        BagRequest::Split { grid, uid, count } => {
            if grid != GRID_INVENTORY {
                return BagOutcome::Failed;
            }
            match find_uid(&b.bag, uid) {
                Some(f) => match split_in_bag(&mut b.bag, ci, f, count) {
                    Some(_) => BagOutcome::Done,
                    None => BagOutcome::Failed,
                },
                None => BagOutcome::Failed,
            }
        },
        BagRequest::Merge { id_from, id_to } => {
            let (f, t) = match (find_uid(&b.bag, id_from), find_uid(&b.bag, id_to)) {
                (Some(f), Some(t)) => (f, t),
                _ => return BagOutcome::Failed,
            };
            let fits = match (b.bag[f], b.bag[t]) {
                (Some(x), Some(y)) => x.count as u32 + y.count as u32 <= 65535,
                _ => false,
            };
            if !fits {
                return BagOutcome::Failed;
            }
            if merge_in_bag(&mut b.bag, f, t).0 {
                BagOutcome::Done
            } else {
                BagOutcome::Failed
            }
        },
        BagRequest::Equip { grid, uid, to } => {
            if grid == GRID_INVENTORY {
                let f = match find_uid(&b.bag, uid) {
                    Some(f) => f,
                    None => return BagOutcome::Failed,
                };
                let idx = match b.bag[f] {
                    Some(it) => it.item_index,
                    None => return BagOutcome::Failed,
                };
                if !fits_slot(idx, to) {
                    return BagOutcome::Failed;
                }
                if equip_from_bag(&mut b.bag, &mut b.equipment, f, to) {
                    BagOutcome::Done
                } else {
                    BagOutcome::Failed
                }
            } else if grid == GRID_EQUIPMENT {
                match unequip_to_bag(&mut b.bag, &mut b.equipment, to) {
                    Some(_) => BagOutcome::Done,
                    None => BagOutcome::Failed,
                }
            } else {
                BagOutcome::Failed
            }
        },
    }
}


/// Slot `o` holds the item with unique id `u`.
pub open spec fn holds(o: Option<UserItem>, u: u64) -> bool {
    o matches Some(it) && it.unique_id == u
}

/// The unique ids of the items in the bag and on the body.
pub open spec fn held_ids(b: BelongingsV) -> Set<u64> {
    Set::new(
        |u: u64|
            (exists|i: int| 0 <= i < b.bag.len() && #[trigger] holds(b.bag[i], u))
                || (exists|k: i32| #[trigger] b.equipment.contains_key(k) && b.equipment[k].unique_id == u),
    )
}

/// Putting on and taking off only move items: the unique ids in the bag
/// and on the body are the same before and after (the storage is not
/// touched).
pub proof fn law_equip_keeps_items(b: BelongingsV, from: int, to: i32)
    requires
        0 <= from < b.bag.len(),
        b.bag[from] is Some,
    ensures
        spec_equip(b, from, to) matches Some(b2) ==> held_ids(b2) == held_ids(b) && b2.storage == b.storage,
        spec_unequip(b, to) matches Some(b2) ==> held_ids(b2) == held_ids(b) && b2.storage == b.storage,
{
    let item = b.bag[from]->0;
    if let Some(b2) = spec_equip(b, from, to) {
        assert forall|u: u64| held_ids(b2).contains(u) == held_ids(b).contains(u) by {
            if held_ids(b).contains(u) {
                if exists|i: int| 0 <= i < b.bag.len() && #[trigger] holds(b.bag[i], u) {
                    let i = choose|i: int| 0 <= i < b.bag.len() && #[trigger] holds(b.bag[i], u);
                    if i == from {
                        assert(b2.equipment.contains_key(to) && b2.equipment[to].unique_id == u);
                    } else {
                        match first_empty(b.bag) {
                            Some(f) => {
                                if b.equipment.contains_key(to) {
                                    assert(f != i);
                                }
                            },
                            None => {},
                        }
                        assert(b2.bag[i] == b.bag[i]);
                    }
                } else {
                    let k = choose|k: i32| #[trigger] b.equipment.contains_key(k) && b.equipment[k].unique_id == u;
                    if k == to {
                        let f = first_empty(b.bag)->0;
                        assert(holds(b2.bag[f], u));
                    } else {
                        assert(b2.equipment.contains_key(k) && b2.equipment[k] == b.equipment[k]);
                    }
                }
            }
            if held_ids(b2).contains(u) {
                if exists|i: int| 0 <= i < b2.bag.len() && #[trigger] holds(b2.bag[i], u) {
                    let i = choose|i: int| 0 <= i < b2.bag.len() && #[trigger] holds(b2.bag[i], u);
                    if b.equipment.contains_key(to) && first_empty(b.bag) == Some(i) && i != from {
                        assert(b.equipment.contains_key(to) && b.equipment[to].unique_id == u);
                    } else {
                        assert(b.bag[i] == b2.bag[i]);
                    }
                } else {
                    let k = choose|k: i32| #[trigger] b2.equipment.contains_key(k) && b2.equipment[k].unique_id == u;
                    if k == to {
                        assert(holds(b.bag[from], u));
                    } else {
                        assert(b.equipment.contains_key(k) && b.equipment[k] == b2.equipment[k]);
                    }
                }
            }
        }
        assert(held_ids(b2) =~= held_ids(b));
    }
    if let Some(b2) = spec_unequip(b, to) {
        let f = first_empty(b.bag)->0;
        assert forall|u: u64| held_ids(b2).contains(u) == held_ids(b).contains(u) by {
            if held_ids(b).contains(u) {
                if exists|i: int| 0 <= i < b.bag.len() && #[trigger] holds(b.bag[i], u) {
                    let i = choose|i: int| 0 <= i < b.bag.len() && #[trigger] holds(b.bag[i], u);
                    assert(i != f);
                    assert(b2.bag[i] == b.bag[i]);
                } else {
                    let k = choose|k: i32| #[trigger] b.equipment.contains_key(k) && b.equipment[k].unique_id == u;
                    if k == to {
                        assert(holds(b2.bag[f], u));
                    } else {
                        assert(b2.equipment.contains_key(k) && b2.equipment[k] == b.equipment[k]);
                    }
                }
            }
            if held_ids(b2).contains(u) {
                if exists|i: int| 0 <= i < b2.bag.len() && #[trigger] holds(b2.bag[i], u) {
                    let i = choose|i: int| 0 <= i < b2.bag.len() && #[trigger] holds(b2.bag[i], u);
                    if i == f {
                        assert(b.equipment.contains_key(to) && b.equipment[to].unique_id == u);
                    } else {
                        assert(b.bag[i] == b2.bag[i]);
                    }
                } else {
                    let k = choose|k: i32| #[trigger] b2.equipment.contains_key(k) && b2.equipment[k].unique_id == u;
                    assert(b.equipment.contains_key(k) && b.equipment[k] == b2.equipment[k]);
                }
            }
        }
        assert(held_ids(b2) =~= held_ids(b));
    }
}


/// Moving within the bag keeps what the bag holds: for two slots in range,
/// a move from a filled slot (or onto itself) succeeds, the bag holds the same
/// items as before (as a multiset of slots), the moved item lands on the
/// target and whatever was there goes to the source (a swap), every other
/// slot is untouched, and the equipment and storage do not change. A move
/// from an empty slot to another fails and changes nothing.
pub proof fn law_bag_move_keeps_items(b: BelongingsV, ci: i32, locked: bool, from: i32, to: i32)
    requires
        in_range(from, b.bag.len()),
        in_range(to, b.bag.len()),
    ensures
        ({
            let (b2, r) = spec_bag_step(b, ci, locked, BagRequest::Move { grid: GRID_INVENTORY, from, to });
            if from == to || b.bag[from as int] is Some {
                &&& r == BagOutcome::Done
                &&& b2.bag.to_multiset() == b.bag.to_multiset()
                &&& b2.bag.len() == b.bag.len()
                &&& b2.bag[to as int] == b.bag[from as int]
                &&& b2.bag[from as int] == b.bag[to as int]
                &&& forall|i: int| 0 <= i < b.bag.len() && i != from && i != to ==> b2.bag[i] == b.bag[i]
                &&& b2.equipment == b.equipment
                &&& b2.storage == b.storage
            } else {
                r == BagOutcome::Failed && b2 == b
            }
        }),
{
    broadcast use vstd::seq_lib::to_multiset_update, vstd::seq_lib::to_multiset_contains, vstd::multiset::group_multiset_axioms;
    let bag = b.bag;
    let (f, t) = (from as int, to as int);
    if from != to && bag[f] is Some {
        let s1 = bag.update(f, bag[t]);
        let s2 = s1.update(t, bag[f]);
        assert(s1.to_multiset() == bag.to_multiset().insert(bag[t]).remove(bag[f]));
        assert(s2.to_multiset() == s1.to_multiset().insert(bag[f]).remove(s1[t]));
        assert(bag.contains(bag[f]));
        assert(bag.contains(bag[t]));
        let m = bag.to_multiset();
        assert(m.count(bag[f]) > 0 && m.count(bag[t]) > 0);
        assert forall|x: Option<UserItem>| #[trigger] s2.to_multiset().count(x) == m.count(x) by {}
        assert(s2.to_multiset() =~= bag.to_multiset());
    }
}


/// Storing and taking back move items between the bag and the storage and
/// neither make nor lose any: the bag and the storage together hold the
/// same items as before (as a multiset of slots), each keeps its size, and
/// the equipment does not change. While the storage is locked nothing moves.
pub proof fn law_store_keeps_items(b: BelongingsV, ci: i32, locked: bool, from: i32, to: i32, back: bool)
    ensures
        ({
            let req = if back { BagRequest::TakeBack { from, to } } else { BagRequest::Store { from, to } };
            let (b2, r) = spec_bag_step(b, ci, locked, req);
            &&& (b2.bag + b2.storage).to_multiset() == (b.bag + b.storage).to_multiset()
            &&& b2.bag.len() == b.bag.len()
            &&& b2.storage.len() == b.storage.len()
            &&& b2.equipment == b.equipment
            &&& locked ==> r == BagOutcome::Locked && b2 == b
        }),
{
    broadcast use vstd::seq_lib::to_multiset_update, vstd::seq_lib::to_multiset_contains, vstd::multiset::group_multiset_axioms;
    let req = if back { BagRequest::TakeBack { from, to } } else { BagRequest::Store { from, to } };
    let (b2, r) = spec_bag_step(b, ci, locked, req);
    if !locked && r == BagOutcome::Done {
        let n = b.bag.len();
        let all = b.bag + b.storage;
        let (bi, si) = if back { (to as int, from as int) } else { (from as int, to as int) };
        assert(0 <= bi < n && 0 <= si < b.storage.len());
        let s1 = all.update(bi, b.storage[si]);
        let s2 = s1.update(n + si, b.bag[bi]);
        assert(b2.bag + b2.storage =~= s2);
        assert(all[bi] == b.bag[bi] && all[n + si] == b.storage[si]);
        assert(all.contains(b.bag[bi]));
        assert(all.contains(b.storage[si]));
        let m = all.to_multiset();
        assert(s1.to_multiset() == m.insert(b.storage[si]).remove(b.bag[bi]));
        assert(s1[n + si] == b.storage[si]);
        assert(s2.to_multiset() == s1.to_multiset().insert(b.bag[bi]).remove(b.storage[si]));
        assert(m.count(b.bag[bi]) > 0 && m.count(b.storage[si]) > 0);
        assert forall|x: Option<UserItem>| #[trigger] s2.to_multiset().count(x) == m.count(x) by {}
        assert(s2.to_multiset() =~= m);
    }
}

/// Splitting a stack neither makes nor loses items: for every kind the bag
/// holds as many as before, the bag keeps its size, and the equipment and
/// storage do not change. The split is made exactly when the unique id is in
/// the bag, the count is above 0 and below the stack's size, and the bag has
/// an empty slot; the count split off then lies in the first empty slot.
pub proof fn law_split_keeps_count(b: BelongingsV, ci: i32, locked: bool, uid: u64, count: u16, idx: i32)
    requires
        b.bag.len() <= i32::MAX,
    ensures
        ({
            let (b2, r) = spec_bag_step(b, ci, locked, BagRequest::Split { grid: GRID_INVENTORY, uid, count });
            &&& count_of(b2.bag, idx) == count_of(b.bag, idx)
            &&& b2.bag.len() == b.bag.len()
            &&& b2.equipment == b.equipment
            &&& b2.storage == b.storage
            &&& (r == BagOutcome::Done) == (slot_of(b.bag, uid) matches Some(f) && 0 < count < b.bag[f]->0.count
                && first_empty(b.bag) is Some)
            &&& r == BagOutcome::Done ==> (first_empty(b.bag) matches Some(e) && (b2.bag[e] matches Some(it)
                && it.count == count && it.item_index == b.bag[slot_of(b.bag, uid)->0]->0.item_index))
        }),
{
    let (b2, r) = spec_bag_step(b, ci, locked, BagRequest::Split { grid: GRID_INVENTORY, uid, count });
    if slot_of(b.bag, uid) is Some {
        let f = slot_of(b.bag, uid)->0;
        assert(is_slot_of(b.bag, uid, f));
        if first_empty(b.bag) is Some && b.bag[f] is Some {
            let e = first_empty(b.bag)->0;
            assert(is_first_empty(b.bag, e));
            let it = b.bag[f]->0;
            if 0 < count < it.count {
                assert(e != f);
                let kept = Some(UserItem { count: (it.count - count) as u16, ..it });
                let s1 = b.bag.update(f, kept);
                lemma_count_update(b.bag, f, kept, idx);
                let new = Some(
                    UserItem {
                        unique_id: (ci * 1000 + e) as u64,
                        item_index: it.item_index,
                        count,
                        current_dura: it.current_dura,
                        max_dura: it.max_dura,
                    },
                );
                lemma_count_update(s1, e, new, idx);
                assert(s1[e] == b.bag[e]);
                assert(b2.bag == s1.update(e, new));
            }
        }
    }
}

/// Merging two stacks neither makes nor loses items: for every kind the bag
/// holds as many as before, and on success the source slot is emptied and
/// the target holds both counts.
pub proof fn law_merge_keeps_count(b: BelongingsV, ci: i32, locked: bool, id_from: u64, id_to: u64, idx: i32)
    ensures
        ({
            let (b2, r) = spec_bag_step(b, ci, locked, BagRequest::Merge { id_from, id_to });
            &&& count_of(b2.bag, idx) == count_of(b.bag, idx)
            &&& b2.bag.len() == b.bag.len()
            &&& b2.equipment == b.equipment
            &&& b2.storage == b.storage
            &&& r == BagOutcome::Done ==> (slot_of(b.bag, id_from) matches Some(f) && (slot_of(b.bag, id_to) matches Some(
                t,
            ) && (b2.bag[f] is None && (b2.bag[t] matches Some(it) && it.count == b.bag[f]->0.count
                + b.bag[t]->0.count))))
        }),
{
    let (b2, r) = spec_bag_step(b, ci, locked, BagRequest::Merge { id_from, id_to });
    if slot_of(b.bag, id_from) is Some && slot_of(b.bag, id_to) is Some {
        let f = slot_of(b.bag, id_from)->0;
        let t = slot_of(b.bag, id_to)->0;
        assert(is_slot_of(b.bag, id_from, f));
        assert(is_slot_of(b.bag, id_to, t));
        if r == BagOutcome::Done {
            let a = b.bag[f]->0;
            let c = b.bag[t]->0;
            let joined = Some(UserItem { count: (a.count + c.count) as u16, ..c });
            let s1 = b.bag.update(t, joined);
            lemma_count_update(b.bag, t, joined, idx);
            lemma_count_update(s1, f, None, idx);
            assert(s1[f] == b.bag[f]);
        }
    }
}

} // verus!
