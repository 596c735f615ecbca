//! Rules of bags, equipment and storage: which slot a new item goes to, how
//! stacks are merged, split and used up, which items fit which equipment
//! slot, wear and repair. The store holding the rows carries out what these
//! rules decide.
use std::collections::BTreeMap;
use vstd::prelude::*;

use crate::entities::{apply_durability, recompute_stats, slot_bonus, Player, UserItem, ARMOUR_SLOT, WEAPON_SLOT};
use crate::items::{find, spec_find_item};

verus! {

broadcast use vstd::std_specs::btree::group_btree_axioms;

/// Slot `s` is occupied.
pub open spec fn slot_taken(occupied: Seq<i32>, s: int) -> bool {
    occupied.contains(s as i32)
}

/// `s` is the first slot of `0..size` that no row occupies.
pub open spec fn is_first_free(occupied: Seq<i32>, size: int, s: int) -> bool {
    &&& 0 <= s < size
    &&& !slot_taken(occupied, s)
    &&& forall|t: int| 0 <= t < s ==> #[trigger] slot_taken(occupied, t)
}

/// The first slot of `0..size` that no row occupies.
pub open spec fn spec_free_slot(occupied: Seq<i32>, size: int) -> Option<i32> {
    if exists|s: int| is_first_free(occupied, size, s) {
        Some((choose|s: int| is_first_free(occupied, size, s)) as i32)
    } else {
        None
    }
}

/// The first free slot of a bag (or store) of `size` slots whose occupied
/// slots are `occupied`.
pub fn first_free_slot(occupied: &Vec<i32>, size: i32) -> (r: Option<i32>)
    requires
        size >= 0,
    ensures
        r == spec_free_slot(occupied@, size as int),
{
    let mut s: i32 = 0;
    while s < size
        invariant
            0 <= s <= size,
            forall|t: int| 0 <= t < s ==> #[trigger] slot_taken(occupied@, t),
        decreases size - s,
    {
        let mut taken = false;
        let mut k: usize = 0;
        while k < occupied.len()
            invariant
                k <= occupied.len(),
                taken == exists|j: int| 0 <= j < k && occupied@[j] == s,
            decreases occupied.len() - k,
        {
            if occupied[k] == s {
                taken = true;
            }
            k = k + 1;
        }
        if !taken {
            proof {
                assert(!slot_taken(occupied@, s as int));
                assert(is_first_free(occupied@, size as int, s as int));
                let c = choose|c: int| is_first_free(occupied@, size as int, c);
                if c < s {
                    assert(slot_taken(occupied@, c));
                } else if s < c {
                    assert(slot_taken(occupied@, s as int));
                }
            }
            return Some(s);
        }
        assert(slot_taken(occupied@, s as int)) by {
            let j = choose|j: int| 0 <= j < occupied.len() && occupied@[j] == s;
            assert(occupied@[j] == s);
        }
        s = s + 1;
    }
    assert forall|c: int| !is_first_free(occupied@, size as int, c) by {
        if 0 <= c < size {
            assert(slot_taken(occupied@, c));
        }
    }
    None
}

/// The rows (slot, item) laid out as `size` slots: a row's item in its
/// slot, `None` elsewhere; rows outside `0..size` are left out.
pub open spec fn spec_slots(rows: Seq<(i32, UserItem)>, size: int) -> Seq<Option<UserItem>>
    decreases rows.len(),
{
    if rows.len() == 0 {
        Seq::new(size as nat, |i: int| None)
    } else {
        let prev = spec_slots(rows.drop_last(), size);
        let (slot, item) = rows.last();
        if 0 <= slot < size {
            prev.update(slot as int, Some(item))
        } else {
            prev
        }
    }
}

/// The bag (or storage) of `size` slots holding `rows` (see `spec_slots`).
pub fn slots_from_rows(rows: &Vec<(i32, UserItem)>, size: usize) -> (r: Vec<Option<UserItem>>)
    requires
        size <= i32::MAX,
    ensures
        r@ == spec_slots(rows@, size as int),
{
    let mut r: Vec<Option<UserItem>> = Vec::new();
    let mut i: usize = 0;
    while i < size
        invariant
            i <= size,
            r@ == Seq::new(i as nat, |j: int| None::<UserItem>),
        decreases size - i,
    {
        r.push(None);
        i = i + 1;
        assert(r@ =~= Seq::new(i as nat, |j: int| None::<UserItem>));
    }
    assert(rows@.take(0) =~= Seq::<(i32, UserItem)>::empty());
    assert(r@ =~= spec_slots(rows@.take(0), size as int));
    let mut k: usize = 0;
    while k < rows.len()
        invariant
            k <= rows.len(),
            size <= i32::MAX,
            r@ == spec_slots(rows@.take(k as int), size as int),
            r@.len() == size,
        decreases rows.len() - k,
    {
        let (slot, item) = rows[k];
        assert(rows@.take(k + 1).drop_last() =~= rows@.take(k as int));
        if 0 <= slot && (slot as usize) < size {
            r.set(slot as usize, Some(item));
        }
        k = k + 1;
    }
    assert(rows@.take(rows.len() as int) =~= rows@);
    r
}

/// What adding `count` items of `item_index` to a bag does.
#[derive(Debug, Clone, Copy, PartialEq, Eq, Structural)]
pub enum AddPlan {
    /// Add to the existing stack with this unique id.
    Merge(i64),
    /// Put a new stack in this slot.
    NewSlot(i32),
    /// The bag is full.
    Full,
}

/// A bag addition: onto the stack of the same item if the bag has one
/// (`existing`), else into the first free slot.
pub fn add_item_plan(existing: Option<i64>, occupied: &Vec<i32>, size: i32) -> (r: AddPlan)
    requires
        size >= 0,
    ensures
        r == match existing {
            Some(uid) => AddPlan::Merge(uid),
            None => match spec_free_slot(occupied@, size as int) {
                Some(s) => AddPlan::NewSlot(s),
                None => AddPlan::Full,
            },
        },
{
    match existing {
        Some(uid) => AddPlan::Merge(uid),
        None => match first_free_slot(occupied, size) {
            Some(s) => AddPlan::NewSlot(s),
            None => AddPlan::Full,
        },
    }
}

/// Durability of a new item of `item_index` (0 for an unknown item).
pub fn item_max_dura(item_index: i32) -> (r: u16)
    ensures
        r == match spec_find_item(item_index) {
            Some(t) => t.max_dura,
            None => 0,
        },
{
    match find(item_index) {
        Some(t) => t.max_dura,
        None => 0,
    }
}

/// The stack left after using one item of a stack of `count` (`None`: the
/// stack is used up).
pub fn consume_one(count: u16) -> (r: Option<u16>)
    ensures
        r == (if count > 1 { Some((count - 1) as u16) } else { None }),
{
    if count > 1 {
        Some(count - 1)
    } else {
        None
    }
}

/// The stack left after dropping `count` (at least one) items of a stack of
/// `have` (`None`: the whole stack goes).
pub fn remove_count(have: u16, count: u16) -> (r: Option<u16>)
    ensures
        ({
            let remove = if count > 1 { count as int } else { 1 };
            r == (if remove >= have { None } else { Some((have - remove) as u16) })
        }),
{
    let remove = if count > 1 { count } else { 1 };
    if remove >= have {
        None
    } else {
        Some(have - remove)
    }
}

/// Splitting `count` items off a stack of `has` into the first free slot
/// `free`: possible when `0 < count < has` and a slot is free. (what stays,
/// the new stack's slot).
pub fn split_plan(has: u16, count: u16, free: Option<i32>) -> (r: Option<(u16, i32)>)
    ensures
        r == (if count == 0 || count >= has {
            None
        } else {
            match free {
                Some(s) => Some(((has - count) as u16, s)),
                None => None,
            }
        }),
{
    if count == 0 || count >= has {
        return None;
    }
    match free {
        Some(s) => Some((has - count, s)),
        None => None,
    }
}

/// Merging stack `from` (item, count) into stack `to` (item, count) of two
/// different unique ids: possible when both exist and hold the same item.
/// Returns whether they merge and the merged count (0 when not).
pub fn merge_plan(same_id: bool, from: Option<(i32, u16)>, to: Option<(i32, u16)>) -> (r: (bool, u16))
    requires
        match (from, to) {
            (Some((_, a)), Some((_, b))) => a + b <= u16::MAX,
            _ => true,
        },
    ensures
        r == (if same_id {
            (false, 0u16)
        } else {
            match (from, to) {
                (Some((fi, fc)), Some((ti, tc))) => if fi == ti {
                    (true, (fc + tc) as u16)
                } else {
                    (false, 0u16)
                },
                _ => (false, 0u16),
            }
        }),
{
    if same_id {
        return (false, 0);
    }
    match (from, to) {
        (Some((fi, fc)), Some((ti, tc))) => {
            if fi == ti {
                (true, tc + fc)
            } else {
                (false, 0)
            }
        },
        _ => (false, 0),
    }
}

/// A move within a bag from slot `from` to slot `to`, given whether each is
/// occupied: (done, swapped). Moving a slot onto itself is done without a
/// swap; an empty source fails; an occupied target is swapped.
pub fn move_plan(from: i32, to: i32, src_occupied: bool, dst_occupied: bool) -> (r: (bool, bool))
    ensures
        r == (if from == to {
            (true, false)
        } else if !src_occupied {
            (false, false)
        } else {
            (true, dst_occupied)
        }),
{
    if from == to {
        (true, false)
    } else if !src_occupied {
        (false, false)
    } else {
        (true, dst_occupied)
    }
}

/// Whether item `item_index` can be worn in equipment slot `to`: a weapon
/// (type 1) in slot 0, armour (type 3) in slot 1.
pub open spec fn spec_fits_slot(item_index: i32, to: i32) -> bool {
    match spec_find_item(item_index) {
        Some(t) => (t.item_type == 1 && to == 0) || (t.item_type == 3 && to == 1),
        None => false,
    }
}

pub fn fits_slot(item_index: i32, to: i32) -> (r: bool)
    ensures
        r == spec_fits_slot(item_index, to),
{
    match find(item_index) {
        Some(t) => (t.item_type == 1 && to == 0) || (t.item_type == 3 && to == 1),
        None => false,
    }
}

/// Putting on an item when the target equipment slot is taken or not: the
/// item taken off goes to the first free bag slot. `None` when there is
/// something to take off and the bag is full; otherwise the bag slot it
/// goes to (if any).
pub fn equip_plan(slot_taken: bool, occupied: &Vec<i32>, size: i32) -> (r: Option<Option<i32>>)
    requires
        size >= 0,
    ensures
        r == (if !slot_taken {
            Some(None::<i32>)
        } else {
            match spec_free_slot(occupied@, size as int) {
                Some(s) => Some(Some(s)),
                None => None,
            }
        }),
{
    if !slot_taken {
        return Some(None);
    }
    match first_free_slot(occupied, size) {
        Some(s) => Some(Some(s)),
        None => None,
    }
}

/// The player wears `item` in slot `to`; stats are recomputed.
pub fn equip_on_player(p: &mut Player, to: i32, item: UserItem)
    ensures
        final(p).equipment@ == old(p).equipment@.insert(to, item),
        final(p).attack == 1 + final(p).level / 2 + match crate::entities::slot_bonus(
            final(p).equipment@,
            crate::entities::WEAPON_SLOT,
        ) {
            Some((b, _)) => b as int,
            None => 0,
        },
        final(p).defence == final(p).level / 2 + match crate::entities::slot_bonus(
            final(p).equipment@,
            crate::entities::ARMOUR_SLOT,
        ) {
            Some((b, _)) => b as int,
            None => 0,
        },
        *final(p) == (Player {
            equipment: final(p).equipment,
            attack: final(p).attack,
            defence: final(p).defence,
            weapon: final(p).weapon,
            armour: final(p).armour,
            ..*old(p)
        }),
{
    p.equipment.insert(to, item);
    recompute_stats(p);
}

/// The player takes off what is worn in slot `to`; stats are recomputed.
pub fn unequip_on_player(p: &mut Player, to: i32)
    ensures
        final(p).equipment@ == old(p).equipment@.remove(to),
        final(p).attack == 1 + final(p).level / 2 + match crate::entities::slot_bonus(
            final(p).equipment@,
            crate::entities::WEAPON_SLOT,
        ) {
            Some((b, _)) => b as int,
            None => 0,
        },
        final(p).defence == final(p).level / 2 + match crate::entities::slot_bonus(
            final(p).equipment@,
            crate::entities::ARMOUR_SLOT,
        ) {
            Some((b, _)) => b as int,
            None => 0,
        },
        *final(p) == (Player {
            equipment: final(p).equipment,
            attack: final(p).attack,
            defence: final(p).defence,
            weapon: final(p).weapon,
            armour: final(p).armour,
            ..*old(p)
        }),
{
    p.equipment.remove(&to);
    recompute_stats(p);
}

/// Wear of `amount` on an item with durability `cd` of `md`: the new
/// durability (not below 0), or `None` for an item that does not wear.
pub fn wear(cd: u16, md: u16, amount: u16) -> (r: Option<u16>)
    ensures
        r == (if md == 0 {
            None
        } else {
            Some((if cd >= amount { cd - amount } else { 0 }) as u16)
        }),
{
    if md == 0 {
        return None;
    }
    Some(cd.saturating_sub(amount))
}

/// Wear of `amount` on what player `p` wears in `slot`: an item that wears
/// loses that much durability (not below 0) and the stats are recomputed
/// (a worn-out item no longer counts); anything else is left alone. Returns
/// whether the item wore out just now.
pub fn damage_equipment(p: &mut Player, slot: i32, amount: u16) -> (broke_now: bool)
    ensures
        ({
            let eq = old(p).equipment@;
            if eq.contains_key(slot) && eq[slot].max_dura > 0 {
                let cd = eq[slot].current_dura;
                let nd = (if cd >= amount { cd - amount } else { 0 }) as u16;
                &&& final(p).equipment@ == eq.insert(slot, UserItem { current_dura: nd, ..eq[slot] })
                &&& broke_now == (cd > 0 && nd == 0)
                &&& final(p).attack == 1 + final(p).level / 2 + match slot_bonus(final(p).equipment@, WEAPON_SLOT) {
                    Some((b, _)) => b as int,
                    None => 0,
                }
                &&& final(p).defence == final(p).level / 2 + match slot_bonus(final(p).equipment@, ARMOUR_SLOT) {
                    Some((b, _)) => b as int,
                    None => 0,
                }
                &&& *final(p) == (Player {
                    equipment: final(p).equipment,
                    attack: final(p).attack,
                    defence: final(p).defence,
                    weapon: final(p).weapon,
                    armour: final(p).armour,
                    ..*old(p)
                })
            } else {
                !broke_now && *final(p) == *old(p)
            }
        }),
{
    let (cd, md) = match p.equipment.get(&slot) {
        Some(it) => (it.current_dura, it.max_dura),
        None => return false,
    };
    match wear(cd, md, amount) {
        Some(nd) => apply_durability(p, slot, nd),
        None => false,
    }
}

/// A repair quote for an item with durability `cd` of `md` at `price_per`
/// gold a point: (durability, maximum, cost), with cost `(md - cd) *
/// price_per` (stopping at `u32::MAX`); `None` for an item that does not
/// wear.
pub fn repair_quote(cd: u16, md: u16, price_per: u32) -> (r: Option<(u16, u16, u32)>)
    ensures
        r == (if md == 0 {
            None
        } else {
            let missing = if md >= cd { md - cd } else { 0 };
            let cost = missing * price_per;
            Some((cd, md, if cost > u32::MAX { u32::MAX } else { cost as u32 }))
        }),
{
    if md == 0 {
        return None;
    }
    let missing = md.saturating_sub(cd) as u64;
    assert(missing * (price_per as u64) <= 0xFFFF * 0xFFFF_FFFF) by (nonlinear_arith)
        requires
            missing <= 0xFFFF,
            price_per <= 0xFFFF_FFFF,
    ;
    let full = missing * (price_per as u64);
    let cost: u32 = if full > u32::MAX as u64 { u32::MAX } else { full as u32 };
    Some((cd, md, cost))
}

/// Moves the item in slot `from` of `src` to slot `to` of `dst` (putting
/// something into storage, or taking it out); what `to` held goes back to
/// `from`. An empty `from` fails and changes nothing.
pub fn transfer_slot(src: &mut Vec<Option<UserItem>>, dst: &mut Vec<Option<UserItem>>, from: usize, to: usize) -> (r:
    bool)
    requires
        from < old(src).len(),
        to < old(dst).len(),
    ensures
        r == old(src)@[from as int] is Some,
        r ==> final(src)@ == old(src)@.update(from as int, old(dst)@[to as int]) && final(dst)@
            == old(dst)@.update(to as int, old(src)@[from as int]),
        !r ==> final(src)@ == old(src)@ && final(dst)@ == old(dst)@,
{
    if src[from].is_none() {
        return false;
    }
    let moving = src[from];
    let there = dst[to];
    src.set(from, there);
    dst.set(to, moving);
    true
}

/// Moves the item in slot `from` of a bag to slot `to`, swapping with what
/// `to` holds. Moving a slot onto itself succeeds and changes nothing; an
/// empty `from` fails.
pub fn move_slot(bag: &mut Vec<Option<UserItem>>, from: usize, to: usize) -> (r: bool)
    requires
        from < old(bag).len(),
        to < old(bag).len(),
    ensures
        r == (from == to || old(bag)@[from as int] is Some),
        r && from != to ==> final(bag)@ == old(bag)@.update(from as int, old(bag)@[to as int]).update(
            to as int,
            old(bag)@[from as int],
        ),
        (!r || from == to) ==> final(bag)@ == old(bag)@,
{
    if from == to {
        return true;
    }
    if bag[from].is_none() {
        return false;
    }
    let a = bag[from];
    let b = bag[to];
    bag.set(from, b);
    bag.set(to, a);
    true
}

/// Moving items between bag and storage neither makes nor loses any: the
/// two lists of slots hold together the same items as before.
pub proof fn law_transfer_keeps_items(src: Seq<Option<UserItem>>, dst: Seq<Option<UserItem>>, from: int, to: int)
    requires
        0 <= from < src.len(),
        0 <= to < dst.len(),
    ensures
        src.update(from, dst[to]).to_multiset().add(dst.update(to, src[from]).to_multiset())
            == src.to_multiset().add(dst.to_multiset()),
{
    broadcast use vstd::seq_lib::to_multiset_update, vstd::seq_lib::to_multiset_contains;
    broadcast use vstd::multiset::group_multiset_properties;
    let a = src[from];
    let b = dst[to];
    assert(src.to_multiset().contains(a));
    assert(dst.to_multiset().contains(b));
    assert(src.update(from, b).to_multiset().add(dst.update(to, a).to_multiset()) =~= src.to_multiset().add(
        dst.to_multiset(),
    ));
}

/// Moving items within a bag keeps the bag's items.
pub proof fn law_move_keeps_items(bag: Seq<Option<UserItem>>, from: int, to: int)
    requires
        0 <= from < bag.len(),
        0 <= to < bag.len(),
    ensures
        bag.update(from, bag[to]).update(to, bag[from]).to_multiset() == bag.to_multiset(),
{
    broadcast use vstd::seq_lib::to_multiset_update, vstd::seq_lib::to_multiset_contains;
    broadcast use vstd::multiset::group_multiset_properties;
    let a = bag[from];
    let b = bag[to];
    let s1 = bag.update(from, b);
    assert(bag.to_multiset().contains(a));
    assert(bag.to_multiset().contains(b));
    if from != to {
        assert(s1[to] == b);
    }
    assert(bag.update(from, b).update(to, a).to_multiset() =~= bag.to_multiset());
}

/// Moves what is worn in equipment slot `from` to slot `to`, swapping with
/// what `to` holds. Moving a slot onto itself succeeds and changes nothing;
/// an empty `from` fails.
pub fn move_equipment(eq: &mut BTreeMap<i32, UserItem>, from: i32, to: i32) -> (r: bool)
    ensures
        r == (from == to || old(eq)@.contains_key(from)),
        r && from != to ==> final(eq)@ == (if old(eq)@.contains_key(to) {
            old(eq)@.insert(to, old(eq)@[from]).insert(from, old(eq)@[to])
        } else {
            old(eq)@.remove(from).insert(to, old(eq)@[from])
        }),
        !r || from == to ==> final(eq)@ == old(eq)@,
{
    if from == to {
        return true;
    }
    let ghost m0 = eq@;
    let a = match eq.remove(&from) {
        Some(a) => a,
        None => return false,
    };
    match eq.remove(&to) {
        Some(b) => {
            eq.insert(from, b);
        },
        None => {},
    }
    eq.insert(to, a);
    proof {
        if m0.contains_key(to) {
            assert(eq@ =~= m0.insert(to, m0[from]).insert(from, m0[to]));
        } else {
            assert(eq@ =~= m0.remove(from).insert(to, m0[from]));
        }
    }
    true
}

proof fn lemma_some_first_free(occupied: Seq<i32>, size: int, t: int)
    requires
        0 <= t < size,
        !slot_taken(occupied, t),
    ensures
        exists|s: int| is_first_free(occupied, size, s),
    decreases t,
{
    if forall|k: int| 0 <= k < t ==> #[trigger] slot_taken(occupied, k) {
        assert(is_first_free(occupied, size, t));
    } else {
        let k = choose|k: int| 0 <= k < t && !#[trigger] slot_taken(occupied, k);
        lemma_some_first_free(occupied, size, k);
    }
}

/// A new stack goes to the lowest empty slot of the bag, and the bag counts
/// as full only when every one of its slots is taken.
pub proof fn law_new_stack_slot(occupied: Seq<i32>, size: int)
    requires
        0 <= size <= i32::MAX,
    ensures
        spec_free_slot(occupied, size) matches Some(s) ==> 0 <= s < size && !occupied.contains(s)
            && forall|t: int| 0 <= t < s ==> #[trigger] occupied.contains(t as i32),
        spec_free_slot(occupied, size) is None ==> forall|t: int|
            0 <= t < size ==> #[trigger] occupied.contains(t as i32),
{
    if exists|s: int| is_first_free(occupied, size, s) {
        let s = choose|s: int| is_first_free(occupied, size, s);
        assert(slot_taken(occupied, s) == occupied.contains(s as i32));
        assert forall|t: int| 0 <= t < s implies #[trigger] occupied.contains(t as i32) by {
            assert(slot_taken(occupied, t));
        }
    } else {
        assert forall|t: int| 0 <= t < size implies #[trigger] occupied.contains(t as i32) by {
            if !occupied.contains(t as i32) {
                lemma_some_first_free(occupied, size, t);
            }
        }
    }
}

/// `k` is the first empty slot of `s`.
pub open spec fn is_first_empty(s: Seq<Option<UserItem>>, k: int) -> bool {
    &&& 0 <= k < s.len()
    &&& s[k] is None
    &&& forall|j: int| 0 <= j < k ==> (#[trigger] s[j]) is Some
}

/// The first empty slot of `s`.
pub open spec fn first_empty(s: Seq<Option<UserItem>>) -> Option<int> {
    if exists|k: int| is_first_empty(s, k) {
        Some(choose|k: int| is_first_empty(s, k))
    } else {
        None
    }
}

/// The first empty slot of a list of slots.
pub fn first_empty_slot(slots: &Vec<Option<UserItem>>) -> (r: Option<usize>)
    ensures
        match r {
            Some(k) => first_empty(slots@) == Some(k as int),
            None => first_empty(slots@) is None,
        },
{
    let mut i: usize = 0;
    while i < slots.len()
        invariant
            i <= slots.len(),
            forall|j: int| 0 <= j < i ==> (#[trigger] slots@[j]) is Some,
        decreases slots.len() - i,
    {
        if slots[i].is_none() {
            proof {
                assert(is_first_empty(slots@, i as int));
                let c = choose|c: int| is_first_empty(slots@, c);
                if c < i {
                    assert(slots@[c] is Some);
                } else if i < c {
                    assert(slots@[i as int] is Some);
                }
            }
            return Some(i);
        }
        i = i + 1;
    }
    assert(!exists|k: int| is_first_empty(slots@, k));
    None
}

/// Puts on the item in bag slot `from`, in equipment slot `to`. What `to`
/// held goes, as a single item, to the first empty bag slot (looked for
/// before `from` is emptied); if there is none, nothing changes and the
/// answer is false.
pub fn equip_from_bag(bag: &mut Vec<Option<UserItem>>, eq: &mut BTreeMap<i32, UserItem>, from: usize, to: i32) -> (ok:
    bool)
    requires
        from < old(bag).len(),
        old(bag)@[from as int] is Some,
    ensures
        ({
            let item = old(bag)@[from as int]->0;
            if !old(eq)@.contains_key(to) {
                &&& ok
                &&& final(bag)@ == old(bag)@.update(from as int, None)
                &&& final(eq)@ == old(eq)@.insert(to, item)
            } else {
                match first_empty(old(bag)@) {
                    None => !ok && final(bag)@ == old(bag)@ && final(eq)@ == old(eq)@,
                    Some(f) => {
                        &&& ok
                        &&& final(bag)@ == old(bag)@.update(f, Some(UserItem { count: 1, ..old(eq)@[to] })).update(
                            from as int,
                            None,
                        )
                        &&& final(eq)@ == old(eq)@.insert(to, item)
                    },
                }
            }
        }),
{
    let item = match bag[from] {
        Some(it) => it,
        None => return false,
    };
    let free = first_empty_slot(bag);
    let held = match eq.get(&to) {
        Some(old_item) => Some(*old_item),
        None => None,
    };
    match held {
        Some(old_item) => match free {
            None => return false,
            Some(f) => {
                bag.set(f, Some(UserItem { count: 1, ..old_item }));
            },
        },
        None => {},
    }
    bag.set(from, None);
    eq.insert(to, item);
    true
}

/// Takes off what equipment slot `slot` holds into the first empty bag slot
/// (as a single item). Returns that bag slot; `None`, with nothing changed,
/// when the slot is empty or the bag is full.
pub fn unequip_to_bag(bag: &mut Vec<Option<UserItem>>, eq: &mut BTreeMap<i32, UserItem>, slot: i32) -> (r: Option<
    usize,
>)
    ensures
        match (old(eq)@.contains_key(slot), first_empty(old(bag)@)) {
            (true, Some(f)) => {
                &&& r == Some(f as usize)
                &&& final(bag)@ == old(bag)@.update(f, Some(UserItem { count: 1, ..old(eq)@[slot] }))
                &&& final(eq)@ == old(eq)@.remove(slot)
            },
            _ => r is None && final(bag)@ == old(bag)@ && final(eq)@ == old(eq)@,
        },
{
    let held = match eq.get(&slot) {
        Some(it) => *it,
        None => return None,
    };
    let f = match first_empty_slot(bag) {
        Some(f) => f,
        None => return None,
    };
    bag.set(f, Some(UserItem { count: 1, ..held }));
    eq.remove(&slot);
    Some(f)
}

/// How many items of kind `idx` slot content `o` holds.
pub open spec fn units(o: Option<UserItem>, idx: i32) -> int {
    match o {
        Some(it) => if it.item_index == idx {
            it.count as int
        } else {
            0
        },
        None => 0,
    }
}

/// How many items of kind `idx` a list of slots holds.
pub open spec fn count_of(s: Seq<Option<UserItem>>, idx: i32) -> int
    decreases s.len(),
{
    if s.len() == 0 {
        0
    } else {
        count_of(s.drop_last(), idx) + units(s.last(), idx)
    }
}

pub(crate) proof fn lemma_count_update(s: Seq<Option<UserItem>>, i: int, x: Option<UserItem>, idx: i32)
    requires
        0 <= i < s.len(),
    ensures
        count_of(s.update(i, x), idx) == count_of(s, idx) - units(s[i], idx) + units(x, idx),
    decreases s.len(),
{
    let t = s.update(i, x);
    if i == s.len() - 1 {
        assert(t.drop_last() =~= s.drop_last());
    } else {
        assert(t.drop_last() =~= s.drop_last().update(i, x));
        lemma_count_update(s.drop_last(), i, x, idx);
    }
}

/// Splits `count` items off the stack in bag slot `from` into the first
/// empty slot, as a new stack with the unique id `make_unique` gives that
/// slot. Only `0 < count <` the stack's size can be split off, and only
/// into an empty slot; otherwise nothing changes (`None`). Returns the slot
/// of the new stack.
pub fn split_in_bag(bag: &mut Vec<Option<UserItem>>, char_index: i32, from: usize, count: u16) -> (r: Option<usize>)
    requires
        from < old(bag).len(),
        old(bag).len() <= i32::MAX,
    ensures
        match old(bag)@[from as int] {
            Some(it) => if count == 0 || count >= it.count {
                r is None && final(bag)@ == old(bag)@
            } else {
                match first_empty(old(bag)@) {
                    None => r is None && final(bag)@ == old(bag)@,
                    Some(f) => {
                        &&& r == Some(f as usize)
                        &&& final(bag)@ == old(bag)@.update(
                            from as int,
                            Some(UserItem { count: (it.count - count) as u16, ..it }),
                        ).update(
                            f,
                            Some(
                                UserItem {
                                    unique_id: (char_index * 1000 + f) as u64,
                                    item_index: it.item_index,
                                    count,
                                    current_dura: it.current_dura,
                                    max_dura: it.max_dura,
                                },
                            ),
                        )
                    },
                }
            },
            None => r is None && final(bag)@ == old(bag)@,
        },
{
    let it = match bag[from] {
        Some(it) => it,
        None => return None,
    };
    if count == 0 || count >= it.count {
        return None;
    }
    let f = match first_empty_slot(bag) {
        Some(f) => f,
        None => return None,
    };
    let uid = crate::db::make_unique(char_index, f as i32);
    bag.set(from, Some(UserItem { count: it.count - count, ..it }));
    bag.set(
        f,
        Some(
            UserItem {
                unique_id: uid as u64,
                item_index: it.item_index,
                count,
                current_dura: it.current_dura,
                max_dura: it.max_dura,
            },
        ),
    );
    Some(f)
}

/// Merges the stack in bag slot `from` into the stack in slot `to`: both
/// must hold the same kind of item (and be different slots); `to` then holds
/// both counts and `from` is emptied. Returns whether they merged and the
/// merged count (0 when not).
pub fn merge_in_bag(bag: &mut Vec<Option<UserItem>>, from: usize, to: usize) -> (r: (bool, u16))
    requires
        from < old(bag).len(),
        to < old(bag).len(),
        match (old(bag)@[from as int], old(bag)@[to as int]) {
            (Some(a), Some(b)) => a.count + b.count <= u16::MAX,
            _ => true,
        },
    ensures
        match (old(bag)@[from as int], old(bag)@[to as int]) {
            (Some(a), Some(b)) => if from != to && a.item_index == b.item_index {
                &&& r == (true, (a.count + b.count) as u16)
                &&& final(bag)@ == old(bag)@.update(
                    to as int,
                    Some(UserItem { count: (a.count + b.count) as u16, ..b }),
                ).update(from as int, None)
            } else {
                r == (false, 0u16) && final(bag)@ == old(bag)@
            },
            _ => r == (false, 0u16) && final(bag)@ == old(bag)@,
        },
{
    if from == to {
        return (false, 0);
    }
    let (a, b) = match (bag[from], bag[to]) {
        (Some(a), Some(b)) => (a, b),
        _ => return (false, 0),
    };
    if a.item_index != b.item_index {
        return (false, 0);
    }
    let n = a.count + b.count;
    bag.set(to, Some(UserItem { count: n, ..b }));
    bag.set(from, None);
    (true, n)
}

/// Splitting a stack keeps the number of items of every kind in the bag.
pub proof fn law_split_keeps_count(bag: Seq<Option<UserItem>>, from: int, f: int, count: u16, uid: u64, idx: i32)
    requires
        0 <= from < bag.len(),
        0 <= f < bag.len(),
        bag[f] is None,
        bag[from] matches Some(it) && 0 < count < it.count,
    ensures
        ({
            let it = bag[from]->0;
            let after = bag.update(from, Some(UserItem { count: (it.count - count) as u16, ..it })).update(
                f,
                Some(
                    UserItem {
                        unique_id: uid,
                        item_index: it.item_index,
                        count,
                        current_dura: it.current_dura,
                        max_dura: it.max_dura,
                    },
                ),
            );
            count_of(after, idx) == count_of(bag, idx)
        }),
{
    let it = bag[from]->0;
    let x = Some(UserItem { count: (it.count - count) as u16, ..it });
    let y = Some(
        UserItem {
            unique_id: uid,
            item_index: it.item_index,
            count,
            current_dura: it.current_dura,
            max_dura: it.max_dura,
        },
    );
    lemma_count_update(bag, from, x, idx);
    let b1 = bag.update(from, x);
    assert(f != from);
    lemma_count_update(b1, f, y, idx);
}

/// Merging two stacks keeps the number of items of every kind in the bag.
pub proof fn law_merge_keeps_count(bag: Seq<Option<UserItem>>, from: int, to: int, idx: i32)
    requires
        0 <= from < bag.len(),
        0 <= to < bag.len(),
        from != to,
        bag[from] matches Some(a) && bag[to] matches Some(b) && a.item_index == b.item_index && a.count
            + b.count <= u16::MAX,
    ensures
        ({
            let a = bag[from]->0;
            let b = bag[to]->0;
            count_of(
                bag.update(to, Some(UserItem { count: (a.count + b.count) as u16, ..b })).update(from, None),
                idx,
            ) == count_of(bag, idx)
        }),
{
    let a = bag[from]->0;
    let b = bag[to]->0;
    let x = Some(UserItem { count: (a.count + b.count) as u16, ..b });
    lemma_count_update(bag, to, x, idx);
    lemma_count_update(bag.update(to, x), from, None, idx);
}

} // verus!
