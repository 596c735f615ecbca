//! Objects on a map: what a player drops at their feet, and which monsters,
//! ground items and NPCs a player entering a map is shown.
use vstd::prelude::*;

use crate::entities::{GroundItem, Monster, Npc, Player, UserItem};
use crate::world::World;

verus! {

broadcast use vstd::seq_lib::group_seq_properties;

/// How many items a drop of `requested` from a stack of `held` puts on the
/// ground: no more than the stack.
pub fn dropped_count(requested: u16, held: u16) -> (r: u16)
    ensures
        r == (if requested < held {
            requested
        } else {
            held
        }),
{
    if requested < held {
        requested
    } else {
        held
    }
}

/// Player `p` drops `item` at their feet: a ground item with a fresh object
/// id, on the player's cell and map.
pub fn drop_ground_item(w: &mut World, p: &Player, item: UserItem) -> (r: GroundItem)
    ensures
        r == (GroundItem {
            object_id: old(w).next_object_id,
            item_index: item.item_index,
            count: item.count,
            location: p.location,
            unique_id: item.unique_id,
            map_index: p.map_index,
            gold: 0,
        }),
        final(w).next_object_id == (if r.object_id == u32::MAX { 0 } else { r.object_id + 1 }),
        final(w).next_item_unique == old(w).next_item_unique,
        final(w).map == old(w).map,
        final(w).maps@ == old(w).maps@,
{
    let oid = w.next_object_id();
    GroundItem {
        object_id: oid,
        item_index: item.item_index,
        count: item.count,
        location: p.location,
        unique_id: item.unique_id,
        map_index: p.map_index,
        gold: 0,
    }
}

/// Player `p` drops `amount` gold at their feet: a heap of gold with a fresh
/// object id.
pub fn drop_gold(w: &mut World, p: &Player, amount: u32) -> (r: GroundItem)
    ensures
        r == (GroundItem {
            object_id: old(w).next_object_id,
            item_index: 0,
            count: 0,
            location: p.location,
            unique_id: 0,
            map_index: p.map_index,
            gold: amount,
        }),
        final(w).next_object_id == (if r.object_id == u32::MAX { 0 } else { r.object_id + 1 }),
        final(w).next_item_unique == old(w).next_item_unique,
        final(w).map == old(w).map,
        final(w).maps@ == old(w).maps@,
{
    let oid = w.next_object_id();
    GroundItem {
        object_id: oid,
        item_index: 0,
        count: 0,
        location: p.location,
        unique_id: 0,
        map_index: p.map_index,
        gold: amount,
    }
}

/// Object ids of the monsters on map `map`, in order.
pub open spec fn monsters_on(ms: Seq<Monster>, map: u32) -> Seq<u32>
    decreases ms.len(),
{
    if ms.len() == 0 {
        Seq::empty()
    } else {
        let rest = monsters_on(ms.drop_last(), map);
        if ms.last().map_index == map {
            rest.push(ms.last().object_id)
        } else {
            rest
        }
    }
}

/// Object ids of the ground items on map `map`, in order.
pub open spec fn items_on(gs: Seq<GroundItem>, map: u32) -> Seq<u32>
    decreases gs.len(),
{
    if gs.len() == 0 {
        Seq::empty()
    } else {
        let rest = items_on(gs.drop_last(), map);
        if gs.last().map_index == map {
            rest.push(gs.last().object_id)
        } else {
            rest
        }
    }
}

/// Object ids of the NPCs on map `map`, in order.
pub open spec fn npcs_on(ns: Seq<Npc>, map: u32) -> Seq<u32>
    decreases ns.len(),
{
    if ns.len() == 0 {
        Seq::empty()
    } else {
        let rest = npcs_on(ns.drop_last(), map);
        if ns.last().map_index == map {
            rest.push(ns.last().object_id)
        } else {
            rest
        }
    }
}

fn monster_ids_on(ms: &Vec<Monster>, map: u32) -> (r: Vec<u32>)
    ensures
        r@ == monsters_on(ms@, map),
{
    let mut r: Vec<u32> = Vec::new();
    let mut i: usize = 0;
    while i < ms.len()
        invariant
            i <= ms.len(),
            r@ == monsters_on(ms@.take(i as int), map),
        decreases ms.len() - i,
    {
        assert(ms@.take(i + 1).drop_last() =~= ms@.take(i as int));
        if ms[i].map_index == map {
            r.push(ms[i].object_id);
        }
        i = i + 1;
    }
    assert(ms@.take(ms.len() as int) =~= ms@);
    r
}

fn item_ids_on(gs: &Vec<GroundItem>, map: u32) -> (r: Vec<u32>)
    ensures
        r@ == items_on(gs@, map),
{
    let mut r: Vec<u32> = Vec::new();
    let mut i: usize = 0;
    while i < gs.len()
        invariant
            i <= gs.len(),
            r@ == items_on(gs@.take(i as int), map),
        decreases gs.len() - i,
    {
        assert(gs@.take(i + 1).drop_last() =~= gs@.take(i as int));
        if gs[i].map_index == map {
            r.push(gs[i].object_id);
        }
        i = i + 1;
    }
    assert(gs@.take(gs.len() as int) =~= gs@);
    r
}

fn npc_ids_on(ns: &Vec<Npc>, map: u32) -> (r: Vec<u32>)
    ensures
        r@ == npcs_on(ns@, map),
{
    let mut r: Vec<u32> = Vec::new();
    let mut i: usize = 0;
    while i < ns.len()
        invariant
            i <= ns.len(),
            r@ == npcs_on(ns@.take(i as int), map),
        decreases ns.len() - i,
    {
        assert(ns@.take(i + 1).drop_last() =~= ns@.take(i as int));
        if ns[i].map_index == map {
            r.push(ns[i].object_id);
        }
        i = i + 1;
    }
    assert(ns@.take(ns.len() as int) =~= ns@);
    r
}

/// What a player on map `map` is shown of it: the object ids of the
/// monsters, ground items and NPCs on that map (and no other), each list in
/// the order given.
pub fn world_state_for(map: u32, ms: &Vec<Monster>, gs: &Vec<GroundItem>, ns: &Vec<Npc>) -> (r: (
    Vec<u32>,
    Vec<u32>,
    Vec<u32>,
))
    ensures
        r.0@ == monsters_on(ms@, map),
        r.1@ == items_on(gs@, map),
        r.2@ == npcs_on(ns@, map),
{
    (monster_ids_on(ms, map), item_ids_on(gs, map), npc_ids_on(ns, map))
}

/// Everything shown is on the player's map: each id listed belongs to an
/// object of that map.
pub proof fn law_shown_objects_on_map(ms: Seq<Monster>, map: u32, id: u32)
    ensures
        monsters_on(ms, map).contains(id) ==> exists|i: int|
            0 <= i < ms.len() && (#[trigger] ms[i]).map_index == map && ms[i].object_id == id,
        (exists|i: int| 0 <= i < ms.len() && (#[trigger] ms[i]).map_index == map && ms[i].object_id == id)
            ==> monsters_on(ms, map).contains(id),
    decreases ms.len(),
{
    if ms.len() > 0 {
        let init = ms.drop_last();
        law_shown_objects_on_map(init, map, id);
        let n = (ms.len() - 1) as int;
        if monsters_on(ms, map).contains(id) {
            if monsters_on(init, map).contains(id) {
                let i = choose|i: int|
                    0 <= i < init.len() && (#[trigger] init[i]).map_index == map && init[i].object_id == id;
                assert(ms[i] == init[i]);
            } else {
                assert(ms[n].map_index == map && ms[n].object_id == id);
            }
        }
        if exists|i: int| 0 <= i < ms.len() && (#[trigger] ms[i]).map_index == map && ms[i].object_id == id {
            let i = choose|i: int| 0 <= i < ms.len() && (#[trigger] ms[i]).map_index == map && ms[i].object_id == id;
            if i < n {
                assert(init[i] == ms[i]);
                assert(monsters_on(init, map).contains(id));
            } else {
                assert(monsters_on(ms, map) == monsters_on(init, map).push(id));
                assert(monsters_on(ms, map)[monsters_on(init, map).len() as int] == id);
            }
        }
    }
}

/// The NPC (index) with object id `id`: the first one.
pub fn find_npc(ns: &Vec<Npc>, id: u32) -> (r: Option<usize>)
    ensures
        match r {
            Some(k) => k < ns@.len() && ns@[k as int].object_id == id && forall|j: int|
                0 <= j < k ==> (#[trigger] ns@[j]).object_id != id,
            None => forall|j: int| 0 <= j < ns@.len() ==> (#[trigger] ns@[j]).object_id != id,
        },
{
    let mut i: usize = 0;
    while i < ns.len()
        invariant
            i <= ns.len(),
            forall|j: int| 0 <= j < i ==> (#[trigger] ns@[j]).object_id != id,
        decreases ns.len() - i,
    {
        if ns[i].object_id == id {
            return Some(i);
        }
        i = i + 1;
    }
    None
}

/// The goods NPC `id` sells (by item index), if there is such an NPC.
pub fn npc_shop(ns: &Vec<Npc>, id: u32) -> (r: Option<Vec<i32>>)
    ensures
        match r {
            Some(v) => exists|k: int|
                0 <= k < ns@.len() && ns@[k].object_id == id && v@ == ns@[k].shop_items@ && forall|j: int|
                    0 <= j < k ==> (#[trigger] ns@[j]).object_id != id,
            None => forall|j: int| 0 <= j < ns@.len() ==> (#[trigger] ns@[j]).object_id != id,
        },
{
    match find_npc(ns, id) {
        Some(k) => Some(ns[k].shop_items.clone()),
        None => None,
    }
}

/// The name of NPC `id`, if there is such an NPC.
pub fn npc_name(ns: &Vec<Npc>, id: u32) -> (r: Option<String>)
    ensures
        match r {
            Some(n) => exists|k: int|
                0 <= k < ns@.len() && ns@[k].object_id == id && n@ == ns@[k].name@ && forall|j: int|
                    0 <= j < k ==> (#[trigger] ns@[j]).object_id != id,
            None => forall|j: int| 0 <= j < ns@.len() ==> (#[trigger] ns@[j]).object_id != id,
        },
{
    match find_npc(ns, id) {
        Some(k) => Some(ns[k].name.clone()),
        None => None,
    }
}

} // verus!
