//! Player services: the storage password, reincarnation, the game shop,
//! mentors and marriage, friends, and refining.
use vstd::prelude::*;
use vstd::string::{StrSliceExecFns, StringSliceAdditionalSpecFns};

use crate::db::{hash_password, spec_sha256};
use crate::entities::{recompute_stats, Player};
use crate::text::hex_bytes;

verus! {

/// The stored hash of a password.
pub open spec fn pw_hash(pw: Seq<char>) -> Seq<char> {
    hex_bytes(spec_sha256(vstd::utf8::encode_utf8(pw)))
}

/// What a storage-password request is answered with: result (1 done, 2
/// refused), whether the password was removed, whether one is set now, and
/// when it was set.
#[derive(Debug, Clone, Copy, PartialEq, Eq, Structural)]
pub struct StoragePwResult {
    pub result: u8,
    pub removing: bool,
    pub has_password: bool,
    pub last_set_time: i64,
}

/// Setting the storage password to `new` given the stored (hash, set time),
/// at time `now`. Without a stored password the current one must be empty;
/// with one it must match. Returns the answer and the hash to store, if any.
pub fn set_storage_password(existing: &Option<(String, i64)>, current: &str, new: &str, now: i64) -> (r: (
    StoragePwResult,
    Option<String>,
))
    ensures
        match existing {
            None => if current@.len() == 0 {
                r.0 == (StoragePwResult { result: 1, removing: false, has_password: true, last_set_time: now })
                    && (r.1 matches Some(h) && h@ == pw_hash(new@))
            } else {
                r.0 == (StoragePwResult { result: 2, removing: false, has_password: false, last_set_time: 0 })
                    && r.1 is None
            },
            Some((hash, set_at)) => if hash@ == pw_hash(current@) {
                r.0 == (StoragePwResult { result: 1, removing: false, has_password: true, last_set_time: now })
                    && (r.1 matches Some(h) && h@ == pw_hash(new@))
            } else {
                r.0 == (StoragePwResult { result: 2, removing: false, has_password: true, last_set_time: *set_at })
                    && r.1 is None
            },
        },
{
    match existing {
        None => {
            if current.unicode_len() == 0 {
                let h = hash_password(new);
                (StoragePwResult { result: 1, removing: false, has_password: true, last_set_time: now }, Some(h))
            } else {
                (StoragePwResult { result: 2, removing: false, has_password: false, last_set_time: 0 }, None)
            }
        },
        Some((hash, set_at)) => {
            let cur = hash_password(current);
            if *hash == cur {
                let h = hash_password(new);
                (StoragePwResult { result: 1, removing: false, has_password: true, last_set_time: now }, Some(h))
            } else {
                (StoragePwResult { result: 2, removing: false, has_password: true, last_set_time: *set_at }, None)
            }
        },
    }
}

/// Removing the storage password: the current password must match the
/// stored one. Returns the answer and whether to clear the stored password.
pub fn remove_storage_password(existing: &Option<(String, i64)>, current: &str) -> (r: (StoragePwResult, bool))
    ensures
        match existing {
            Some((hash, set_at)) => if hash@ == pw_hash(current@) {
                r == (StoragePwResult { result: 1, removing: true, has_password: false, last_set_time: 0 }, true)
            } else {
                r == (StoragePwResult { result: 2, removing: false, has_password: true, last_set_time: *set_at }, false)
            },
            None => r == (StoragePwResult { result: 2, removing: false, has_password: false, last_set_time: 0 }, false),
        },
{
    match existing {
        Some((hash, set_at)) => {
            let cur = hash_password(current);
            if *hash == cur {
                (StoragePwResult { result: 1, removing: true, has_password: false, last_set_time: 0 }, true)
            } else {
                (StoragePwResult { result: 2, removing: false, has_password: true, last_set_time: *set_at }, false)
            }
        },
        None => (StoragePwResult { result: 2, removing: false, has_password: false, last_set_time: 0 }, false),
    }
}

/// Unlocking the storage with `password`: (result, has password). Without a
/// stored password the storage is open (1, false); otherwise the password
/// must match (1, true) or is refused (2, true).
pub fn unlock_storage(existing: &Option<(String, i64)>, password: &str) -> (r: (u8, bool))
    ensures
        r == match existing {
            Some((hash, _)) => if hash@ == pw_hash(password@) { (1u8, true) } else { (2u8, true) },
            None => (1u8, false),
        },
{
    match existing {
        Some((hash, _)) => {
            let h = hash_password(password);
            if *hash == h {
                (1, true)
            } else {
                (2, true)
            }
        },
        None => (1, false),
    }
}

/// Reincarnation: the player starts over at level 1 with the base stats of
/// that level (48 hit points, 25 mana, full), keeping gold and equipment;
/// attack and defence are then recomputed from the equipment.
pub fn reincarnate(p: &mut Player)
    ensures
        final(p).level == 1,
        final(p).max_hp == 48 && final(p).hp == 48,
        final(p).max_mp == 25 && final(p).mp == 25,
        final(p).gold == old(p).gold,
        final(p).equipment@ == old(p).equipment@,
        final(p).attack == 1 + match crate::entities::slot_bonus(old(p).equipment@, crate::entities::WEAPON_SLOT) {
            Some((b, _)) => b as int,
            None => 0,
        },
        final(p).defence == match crate::entities::slot_bonus(old(p).equipment@, crate::entities::ARMOUR_SLOT) {
            Some((b, _)) => b as int,
            None => 0,
        },
        *final(p) == (Player {
            level: 1,
            max_hp: final(p).max_hp,
            hp: final(p).hp,
            max_mp: 25,
            mp: 25,
            attack: final(p).attack,
            defence: final(p).defence,
            weapon: final(p).weapon,
            armour: final(p).armour,
            ..*old(p)
        }),
{
    p.level = 1;
    let (bh, bk) = crate::net::base_stats(p.class, 1);
    p.max_hp = bh;
    p.hp = bh;
    p.max_mp = 25;
    p.mp = 25;
    p.attack = bk;
    p.defence = 0;
    recompute_stats(p);
}

/// An item of the game shop.
#[derive(Debug, Clone, Copy, PartialEq, Eq, Structural)]
pub struct ShopItem {
    pub item_index: i32,
    pub g_index: i32,
    pub gold_price: u32,
    pub stock: i32,
}

/// The game shop: town scrolls (item 4) at 50 gold and cloth armour (item 2)
/// at 120 gold, 100 of each in stock.
pub open spec fn shop_table() -> Seq<ShopItem> {
    seq![
        ShopItem { item_index: 4, g_index: 4, gold_price: 50, stock: 100 },
        ShopItem { item_index: 2, g_index: 2, gold_price: 120, stock: 100 },
    ]
}

pub fn gameshop_items() -> (r: Vec<ShopItem>)
    ensures
        r@ == shop_table(),
{
    let r = vec![
        ShopItem { item_index: 4, g_index: 4, gold_price: 50, stock: 100 },
        ShopItem { item_index: 2, g_index: 2, gold_price: 120, stock: 100 },
    ];
    assert(r@ =~= shop_table());
    r
}

/// Why a shop purchase is refused.
#[derive(Debug, Clone, Copy, PartialEq, Eq, Structural)]
pub enum ShopError {
    /// Only gold payment is supported.
    UnsupportedPayment,
    NoSuchItem,
    NotEnoughGold,
}

/// The shop item with shop index `g_index`.
fn find_shop_item(g_index: i32) -> (r: Option<ShopItem>)
    ensures
        r == (if g_index == 4 {
            Some(shop_table()[0])
        } else if g_index == 2 {
            Some(shop_table()[1])
        } else {
            None
        }),
{
    let items = gameshop_items();
    let mut i: usize = 0;
    while i < items.len()
        invariant
            items@ == shop_table(),
            i <= items.len(),
            forall|j: int| 0 <= j < i ==> (#[trigger] shop_table()[j]).g_index != g_index,
        decreases items.len() - i,
    {
        if items[i].g_index == g_index {
            return Some(items[i]);
        }
        i = i + 1;
    }
    assert(shop_table()[0].g_index != g_index);
    assert(shop_table()[1].g_index != g_index);
    None
}

/// A shop purchase of `quantity` (at least 1) of shop item `g_index` paid
/// with payment type `p_type` (0 = gold) by a player holding `gold`: the
/// item, the quantity, the cost (stopping at `u32::MAX`) and the stock left
/// (not below 0).
pub fn gameshop_quote(g_index: i32, quantity: u8, p_type: i32, gold: u32) -> (r: Result<(ShopItem, u32, u32, i32), ShopError>)
    ensures
        p_type != 0 ==> r == Err::<(ShopItem, u32, u32, i32), ShopError>(ShopError::UnsupportedPayment),
        p_type == 0 ==> {
            let q: int = if quantity > 1 { quantity as int } else { 1 };
            if g_index == 4 || g_index == 2 {
                let it = if g_index == 4 { shop_table()[0] } else { shop_table()[1] };
                let cost = it.gold_price * q;
                if gold < cost {
                    r == Err::<(ShopItem, u32, u32, i32), ShopError>(ShopError::NotEnoughGold)
                } else {
                    r == Ok::<(ShopItem, u32, u32, i32), ShopError>((it, q as u32, cost as u32, (if it.stock - q > 0 { it.stock - q } else { 0 }) as i32))
                }
            } else {
                r == Err::<(ShopItem, u32, u32, i32), ShopError>(ShopError::NoSuchItem)
            }
        },
{
    if p_type != 0 {
        return Err(ShopError::UnsupportedPayment);
    }
    let item = match find_shop_item(g_index) {
        Some(it) => it,
        None => return Err(ShopError::NoSuchItem),
    };
    let qty: u32 = if quantity > 1 { quantity as u32 } else { 1 };
    assert(item.gold_price <= 120 && qty <= 255);
    let cost = item.gold_price * qty;
    if gold < cost {
        return Err(ShopError::NotEnoughGold);
    }
    let left = item.stock - qty as i32;
    Ok((item, qty, cost, if left > 0 { left } else { 0 }))
}

/// Why a mentor request is refused.
#[derive(Debug, Clone, Copy, PartialEq, Eq, Structural)]
pub enum MentorRefusal {
    /// The player is not online.
    Offline,
    /// One cannot be one's own mentor.
    IsSelf,
    /// The player does not take apprentices.
    NotAccepting,
}

/// Checks a request by `me` to be taught by `target` (name and whether it
/// takes apprentices, if online).
pub fn mentor_request_check(me: &str, target: &Option<(String, bool)>) -> (r: Result<(), MentorRefusal>)
    ensures
        r == match target {
            None => Err(MentorRefusal::Offline),
            Some((name, accepting)) => if name@ == me@ {
                Err(MentorRefusal::IsSelf)
            } else if !*accepting {
                Err(MentorRefusal::NotAccepting)
            } else {
                Ok(())
            },
        },
{
    match target {
        None => Err(MentorRefusal::Offline),
        Some((name, accepting)) => {
            let m = me.to_string();
            if *name == m {
                Err(MentorRefusal::IsSelf)
            } else if !*accepting {
                Err(MentorRefusal::NotAccepting)
            } else {
                Ok(())
            }
        },
    }
}

/// What answering a pending invitation (to become an apprentice, or to
/// marry) comes to.
#[derive(Debug, Clone, Copy, PartialEq, Eq, Structural)]
pub enum PendingReply {
    /// There is no invitation to answer.
    NoPending,
    /// The player who invited is not online; the invitation stays.
    PartnerOffline,
    /// The invitation is declined (the inviter is told).
    Declined { partner: u32 },
    /// The invitation is accepted: the bond with `partner` is made.
    Accepted { partner: u32 },
}

/// The outcome of answering an invitation: `pending` whether there is one,
/// `partner` the inviter's object id if online, `accept` the answer.
pub open spec fn spec_pending_reply(pending: bool, partner: Option<u32>, accept: bool) -> PendingReply {
    if !pending {
        PendingReply::NoPending
    } else {
        match partner {
            None => PendingReply::PartnerOffline,
            Some(o) => if accept {
                PendingReply::Accepted { partner: o }
            } else {
                PendingReply::Declined { partner: o }
            },
        }
    }
}

/// Whether an answer uses up the invitation.
pub open spec fn answered(r: PendingReply) -> bool {
    r is Declined || r is Accepted
}

/// Player `p` answers the invitation to be taught by the player they name
/// (`partner`: that player's object id if online). Once the inviter is found
/// the invitation is used up, whatever the answer.
pub fn answer_mentor(p: &mut Player, partner: Option<u32>, accept: bool) -> (r: PendingReply)
    ensures
        r == spec_pending_reply(old(p).pending_mentor is Some, partner, accept),
        answered(r) ==> *final(p) == (Player { pending_mentor: None, ..*old(p) }),
        !answered(r) ==> *final(p) == *old(p),
{
    let r = if p.pending_mentor.is_none() {
        PendingReply::NoPending
    } else {
        match partner {
            None => PendingReply::PartnerOffline,
            Some(o) => if accept {
                PendingReply::Accepted { partner: o }
            } else {
                PendingReply::Declined { partner: o }
            },
        }
    };
    if r != PendingReply::NoPending && r != PendingReply::PartnerOffline {
        p.pending_mentor = None;
    }
    r
}

/// Player `p` answers a proposal of marriage (see `answer_mentor`); the
/// caller clears the proposer's pending proposal too once it is answered.
pub fn answer_marriage(p: &mut Player, partner: Option<u32>, accept: bool) -> (r: PendingReply)
    ensures
        r == spec_pending_reply(old(p).pending_marriage is Some, partner, accept),
        answered(r) ==> *final(p) == (Player { pending_marriage: None, ..*old(p) }),
        !answered(r) ==> *final(p) == *old(p),
{
    let r = if p.pending_marriage.is_none() {
        PendingReply::NoPending
    } else {
        match partner {
            None => PendingReply::PartnerOffline,
            Some(o) => if accept {
                PendingReply::Accepted { partner: o }
            } else {
                PendingReply::Declined { partner: o }
            },
        }
    };
    if r != PendingReply::NoPending && r != PendingReply::PartnerOffline {
        p.pending_marriage = None;
    }
    r
}

/// On divorce, character `me` leaves its marriage record; the spouse's
/// record (`their_spouse`) is cleared too when it still names `me`. Returns
/// the spouse whose record is to be cleared.
pub fn divorce_partner(me: i32, my_spouse: Option<i32>, their_spouse: Option<i32>) -> (r: Option<i32>)
    ensures
        r == (match my_spouse {
            Some(sc) => if their_spouse == Some(me) {
                Some(sc)
            } else {
                None
            },
            None => None,
        }),
{
    match my_spouse {
        Some(sc) => match their_spouse {
            Some(t) => if t == me {
                Some(sc)
            } else {
                None
            },
            None => None,
        },
        None => None,
    }
}

/// Gold a refine costs when the item has been refined `cur` times:
/// `(cur + 1) * 50`.
pub fn refine_cost(cur: u32) -> (r: u32)
    requires
        (cur + 1) * 50 <= u32::MAX,
    ensures
        r == (cur + 1) * 50,
{
    (cur + 1) * 50
}

/// Adding character `friend` (if the name is known) as a friend of `me`;
/// `already`: `me` already lists it. Returns whether it is added, and the
/// friend's index when known and not `me`.
pub fn friend_add_outcome(me: i32, friend: Option<i32>, already: bool) -> (r: (bool, Option<i32>))
    ensures
        r == (match friend {
            None => (false, None),
            Some(f) => if f == me {
                (false, None)
            } else if already {
                (false, Some(f))
            } else {
                (true, Some(f))
            },
        }),
{
    match friend {
        None => (false, None),
        Some(f) => {
            if f == me {
                (false, None)
            } else if already {
                (false, Some(f))
            } else {
                (true, Some(f))
            }
        },
    }
}

/// Whether each friend (by character index) is online, given the character
/// indexes of the players in the world.
pub fn online_flags(friends: &Vec<i32>, online: &Vec<i32>) -> (r: Vec<bool>)
    ensures
        r@.len() == friends@.len(),
        forall|i: int| 0 <= i < friends@.len() ==> r@[i] == online@.contains(#[trigger] friends@[i]),
{
    let mut r: Vec<bool> = Vec::new();
    let mut i: usize = 0;
    while i < friends.len()
        invariant
            i <= friends.len(),
            r@.len() == i,
            forall|k: int| 0 <= k < i ==> r@[k] == online@.contains(#[trigger] friends@[k]),
        decreases friends.len() - i,
    {
        let f = friends[i];
        let mut found = false;
        let mut j: usize = 0;
        while j < online.len()
            invariant
                j <= online.len(),
                found == exists|t: int| 0 <= t < j && online@[t] == f,
            decreases online.len() - j,
        {
            if online[j] == f {
                found = true;
            }
            j = j + 1;
        }
        r.push(found);
        i = i + 1;
    }
    r
}

/// Why a marriage proposal is refused.
#[derive(Debug, Clone, Copy, PartialEq, Eq, Structural)]
pub enum ProposalRefusal {
    /// The player proposed to is not online.
    Offline,
    /// One cannot marry oneself.
    IsSelf,
}

/// Checks a proposal by player `me` to the player found online under the
/// name given (`target`, their object id, if any).
pub fn proposal_check(me: u32, target: Option<u32>) -> (r: Result<u32, ProposalRefusal>)
    ensures
        r == (match target {
            None => Err(ProposalRefusal::Offline),
            Some(t) => if t == me {
                Err(ProposalRefusal::IsSelf)
            } else {
                Ok(t)
            },
        }),
{
    match target {
        None => Err(ProposalRefusal::Offline),
        Some(t) => {
            if t == me {
                Err(ProposalRefusal::IsSelf)
            } else {
                Ok(t)
            }
        },
    }
}

/// Player `me` proposes to `them` (named `their_name` in the proposal): each
/// now has the other's name as the pending proposal.
pub fn propose(me: &mut Player, them: &mut Player, their_name: &str)
    ensures
        final(me).pending_marriage matches Some(n) && n@ == their_name@,
        final(them).pending_marriage matches Some(n) && n@ == old(me).name@,
        *final(me) == (Player { pending_marriage: final(me).pending_marriage, ..*old(me) }),
        *final(them) == (Player { pending_marriage: final(them).pending_marriage, ..*old(them) }),
{
    let my_name = me.name.clone();
    me.pending_marriage = Some(their_name.to_string());
    them.pending_marriage = Some(my_name);
}

/// After a mentor request passes `mentor_request_check`, the player asked
/// (`target`) has the requester's name as the pending invitation.
pub fn ask_mentor(target: &mut Player, requester: &str)
    ensures
        final(target).pending_mentor matches Some(n) && n@ == requester@,
        *final(target) == (Player { pending_mentor: final(target).pending_mentor, ..*old(target) }),
{
    target.pending_mentor = Some(requester.to_string());
}

/// Switches whether the player takes apprentices; returns the new setting.
pub fn toggle_mentoring(p: &mut Player) -> (r: bool)
    ensures
        r == !old(p).can_be_mentor,
        *final(p) == (Player { can_be_mentor: r, ..*old(p) }),
{
    p.can_be_mentor = !p.can_be_mentor;
    p.can_be_mentor
}

} // verus!
