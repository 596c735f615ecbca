//! Trading with an NPC merchant: buying at the table price, selling at half
//! of it, and buying back one of the last twenty things sold.
use vstd::prelude::*;

use crate::entities::{remove_gold, Player};
use crate::items::{find, spec_find_item};

verus! {

/// How many recent sales a player can buy back.
pub const BUY_BACK_LIMIT: usize = 20;

/// `a * b`, stopping at `u32::MAX`.
pub open spec fn sat_mul(a: u32, b: u32) -> u32 {
    if a * b > u32::MAX {
        u32::MAX
    } else {
        (a * b) as u32
    }
}

fn saturating_mul(a: u32, b: u32) -> (r: u32)
    ensures
        r == sat_mul(a, b),
{
    let x = a as u64;
    let y = b as u64;
    assert(x * y <= 0xFFFF_FFFF * 0xFFFF_FFFF) by (nonlinear_arith)
        requires
            x <= 0xFFFF_FFFF,
            y <= 0xFFFF_FFFF,
    ;
    let m = x * y;
    if m > 0xFFFF_FFFF {
        u32::MAX
    } else {
        m as u32
    }
}

/// What `count` items of `item_index` cost at a merchant (`None` for an
/// item the table does not know).
pub fn buy_cost(item_index: i32, count: u16) -> (r: Option<u32>)
    ensures
        r == match spec_find_item(item_index) {
            Some(t) => Some(sat_mul(t.price, count as u32)),
            None => None,
        },
{
    match find(item_index) {
        Some(t) => Some(saturating_mul(t.price, count as u32)),
        None => None,
    }
}

/// Player `p` buys `count` items of `item_index`: the cost is taken if the
/// item is known and the player has the gold. Returns whether it was (the
/// caller then puts the items in the bag).
pub fn buy_item(p: &mut Player, item_index: i32, count: u16) -> (r: bool)
    ensures
        r == (spec_find_item(item_index) matches Some(t) && old(p).gold >= sat_mul(t.price, count as u32)),
        r ==> final(p).gold == old(p).gold - sat_mul(spec_find_item(item_index)->0.price, count as u32),
        !r ==> final(p).gold == old(p).gold,
        *final(p) == (Player { gold: final(p).gold, ..*old(p) }),
{
    match buy_cost(item_index, count) {
        Some(cost) => remove_gold(p, cost),
        None => false,
    }
}

/// What selling `count` items of `item_index` brings: half the table price
/// of that many (`None` for an unknown item).
pub fn sell_value(item_index: i32, count: u16) -> (r: Option<u32>)
    ensures
        r == match spec_find_item(item_index) {
            Some(t) => Some((sat_mul(t.price, count as u32) / 2) as u32),
            None => None,
        },
{
    match find(item_index) {
        Some(t) => Some(saturating_mul(t.price, count as u32) / 2),
        None => None,
    }
}

/// The recent sales after one more: the oldest is forgotten once there are
/// `BUY_BACK_LIMIT`.
pub open spec fn with_sale(s: Seq<(u64, i32, u16, u32)>, sale: (u64, i32, u16, u32)) -> Seq<(u64, i32, u16, u32)> {
    if s.len() >= BUY_BACK_LIMIT {
        s.drop_first().push(sale)
    } else {
        s.push(sale)
    }
}

/// Records that player `p` sold `count` of item `item_index` (unique id
/// `unique_id`) for `price`, so that it can be bought back.
pub fn record_sale(p: &mut Player, unique_id: u64, item_index: i32, count: u16, price: u32)
    ensures
        final(p).recently_sold@ == with_sale(old(p).recently_sold@, (unique_id, item_index, count, price)),
        *final(p) == (Player { recently_sold: final(p).recently_sold, ..*old(p) }),
{
    if p.recently_sold.len() >= BUY_BACK_LIMIT {
        p.recently_sold.remove(0);
    }
    p.recently_sold.push((unique_id, item_index, count, price));
}

/// The first recent sale of unique id `uid`.
pub open spec fn first_sale(s: Seq<(u64, i32, u16, u32)>, uid: u64) -> Option<(u64, i32, u16, u32)>
    decreases s.len(),
{
    if s.len() == 0 {
        None
    } else if s[0].0 == uid {
        Some(s[0])
    } else {
        first_sale(s.drop_first(), uid)
    }
}

/// What buying back the sale of unique id `uid` would cost, and which item
/// it gives: `None` when there is no such sale, it was free, or its item is
/// unknown.
pub fn buy_back_quote(p: &Player, uid: u64) -> (r: Option<(i32, u32)>)
    ensures
        r == match first_sale(p.recently_sold@, uid) {
            Some((_, idx, _, price)) => if price == 0 || spec_find_item(idx) is None {
                None
            } else {
                Some((idx, price))
            },
            None => None,
        },
{
    let s = &p.recently_sold;
    let mut i: usize = 0;
    assert(s@.skip(0) =~= s@);
    while i < s.len()
        invariant
            i <= s.len(),
            s@ == p.recently_sold@,
            first_sale(s@, uid) == first_sale(s@.skip(i as int), uid),
        decreases s.len() - i,
    {
        assert(s@.skip(i as int).drop_first() =~= s@.skip(i + 1));
        assert(s@.skip(i as int)[0] == s@[i as int]);
        let (u, idx, _, price) = s[i];
        if u == uid {
            if price == 0 || find(idx).is_none() {
                return None;
            }
            return Some((idx, price));
        }
        i = i + 1;
    }
    None
}

/// Whether a sale is not of unique id `uid`.
pub open spec fn other_sale(uid: u64) -> spec_fn((u64, i32, u16, u32)) -> bool {
    |e: (u64, i32, u16, u32)| e.0 != uid
}

/// Forgets every recent sale of unique id `uid` (after it was bought back).
pub fn forget_sale(p: &mut Player, uid: u64)
    ensures
        final(p).recently_sold@ == old(p).recently_sold@.filter(other_sale(uid)),
        *final(p) == (Player { recently_sold: final(p).recently_sold, ..*old(p) }),
{
    let ghost keep = other_sale(uid);
    let mut kept: Vec<(u64, i32, u16, u32)> = Vec::new();
    let mut i: usize = 0;
    while i < p.recently_sold.len()
        invariant
            i <= p.recently_sold.len(),
            p.recently_sold == old(p).recently_sold,
            keep == other_sale(uid),
            kept@ == p.recently_sold@.take(i as int).filter(keep),
        decreases p.recently_sold.len() - i,
    {
        let e = p.recently_sold[i];
        proof {
            assert(p.recently_sold@.take(i + 1) =~= p.recently_sold@.take(i as int).push(e));
            p.recently_sold@.take(i as int).lemma_filter_push(e, keep);
        }
        if e.0 != uid {
            kept.push(e);
        }
        i = i + 1;
    }
    assert(p.recently_sold@.take(p.recently_sold.len() as int) =~= p.recently_sold@);
    p.recently_sold = kept;
}

/// The buy-back list never holds more than `BUY_BACK_LIMIT` sales: a sale
/// recorded on a list within the limit leaves it within the limit, and the
/// sale just made is the newest entry.
pub proof fn law_sales_bounded(s: Seq<(u64, i32, u16, u32)>, sale: (u64, i32, u16, u32))
    requires
        s.len() <= BUY_BACK_LIMIT,
    ensures
        with_sale(s, sale).len() <= BUY_BACK_LIMIT,
        with_sale(s, sale).last() == sale,
{
}

} // verus!
