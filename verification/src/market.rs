//! Player market: a seller lists an item (by unique id) at a gold price; a
//! buyer buys an order or the seller cancels it, both of which take the order
//! off the market (the caller moves the item and the gold). Order ids are
//! handed out in increasing order and never reused.
use std::collections::HashMap;
use vstd::prelude::*;
use vstd::std_specs::iter::IteratorSpec;

verus! {

broadcast use vstd::std_specs::hash::group_hash_axioms;

/// One listing.
#[derive(Debug, PartialEq, Eq)]
pub struct MarketOrder {
    pub order_id: u64,
    /// Seller name.
    pub seller: String,
    /// Unique id of the item for sale.
    pub item_uid: u64,
    /// Asking price in gold.
    pub price: u32,
}

#[derive(Debug, Clone, Copy, PartialEq, Eq, Structural)]
pub enum MarketError {
    InvalidPrice,
    OrderNotFound,
}

/// Abstract value of an order.
pub struct OrderSpec {
    pub order_id: u64,
    pub seller: Seq<char>,
    pub item_uid: u64,
    pub price: u32,
}

impl View for MarketOrder {
    type V = OrderSpec;

    open spec fn view(&self) -> OrderSpec {
        OrderSpec {
            order_id: self.order_id,
            seller: self.seller@,
            item_uid: self.item_uid,
            price: self.price,
        }
    }
}

/// Market manager (pure state, no I/O).
pub struct MarketManager {
    next_id: u64,
    /// Order id -> order.
    pub orders: HashMap<u64, MarketOrder>,
}

/// Abstract state of a `MarketManager`.
pub struct MarketView {
    /// The last order id handed out (0 before the first).
    pub next_id: u64,
    pub orders: Map<u64, OrderSpec>,
}

impl View for MarketManager {
    type V = MarketView;

    closed spec fn view(&self) -> MarketView {
        MarketView {
            next_id: self.next_id,
            orders: self.orders@.map_values(|o: MarketOrder| o@),
        }
    }
}

impl MarketView {
    /// Each order is stored under its own id, which is positive and not above
    /// the last id handed out.
    pub open spec fn wf(self) -> bool {
        forall|k: u64| #[trigger]
            self.orders.contains_key(k) ==> self.orders[k].order_id == k && 0 < k <= self.next_id
    }

    /// `list`: a zero price is refused; otherwise the order gets the next id.
    pub open spec fn spec_list(self, seller: Seq<char>, item_uid: u64, price: u32) -> (
        MarketView,
        Result<u64, MarketError>,
    ) {
        if price == 0 {
            (self, Err(MarketError::InvalidPrice))
        } else {
            let id = (self.next_id + 1) as u64;
            (
                MarketView {
                    next_id: id,
                    orders: self.orders.insert(
                        id,
                        OrderSpec { order_id: id, seller, item_uid, price },
                    ),
                },
                Ok(id),
            )
        }
    }

    /// `buy` / `cancel`: the order leaves the market and is returned.
    pub open spec fn spec_take(self, order_id: u64) -> (MarketView, Result<OrderSpec, MarketError>) {
        if self.orders.contains_key(order_id) {
            (
                MarketView { orders: self.orders.remove(order_id), ..self },
                Ok(self.orders[order_id]),
            )
        } else {
            (self, Err(MarketError::OrderNotFound))
        }
    }
}

fn copy_order(o: &MarketOrder) -> (r: MarketOrder)
    ensures
        r@ == o@,
{
    MarketOrder { order_id: o.order_id, seller: o.seller.clone(), item_uid: o.item_uid, price: o.price }
}

impl MarketManager {
    /// An empty market.
    pub fn new() -> (r: Self)
        ensures
            r@.wf(),
            r@.next_id == 0,
            r@.orders == Map::<u64, OrderSpec>::empty(),
    {
        let r = MarketManager { next_id: 0, orders: HashMap::new() };
        assert(r@.orders =~= Map::<u64, OrderSpec>::empty());
        r
    }

    /// Lists item `item_uid` of `seller` at `price`; returns the order id.
    pub fn list(&mut self, seller: &str, item_uid: u64, price: u32) -> (r: Result<u64, MarketError>)
        requires
            old(self)@.wf(),
            old(self)@.next_id < u64::MAX,
        ensures
            final(self)@.wf(),
            (final(self)@, r) == old(self)@.spec_list(seller@, item_uid, price),
    {
        if price == 0 {
            return Err(MarketError::InvalidPrice);
        }
        let ghost s = self@;
        self.next_id = self.next_id + 1;
        let order_id = self.next_id;
        self.orders.insert(
            order_id,
            MarketOrder { order_id, seller: seller.to_owned(), item_uid, price },
        );
        assert(self@.orders =~= s.orders.insert(
            order_id,
            OrderSpec { order_id, seller: seller@, item_uid, price },
        ));
        Ok(order_id)
    }

    /// The last order id handed out (0 before the first).
    pub fn last_id(&self) -> (r: u64)
        ensures
            r == self@.next_id,
    {
        self.next_id
    }

    /// The order with id `order_id`, if it is on the market.
    pub fn get_order(&self, order_id: u64) -> (r: Option<&MarketOrder>)
        ensures
            match r {
                Some(o) => self@.orders.contains_key(order_id) && o@ == self@.orders[order_id],
                None => !self@.orders.contains_key(order_id),
            },
    {
        self.orders.get(&order_id)
    }

    /// All orders on the market, each once, in no particular order.
    pub fn all_orders(&self) -> (r: Vec<MarketOrder>)
        ensures
            r@.len() == self@.orders.dom().len(),
            r@.map_values(|o: MarketOrder| o@).to_set() == self@.orders.values(),
    {
        let mut r: Vec<MarketOrder> = Vec::new();
        let ghost vals = vstd::std_specs::hash::spec_values_iter(&self.orders).remaining();
        for o in it: self.orders.values()
            invariant
                it.seq() == vals,
                r@.len() == it.index(),
                forall|j: int| 0 <= j < it.index() ==> #[trigger] r@[j]@ == (*it.seq()[j])@,
        {
            r.push(copy_order(o));
        }
        proof {
            let f = |o: MarketOrder| o@;
            let u = vals.unref();
            assert(vals.len() == self.orders@.dom().len());
            assert(self@.orders.dom() =~= self.orders@.dom());
            assert(u.to_set() == self.orders@.values());
            assert(r@.map_values(f) =~= u.map_values(f));
            u.lemma_to_set_map_commutes(f);
            assert forall|x: OrderSpec| self@.orders.values().contains(x) <==> u.to_set().map(
                f,
            ).contains(x) by {
                if self@.orders.values().contains(x) {
                    let k = choose|k: u64| #[trigger] self@.orders.contains_key(k) && self@.orders[k]
                        == x;
                    assert(self.orders@.values().contains(self.orders@[k]));
                    assert(u.to_set().contains(self.orders@[k]));
                }
                if u.to_set().map(f).contains(x) {
                    let o = choose|o: MarketOrder| u.to_set().contains(o) && f(o) == x;
                    assert(self.orders@.values().contains(o));
                    let k = choose|k: u64| #[trigger] self.orders@.contains_key(k)
                        && self.orders@[k] == o;
                    assert(self@.orders.contains_key(k));
                }
            }
            assert(r@.map_values(f).to_set() =~= self@.orders.values());
        }
        r
    }

    /// Buys order `order_id`: it leaves the market and is returned.
    pub fn buy(&mut self, order_id: u64) -> (r: Result<MarketOrder, MarketError>)
        requires
            old(self)@.wf(),
        ensures
            final(self)@.wf(),
            final(self)@ == old(self)@.spec_take(order_id).0,
            match (r, old(self)@.spec_take(order_id).1) {
                (Ok(o), Ok(o2)) => o@ == o2,
                (Err(e), Err(e2)) => e == e2,
                _ => false,
            },
    {
        self.take(order_id)
    }

    /// The seller cancels order `order_id`: it leaves the market and is returned.
    pub fn cancel(&mut self, order_id: u64) -> (r: Result<MarketOrder, MarketError>)
        requires
            old(self)@.wf(),
        ensures
            final(self)@.wf(),
            final(self)@ == old(self)@.spec_take(order_id).0,
            match (r, old(self)@.spec_take(order_id).1) {
                (Ok(o), Ok(o2)) => o@ == o2,
                (Err(e), Err(e2)) => e == e2,
                _ => false,
            },
    {
        self.take(order_id)
    }

    fn take(&mut self, order_id: u64) -> (r: Result<MarketOrder, MarketError>)
        requires
            old(self)@.wf(),
        ensures
            final(self)@.wf(),
            final(self)@ == old(self)@.spec_take(order_id).0,
            match (r, old(self)@.spec_take(order_id).1) {
                (Ok(o), Ok(o2)) => o@ == o2,
                (Err(e), Err(e2)) => e == e2,
                _ => false,
            },
    {
        let ghost s = self@;
        match self.orders.remove(&order_id) {
            Some(o) => {
                assert(self@.orders =~= s.orders.remove(order_id));
                Ok(o)
            },
            None => {
                assert(self@.orders =~= s.orders);
                Err(MarketError::OrderNotFound)
            },
        }
    }
}


/// Order ids are handed out in increasing order and a new id never belongs to
/// an order already on the market.
pub proof fn law_order_ids_fresh(
    s: MarketView,
    seller1: Seq<char>,
    item1: u64,
    price1: u32,
    seller2: Seq<char>,
    item2: u64,
    price2: u32,
)
    requires
        s.wf(),
        s.next_id + 2 <= u64::MAX,
        price1 > 0,
        price2 > 0,
    ensures
        ({
            let (s1, r1) = s.spec_list(seller1, item1, price1);
            let (s2, r2) = s1.spec_list(seller2, item2, price2);
            &&& r1 matches Ok(a) && r2 matches Ok(b) && a < b
            &&& !s.orders.contains_key(r1->Ok_0)
            &&& !s1.orders.contains_key(r2->Ok_0)
            &&& s2.wf()
        }),
{
}

/// One call on the market, as far as its orders are concerned.
pub enum MarketCall {
    List { seller: Seq<char>, item_uid: u64, price: u32 },
    /// A purchase or a withdrawal of an order.
    Take(u64),
}

/// The market after `calls`, and the ids the listings among them returned,
/// in order.
pub open spec fn run_calls(s: MarketView, calls: Seq<MarketCall>) -> (MarketView, Seq<u64>)
    decreases calls.len(),
{
    if calls.len() == 0 {
        (s, Seq::empty())
    } else {
        let (s1, ids) = run_calls(s, calls.drop_last());
        match calls.last() {
            MarketCall::List { seller, item_uid, price } => {
                let (s2, r) = s1.spec_list(seller, item_uid, price);
                (
                    s2,
                    match r {
                        Ok(id) => ids.push(id),
                        Err(_) => ids,
                    },
                )
            },
            MarketCall::Take(id) => (s1.spec_take(id).0, ids),
        }
    }
}

/// Order ids grow: over any run of listings, purchases and withdrawals
/// (with ids to spare for every call), the ids handed out increase strictly
/// and each is above every id handed out before the run.
pub proof fn law_order_ids_grow(s: MarketView, calls: Seq<MarketCall>)
    requires
        s.wf(),
        s.next_id + calls.len() <= u64::MAX,
    ensures
        ({
            let (s2, ids) = run_calls(s, calls);
            &&& s2.wf()
            &&& s.next_id <= s2.next_id <= s.next_id + calls.len()
            &&& forall|i: int, j: int| 0 <= i < j < ids.len() ==> ids[i] < ids[j]
            &&& forall|i: int| 0 <= i < ids.len() ==> s.next_id < #[trigger] ids[i] <= s2.next_id
        }),
    decreases calls.len(),
{
    if calls.len() > 0 {
        let rest = calls.drop_last();
        law_order_ids_grow(s, rest);
        let (s1, ids) = run_calls(s, rest);
        match calls.last() {
            MarketCall::List { seller, item_uid, price } => {
                let (s2, r) = s1.spec_list(seller, item_uid, price);
                if price > 0 {
                    let id = (s1.next_id + 1) as u64;
                    let ids2 = ids.push(id);
                    assert forall|i: int, j: int| 0 <= i < j < ids2.len() implies ids2[i] < ids2[j] by {
                        if j == ids.len() {
                            assert(ids2[i] == ids[i]);
                        } else {
                            assert(ids2[i] == ids[i] && ids2[j] == ids[j]);
                        }
                    }
                    assert forall|i: int| 0 <= i < ids2.len() implies s.next_id < #[trigger] ids2[i]
                        <= s2.next_id by {
                        if i < ids.len() {
                            assert(ids2[i] == ids[i]);
                        }
                    }
                }
            },
            MarketCall::Take(id) => {},
        }
    }
}

/// A listed order can be taken (bought or cancelled) once: it comes back as
/// listed, and taking it again fails with `OrderNotFound`.
pub proof fn law_take_once(s: MarketView, seller: Seq<char>, item: u64, price: u32)
    requires
        s.wf(),
        s.next_id < u64::MAX,
        price > 0,
    ensures
        ({
            let (s1, r1) = s.spec_list(seller, item, price);
            let id = r1->Ok_0;
            let (s2, r2) = s1.spec_take(id);
            let (s3, r3) = s2.spec_take(id);
            &&& r2 == Ok::<OrderSpec, MarketError>(
                OrderSpec { order_id: id, seller, item_uid: item, price },
            )
            &&& r3 == Err::<OrderSpec, MarketError>(MarketError::OrderNotFound)
            &&& s2.orders == s.orders
        }),
{
    let (s1, r1) = s.spec_list(seller, item, price);
    let id = r1->Ok_0;
    assert(!s.orders.contains_key(id));
    assert(s1.orders.remove(id) =~= s.orders);
}

/// Checks a purchase of `order` (if it is still on the market) by `buyer`,
/// who has `gold` and bids `bid`. `Ok(price)` when the purchase may go on;
/// else the reason sent to the client: 0 the buyer is dead, 2 the order is
/// gone, 6 it is the buyer's own order, 4 the bid or the buyer's gold is
/// below the price.
pub fn buy_check(buyer: &str, dead: bool, gold: u32, bid: u32, order: Option<&MarketOrder>) -> (r: Result<
    u32,
    u8,
>)
    ensures
        r == (if dead {
            Err(0u8)
        } else {
            match order {
                None => Err(2u8),
                Some(o) => if o.seller@ == buyer@ {
                    Err(6u8)
                } else if bid < o.price || gold < o.price {
                    Err(4u8)
                } else {
                    Ok(o.price)
                },
            }
        }),
{
    if dead {
        return Err(0);
    }
    match order {
        None => Err(2),
        Some(o) => {
            let b = buyer.to_string();
            if o.seller == b {
                Err(6)
            } else if bid < o.price || gold < o.price {
                Err(4)
            } else {
                Ok(o.price)
            }
        },
    }
}

/// Whether `me` may take back `order`: only the seller may.
pub fn may_get_back(me: &str, order: Option<&MarketOrder>) -> (r: bool)
    ensures
        r == (order matches Some(o) && o.seller@ == me@),
{
    match order {
        None => false,
        Some(o) => {
            let m = me.to_string();
            o.seller == m
        },
    }
}

/// Listings shown on one market page.
pub const MARKET_PAGE_SIZE: usize = 10;

/// Paging of `total` listings for a request of page `page` (counted from 0;
/// a negative page is page 0): the number of pages, and the range
/// `start..end` of the listings on that page (empty past the last page).
pub fn market_page(total: usize, page: i32) -> (r: (i32, usize, usize))
    requires
        total <= i32::MAX,
    ensures
        r.0 == (total + MARKET_PAGE_SIZE - 1) / (MARKET_PAGE_SIZE as int),
        r.1 == (if page <= 0 {
            0
        } else if page * MARKET_PAGE_SIZE >= total {
            total as int
        } else {
            page * MARKET_PAGE_SIZE
        }),
        r.2 == (if r.1 + MARKET_PAGE_SIZE >= total {
            total as int
        } else {
            r.1 + MARKET_PAGE_SIZE
        }),
{
    let pages = ((total as u64 + 9) / 10) as i32;
    let p: u64 = if page <= 0 {
        0
    } else {
        page as u64
    };
    let want = p * 10;
    let start: usize = if want >= total as u64 {
        total
    } else {
        want as usize
    };
    let end: usize = if start as u64 + 10 >= total as u64 {
        total
    } else {
        start + 10
    };
    (pages, start, end)
}

} // verus!
