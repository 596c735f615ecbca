//! Player-to-player trades: `from` invites `to`, `to` accepts, both sides put
//! in gold and items, each side confirms (locks), and once both have confirmed
//! the trade completes into a settlement that hands side A's goods to B and
//! side B's goods to A (carried out by the caller).
use vstd::hash_map::StringHashMap;
use vstd::prelude::*;

use crate::entities::{gain_gold, remove_gold, Player};

verus! {

/// What one side has put into a trade.
#[derive(Debug, Default)]
pub struct TradeSide {
    /// Unique ids of the inventory items put in, in order.
    pub items: Vec<u64>,
    pub gold: u32,
}

/// A trade in progress between `a` (who invited) and `b`.
#[derive(Debug)]
pub struct Trade {
    pub a: String,
    pub b: String,
    pub side_a: TradeSide,
    pub side_b: TradeSide,
    /// Whether each side has confirmed.
    pub lock_a: bool,
    pub lock_b: bool,
}

/// Settlement of a completed trade: A's goods go to B and B's goods to A.
#[derive(Debug, Default)]
pub struct Settle {
    pub a: String,
    pub b: String,
    pub a_items_to_b: Vec<u64>,
    pub b_items_to_a: Vec<u64>,
    pub a_gold_to_b: u32,
    pub b_gold_to_a: u32,
}

#[derive(Debug, Clone, Copy, PartialEq, Eq, Structural)]
pub enum TradeError {
    NoPendingInvite,
    NotInTrade,
    AlreadyLocked,
}

/// Abstract value of a trade.
pub struct TradeSpec {
    pub a: Seq<char>,
    pub b: Seq<char>,
    pub items_a: Seq<u64>,
    pub gold_a: u32,
    pub items_b: Seq<u64>,
    pub gold_b: u32,
    pub lock_a: bool,
    pub lock_b: bool,
}

impl View for Trade {
    type V = TradeSpec;

    open spec fn view(&self) -> TradeSpec {
        TradeSpec {
            a: self.a@,
            b: self.b@,
            items_a: self.side_a.items@,
            gold_a: self.side_a.gold,
            items_b: self.side_b.items@,
            gold_b: self.side_b.gold,
            lock_a: self.lock_a,
            lock_b: self.lock_b,
        }
    }
}

/// Trade manager (pure state, no I/O).
pub struct TradeManager {
    /// Invitee -> inviter.
    pending: StringHashMap<String>,
    /// Trades in progress, oldest first.
    active: Vec<Trade>,
}

/// Abstract state of a `TradeManager`.
pub struct TradeView {
    pub pending: Map<Seq<char>, Seq<char>>,
    pub active: Seq<TradeSpec>,
}

impl View for TradeManager {
    type V = TradeView;

    closed spec fn view(&self) -> TradeView {
        TradeView {
            pending: self.pending@.map_values(|s: String| s@),
            active: self.active@.map_values(|t: Trade| t@),
        }
    }
}

/// `who` is one of the two parties of `t`.
pub open spec fn involves(t: TradeSpec, who: Seq<char>) -> bool {
    t.a == who || t.b == who
}

/// `i` is the oldest trade involving `who`.
pub open spec fn is_first(s: Seq<TradeSpec>, who: Seq<char>, i: int) -> bool {
    &&& 0 <= i < s.len()
    &&& involves(s[i], who)
    &&& forall|j: int| 0 <= j < i ==> !involves(#[trigger] s[j], who)
}

/// The oldest trade involving `who`, if any.
pub open spec fn first_trade(s: Seq<TradeSpec>, who: Seq<char>) -> Option<int> {
    if exists|i: int| is_first(s, who, i) {
        Some(choose|i: int| is_first(s, who, i))
    } else {
        None
    }
}

/// The first trade index is unique.
pub proof fn lemma_first_unique(s: Seq<TradeSpec>, who: Seq<char>, i: int)
    requires
        is_first(s, who, i),
    ensures
        first_trade(s, who) == Some(i),
{
    let k = choose|k: int| is_first(s, who, k);
    if k < i {
        assert(!involves(s[k], who));
    } else if i < k {
        assert(!involves(s[i], who));
    }
}

/// No trade involves `who` exactly when there is no first one.
pub proof fn lemma_first_none(s: Seq<TradeSpec>, who: Seq<char>)
    requires
        forall|j: int| 0 <= j < s.len() ==> !involves(#[trigger] s[j], who),
    ensures
        first_trade(s, who) is None,
{
}

/// `t` with `amount` more gold on `who`'s side.
pub open spec fn with_gold(t: TradeSpec, who: Seq<char>, amount: u32) -> TradeSpec {
    if t.a == who {
        TradeSpec { gold_a: (t.gold_a + amount) as u32, ..t }
    } else {
        TradeSpec { gold_b: (t.gold_b + amount) as u32, ..t }
    }
}

/// `t` with item `uid` added on `who`'s side.
pub open spec fn with_item(t: TradeSpec, who: Seq<char>, uid: u64) -> TradeSpec {
    if t.a == who {
        TradeSpec { items_a: t.items_a.push(uid), ..t }
    } else {
        TradeSpec { items_b: t.items_b.push(uid), ..t }
    }
}

/// `t` with `who`'s side confirmed.
pub open spec fn with_lock(t: TradeSpec, who: Seq<char>) -> TradeSpec {
    if t.a == who {
        TradeSpec { lock_a: true, ..t }
    } else {
        TradeSpec { lock_b: true, ..t }
    }
}

/// The gold `who` has put into `t`.
pub open spec fn gold_of(t: TradeSpec, who: Seq<char>) -> u32 {
    if t.a == who {
        t.gold_a
    } else {
        t.gold_b
    }
}

impl TradeView {
    /// `request`: a player cannot invite itself; otherwise the invitation
    /// replaces any earlier one to the same invitee.
    pub open spec fn spec_request(self, from: Seq<char>, to: Seq<char>) -> TradeView {
        if from == to {
            self
        } else {
            TradeView { pending: self.pending.insert(to, from), ..self }
        }
    }

    /// `accept`: the invitation becomes a new trade (inviter as side A) at
    /// the end of the list, with nothing put in and nothing confirmed.
    pub open spec fn spec_accept(self, invitee: Seq<char>) -> (TradeView, Result<(), TradeError>) {
        if !self.pending.contains_key(invitee) {
            (self, Err(TradeError::NoPendingInvite))
        } else {
            (
                TradeView {
                    pending: self.pending.remove(invitee),
                    active: self.active.push(
                        TradeSpec {
                            a: self.pending[invitee],
                            b: invitee,
                            items_a: Seq::empty(),
                            gold_a: 0,
                            items_b: Seq::empty(),
                            gold_b: 0,
                            lock_a: false,
                            lock_b: false,
                        },
                    ),
                },
                Ok(()),
            )
        }
    }

    /// Applies `f` to the oldest trade of `who`; `NotInTrade` when there is none.
    pub open spec fn update_first(self, who: Seq<char>, f: spec_fn(TradeSpec) -> TradeSpec) -> (
        TradeView,
        Result<(), TradeError>,
    ) {
        match first_trade(self.active, who) {
            Some(i) => (
                TradeView { active: self.active.update(i, f(self.active[i])), ..self },
                Ok(()),
            ),
            None => (self, Err(TradeError::NotInTrade)),
        }
    }

    /// Adding `amount` gold cannot overflow `who`'s side of its oldest trade.
    pub open spec fn gold_fits(self, who: Seq<char>, amount: u32) -> bool {
        match first_trade(self.active, who) {
            Some(i) => gold_of(self.active[i], who) + amount <= u32::MAX,
            None => true,
        }
    }

    /// `cancel` / the removal part of `complete`: the oldest trade of `who`
    /// is dropped.
    pub open spec fn spec_cancel(self, who: Seq<char>) -> (TradeView, bool) {
        match first_trade(self.active, who) {
            Some(i) => (TradeView { active: self.active.remove(i), ..self }, true),
            None => (self, false),
        }
    }
}

/// The settlement of trade `t`: each side's goods, unchanged.
pub open spec fn settle_of(t: TradeSpec, s: Settle) -> bool {
    &&& s.a@ == t.a
    &&& s.b@ == t.b
    &&& s.a_items_to_b@ == t.items_a
    &&& s.b_items_to_a@ == t.items_b
    &&& s.a_gold_to_b == t.gold_a
    &&& s.b_gold_to_a == t.gold_b
}

fn copy_ids(v: &Vec<u64>) -> (r: Vec<u64>)
    ensures
        r@ == v@,
{
    let mut r: Vec<u64> = Vec::new();
    let mut i: usize = 0;
    while i < v.len()
        invariant
            i <= v.len(),
            r@ == v@.take(i as int),
        decreases v.len() - i,
    {
        r.push(v[i]);
        i = i + 1;
        assert(r@ =~= v@.take(i as int));
    }
    assert(v@.take(v.len() as int) =~= v@);
    r
}

fn copy_trade(t: &Trade) -> (r: Trade)
    ensures
        r@ == t@,
{
    Trade {
        a: t.a.clone(),
        b: t.b.clone(),
        side_a: TradeSide { items: copy_ids(&t.side_a.items), gold: t.side_a.gold },
        side_b: TradeSide { items: copy_ids(&t.side_b.items), gold: t.side_b.gold },
        lock_a: t.lock_a,
        lock_b: t.lock_b,
    }
}

impl TradeManager {
    /// No invitations and no trades.
    pub fn new() -> (r: Self)
        ensures
            r@.pending == Map::<Seq<char>, Seq<char>>::empty(),
            r@.active == Seq::<TradeSpec>::empty(),
    {
        let r = TradeManager { pending: StringHashMap::new(), active: Vec::new() };
        assert(r@.pending =~= Map::<Seq<char>, Seq<char>>::empty());
        assert(r@.active =~= Seq::<TradeSpec>::empty());
        r
    }

    /// `from` invites `to` to trade.
    pub fn request(&mut self, from: &str, to: &str)
        ensures
            final(self)@ == old(self)@.spec_request(from@, to@),
    {
        let from_s = from.to_owned();
        let to_s = to.to_owned();
        if from_s == to_s {
            return;
        }
        let ghost s = self@;
        self.pending.insert(to_s, from_s);
        assert(self@.pending =~= s.pending.insert(to@, from@));
    }

    /// `invitee` accepts its pending invitation, which opens a trade.
    pub fn accept(&mut self, invitee: &str) -> (r: Result<(), TradeError>)
        ensures
            (final(self)@, r) == old(self)@.spec_accept(invitee@),
    {
        let ghost s = self@;
        let inviter = match self.pending.get(invitee) {
            Some(x) => x.clone(),
            None => return Err(TradeError::NoPendingInvite),
        };
        self.pending.remove(invitee);
        let t = Trade {
            a: inviter,
            b: invitee.to_owned(),
            side_a: TradeSide { items: Vec::new(), gold: 0 },
            side_b: TradeSide { items: Vec::new(), gold: 0 },
            lock_a: false,
            lock_b: false,
        };
        self.active.push(t);
        assert(self@.pending =~= s.pending.remove(invitee@));
        assert(self@.active =~= s.spec_accept(invitee@).0.active);
        Ok(())
    }

    /// The gold `who` has put into its oldest trade (0 when not trading).
    pub fn side_gold(&self, who: &str) -> (r: u32)
        ensures
            r == match first_trade(self@.active, who@) {
                Some(i) => if self@.active[i].a == who@ {
                    self@.active[i].gold_a
                } else {
                    self@.active[i].gold_b
                },
                None => 0,
            },
    {
        match self.find(who) {
            Some(i) => {
                let w = who.to_owned();
                if self.active[i].a == w {
                    self.active[i].side_a.gold
                } else {
                    self.active[i].side_b.gold
                }
            },
            None => 0,
        }
    }

    /// `invitee` turns its pending invitation down; returns the inviter, or
    /// `None` (and nothing changes) when there is no invitation.
    pub fn reject(&mut self, invitee: &str) -> (r: Option<String>)
        ensures
            old(self)@.pending.contains_key(invitee@) ==> (final(self)@ == (TradeView {
                pending: old(self)@.pending.remove(invitee@),
                ..old(self)@
            }) && (r matches Some(n) && n@ == old(self)@.pending[invitee@])),
            !old(self)@.pending.contains_key(invitee@) ==> final(self)@ == old(self)@ && r is None,
    {
        let ghost s = self@;
        let inviter = match self.pending.get(invitee) {
            Some(x) => x.clone(),
            None => return None,
        };
        self.pending.remove(invitee);
        assert(self@.pending =~= s.pending.remove(invitee@));
        Some(inviter)
    }

    /// Index of the oldest trade involving `who`.
    fn find(&self, who: &str) -> (r: Option<usize>)
        ensures
            match r {
                Some(i) => first_trade(self@.active, who@) == Some(i as int) && i < self@.active.len(),
                None => first_trade(self@.active, who@) is None && forall|j: int|
                    0 <= j < self@.active.len() ==> !involves(#[trigger] self@.active[j], who@),
            },
    {
        let w = who.to_owned();
        let mut i: usize = 0;
        while i < self.active.len()
            invariant
                i <= self.active.len(),
                w@ == who@,
                forall|j: int| 0 <= j < i ==> !involves(#[trigger] self@.active[j], who@),
            decreases self.active.len() - i,
        {
            if self.active[i].a == w || self.active[i].b == w {
                proof {
                    assert(is_first(self@.active, who@, i as int));
                    lemma_first_unique(self@.active, who@, i as int);
                }
                return Some(i);
            }
            i = i + 1;
        }
        proof {
            lemma_first_none(self@.active, who@);
        }
        None
    }

    /// Puts `amount` gold on `who`'s side of its oldest trade.
    pub fn add_gold(&mut self, who: &str, amount: u32) -> (r: Result<(), TradeError>)
        requires
            old(self)@.gold_fits(who@, amount),
        ensures
            (final(self)@, r) == old(self)@.update_first(
                who@,
                |t: TradeSpec| with_gold(t, who@, amount),
            ),
    {
        let i = match self.find(who) {
            Some(i) => i,
            None => return Err(TradeError::NotInTrade),
        };
        let ghost s = self@;
        let mut t = copy_trade(&self.active[i]);
        if t.a == who.to_owned() {
            t.side_a.gold = t.side_a.gold + amount;
        } else {
            t.side_b.gold = t.side_b.gold + amount;
        }
        self.active.set(i, t);
        assert(self@.active =~= s.active.update(i as int, with_gold(s.active[i as int], who@, amount)));
        Ok(())
    }

    /// Puts inventory item `unique_id` on `who`'s side of its oldest trade.
    pub fn add_item(&mut self, who: &str, unique_id: u64) -> (r: Result<(), TradeError>)
        ensures
            (final(self)@, r) == old(self)@.update_first(
                who@,
                |t: TradeSpec| with_item(t, who@, unique_id),
            ),
    {
        let i = match self.find(who) {
            Some(i) => i,
            None => return Err(TradeError::NotInTrade),
        };
        let ghost s = self@;
        let mut t = copy_trade(&self.active[i]);
        if t.a == who.to_owned() {
            t.side_a.items.push(unique_id);
        } else {
            t.side_b.items.push(unique_id);
        }
        self.active.set(i, t);
        assert(self@.active =~= s.active.update(
            i as int,
            with_item(s.active[i as int], who@, unique_id),
        ));
        Ok(())
    }

    /// Confirms (locks) `who`'s side of its oldest trade.
    pub fn confirm(&mut self, who: &str) -> (r: Result<(), TradeError>)
        ensures
            (final(self)@, r) == old(self)@.update_first(who@, |t: TradeSpec| with_lock(t, who@)),
    {
        let i = match self.find(who) {
            Some(i) => i,
            None => return Err(TradeError::NotInTrade),
        };
        let ghost s = self@;
        let mut t = copy_trade(&self.active[i]);
        if t.a == who.to_owned() {
            t.lock_a = true;
        } else {
            t.lock_b = true;
        }
        self.active.set(i, t);
        assert(self@.active =~= s.active.update(i as int, with_lock(s.active[i as int], who@)));
        Ok(())
    }

    /// Drops the oldest trade of `who`; returns whether there was one.
    pub fn cancel(&mut self, who: &str) -> (r: bool)
        ensures
            (final(self)@, r) == old(self)@.spec_cancel(who@),
    {
        let ghost s = self@;
        match self.find(who) {
            Some(i) => {
                self.active.remove(i);
                assert(self@.active =~= s.active.remove(i as int));
                true
            },
            None => false,
        }
    }

    /// Completes the oldest trade of `who` once both sides confirmed: the trade
    /// is removed and its settlement returned; otherwise `Ok(None)` and nothing
    /// changes.
    pub fn complete(&mut self, who: &str) -> (r: Result<Option<Settle>, TradeError>)
        ensures
            match first_trade(old(self)@.active, who@) {
                None => r == Err::<Option<Settle>, TradeError>(TradeError::NotInTrade)
                    && final(self)@ == old(self)@,
                Some(i) => {
                    let t = old(self)@.active[i];
                    if t.lock_a && t.lock_b {
                        &&& r matches Ok(Some(s)) && settle_of(t, s)
                        &&& final(self)@ == old(self)@.spec_cancel(who@).0
                    } else {
                        r matches Ok(None) && final(self)@ == old(self)@
                    }
                },
            },
    {
        let ghost s = self@;
        let pos = match self.find(who) {
            Some(i) => i,
            None => return Err(TradeError::NotInTrade),
        };
        if !self.active[pos].lock_a || !self.active[pos].lock_b {
            return Ok(None);
        }
        let t = self.active.remove(pos);
        assert(self@.active =~= s.active.remove(pos as int));
        let settle = Settle {
            a: t.a,
            b: t.b,
            a_items_to_b: t.side_a.items,
            b_items_to_a: t.side_b.items,
            a_gold_to_b: t.side_a.gold,
            b_gold_to_a: t.side_b.gold,
        };
        Ok(Some(settle))
    }

    /// Whether `amount` more gold fits on `who`'s side of its oldest trade
    /// (see `TradeView::gold_fits`).
    pub fn gold_room(&self, who: &str, amount: u32) -> (r: bool)
        ensures
            r == self@.gold_fits(who@, amount),
    {
        match self.find(who) {
            Some(i) => {
                let t = &self.active[i];
                let have = if t.a == who.to_owned() {
                    t.side_a.gold
                } else {
                    t.side_b.gold
                };
                amount <= u32::MAX - have
            },
            None => true,
        }
    }

    /// Whether `who` is a party of some trade.
    pub fn in_trade(&self, who: &str) -> (r: bool)
        ensures
            r == exists|i: int| 0 <= i < self@.active.len() && involves(self@.active[i], who@),
    {
        match self.find(who) {
            Some(i) => {
                assert(involves(self@.active[i as int], who@));
                true
            },
            None => false,
        }
    }

    /// The other party of `who`'s oldest trade, if `who` is in one.
    pub fn partner_of(&self, who: &str) -> (r: Option<String>)
        ensures
            match first_trade(self@.active, who@) {
                Some(i) => r matches Some(n) && n@ == (if self@.active[i].a == who@ {
                    self@.active[i].b
                } else {
                    self@.active[i].a
                }),
                None => r is None,
            },
    {
        match self.find(who) {
            Some(i) => {
                let w = who.to_owned();
                if self.active[i].a == w {
                    Some(self.active[i].b.clone())
                } else {
                    Some(self.active[i].a.clone())
                }
            },
            None => None,
        }
    }
}


/// An invitation that is accepted opens a trade between exactly the two
/// players, inviter as side A, with nothing put in and nothing confirmed.
pub proof fn law_request_then_accept(s: TradeView, from: Seq<char>, to: Seq<char>)
    requires
        from != to,
    ensures
        ({
            let (t, r) = s.spec_request(from, to).spec_accept(to);
            &&& r == Ok::<(), TradeError>(())
            &&& t.active.len() == s.active.len() + 1
            &&& t.active.last().a == from
            &&& t.active.last().b == to
            &&& t.active.last().items_a.len() == 0 && t.active.last().items_b.len() == 0
            &&& t.active.last().gold_a == 0 && t.active.last().gold_b == 0
            &&& !t.active.last().lock_a && !t.active.last().lock_b
            &&& !t.pending.contains_key(to)
        }),
{
}

/// Putting an item into a trade changes only that trade, only the depositor's
/// item list, by appending the item; the trade stays the depositor's oldest,
/// so a later `complete` hands the item over.
pub proof fn law_item_deposit_appends(s: TradeView, who: Seq<char>, uid: u64)
    requires
        first_trade(s.active, who) is Some,
    ensures
        ({
            let i = first_trade(s.active, who)->0;
            let (t, r) = s.update_first(who, |x: TradeSpec| with_item(x, who, uid));
            let before = s.active[i];
            let after = t.active[i];
            &&& r == Ok::<(), TradeError>(())
            &&& first_trade(t.active, who) == Some(i)
            &&& t.active.len() == s.active.len()
            &&& forall|j: int| 0 <= j < s.active.len() && j != i ==> t.active[j] == s.active[j]
            &&& (before.a == who ==> after.items_a == before.items_a.push(uid) && after.items_b
                == before.items_b)
            &&& (before.a != who ==> after.items_b == before.items_b.push(uid) && after.items_a
                == before.items_a)
            &&& after.gold_a == before.gold_a && after.gold_b == before.gold_b
            &&& after.lock_a == before.lock_a && after.lock_b == before.lock_b
        }),
{
    let i = choose|i: int| is_first(s.active, who, i);
    lemma_first_unique(s.active, who, i);
    let t = s.update_first(who, |x: TradeSpec| with_item(x, who, uid)).0;
    assert(is_first(t.active, who, i));
    lemma_first_unique(t.active, who, i);
}

/// Putting gold into a trade adds it to the depositor's side of its oldest
/// trade (the amounts accumulate) and changes nothing else: the other side's
/// gold, both item lists, the locks and every other trade stay as they were.
pub proof fn law_gold_deposit_adds(s: TradeView, who: Seq<char>, amount: u32)
    requires
        first_trade(s.active, who) is Some,
        s.gold_fits(who, amount),
    ensures
        ({
            let i = first_trade(s.active, who)->0;
            let (t, r) = s.update_first(who, |x: TradeSpec| with_gold(x, who, amount));
            let before = s.active[i];
            let after = t.active[i];
            &&& r == Ok::<(), TradeError>(())
            &&& first_trade(t.active, who) == Some(i)
            &&& t.active.len() == s.active.len()
            &&& forall|j: int| 0 <= j < s.active.len() && j != i ==> t.active[j] == s.active[j]
            &&& (before.a == who ==> after.gold_a == before.gold_a + amount && after.gold_b == before.gold_b)
            &&& (before.a != who ==> after.gold_b == before.gold_b + amount && after.gold_a == before.gold_a)
            &&& after.items_a == before.items_a && after.items_b == before.items_b
            &&& after.lock_a == before.lock_a && after.lock_b == before.lock_b
            &&& after.a == before.a && after.b == before.b
        }),
{
    let i = choose|i: int| is_first(s.active, who, i);
    lemma_first_unique(s.active, who, i);
    let t = s.update_first(who, |x: TradeSpec| with_gold(x, who, amount)).0;
    assert(is_first(t.active, who, i));
    lemma_first_unique(t.active, who, i);
}

/// Confirming both sides of a trade makes it complete: the oldest trade of
/// each party is the same one, and both locks are set.
pub proof fn law_both_confirm_locks(s: TradeView, a: Seq<char>, b: Seq<char>)
    requires
        first_trade(s.active, a) is Some,
        first_trade(s.active, a) == first_trade(s.active, b),
        a != b,
    ensures
        ({
            let i = first_trade(s.active, a)->0;
            let t1 = s.update_first(a, |x: TradeSpec| with_lock(x, a)).0;
            let t2 = t1.update_first(b, |x: TradeSpec| with_lock(x, b)).0;
            &&& first_trade(t2.active, a) == Some(i)
            &&& (involves(s.active[i], a) && involves(s.active[i], b) ==> t2.active[i].lock_a
                && t2.active[i].lock_b)
        }),
{
    let i = choose|i: int| is_first(s.active, a, i);
    lemma_first_unique(s.active, a, i);
    let t1 = s.update_first(a, |x: TradeSpec| with_lock(x, a)).0;
    assert(is_first(t1.active, a, i));
    lemma_first_unique(t1.active, a, i);
    assert(is_first(s.active, b, i));
    assert(is_first(t1.active, b, i));
    lemma_first_unique(t1.active, b, i);
    let t2 = t1.update_first(b, |x: TradeSpec| with_lock(x, b)).0;
    assert(is_first(t2.active, a, i));
    lemma_first_unique(t2.active, a, i);
}

/// `a + b`, stopping at `u32::MAX`.
pub open spec fn sat_add(a: u32, b: u32) -> u32 {
    if a + b > u32::MAX {
        u32::MAX
    } else {
        (a + b) as u32
    }
}

/// One direction of the gold of a settlement: `amount` moves from `from` to
/// `to` if it is above 0 and `from` has it (else nothing moves). Returns
/// whether it moved.
pub fn pay(from: &mut Player, to: &mut Player, amount: u32) -> (moved: bool)
    ensures
        moved == (amount > 0 && old(from).gold >= amount),
        final(from).gold == (if moved { old(from).gold - amount } else { old(from).gold as int }),
        final(to).gold == (if moved { sat_add(old(to).gold, amount) } else { old(to).gold }),
        *final(from) == (Player { gold: final(from).gold, ..*old(from) }),
        *final(to) == (Player { gold: final(to).gold, ..*old(to) }),
{
    if amount > 0 && remove_gold(from, amount) {
        gain_gold(to, amount);
        true
    } else {
        false
    }
}

/// The gold of A and B after A pays B `x` and then B pays A `y` (each
/// payment made only if above 0 and covered).
pub open spec fn settled_gold(ga: u32, gb: u32, x: u32, y: u32) -> (int, int) {
    let moved1 = x > 0 && ga >= x;
    let a1: int = if moved1 { ga - x } else { ga as int };
    let b1: int = if moved1 { sat_add(gb, x) as int } else { gb as int };
    let moved2 = y > 0 && b1 >= y;
    let b2: int = if moved2 { b1 - y } else { b1 };
    let a2: int = if moved2 { sat_add(a1 as u32, y) as int } else { a1 };
    (a2, b2)
}

/// The gold of a settlement: A pays B `a_gold_to_b`, then B pays A
/// `b_gold_to_a` (see `pay`).
pub fn settle_gold(a: &mut Player, b: &mut Player, a_gold_to_b: u32, b_gold_to_a: u32)
    ensures
        (final(a).gold as int, final(b).gold as int) == settled_gold(
            old(a).gold,
            old(b).gold,
            a_gold_to_b,
            b_gold_to_a,
        ),
        *final(a) == (Player { gold: final(a).gold, ..*old(a) }),
        *final(b) == (Player { gold: final(b).gold, ..*old(b) }),
{
    pay(a, b, a_gold_to_b);
    pay(b, a, b_gold_to_a);
}

/// Whether a payment of a settlement would take its receiver past
/// `u32::MAX` (where gold stops).
pub open spec fn settle_overflows(ga: u32, gb: u32, x: u32, y: u32) -> bool {
    let moved1 = x > 0 && ga >= x;
    let a1: int = if moved1 { ga - x } else { ga as int };
    let b1: int = if moved1 { gb + x } else { gb as int };
    let moved2 = y > 0 && b1 >= y;
    (moved1 && gb + x > u32::MAX) || (moved2 && a1 + y > u32::MAX)
}

/// A settlement neither makes nor destroys gold: unless a receiver would go
/// past `u32::MAX`, the two sides hold together what they held before.
pub proof fn law_settle_conserves_gold(ga: u32, gb: u32, a_to_b: u32, b_to_a: u32)
    requires
        !settle_overflows(ga, gb, a_to_b, b_to_a),
    ensures
        settled_gold(ga, gb, a_to_b, b_to_a).0 + settled_gold(ga, gb, a_to_b, b_to_a).1 == ga + gb,
{
}

/// The two payments of a settlement are independent. When A pays nothing
/// (owes nothing, or does not hold what it owes) and B owes `y` it holds, B
/// pays A: A gains `y` (stopping at `u32::MAX`) and B loses it. When B owes
/// nothing and A owes `x` it holds, only A pays. When both pay and nothing
/// overflows, A ends with `ga - x + y` and B with `gb + x - y`.
pub proof fn law_settle_payments_independent(ga: u32, gb: u32, x: u32, y: u32)
    ensures
        (x == 0 || ga < x) && 0 < y <= gb ==> settled_gold(ga, gb, x, y) == (sat_add(ga, y) as int, gb - y),
        y == 0 && 0 < x <= ga ==> settled_gold(ga, gb, x, y) == (ga - x, sat_add(gb, x) as int),
        y == 0 && (x == 0 || ga < x) ==> settled_gold(ga, gb, x, y) == (ga as int, gb as int),
        0 < x <= ga && gb + x <= u32::MAX && 0 < y <= gb + x && ga - x + y <= u32::MAX ==> settled_gold(
            ga,
            gb,
            x,
            y,
        ) == (ga - x + y, gb + x - y),
{
}

/// Why a trade request is refused.
#[derive(Debug, Clone, Copy, PartialEq, Eq, Structural)]
pub enum RequestRefusal {
    /// The requester is dead.
    Dead,
    /// The requester is already trading.
    Busy,
    /// Nobody stands in front of the requester.
    NoOneFacing,
    /// The player in front is dead.
    TargetDead,
    /// The player in front is trading.
    TargetBusy,
}

/// Checks a trade request: whether the requester is dead or trading, and
/// the player in front of them if any (dead, trading).
pub fn request_check(dead: bool, busy: bool, facing: Option<(bool, bool)>) -> (r: Result<(), RequestRefusal>)
    ensures
        r == (if dead {
            Err(RequestRefusal::Dead)
        } else if busy {
            Err(RequestRefusal::Busy)
        } else {
            match facing {
                None => Err(RequestRefusal::NoOneFacing),
                Some((t_dead, t_busy)) => if t_dead {
                    Err(RequestRefusal::TargetDead)
                } else if t_busy {
                    Err(RequestRefusal::TargetBusy)
                } else {
                    Ok(())
                },
            }
        }),
{
    if dead {
        return Err(RequestRefusal::Dead);
    }
    if busy {
        return Err(RequestRefusal::Busy);
    }
    match facing {
        None => Err(RequestRefusal::NoOneFacing),
        Some((t_dead, t_busy)) => {
            if t_dead {
                Err(RequestRefusal::TargetDead)
            } else if t_busy {
                Err(RequestRefusal::TargetBusy)
            } else {
                Ok(())
            }
        },
    }
}

/// Whether a player holding `have` gold, with `already` gold put into the
/// trade, may put in `amount` more: it must be above 0 and all of it must be
/// covered by what the player holds.
pub fn gold_offer_allowed(amount: u32, have: u32, already: u32) -> (r: bool)
    ensures
        r == (amount > 0 && amount <= have && already + amount <= have),
{
    amount > 0 && amount <= have && already <= have - amount
}

} // verus!
