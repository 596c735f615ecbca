//! The shared game state (the players online and the market, guild, trade
//! and group books) and the chat commands that act on it. A command yields a list of
//! actions for the connection: a notice to the player who typed it, a view
//! to render, an item to move in the store, or a hand-over of the commands
//! that need the store to the caller.
use vstd::prelude::*;

use crate::chat::{ChatCmd, ChatCommand};
use crate::combat::{find_player, first_match, lemma_first_match, player_id};
use crate::entities::{gain_gold, remove_gold, Player};
use crate::group::{GroupManager, GroupView};
use crate::guild::{GuildManager, GuildView};
use crate::party::{GroupMsg, GroupMsgV};
use crate::services::{
    answered, answer_marriage, answer_mentor, mentor_request_check, proposal_check, spec_pending_reply, MentorRefusal,
    PendingReply, ProposalRefusal,
};
use crate::market::{MarketManager, MarketView};
use crate::trade::{
    first_trade, involves, is_first, lemma_first_unique, with_gold, with_lock, TradeManager, TradeView,
};

verus! {

/// Everything the chat commands work on.
pub struct GameState {
    /// The players online.
    pub players: Vec<Player>,
    pub market: MarketManager,
    pub guild: GuildManager,
    pub trade: TradeManager,
    pub group: GroupManager,
}

/// Abstract value of a `GameState`.
pub struct GameView {
    pub players: Seq<Player>,
    pub market: MarketView,
    pub guild: GuildView,
    pub trade: TradeView,
    pub group: GroupView,
}

impl View for GameState {
    type V = GameView;

    open spec fn view(&self) -> GameView {
        GameView {
            players: self.players@,
            market: self.market@,
            guild: self.guild@,
            trade: self.trade@,
            group: self.group@,
        }
    }
}

impl GameView {
    /// The market, guild and group books are well formed.
    pub open spec fn wf(self) -> bool {
        self.market.wf() && self.guild.wf() && self.group.wf()
    }
}

/// What the player who typed a command is told.
#[derive(Debug, Clone, Copy, PartialEq, Eq, Structural)]
pub enum Notice {
    /// The command lacks its argument: show how to use it.
    Usage,
    NotInGuild,
    GuildCreated,
    GuildNameTaken,
    GuildJoined,
    /// No such guild, or already in one.
    GuildJoinFailed,
    GuildLeft,
    /// An order was bought for this much gold.
    Bought { price: u32 },
    OrderNotFound,
    /// Not enough gold, or no such order.
    NotEnoughGold,
    OrderCancelled,
    /// Whether the player is in a trade.
    TradeStatus { open: bool },
    TradeRequested,
    TargetOffline,
    TradeAccepted,
    NoTradeRequest,
    TradeCancelled,
    NotInTrade,
    /// This much gold was put into the trade.
    GoldAdded { amount: u32 },
    /// The player's side is confirmed; the other side has yet to confirm.
    TradeConfirmed,
    /// Both sides confirmed: items and gold were exchanged.
    TradeDone,
    /// The list of commands.
    Help,
    /// Not a command.
    UnknownCommand,
    /// Taking apprentices is now on or off.
    MentorToggled { on: bool },
    /// A request to be taught was refused.
    MentorRequestRefused { why: MentorRefusal },
    /// A request to be taught was sent.
    MentorRequested,
    /// A proposal was refused.
    ProposalRefused { why: ProposalRefusal },
    /// A proposal was sent.
    Proposed,
    /// There is no invitation to answer.
    NoPendingInvite,
    /// The player who invited is not online.
    InviterOffline,
    /// The invitation was declined.
    InviteDeclined,
}

/// What the connection does after a command.
pub enum Action {
    Tell(Notice),
    /// Show the player's guild.
    ShowGuild { name: String, owner: String, members: usize },
    /// Show the market's orders.
    ShowMarket,
    /// Move an item from one character to another in the store.
    TransferItem { from_char: i32, to_char: i32, item_uid: u64 },
    /// The command needs the store or the map: the caller carries it out.
    Delegate,
    /// Send a group message to player `object_id`.
    Group { object_id: u32, msg: GroupMsg },
    /// Ask player `object_id` to teach `name` (of level `level`).
    MentorInvite { object_id: u32, name: String, level: u16 },
    /// Propose to player `object_id` on behalf of `name`.
    Proposal { object_id: u32, name: String },
    /// Tell player `object_id` that `by` declined their invitation (to
    /// marry when `marriage`, else to teach).
    Declined { object_id: u32, by: String, marriage: bool },
    /// Record in the store that `mentee` (character `mentee_char`) is taught
    /// by `mentor` (character `mentor_char`), and tell both.
    BindMentor { mentee: u32, mentee_char: i32, mentor: u32, mentor_char: i32 },
    /// Record in the store that `me` and `spouse` are married, and tell both.
    Wed { me: u32, me_char: i32, spouse: u32, spouse_char: i32 },
}

/// Abstract value of an `Action`.
pub enum ActionV {
    Tell(Notice),
    ShowGuild { name: Seq<char>, owner: Seq<char>, members: nat },
    ShowMarket,
    TransferItem { from_char: i32, to_char: i32, item_uid: u64 },
    Delegate,
    Group { object_id: u32, msg: GroupMsgV },
    MentorInvite { object_id: u32, name: Seq<char>, level: u16 },
    Proposal { object_id: u32, name: Seq<char> },
    Declined { object_id: u32, by: Seq<char>, marriage: bool },
    BindMentor { mentee: u32, mentee_char: i32, mentor: u32, mentor_char: i32 },
    Wed { me: u32, me_char: i32, spouse: u32, spouse_char: i32 },
}

impl View for Action {
    type V = ActionV;

    open spec fn view(&self) -> ActionV {
        match self {
            Action::Tell(n) => ActionV::Tell(*n),
            Action::ShowGuild { name, owner, members } => ActionV::ShowGuild {
                name: name@,
                owner: owner@,
                members: *members as nat,
            },
            Action::ShowMarket => ActionV::ShowMarket,
            Action::TransferItem { from_char, to_char, item_uid } => ActionV::TransferItem {
                from_char: *from_char,
                to_char: *to_char,
                item_uid: *item_uid,
            },
            Action::Delegate => ActionV::Delegate,
            Action::Group { object_id, msg } => ActionV::Group { object_id: *object_id, msg: msg@ },
            Action::MentorInvite { object_id, name, level } => ActionV::MentorInvite {
                object_id: *object_id,
                name: name@,
                level: *level,
            },
            Action::Proposal { object_id, name } => ActionV::Proposal { object_id: *object_id, name: name@ },
            Action::Declined { object_id, by, marriage } => ActionV::Declined {
                object_id: *object_id,
                by: by@,
                marriage: *marriage,
            },
            Action::BindMentor { mentee, mentee_char, mentor, mentor_char } => ActionV::BindMentor {
                mentee: *mentee,
                mentee_char: *mentee_char,
                mentor: *mentor,
                mentor_char: *mentor_char,
            },
            Action::Wed { me, me_char, spouse, spouse_char } => ActionV::Wed {
                me: *me,
                me_char: *me_char,
                spouse: *spouse,
                spouse_char: *spouse_char,
            },
        }
    }
}

/// The abstract values of a list of actions.
pub open spec fn actions_view(s: Seq<Action>) -> Seq<ActionV> {
    s.map_values(|a: Action| a@)
}

/// A player called `name`.
pub open spec fn player_named(name: Seq<char>) -> spec_fn(Player) -> bool {
    |p: Player| p.name@ == name
}

/// The name of the player with object id `who` (empty when not online).
pub open spec fn name_of(ps: Seq<Player>, who: u32) -> Seq<char> {
    match first_match(ps, player_id(who)) {
        Some(i) => ps[i].name@,
        None => Seq::empty(),
    }
}

/// `who` is a party of some trade.
pub open spec fn trading(t: TradeView, who: Seq<char>) -> bool {
    exists|i: int| 0 <= i < t.active.len() && involves(t.active[i], who)
}

/// A notice as the only action.
pub open spec fn tell(n: Notice) -> Seq<ActionV> {
    seq![ActionV::Tell(n)]
}

/// `/market_buy id`: when the buyer is online, the order exists, its price
/// is positive and the buyer has that much gold, the order leaves the market,
/// the buyer pays its price and the seller, when online, is paid (stopping at
/// `u32::MAX`); when both are online the item moves from the seller's
/// character to the buyer's. Otherwise nothing changes.
pub open spec fn spec_market_buy(g: GameView, who: u32, id: u64) -> (GameView, Seq<ActionV>) {
    let bi = first_match(g.players, player_id(who));
    let gold: u32 = match bi {
        Some(i) => g.players[i].gold,
        None => 0,
    };
    let price: u32 = if g.market.orders.contains_key(id) {
        g.market.orders[id].price
    } else {
        0
    };
    if gold >= price && price > 0 && bi is Some {
        let b = bi->0;
        let o = g.market.orders[id];
        let si = first_match(g.players, player_named(o.seller));
        let paid = g.players.update(b, Player { gold: (g.players[b].gold - price) as u32, ..g.players[b] });
        let players = match si {
            Some(s) => paid.update(
                s,
                Player { gold: sat_gold(paid[s].gold, price), ..paid[s] },
            ),
            None => paid,
        };
        let moved = match si {
            Some(s) => seq![
                ActionV::TransferItem {
                    from_char: g.players[s].character_index,
                    to_char: g.players[b].character_index,
                    item_uid: o.item_uid,
                },
            ],
            None => Seq::empty(),
        };
        (
            GameView { players, market: g.market.spec_take(id).0, ..g },
            moved.push(ActionV::Tell(Notice::Bought { price })),
        )
    } else {
        (g, tell(Notice::NotEnoughGold))
    }
}

/// A receiver's gold after `amount` more, stopping at `u32::MAX`.
pub open spec fn sat_gold(gold: u32, amount: u32) -> u32 {
    if gold + amount > u32::MAX {
        u32::MAX
    } else {
        (gold + amount) as u32
    }
}

/// A payment of a settlement: when the payer `from` is online, the amount
/// is positive and the payer has that much, it is taken from the payer and
/// given to `to` when online; otherwise nothing changes.
pub open spec fn pay_gold(ps: Seq<Player>, from: Option<int>, to: Option<int>, amount: u32) -> Seq<Player> {
    match from {
        Some(f) => if amount > 0 && ps[f].gold >= amount {
            let p1 = ps.update(f, Player { gold: (ps[f].gold - amount) as u32, ..ps[f] });
            match to {
                Some(t) => p1.update(t, Player { gold: sat_gold(p1[t].gold, amount), ..p1[t] }),
                None => p1,
            }
        } else {
            ps
        },
        None => ps,
    }
}

/// Moving each of `items` from one character to another.
pub open spec fn item_moves(items: Seq<u64>, from_char: i32, to_char: i32) -> Seq<ActionV> {
    items.map_values(|u: u64| ActionV::TransferItem { from_char, to_char, item_uid: u })
}

/// `/trade_gold amount`: the gold goes onto `me`'s side of its oldest trade.
pub open spec fn spec_trade_gold(g: GameView, me: Seq<char>, amount: u32) -> (GameView, Seq<ActionV>) {
    match first_trade(g.trade.active, me) {
        Some(i) => (
            GameView {
                trade: TradeView {
                    active: g.trade.active.update(i, with_gold(g.trade.active[i], me, amount)),
                    ..g.trade
                },
                ..g
            },
            tell(Notice::GoldAdded { amount }),
        ),
        None => (g, tell(Notice::NotInTrade)),
    }
}

/// `/trade_confirm`: `me`'s side of its oldest trade is confirmed. When both
/// sides are then confirmed the trade is settled and closed: with both
/// parties online, the items of each side move to the other's character;
/// each side's gold is paid to the other (see `pay_gold`), side A first.
pub open spec fn spec_trade_confirm(g: GameView, me: Seq<char>) -> (GameView, Seq<ActionV>) {
    let t1 = match first_trade(g.trade.active, me) {
        Some(i) => TradeView { active: g.trade.active.update(i, with_lock(g.trade.active[i], me)), ..g.trade },
        None => g.trade,
    };
    match first_trade(t1.active, me) {
        Some(i) => if t1.active[i].lock_a && t1.active[i].lock_b {
            let t = t1.active[i];
            let ai = first_match(g.players, player_named(t.a));
            let bi = first_match(g.players, player_named(t.b));
            let moves = if ai is Some && bi is Some {
                item_moves(t.items_a, g.players[ai->0].character_index, g.players[bi->0].character_index)
                    + item_moves(t.items_b, g.players[bi->0].character_index, g.players[ai->0].character_index)
            } else {
                Seq::empty()
            };
            let ps = pay_gold(pay_gold(g.players, ai, bi, t.gold_a), bi, ai, t.gold_b);
            (
                GameView { players: ps, trade: t1.spec_cancel(me).0, ..g },
                moves.push(ActionV::Tell(Notice::TradeDone)),
            )
        } else {
            (GameView { trade: t1, ..g }, tell(Notice::TradeConfirmed))
        },
        None => (GameView { trade: t1, ..g }, tell(Notice::TradeConfirmed)),
    }
}

/// `/mentor name` by player `who` (nothing happens when `who` is not
/// online): refused when no player of that name is online, when it is
/// `who`, or when that player takes no apprentices; otherwise that player
/// holds `who`'s name as the pending invitation and is asked to teach `who`.
pub open spec fn spec_mentor_request(g: GameView, who: u32, t: Seq<char>) -> (GameView, Seq<ActionV>) {
    match first_match(g.players, player_id(who)) {
        None => (g, Seq::empty()),
        Some(i) => {
            let me = g.players[i];
            match first_match(g.players, player_named(t)) {
                None => (g, tell(Notice::MentorRequestRefused { why: MentorRefusal::Offline })),
                Some(j) => if g.players[j].name@ == me.name@ {
                    (g, tell(Notice::MentorRequestRefused { why: MentorRefusal::IsSelf }))
                } else if !g.players[j].can_be_mentor {
                    (g, tell(Notice::MentorRequestRefused { why: MentorRefusal::NotAccepting }))
                } else {
                    (
                        GameView {
                            players: g.players.update(j, Player { pending_mentor: Some(me.name), ..g.players[j] }),
                            ..g
                        },
                        seq![
                            ActionV::MentorInvite { object_id: g.players[j].object_id, name: me.name@, level: me.level },
                            ActionV::Tell(Notice::MentorRequested),
                        ],
                    )
                },
            }
        },
    }
}

/// `/marry name` by player `who` (nothing happens when `who` is not
/// online): refused when no player of that name is online or when it is
/// `who`; otherwise each holds the other's name as the pending proposal and
/// the other is asked.
pub open spec fn spec_propose(g: GameView, who: u32, t: Seq<char>) -> (GameView, Seq<ActionV>) {
    match first_match(g.players, player_id(who)) {
        None => (g, Seq::empty()),
        Some(i) => match first_match(g.players, player_named(t)) {
            None => (g, tell(Notice::ProposalRefused { why: ProposalRefusal::Offline })),
            Some(j) => if g.players[j].object_id == who {
                (g, tell(Notice::ProposalRefused { why: ProposalRefusal::IsSelf }))
            } else {
                let p1 = g.players.update(i, Player { pending_marriage: Some(g.players[j].name), ..g.players[i] });
                let p2 = p1.update(j, Player { pending_marriage: Some(g.players[i].name), ..p1[j] });
                (
                    GameView { players: p2, ..g },
                    seq![
                        ActionV::Proposal { object_id: g.players[j].object_id, name: g.players[i].name@ },
                        ActionV::Tell(Notice::Proposed),
                    ],
                )
            },
        },
    }
}

/// The first player online named `n`, if `n` is given.
pub open spec fn named_opt(ps: Seq<Player>, n: Option<String>) -> Option<int> {
    match n {
        Some(n) => first_match(ps, player_named(n@)),
        None => None,
    }
}

/// The object id of player `k`, if any.
pub open spec fn oid_at(ps: Seq<Player>, k: Option<int>) -> Option<u32> {
    match k {
        Some(k) => Some(ps[k].object_id),
        None => None,
    }
}

/// `/mentor_accept` (`accept`) or `/mentor_refuse` by player `who` (nothing
/// happens when `who` is not online): see `spec_pending_reply`. Once
/// answered the invitation is gone; a refusal is told to the inviter, an
/// acceptance binds the two.
pub open spec fn spec_mentor_reply(g: GameView, who: u32, accept: bool) -> (GameView, Seq<ActionV>) {
    match first_match(g.players, player_id(who)) {
        None => (g, Seq::empty()),
        Some(i) => {
            let p = g.players[i];
            let mi = named_opt(g.players, p.pending_mentor);
            let cleared = GameView { players: g.players.update(i, Player { pending_mentor: None, ..p }), ..g };
            match spec_pending_reply(p.pending_mentor is Some, oid_at(g.players, mi), accept) {
                PendingReply::NoPending => (g, tell(Notice::NoPendingInvite)),
                PendingReply::PartnerOffline => (g, tell(Notice::InviterOffline)),
                PendingReply::Declined { partner } => (
                    cleared,
                    seq![
                        ActionV::Tell(Notice::InviteDeclined),
                        ActionV::Declined { object_id: partner, by: p.name@, marriage: false },
                    ],
                ),
                PendingReply::Accepted { partner } => (
                    cleared,
                    seq![
                        ActionV::BindMentor {
                            mentee: who,
                            mentee_char: p.character_index,
                            mentor: partner,
                            mentor_char: g.players[mi->0].character_index,
                        },
                    ],
                ),
            }
        },
    }
}

/// `/marry_accept` (`accept`) or `/marry_refuse` by player `who`: as
/// `spec_mentor_reply`, but an answered proposal is cleared on both sides,
/// and an acceptance weds the two.
pub open spec fn spec_marriage_reply(g: GameView, who: u32, accept: bool) -> (GameView, Seq<ActionV>) {
    match first_match(g.players, player_id(who)) {
        None => (g, Seq::empty()),
        Some(i) => {
            let p = g.players[i];
            let si = named_opt(g.players, p.pending_marriage);
            let p1 = g.players.update(i, Player { pending_marriage: None, ..p });
            let cleared = match si {
                Some(s) => GameView { players: p1.update(s, Player { pending_marriage: None, ..p1[s] }), ..g },
                None => GameView { players: p1, ..g },
            };
            match spec_pending_reply(p.pending_marriage is Some, oid_at(g.players, si), accept) {
                PendingReply::NoPending => (g, tell(Notice::NoPendingInvite)),
                PendingReply::PartnerOffline => (g, tell(Notice::InviterOffline)),
                PendingReply::Declined { partner } => (
                    cleared,
                    seq![
                        ActionV::Tell(Notice::InviteDeclined),
                        ActionV::Declined { object_id: partner, by: p.name@, marriage: true },
                    ],
                ),
                PendingReply::Accepted { partner } => (
                    cleared,
                    seq![
                        ActionV::Wed {
                            me: who,
                            me_char: p.character_index,
                            spouse: partner,
                            spouse_char: g.players[si->0].character_index,
                        },
                    ],
                ),
            }
        },
    }
}

/// The commands `chat_step` carries out without overflow: gold put into a
/// trade must fit on the player's side.
pub open spec fn chat_allowed(g: GameView, who: u32, cmd: ChatCmd) -> bool {
    match cmd {
        ChatCmd::TradeGold(a) => g.trade.gold_fits(name_of(g.players, who), a),
        _ => true,
    }
}

/// One chat command of player `who` (see `chat_step`).
pub open spec fn spec_chat_step(g: GameView, who: u32, cmd: ChatCmd) -> (GameView, Seq<ActionV>) {
    let me = name_of(g.players, who);
    match cmd {
        ChatCmd::TradeInfo => (g, tell(Notice::TradeStatus { open: trading(g.trade, me) })),
        ChatCmd::TradeRequest(t) => match t {
            None => (g, tell(Notice::Usage)),
            Some(t) => if first_match(g.players, player_named(t)) is Some {
                (GameView { trade: g.trade.spec_request(me, t), ..g }, tell(Notice::TradeRequested))
            } else {
                (g, tell(Notice::TargetOffline))
            },
        },
        ChatCmd::TradeAccept => {
            let (t, r) = g.trade.spec_accept(me);
            (
                GameView { trade: t, ..g },
                tell(
                    if r is Ok {
                        Notice::TradeAccepted
                    } else {
                        Notice::NoTradeRequest
                    },
                ),
            )
        },
        ChatCmd::TradeGold(a) => spec_trade_gold(g, me, a),
        ChatCmd::TradeConfirm => spec_trade_confirm(g, me),
        ChatCmd::TradeCancel => {
            let (t, r) = g.trade.spec_cancel(me);
            (
                GameView { trade: t, ..g },
                tell(
                    if r {
                        Notice::TradeCancelled
                    } else {
                        Notice::NotInTrade
                    },
                ),
            )
        },
        ChatCmd::Guild => if g.guild.member_guild.contains_key(me) && g.guild.guilds.contains_key(
            g.guild.member_guild[me],
        ) {
            let gs = g.guild.guilds[g.guild.member_guild[me]];
            (g, seq![ActionV::ShowGuild { name: gs.name, owner: gs.owner, members: gs.members.len() }])
        } else {
            (g, tell(Notice::NotInGuild))
        },
        ChatCmd::GuildCreate(n) => match n {
            None => (g, tell(Notice::Usage)),
            Some(n) => {
                let (v, r) = g.guild.spec_create(n, me);
                (
                    GameView { guild: v, ..g },
                    tell(
                        if r is Ok {
                            Notice::GuildCreated
                        } else {
                            Notice::GuildNameTaken
                        },
                    ),
                )
            },
        },
        ChatCmd::GuildJoin(n) => match n {
            None => (g, tell(Notice::Usage)),
            Some(n) => {
                let (v, r) = g.guild.spec_join(n, me);
                (
                    GameView { guild: v, ..g },
                    tell(
                        if r is Ok {
                            Notice::GuildJoined
                        } else {
                            Notice::GuildJoinFailed
                        },
                    ),
                )
            },
        },
        ChatCmd::GuildLeave => {
            let (v, r) = g.guild.spec_leave(me);
            (
                GameView { guild: v, ..g },
                tell(
                    if r {
                        Notice::GuildLeft
                    } else {
                        Notice::NotInGuild
                    },
                ),
            )
        },
        ChatCmd::Market => (g, seq![ActionV::ShowMarket]),
        ChatCmd::Help => (g, tell(Notice::Help)),
        ChatCmd::Unknown(_) => (g, tell(Notice::UnknownCommand)),
        ChatCmd::MentorToggle => match first_match(g.players, player_id(who)) {
            Some(i) => {
                let on = !g.players[i].can_be_mentor;
                (
                    GameView { players: g.players.update(i, Player { can_be_mentor: on, ..g.players[i] }), ..g },
                    tell(Notice::MentorToggled { on }),
                )
            },
            None => (g, Seq::empty()),
        },
        ChatCmd::MarketBuy(id) => match id {
            None => (g, tell(Notice::Usage)),
            Some(id) => spec_market_buy(g, who, id),
        },
        ChatCmd::Mentor(t) => match t {
            None => (g, tell(Notice::Usage)),
            Some(t) => spec_mentor_request(g, who, t),
        },
        ChatCmd::MentorAccept => spec_mentor_reply(g, who, true),
        ChatCmd::MentorRefuse => spec_mentor_reply(g, who, false),
        ChatCmd::Marry(t) => match t {
            None => (g, tell(Notice::Usage)),
            Some(t) => spec_propose(g, who, t),
        },
        ChatCmd::MarryAccept => spec_marriage_reply(g, who, true),
        ChatCmd::MarryRefuse => spec_marriage_reply(g, who, false),
        ChatCmd::MarketCancel(id) => match id {
            None => (g, tell(Notice::Usage)),
            Some(id) => {
                let (m, r) = g.market.spec_take(id);
                (
                    GameView { market: m, ..g },
                    tell(
                        if r is Ok {
                            Notice::OrderCancelled
                        } else {
                            Notice::OrderNotFound
                        },
                    ),
                )
            },
        },
        _ => (g, seq![ActionV::Delegate]),
    }
}

/// A purchase between two different players online moves the order's price
/// from the buyer to the seller (when the seller's gold has room for it),
/// takes the order off the market, moves the item from the seller's
/// character to the buyer's, and leaves every other player as it was.
pub proof fn law_market_buy_moves_gold(g: GameView, who: u32, id: u64, b: int, s: int)
    requires
        g.market.orders.contains_key(id),
        first_match(g.players, player_id(who)) == Some(b),
        first_match(g.players, player_named(g.market.orders[id].seller)) == Some(s),
        b != s,
        0 < g.market.orders[id].price <= g.players[b].gold,
        g.players[s].gold + g.market.orders[id].price <= u32::MAX,
    ensures
        ({
            let price = g.market.orders[id].price;
            let (g2, acts) = spec_market_buy(g, who, id);
            &&& g2.players.len() == g.players.len()
            &&& g2.players[b].gold == g.players[b].gold - price
            &&& g2.players[s].gold == g.players[s].gold + price
            &&& g2.players[b].gold + g2.players[s].gold == g.players[b].gold + g.players[s].gold
            &&& forall|k: int| 0 <= k < g.players.len() && k != b && k != s ==> g2.players[k] == g.players[k]
            &&& !g2.market.orders.contains_key(id)
            &&& acts == seq![
                ActionV::TransferItem {
                    from_char: g.players[s].character_index,
                    to_char: g.players[b].character_index,
                    item_uid: g.market.orders[id].item_uid,
                },
                ActionV::Tell(Notice::Bought { price }),
            ]
        }),
{
    let price = g.market.orders[id].price;
    let (g2, acts) = spec_market_buy(g, who, id);
    assert(acts =~= seq![
        ActionV::TransferItem {
            from_char: g.players[s].character_index,
            to_char: g.players[b].character_index,
            item_uid: g.market.orders[id].item_uid,
        },
        ActionV::Tell(Notice::Bought { price }),
    ]);
}

/// Replacing element `k` by one that `p` judges alike keeps the first match.
proof fn lemma_first_match_alike<T>(s: Seq<T>, p: spec_fn(T) -> bool, k: int, v: T)
    requires
        0 <= k < s.len(),
        p(v) == p(s[k]),
    ensures
        first_match(s.update(k, v), p) == first_match(s, p),
{
    let t = s.update(k, v);
    assert forall|j: int| #![trigger t[j]] #![trigger s[j]] 0 <= j < s.len() implies p(t[j]) == p(s[j]) by {
        if j == k {
            assert(t[j] == v);
        }
    }
    match first_match(s, p) {
        Some(m) => {
            assert(crate::combat::is_first(s, p, m));
            assert(crate::combat::is_first(t, p, m));
            lemma_first_match(t, p, m);
        },
        None => {
            if exists|m: int| crate::combat::is_first(t, p, m) {
                let m = choose|m: int| crate::combat::is_first(t, p, m);
                assert(crate::combat::is_first(s, p, m));
            }
        },
    }
}

/// The players after `a` (entry `i`) proposes to entry `j`.
pub open spec fn proposed(ps: Seq<Player>, i: int, j: int) -> Seq<Player> {
    let p1 = ps.update(i, Player { pending_marriage: Some(ps[j].name), ..ps[i] });
    p1.update(j, Player { pending_marriage: Some(ps[i].name), ..p1[j] })
}

#[verifier::spinoff_prover]
proof fn lemma_propose_step(g: GameView, a: u32, b: u32, t: Seq<char>, i: int, j: int)
    requires
        first_match(g.players, player_id(a)) == Some(i),
        first_match(g.players, player_named(t)) == Some(j),
        first_match(g.players, player_id(b)) == Some(j),
        first_match(g.players, player_named(g.players[i].name@)) == Some(i),
        b != a,
    ensures
        i != j,
        spec_propose(g, a, t) == (
            GameView { players: proposed(g.players, i, j), ..g },
            seq![ActionV::Proposal { object_id: b, name: g.players[i].name@ }, ActionV::Tell(Notice::Proposed)],
        ),
        first_match(proposed(g.players, i, j), player_id(b)) == Some(j),
        first_match(proposed(g.players, i, j), player_named(g.players[i].name@)) == Some(i),
{
    assert(crate::combat::is_first(g.players, player_id(a), i));
    assert(crate::combat::is_first(g.players, player_id(b), j));
    let ps = g.players;
    let v1 = Player { pending_marriage: Some(ps[j].name), ..ps[i] };
    let p1 = ps.update(i, v1);
    let v2 = Player { pending_marriage: Some(ps[i].name), ..p1[j] };
    lemma_first_match_alike(ps, player_id(b), i, v1);
    lemma_first_match_alike(p1, player_id(b), j, v2);
    lemma_first_match_alike(ps, player_named(ps[i].name@), i, v1);
    lemma_first_match_alike(p1, player_named(ps[i].name@), j, v2);
    assert(spec_propose(g, a, t).1 =~= seq![
        ActionV::Proposal { object_id: b, name: g.players[i].name@ },
        ActionV::Tell(Notice::Proposed),
    ]);
}

#[verifier::spinoff_prover]
proof fn lemma_accept_step(g1: GameView, a: u32, b: u32, i: int, j: int)
    requires
        0 <= i < g1.players.len(),
        0 <= j < g1.players.len(),
        i != j,
        first_match(g1.players, player_id(b)) == Some(j),
        g1.players[j].pending_marriage matches Some(n) && first_match(g1.players, player_named(n@)) == Some(i),
        g1.players[i].object_id == a,
    ensures
        ({
            let (g2, r2) = spec_marriage_reply(g1, b, true);
            &&& r2 == seq![
                ActionV::Wed {
                    me: b,
                    me_char: g1.players[j].character_index,
                    spouse: a,
                    spouse_char: g1.players[i].character_index,
                },
            ]
            &&& g2.players[i].pending_marriage is None
            &&& g2.players[j].pending_marriage is None
        }),
{
    assert(spec_marriage_reply(g1, b, true).1 =~= seq![
        ActionV::Wed {
            me: b,
            me_char: g1.players[j].character_index,
            spouse: a,
            spouse_char: g1.players[i].character_index,
        },
    ]);
}

/// A proposal that is accepted weds the two: when `a` proposes to `t`, the
/// player online under that name (object id `b`, not `a`), and `b` answers
/// yes, the two are wed (`b` answering, `a` as the spouse) and neither keeps
/// a pending proposal. Players are found by their first entry: `a` is the
/// first player of its name, and `b`'s entry is the one found by name.
pub proof fn law_proposal_accepted(g: GameView, a: u32, b: u32, t: Seq<char>, i: int, j: int)
    requires
        first_match(g.players, player_id(a)) == Some(i),
        first_match(g.players, player_named(t)) == Some(j),
        first_match(g.players, player_id(b)) == Some(j),
        first_match(g.players, player_named(g.players[i].name@)) == Some(i),
        b != a,
    ensures
        ({
            let (g1, r1) = spec_propose(g, a, t);
            let (g2, r2) = spec_marriage_reply(g1, b, true);
            &&& r1 == seq![
                ActionV::Proposal { object_id: b, name: g.players[i].name@ },
                ActionV::Tell(Notice::Proposed),
            ]
            &&& r2 == seq![
                ActionV::Wed {
                    me: b,
                    me_char: g.players[j].character_index,
                    spouse: a,
                    spouse_char: g.players[i].character_index,
                },
            ]
            &&& g2.players[i].pending_marriage is None
            &&& g2.players[j].pending_marriage is None
        }),
{
    lemma_propose_step(g, a, b, t, i, j);
    assert(crate::combat::is_first(g.players, player_id(a), i));
    let g1 = GameView { players: proposed(g.players, i, j), ..g };
    lemma_accept_step(g1, a, b, i, j);
}

/// A purchase the buyer cannot pay for (or of an order not on the market)
/// changes nothing and says so.
pub proof fn law_market_buy_refused(g: GameView, who: u32, id: u64)
    requires
        !g.market.orders.contains_key(id) || match first_match(g.players, player_id(who)) {
            Some(b) => g.players[b].gold < g.market.orders[id].price,
            None => true,
        },
    ensures
        spec_market_buy(g, who, id) == (g, tell(Notice::NotEnoughGold)),
{
}

/// Confirming the last open side of a trade between two different players
/// online settles it: each side's items move to the other's character, each
/// side's gold is paid to the other (when the payer has it and the receiver
/// has room), so the two hold together as much gold as before, and the trade
/// is closed.
#[verifier::spinoff_prover]
pub proof fn law_trade_settles(g: GameView, me: Seq<char>, i: int, a: int, b: int)
    requires
        first_trade(g.trade.active, me) == Some(i),
        ({
            let t = with_lock(g.trade.active[i], me);
            &&& t.lock_a && t.lock_b
            &&& first_match(g.players, player_named(t.a)) == Some(a)
            &&& first_match(g.players, player_named(t.b)) == Some(b)
            &&& a != b
            &&& t.gold_a <= g.players[a].gold
            &&& g.players[b].gold + t.gold_a <= u32::MAX
            &&& t.gold_b <= g.players[b].gold + t.gold_a
            &&& g.players[a].gold - t.gold_a + t.gold_b <= u32::MAX
        }),
    ensures
        ({
            let t = with_lock(g.trade.active[i], me);
            let (g2, acts) = spec_trade_confirm(g, me);
            &&& g2.players[a].gold == g.players[a].gold - t.gold_a + t.gold_b
            &&& g2.players[b].gold == g.players[b].gold + t.gold_a - t.gold_b
            &&& g2.players[a].gold + g2.players[b].gold == g.players[a].gold + g.players[b].gold
            &&& g2.trade.active == g.trade.active.remove(i)
            &&& acts == item_moves(t.items_a, g.players[a].character_index, g.players[b].character_index)
                + item_moves(t.items_b, g.players[b].character_index, g.players[a].character_index)
                + seq![ActionV::Tell(Notice::TradeDone)]
        }),
{
    let t = with_lock(g.trade.active[i], me);
    let act1 = g.trade.active.update(i, t);
    assert(is_first(act1, me, i)) by {
        assert(act1[i] == t);
        assert forall|j: int| 0 <= j < i implies !involves(#[trigger] act1[j], me) by {
            assert(act1[j] == g.trade.active[j]);
            assert(!involves(g.trade.active[j], me));
        }
    }
    lemma_first_unique(act1, me, i);
    let t1 = TradeView { active: act1, ..g.trade };
    assert(t1.spec_cancel(me).0.active =~= g.trade.active.remove(i)) by {
        assert(act1.remove(i) =~= g.trade.active.remove(i));
    }
    let (g2, acts) = spec_trade_confirm(g, me);
    let moves = item_moves(t.items_a, g.players[a].character_index, g.players[b].character_index)
        + item_moves(t.items_b, g.players[b].character_index, g.players[a].character_index);
    assert(acts =~= moves + seq![ActionV::Tell(Notice::TradeDone)]);
}

/// The first player called `name`.
pub(crate) fn find_named(ps: &Vec<Player>, name: &String) -> (r: Option<usize>)
    ensures
        match r {
            Some(k) => first_match(ps@, player_named(name@)) == Some(k as int),
            None => first_match(ps@, player_named(name@)) is None,
        },
{
    let ghost p = player_named(name@);
    let mut i: usize = 0;
    while i < ps.len()
        invariant
            i <= ps.len(),
            p == player_named(name@),
            forall|j: int| 0 <= j < i ==> !p(#[trigger] ps@[j]),
        decreases ps.len() - i,
    {
        if ps[i].name == *name {
            proof {
                lemma_first_match(ps@, p, i as int);
            }
            return Some(i);
        }
        i = i + 1;
    }
    None
}

/// The name of player `who`, empty when not online.
pub(crate) fn player_name(ps: &Vec<Player>, who: u32) -> (r: String)
    ensures
        r@ == name_of(ps@, who),
{
    match find_player(ps, who) {
        Some(i) => ps[i].name.clone(),
        None => String::new(),
    }
}

/// Sets player `j`'s pending invitation to be taught.
fn set_pending_mentor(ps: &mut Vec<Player>, j: usize, v: Option<String>)
    requires
        j < old(ps).len(),
    ensures
        final(ps)@ == old(ps)@.update(j as int, Player { pending_mentor: v, ..old(ps)@[j as int] }),
{
    let ghost p0 = ps@;
    let mut p = take_player(ps, j);
    p.pending_mentor = v;
    ps.insert(j, p);
    assert(ps@ =~= p0.update(j as int, Player { pending_mentor: v, ..p0[j as int] }));
}

/// Sets player `j`'s pending proposal.
fn set_pending_marriage(ps: &mut Vec<Player>, j: usize, v: Option<String>)
    requires
        j < old(ps).len(),
    ensures
        final(ps)@ == old(ps)@.update(j as int, Player { pending_marriage: v, ..old(ps)@[j as int] }),
{
    let ghost p0 = ps@;
    let mut p = take_player(ps, j);
    p.pending_marriage = v;
    ps.insert(j, p);
    assert(ps@ =~= p0.update(j as int, Player { pending_marriage: v, ..p0[j as int] }));
}

/// `/mentor name` (see `spec_mentor_request`).
fn mentor_request(g: &mut GameState, who: u32, t: &String) -> (r: Vec<Action>)
    requires
        old(g)@.wf(),
    ensures
        (final(g)@, actions_view(r@)) == spec_mentor_request(old(g)@, who, t@),
{
    let r = match find_player(&g.players, who) {
        None => Vec::new(),
        Some(i) => {
            let my_name = g.players[i].name.clone();
            let level = g.players[i].level;
            match find_named(&g.players, t) {
                None => vec![Action::Tell(Notice::MentorRequestRefused { why: MentorRefusal::Offline })],
                Some(j) => {
                    let target = Some((g.players[j].name.clone(), g.players[j].can_be_mentor));
                    match mentor_request_check(my_name.as_str(), &target) {
                        Err(why) => vec![Action::Tell(Notice::MentorRequestRefused { why })],
                        Ok(()) => {
                            let oid = g.players[j].object_id;
                            set_pending_mentor(&mut g.players, j, Some(my_name.clone()));
                            vec![
                                Action::MentorInvite { object_id: oid, name: my_name, level },
                                Action::Tell(Notice::MentorRequested),
                            ]
                        },
                    }
                },
            }
        },
    };
    proof {
        assert(actions_view(r@) =~= spec_mentor_request(old(g)@, who, t@).1);
    }
    r
}

/// Players `i` and `j` each hold the other's name as the pending proposal.
fn exchange_proposals(ps: &mut Vec<Player>, i: usize, j: usize)
    requires
        i < old(ps).len(),
        j < old(ps).len(),
        i != j,
    ensures
        final(ps)@ == ({
            let p1 = old(ps)@.update(
                i as int,
                Player { pending_marriage: Some(old(ps)@[j as int].name), ..old(ps)@[i as int] },
            );
            p1.update(j as int, Player { pending_marriage: Some(old(ps)@[i as int].name), ..p1[j as int] })
        }),
{
    let my_name = ps[i].name.clone();
    let their_name = ps[j].name.clone();
    set_pending_marriage(ps, i, Some(their_name));
    set_pending_marriage(ps, j, Some(my_name));
}

/// `/marry name` (see `spec_propose`).
fn propose_to(g: &mut GameState, who: u32, t: &String) -> (r: Vec<Action>)
    requires
        old(g)@.wf(),
    ensures
        (final(g)@, actions_view(r@)) == spec_propose(old(g)@, who, t@),
{
    let r = match find_player(&g.players, who) {
        None => Vec::new(),
        Some(i) => match find_named(&g.players, t) {
            None => vec![Action::Tell(Notice::ProposalRefused { why: ProposalRefusal::Offline })],
            Some(j) => match proposal_check(who, Some(g.players[j].object_id)) {
                Err(why) => vec![Action::Tell(Notice::ProposalRefused { why })],
                Ok(oid) => {
                    proof {
                        assert(crate::combat::is_first(g.players@, player_id(who), i as int));
                    }
                    let my_name = g.players[i].name.clone();
                    exchange_proposals(&mut g.players, i, j);
                    vec![Action::Proposal { object_id: oid, name: my_name }, Action::Tell(Notice::Proposed)]
                },
            },
        },
    };
    proof {
        assert(actions_view(r@) =~= spec_propose(old(g)@, who, t@).1);
    }
    r
}

/// The first player online named `n`, if `n` is given.
fn find_named_opt(ps: &Vec<Player>, n: &Option<String>) -> (r: Option<usize>)
    ensures
        match r {
            Some(k) => named_opt(ps@, *n) == Some(k as int),
            None => named_opt(ps@, *n) is None,
        },
{
    match n {
        Some(n) => find_named(ps, n),
        None => None,
    }
}

/// `/mentor_accept` and `/mentor_refuse` (see `spec_mentor_reply`).
fn mentor_reply(g: &mut GameState, who: u32, accept: bool) -> (r: Vec<Action>)
    requires
        old(g)@.wf(),
    ensures
        (final(g)@, actions_view(r@)) == spec_mentor_reply(old(g)@, who, accept),
{
    let r = match find_player(&g.players, who) {
        None => Vec::new(),
        Some(i) => {
            let mi = find_named_opt(&g.players, &g.players[i].pending_mentor);
            let (partner, mentor_char) = match mi {
                Some(m) => (Some(g.players[m].object_id), g.players[m].character_index),
                None => (None, 0),
            };
            let ghost p0 = g.players@;
            let mut p = take_player(&mut g.players, i);
            let my_name = p.name.clone();
            let my_char = p.character_index;
            let ans = answer_mentor(&mut p, partner, accept);
            g.players.insert(i, p);
            proof {
                if answered(ans) {
                    assert(g.players@ =~= p0.update(i as int, Player { pending_mentor: None, ..p0[i as int] }));
                } else {
                    assert(g.players@ =~= p0);
                }
            }
            match ans {
                PendingReply::NoPending => vec![Action::Tell(Notice::NoPendingInvite)],
                PendingReply::PartnerOffline => vec![Action::Tell(Notice::InviterOffline)],
                PendingReply::Declined { partner } => vec![
                    Action::Tell(Notice::InviteDeclined),
                    Action::Declined { object_id: partner, by: my_name, marriage: false },
                ],
                PendingReply::Accepted { partner } => vec![
                    Action::BindMentor { mentee: who, mentee_char: my_char, mentor: partner, mentor_char },
                ],
            }
        },
    };
    proof {
        assert(actions_view(r@) =~= spec_mentor_reply(old(g)@, who, accept).1);
    }
    r
}

/// `/marry_accept` and `/marry_refuse` (see `spec_marriage_reply`).
fn marriage_reply(g: &mut GameState, who: u32, accept: bool) -> (r: Vec<Action>)
    requires
        old(g)@.wf(),
    ensures
        (final(g)@, actions_view(r@)) == spec_marriage_reply(old(g)@, who, accept),
{
    let r = match find_player(&g.players, who) {
        None => Vec::new(),
        Some(i) => {
            let si = find_named_opt(&g.players, &g.players[i].pending_marriage);
            let (partner, spouse_char) = match si {
                Some(s) => (Some(g.players[s].object_id), g.players[s].character_index),
                None => (None, 0),
            };
            let ghost p0 = g.players@;
            let mut p = take_player(&mut g.players, i);
            let my_name = p.name.clone();
            let my_char = p.character_index;
            let ans = answer_marriage(&mut p, partner, accept);
            g.players.insert(i, p);
            proof {
                if answered(ans) {
                    assert(g.players@ =~= p0.update(i as int, Player { pending_marriage: None, ..p0[i as int] }));
                } else {
                    assert(g.players@ =~= p0);
                }
            }
            match ans {
                PendingReply::NoPending => vec![Action::Tell(Notice::NoPendingInvite)],
                PendingReply::PartnerOffline => vec![Action::Tell(Notice::InviterOffline)],
                PendingReply::Declined { partner } => {
                    if let Some(s) = si {
                        set_pending_marriage(&mut g.players, s, None);
                    }
                    vec![
                        Action::Tell(Notice::InviteDeclined),
                        Action::Declined { object_id: partner, by: my_name, marriage: true },
                    ]
                },
                PendingReply::Accepted { partner } => {
                    if let Some(s) = si {
                        set_pending_marriage(&mut g.players, s, None);
                    }
                    vec![Action::Wed { me: who, me_char: my_char, spouse: partner, spouse_char }]
                },
            }
        },
    };
    proof {
        assert(actions_view(r@) =~= spec_marriage_reply(old(g)@, who, accept).1);
    }
    r
}

/// Takes player `i` out of the list.
pub(crate) fn take_player(ps: &mut Vec<Player>, i: usize) -> (r: Player)
    requires
        i < old(ps).len(),
    ensures
        r == old(ps)@[i as int],
        final(ps)@ == old(ps)@.remove(i as int),
{
    ps.remove(i)
}

/// `/market_buy` (see `spec_market_buy`).
fn market_buy(g: &mut GameState, who: u32, id: u64) -> (r: Vec<Action>)
    requires
        old(g)@.wf(),
    ensures
        final(g)@.wf(),
        (final(g)@, actions_view(r@)) == spec_market_buy(old(g)@, who, id),
{
    let ghost g0 = g@;
    let bi = find_player(&g.players, who);
    let gold: u32 = match bi {
        Some(i) => g.players[i].gold,
        None => 0,
    };
    let price: u32 = match g.market.get_order(id) {
        Some(o) => o.price,
        None => 0,
    };
    if !(gold >= price && price > 0 && bi.is_some()) {
        let r = vec![Action::Tell(Notice::NotEnoughGold)];
        assert(actions_view(r@) =~= tell(Notice::NotEnoughGold));
        return r;
    }
    let b = match bi {
        Some(b) => b,
        None => return Vec::new(),
    };
    let o = match g.market.buy(id) {
        Ok(o) => o,
        Err(_) => return Vec::new(),
    };
    let si = find_named(&g.players, &o.seller);
    let mut r: Vec<Action> = Vec::new();
    match si {
        Some(s) => {
            r.push(
                Action::TransferItem {
                    from_char: g.players[s].character_index,
                    to_char: g.players[b].character_index,
                    item_uid: o.item_uid,
                },
            );
        },
        None => {},
    }
    let ghost moved = actions_view(r@);
    let mut p = take_player(&mut g.players, b);
    let paid = remove_gold(&mut p, o.price);
    g.players.insert(b, p);
    assert(g.players@ =~= g0.players.update(
        b as int,
        Player { gold: (g0.players[b as int].gold - price) as u32, ..g0.players[b as int] },
    ));
    let ghost ps1 = g.players@;
    if paid {
        match si {
            Some(s) => {
                let mut q = take_player(&mut g.players, s);
                gain_gold(&mut q, o.price);
                g.players.insert(s, q);
                assert(g.players@ =~= ps1.update(s as int, q));
            },
            None => {},
        }
    }
    r.push(Action::Tell(Notice::Bought { price: o.price }));
    assert(actions_view(r@) =~= moved.push(ActionV::Tell(Notice::Bought { price })));
    r
}

/// The index as an integer, if any.
pub open spec fn index_of(o: Option<usize>) -> Option<int> {
    match o {
        Some(i) => Some(i as int),
        None => None,
    }
}

/// Appends the moves of `items` to `r`.
fn push_moves(r: &mut Vec<Action>, items: &Vec<u64>, from_char: i32, to_char: i32)
    ensures
        actions_view(final(r)@) == actions_view(old(r)@) + item_moves(items@, from_char, to_char),
{
    let mut i: usize = 0;
    while i < items.len()
        invariant
            i <= items@.len(),
            actions_view(r@) == actions_view(old(r)@) + item_moves(items@.subrange(0, i as int), from_char, to_char),
        decreases items@.len() - i,
    {
        let ghost before = actions_view(r@);
        r.push(Action::TransferItem { from_char, to_char, item_uid: items[i] });
        proof {
            assert(actions_view(r@) =~= before.push(
                ActionV::TransferItem { from_char, to_char, item_uid: items@[i as int] },
            ));
            assert(item_moves(items@.subrange(0, i + 1), from_char, to_char) =~= item_moves(
                items@.subrange(0, i as int),
                from_char,
                to_char,
            ).push(ActionV::TransferItem { from_char, to_char, item_uid: items@[i as int] }));
        }
        i = i + 1;
    }
    assert(items@.subrange(0, items@.len() as int) =~= items@);
}

/// One payment of a settlement (see `pay_gold`).
fn pay(ps: &mut Vec<Player>, from: Option<usize>, to: Option<usize>, amount: u32)
    requires
        from matches Some(f) ==> f < old(ps)@.len(),
        to matches Some(t) ==> t < old(ps)@.len(),
    ensures
        final(ps)@ == pay_gold(old(ps)@, index_of(from), index_of(to), amount),
{
    let ghost p0 = ps@;
    let f = match from {
        Some(f) => f,
        None => return,
    };
    if amount == 0 || ps[f].gold < amount {
        return;
    }
    let mut p = take_player(ps, f);
    remove_gold(&mut p, amount);
    ps.insert(f, p);
    assert(ps@ =~= p0.update(f as int, Player { gold: (p0[f as int].gold - amount) as u32, ..p0[f as int] }));
    let ghost p1 = ps@;
    match to {
        Some(t) => {
            let mut q = take_player(ps, t);
            gain_gold(&mut q, amount);
            ps.insert(t, q);
            assert(ps@ =~= p1.update(t as int, Player { gold: sat_gold(p1[t as int].gold, amount), ..p1[t as int] }));
        },
        None => {},
    }
}

/// `/trade_confirm` (see `spec_trade_confirm`).
fn trade_confirm(g: &mut GameState, me: &String) -> (r: Vec<Action>)
    requires
        old(g)@.wf(),
    ensures
        final(g)@.wf(),
        (final(g)@, actions_view(r@)) == spec_trade_confirm(old(g)@, me@),
{
    let _ = g.trade.confirm(me);
    match g.trade.complete(me) {
        Ok(Some(s)) => {
            let ai = find_named(&g.players, &s.a);
            let bi = find_named(&g.players, &s.b);
            let mut r: Vec<Action> = Vec::new();
            match (ai, bi) {
                (Some(a), Some(b)) => {
                    let ca = g.players[a].character_index;
                    let cb = g.players[b].character_index;
                    push_moves(&mut r, &s.a_items_to_b, ca, cb);
                    push_moves(&mut r, &s.b_items_to_a, cb, ca);
                    assert(actions_view(r@) =~= item_moves(s.a_items_to_b@, ca, cb) + item_moves(
                        s.b_items_to_a@,
                        cb,
                        ca,
                    ));
                },
                _ => {
                    assert(actions_view(r@) =~= Seq::<ActionV>::empty());
                },
            }
            let ghost moved = actions_view(r@);
            pay(&mut g.players, ai, bi, s.a_gold_to_b);
            pay(&mut g.players, bi, ai, s.b_gold_to_a);
            r.push(Action::Tell(Notice::TradeDone));
            assert(actions_view(r@) =~= moved.push(ActionV::Tell(Notice::TradeDone)));
            r
        },
        _ => {
            let r = vec![Action::Tell(Notice::TradeConfirmed)];
            assert(actions_view(r@) =~= tell(Notice::TradeConfirmed));
            r
        },
    }
}

/// Carries out chat command `cmd` of player `who` (see `spec_chat_step`):
/// trade offers, acceptance, cancelling and status; showing, founding,
/// joining and leaving a guild; showing the market, buying and withdrawing
/// orders; putting gold into a trade and confirming it, which settles a trade
/// both sides confirmed; switching the taking of apprentices, asking a player
/// to teach and answering such a request; proposing marriage and answering a
/// proposal; the list of commands, and an answer to a word that is not a
/// command. A command
/// without its argument is answered with its
/// usage; the commands that need the store or the map are handed back to the
/// caller.
pub fn chat_step(g: &mut GameState, who: u32, cmd: &ChatCommand) -> (r: Vec<Action>)
    requires
        old(g)@.wf(),
        chat_allowed(old(g)@, who, cmd@),
    ensures
        final(g)@.wf(),
        (final(g)@, actions_view(r@)) == spec_chat_step(old(g)@, who, cmd@),
{
    let me = player_name(&g.players, who);
    let r = match cmd {
        ChatCommand::TradeInfo => {
            let open = g.trade.in_trade(&me);
            vec![Action::Tell(Notice::TradeStatus { open })]
        },
        ChatCommand::TradeRequest(t) => match t {
            None => vec![Action::Tell(Notice::Usage)],
            Some(t) => {
                if find_named(&g.players, t).is_some() {
                    g.trade.request(&me, t);
                    vec![Action::Tell(Notice::TradeRequested)]
                } else {
                    vec![Action::Tell(Notice::TargetOffline)]
                }
            },
        },
        ChatCommand::TradeAccept => {
            let ok = g.trade.accept(&me).is_ok();
            vec![
                Action::Tell(
                    if ok {
                        Notice::TradeAccepted
                    } else {
                        Notice::NoTradeRequest
                    },
                ),
            ]
        },
        ChatCommand::TradeGold(a) => {
            if g.trade.add_gold(&me, *a).is_ok() {
                vec![Action::Tell(Notice::GoldAdded { amount: *a })]
            } else {
                vec![Action::Tell(Notice::NotInTrade)]
            }
        },
        ChatCommand::TradeConfirm => trade_confirm(g, &me),
        ChatCommand::TradeCancel => {
            let ok = g.trade.cancel(&me);
            vec![
                Action::Tell(
                    if ok {
                        Notice::TradeCancelled
                    } else {
                        Notice::NotInTrade
                    },
                ),
            ]
        },
        ChatCommand::Guild => match g.guild.guild_of(&me) {
            Some(gd) => vec![
                Action::ShowGuild {
                    name: gd.name.clone(),
                    owner: gd.owner.clone(),
                    members: gd.members.len(),
                },
            ],
            None => vec![Action::Tell(Notice::NotInGuild)],
        },
        ChatCommand::GuildCreate(n) => match n {
            None => vec![Action::Tell(Notice::Usage)],
            Some(n) => {
                let ok = g.guild.create(n, &me).is_ok();
                vec![
                    Action::Tell(
                        if ok {
                            Notice::GuildCreated
                        } else {
                            Notice::GuildNameTaken
                        },
                    ),
                ]
            },
        },
        ChatCommand::GuildJoin(n) => match n {
            None => vec![Action::Tell(Notice::Usage)],
            Some(n) => {
                let ok = g.guild.join(n, &me).is_ok();
                vec![
                    Action::Tell(
                        if ok {
                            Notice::GuildJoined
                        } else {
                            Notice::GuildJoinFailed
                        },
                    ),
                ]
            },
        },
        ChatCommand::GuildLeave => {
            let ok = g.guild.leave(&me);
            vec![
                Action::Tell(
                    if ok {
                        Notice::GuildLeft
                    } else {
                        Notice::NotInGuild
                    },
                ),
            ]
        },
        ChatCommand::Market => vec![Action::ShowMarket],
        ChatCommand::Help => vec![Action::Tell(Notice::Help)],
        ChatCommand::Unknown(_) => vec![Action::Tell(Notice::UnknownCommand)],
        ChatCommand::MentorToggle => match find_player(&g.players, who) {
            Some(i) => {
                let ghost p0 = g.players@;
                let mut p = take_player(&mut g.players, i);
                let on = crate::services::toggle_mentoring(&mut p);
                g.players.insert(i, p);
                assert(g.players@ =~= p0.update(i as int, Player { can_be_mentor: on, ..p0[i as int] }));
                vec![Action::Tell(Notice::MentorToggled { on })]
            },
            None => Vec::new(),
        },
        ChatCommand::MarketBuy(id) => match id {
            None => vec![Action::Tell(Notice::Usage)],
            Some(id) => market_buy(g, who, *id),
        },
        ChatCommand::Mentor(t) => match t {
            None => vec![Action::Tell(Notice::Usage)],
            Some(t) => mentor_request(g, who, t),
        },
        ChatCommand::MentorAccept => mentor_reply(g, who, true),
        ChatCommand::MentorRefuse => mentor_reply(g, who, false),
        ChatCommand::Marry(t) => match t {
            None => vec![Action::Tell(Notice::Usage)],
            Some(t) => propose_to(g, who, t),
        },
        ChatCommand::MarryAccept => marriage_reply(g, who, true),
        ChatCommand::MarryRefuse => marriage_reply(g, who, false),
        ChatCommand::MarketCancel(id) => match id {
            None => vec![Action::Tell(Notice::Usage)],
            Some(id) => {
                let ok = g.market.cancel(*id).is_ok();
                vec![
                    Action::Tell(
                        if ok {
                            Notice::OrderCancelled
                        } else {
                            Notice::OrderNotFound
                        },
                    ),
                ]
            },
        },
        _ => vec![Action::Delegate],
    };
    proof {
        assert(actions_view(r@) =~= spec_chat_step(old(g)@, who, cmd@).1);
    }
    r
}

} // verus!
