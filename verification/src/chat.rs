//! Chat input: splitting a message into words, reading numbers the way
//! `str::parse` does, and recognising the slash commands of the chat box
//! (`/map 100`, `/trade_req Bob`, `/mail_send Bob 10 hello there`, ...).
use vstd::prelude::*;
use vstd::string::StrSliceExecFns;

use crate::names::{lemma_names_push, names};
use crate::text::{is_whitespace, is_ws, push_char, trim};

verus! {

// ----------------------------------------------------------------------------
// Words
// ----------------------------------------------------------------------------

/// Scanning `s` from the left: the words completed so far and the word being
/// read (empty between words).
pub open spec fn split_state(s: Seq<char>) -> (Seq<Seq<char>>, Seq<char>)
    decreases s.len(),
{
    if s.len() == 0 {
        (Seq::empty(), Seq::empty())
    } else {
        let (ws, cur) = split_state(s.drop_last());
        let c = s.last();
        if is_ws(c) {
            if cur.len() > 0 {
                (ws.push(cur), Seq::empty())
            } else {
                (ws, Seq::empty())
            }
        } else {
            (ws, cur.push(c))
        }
    }
}

/// `str::split_whitespace`: the maximal runs of non-white-space characters.
pub open spec fn words(s: Seq<char>) -> Seq<Seq<char>> {
    let (ws, cur) = split_state(s);
    if cur.len() > 0 {
        ws.push(cur)
    } else {
        ws
    }
}

/// The words of `s`.
pub fn split_words(s: &str) -> (r: Vec<String>)
    ensures
        names(r@) == words(s@),
{
    let n = s.unicode_len();
    let mut ws: Vec<String> = Vec::new();
    let mut cur = String::new();
    let mut i: usize = 0;
    while i < n
        invariant
            n == s@.len(),
            i <= n,
            (names(ws@), cur@) == split_state(s@.take(i as int)),
        decreases n - i,
    {
        let c = s.get_char(i);
        assert(s@.take(i + 1).drop_last() =~= s@.take(i as int));
        assert(s@.take(i + 1).last() == c);
        if is_whitespace(c) {
            if cur.unicode_len() > 0 {
                let done = cur;
                proof {
                    lemma_names_push(ws@, done);
                }
                ws.push(done);
                cur = String::new();
            } else {
                cur = String::new();
            }
            assert(cur@ =~= Seq::<char>::empty());
        } else {
            push_char(&mut cur, c);
        }
        i = i + 1;
    }
    assert(s@.take(n as int) =~= s@);
    if cur.unicode_len() > 0 {
        proof {
            lemma_names_push(ws@, cur);
        }
        ws.push(cur);
    }
    ws
}

// ----------------------------------------------------------------------------
// Numbers
// ----------------------------------------------------------------------------

pub open spec fn is_digit(c: char) -> bool {
    '0' <= c <= '9'
}

/// The value of a string of decimal digits.
pub open spec fn dec_value(s: Seq<char>) -> nat
    decreases s.len(),
{
    if s.len() == 0 {
        0
    } else {
        dec_value(s.drop_last()) * 10 + (s.last() as nat - '0' as nat) as nat
    }
}

pub open spec fn all_digits(s: Seq<char>) -> bool {
    forall|i: int| 0 <= i < s.len() ==> is_digit(#[trigger] s[i])
}

/// `s` read as `str::parse` reads an integer: an optional sign (`+`, or `-`
/// when `signed`), then at least one decimal digit and nothing else; the
/// value must lie in `min..=max`.
pub open spec fn spec_parse(s: Seq<char>, signed: bool, min: int, max: int) -> Option<int> {
    let neg = signed && s.len() > 0 && s[0] == '-';
    let d = if s.len() > 0 && (s[0] == '+' || neg) {
        s.drop_first()
    } else {
        s
    };
    let v = if neg {
        -(dec_value(d) as int)
    } else {
        dec_value(d) as int
    };
    if d.len() > 0 && all_digits(d) && min <= v <= max {
        Some(v)
    } else {
        None
    }
}

proof fn lemma_dec_value_grows(s: Seq<char>, i: int)
    requires
        all_digits(s),
        0 <= i <= s.len(),
    ensures
        dec_value(s.take(i)) <= dec_value(s),
    decreases s.len() - i,
{
    if i < s.len() {
        lemma_dec_value_grows(s, i + 1);
        assert(s.take(i + 1).drop_last() =~= s.take(i));
    } else {
        assert(s.take(i) =~= s);
    }
}

/// Reads `s` as `spec_parse` says, for `-2^63 <= min <= 0 <= max < 2^64`.
fn parse_int(s: &str, signed: bool, min: i128, max: i128) -> (r: Option<i128>)
    requires
        -0x8000_0000_0000_0000 <= min <= 0,
        0 <= max <= 0xFFFF_FFFF_FFFF_FFFF,
    ensures
        match r {
            Some(v) => spec_parse(s@, signed, min as int, max as int) == Some(v as int),
            None => spec_parse(s@, signed, min as int, max as int) is None,
        },
{
    let n = s.unicode_len();
    let ghost sv = s@;
    let neg = signed && n > 0 && s.get_char(0) == '-';
    let start: usize = if n > 0 && (s.get_char(0) == '+' || neg) { 1 } else { 0 };
    let ghost d = if sv.len() > 0 && (sv[0] == '+' || neg) { sv.drop_first() } else { sv };
    assert(d =~= sv.subrange(start as int, n as int));
    assert(neg == (signed && sv.len() > 0 && sv[0] == '-'));
    if start >= n {
        return None;
    }
    let limit: i128 = if neg { -min } else { max };
    let mut v: i128 = 0;
    let mut i: usize = start;
    while i < n
        invariant
            n == sv.len(),
            sv == s@,
            start <= i <= n,
            d == sv.subrange(start as int, n as int),
            neg == (signed && sv.len() > 0 && sv[0] == '-'),
            d == (if sv.len() > 0 && (sv[0] == '+' || neg) { sv.drop_first() } else { sv }),
            limit == (if neg { -min } else { max as int }),
            0 <= limit <= 0xFFFF_FFFF_FFFF_FFFF,
            all_digits(d.take(i - start)),
            v == dec_value(d.take(i - start)),
            v <= limit,
        decreases n - i,
    {
        let c = s.get_char(i);
        assert(d[i - start] == c);
        assert(d.take(i + 1 - start).drop_last() =~= d.take(i - start));
        if !('0' <= c && c <= '9') {
            assert(!is_digit(d[i - start]));
            assert(!all_digits(d));
            return None;
        }
        let digit = (c as u32 - '0' as u32) as i128;
        v = v * 10 + digit;
        i = i + 1;
        assert(all_digits(d.take(i - start)));
        if v > limit {
            proof {
                if all_digits(d) {
                    lemma_dec_value_grows(d, i - start);
                }
            }
            return None;
        }
    }
    assert(d.take(n - start) =~= d);
    if neg {
        Some(-v)
    } else {
        Some(v)
    }
}

pub fn parse_u32(s: &str) -> (r: Option<u32>)
    ensures
        match r {
            Some(v) => spec_parse(s@, false, 0, u32::MAX as int) == Some(v as int),
            None => spec_parse(s@, false, 0, u32::MAX as int) is None,
        },
{
    match parse_int(s, false, 0, 0xFFFF_FFFF) {
        Some(v) => Some(v as u32),
        None => None,
    }
}

pub fn parse_u64(s: &str) -> (r: Option<u64>)
    ensures
        match r {
            Some(v) => spec_parse(s@, false, 0, u64::MAX as int) == Some(v as int),
            None => spec_parse(s@, false, 0, u64::MAX as int) is None,
        },
{
    match parse_int(s, false, 0, 0xFFFF_FFFF_FFFF_FFFF) {
        Some(v) => Some(v as u64),
        None => None,
    }
}

pub fn parse_i32(s: &str) -> (r: Option<i32>)
    ensures
        match r {
            Some(v) => spec_parse(s@, true, i32::MIN as int, i32::MAX as int) == Some(v as int),
            None => spec_parse(s@, true, i32::MIN as int, i32::MAX as int) is None,
        },
{
    match parse_int(s, true, -0x8000_0000, 0x7FFF_FFFF) {
        Some(v) => Some(v as i32),
        None => None,
    }
}

pub fn parse_i64(s: &str) -> (r: Option<i64>)
    ensures
        match r {
            Some(v) => spec_parse(s@, true, i64::MIN as int, i64::MAX as int) == Some(v as int),
            None => spec_parse(s@, true, i64::MIN as int, i64::MAX as int) is None,
        },
{
    match parse_int(s, true, -0x8000_0000_0000_0000, 0x7FFF_FFFF_FFFF_FFFF) {
        Some(v) => Some(v as i64),
        None => None,
    }
}


// ----------------------------------------------------------------------------
// Commands
// ----------------------------------------------------------------------------

pub open spec fn opt_view(a: Option<String>) -> Option<Seq<char>> {
    match a {
        Some(s) => Some(s@),
        None => None,
    }
}

/// Word `i` of `ws`, if there is one.
pub open spec fn arg(ws: Seq<Seq<char>>, i: int) -> Option<Seq<char>> {
    if 0 <= i < ws.len() {
        Some(ws[i])
    } else {
        None
    }
}

/// The words joined with single spaces.
pub open spec fn join(ws: Seq<Seq<char>>) -> Seq<char>
    decreases ws.len(),
{
    if ws.len() == 0 {
        Seq::empty()
    } else if ws.len() == 1 {
        ws[0]
    } else {
        join(ws.drop_last()) + seq![' '] + ws.last()
    }
}

/// The title of a mail command: the words from the fourth on, joined with
/// spaces, or `default` when there are none.
pub open spec fn title_or(ws: Seq<Seq<char>>, default: Seq<char>) -> Seq<char> {
    let t = if ws.len() > 3 {
        join(ws.subrange(3, ws.len() as int))
    } else {
        Seq::empty()
    };
    if t.len() == 0 {
        default
    } else {
        t
    }
}

fn word_ref(ws: &Vec<String>, i: usize) -> (r: Option<&String>)
    ensures
        match r {
            Some(s) => arg(names(ws@), i as int) == Some(s@),
            None => arg(names(ws@), i as int) is None,
        },
{
    if i < ws.len() {
        Some(&ws[i])
    } else {
        None
    }
}

fn word_at(ws: &Vec<String>, i: usize) -> (r: Option<String>)
    ensures
        opt_view(r) == arg(names(ws@), i as int),
{
    if i < ws.len() {
        Some(ws[i].clone())
    } else {
        None
    }
}

fn word_is(w: &String, lit: &str) -> (r: bool)
    ensures
        r == (w@ == lit@),
{
    *w == lit.to_string()
}

fn title_of(ws: &Vec<String>, default: &str) -> (r: String)
    ensures
        r@ == title_or(names(ws@), default@),
{
    let ghost all = names(ws@);
    let mut t = String::new();
    if ws.len() > 3 {
        let ghost tail = all.subrange(3, all.len() as int);
        let mut k: usize = 3;
        while k < ws.len()
            invariant
                3 <= k <= ws.len(),
                all == names(ws@),
                tail == all.subrange(3, all.len() as int),
                t@ == join(tail.take(k - 3)),
            decreases ws.len() - k,
        {
            assert(tail.take(k + 1 - 3).drop_last() =~= tail.take(k - 3));
            assert(tail.take(k + 1 - 3).last() == ws@[k as int]@);
            if k > 3 {
                push_char(&mut t, ' ');
            }
            let w = ws[k].as_str();
            t.append(w);
            k = k + 1;
            assert(t@ =~= join(tail.take(k - 3)));
        }
        assert(tail.take(ws.len() - 3) =~= tail);
    }
    if t.unicode_len() == 0 {
        default.to_string()
    } else {
        t
    }
}

/// A chat command, as recognised from the words of a message.
pub enum ChatCommand {
    /// Teleport to the centre of map `index`.
    GoToMap(Option<u32>),
    /// Back to the starting town.
    Spawn,
    /// Show whether a trade is open.
    TradeInfo,
    /// Offer a trade to a player.
    TradeRequest(Option<String>),
    /// Accept the pending trade offer.
    TradeAccept,
    /// Put gold into the trade (0 when missing or unreadable).
    TradeGold(u32),
    /// Put the item of a bag slot into the trade.
    TradeItem(Option<i32>),
    /// Confirm the trade.
    TradeConfirm,
    /// Cancel the trade.
    TradeCancel,
    /// Show the player's guild.
    Guild,
    /// Found a guild.
    GuildCreate(Option<String>),
    /// Join a guild.
    GuildJoin(Option<String>),
    /// Leave the guild.
    GuildLeave,
    /// List the market's orders.
    Market,
    /// Sell the item of a bag slot at a price (0 when missing or unreadable).
    MarketSell { slot: Option<i32>, price: u32 },
    /// Buy an order.
    MarketBuy(Option<u64>),
    /// Withdraw an order.
    MarketCancel(Option<u64>),
    /// List the mailbox.
    Mail,
    /// Read a mail in full.
    MailDetail(Option<i64>),
    /// Send gold (0 when missing or unreadable) with a title.
    MailSend { target: Option<String>, gold: i64, title: String },
    /// Send the item of a bag slot with a title.
    MailSendItem { target: Option<String>, slot: Option<i32>, title: String },
    /// Mark a mail read.
    MailRead(Option<i64>),
    /// Collect a mail's attachments.
    MailReward(Option<i64>),
    /// Delete a mail.
    MailDelete(Option<i64>),
    /// Accept the quest of the NPC talked to.
    QuestAccept,
    /// Talk to a quest NPC by name.
    QuestTouch(Option<String>),
    /// Show quest progress.
    QuestStatus,
    /// Claim a quest reward.
    QuestReward,
    /// Abandon a quest.
    QuestForget(Option<u32>),
    /// Show the storage.
    Storage,
    /// List friends.
    Friends,
    /// Add a friend.
    FriendAdd(Option<String>),
    /// Remove a friend by character index.
    FriendDel(Option<i32>),
    /// Ask a player to be one's mentor.
    Mentor(Option<String>),
    /// Accept a mentor request.
    MentorAccept,
    /// Refuse a mentor request.
    MentorRefuse,
    /// End the mentorship.
    MentorCancel,
    /// Switch taking apprentices on or off.
    MentorToggle,
    /// Propose to a player.
    Marry(Option<String>),
    /// Accept a proposal.
    MarryAccept,
    /// Refuse a proposal.
    MarryRefuse,
    /// Divorce.
    Divorce,
    /// Show the list of commands.
    Help,
    /// Any other word starting with `/`; holds the (trimmed) message.
    Unknown(String),
}

/// The abstract value of a `ChatCommand`.
pub enum ChatCmd {
    /// Teleport to the centre of map `index`.
    GoToMap(Option<u32>),
    /// Back to the starting town.
    Spawn,
    /// Show whether a trade is open.
    TradeInfo,
    /// Offer a trade to a player.
    TradeRequest(Option<Seq<char>>),
    /// Accept the pending trade offer.
    TradeAccept,
    /// Put gold into the trade (0 when missing or unreadable).
    TradeGold(u32),
    /// Put the item of a bag slot into the trade.
    TradeItem(Option<i32>),
    /// Confirm the trade.
    TradeConfirm,
    /// Cancel the trade.
    TradeCancel,
    /// Show the player's guild.
    Guild,
    /// Found a guild.
    GuildCreate(Option<Seq<char>>),
    /// Join a guild.
    GuildJoin(Option<Seq<char>>),
    /// Leave the guild.
    GuildLeave,
    /// List the market's orders.
    Market,
    /// Sell the item of a bag slot at a price (0 when missing or unreadable).
    MarketSell { slot: Option<i32>, price: u32 },
    /// Buy an order.
    MarketBuy(Option<u64>),
    /// Withdraw an order.
    MarketCancel(Option<u64>),
    /// List the mailbox.
    Mail,
    /// Read a mail in full.
    MailDetail(Option<i64>),
    /// Send gold (0 when missing or unreadable) with a title.
    MailSend { target: Option<Seq<char>>, gold: i64, title: Seq<char> },
    /// Send the item of a bag slot with a title.
    MailSendItem { target: Option<Seq<char>>, slot: Option<i32>, title: Seq<char> },
    /// Mark a mail read.
    MailRead(Option<i64>),
    /// Collect a mail's attachments.
    MailReward(Option<i64>),
    /// Delete a mail.
    MailDelete(Option<i64>),
    /// Accept the quest of the NPC talked to.
    QuestAccept,
    /// Talk to a quest NPC by name.
    QuestTouch(Option<Seq<char>>),
    /// Show quest progress.
    QuestStatus,
    /// Claim a quest reward.
    QuestReward,
    /// Abandon a quest.
    QuestForget(Option<u32>),
    /// Show the storage.
    Storage,
    /// List friends.
    Friends,
    /// Add a friend.
    FriendAdd(Option<Seq<char>>),
    /// Remove a friend by character index.
    FriendDel(Option<i32>),
    /// Ask a player to be one's mentor.
    Mentor(Option<Seq<char>>),
    /// Accept a mentor request.
    MentorAccept,
    /// Refuse a mentor request.
    MentorRefuse,
    /// End the mentorship.
    MentorCancel,
    /// Switch taking apprentices on or off.
    MentorToggle,
    /// Propose to a player.
    Marry(Option<Seq<char>>),
    /// Accept a proposal.
    MarryAccept,
    /// Refuse a proposal.
    MarryRefuse,
    /// Divorce.
    Divorce,
    /// Show the list of commands.
    Help,
    Unknown(Seq<char>),
}

impl View for ChatCommand {
    type V = ChatCmd;

    open spec fn view(&self) -> ChatCmd {
        match *self {
            ChatCommand::GoToMap(a) => ChatCmd::GoToMap(a),
            ChatCommand::Spawn => ChatCmd::Spawn,
            ChatCommand::TradeInfo => ChatCmd::TradeInfo,
            ChatCommand::TradeRequest(a) => ChatCmd::TradeRequest(opt_view(a)),
            ChatCommand::TradeAccept => ChatCmd::TradeAccept,
            ChatCommand::TradeGold(a) => ChatCmd::TradeGold(a),
            ChatCommand::TradeItem(a) => ChatCmd::TradeItem(a),
            ChatCommand::TradeConfirm => ChatCmd::TradeConfirm,
            ChatCommand::TradeCancel => ChatCmd::TradeCancel,
            ChatCommand::Guild => ChatCmd::Guild,
            ChatCommand::GuildCreate(a) => ChatCmd::GuildCreate(opt_view(a)),
            ChatCommand::GuildJoin(a) => ChatCmd::GuildJoin(opt_view(a)),
            ChatCommand::GuildLeave => ChatCmd::GuildLeave,
            ChatCommand::Market => ChatCmd::Market,
            ChatCommand::MarketSell { slot, price } => ChatCmd::MarketSell { slot, price },
            ChatCommand::MarketBuy(a) => ChatCmd::MarketBuy(a),
            ChatCommand::MarketCancel(a) => ChatCmd::MarketCancel(a),
            ChatCommand::Mail => ChatCmd::Mail,
            ChatCommand::MailDetail(a) => ChatCmd::MailDetail(a),
            ChatCommand::MailSend { target, gold, title } => ChatCmd::MailSend { target: opt_view(target), gold, title: title@ },
            ChatCommand::MailSendItem { target, slot, title } => ChatCmd::MailSendItem { target: opt_view(target), slot, title: title@ },
            ChatCommand::MailRead(a) => ChatCmd::MailRead(a),
            ChatCommand::MailReward(a) => ChatCmd::MailReward(a),
            ChatCommand::MailDelete(a) => ChatCmd::MailDelete(a),
            ChatCommand::QuestAccept => ChatCmd::QuestAccept,
            ChatCommand::QuestTouch(a) => ChatCmd::QuestTouch(opt_view(a)),
            ChatCommand::QuestStatus => ChatCmd::QuestStatus,
            ChatCommand::QuestReward => ChatCmd::QuestReward,
            ChatCommand::QuestForget(a) => ChatCmd::QuestForget(a),
            ChatCommand::Storage => ChatCmd::Storage,
            ChatCommand::Friends => ChatCmd::Friends,
            ChatCommand::FriendAdd(a) => ChatCmd::FriendAdd(opt_view(a)),
            ChatCommand::FriendDel(a) => ChatCmd::FriendDel(a),
            ChatCommand::Mentor(a) => ChatCmd::Mentor(opt_view(a)),
            ChatCommand::MentorAccept => ChatCmd::MentorAccept,
            ChatCommand::MentorRefuse => ChatCmd::MentorRefuse,
            ChatCommand::MentorCancel => ChatCmd::MentorCancel,
            ChatCommand::MentorToggle => ChatCmd::MentorToggle,
            ChatCommand::Marry(a) => ChatCmd::Marry(opt_view(a)),
            ChatCommand::MarryAccept => ChatCmd::MarryAccept,
            ChatCommand::MarryRefuse => ChatCmd::MarryRefuse,
            ChatCommand::Divorce => ChatCmd::Divorce,
            ChatCommand::Help => ChatCmd::Help,
            ChatCommand::Unknown(m) => ChatCmd::Unknown(m@),
        }
    }
}

/// The command of a message with words `ws` (the first starting with `/`)
/// and trimmed text `full`.
pub open spec fn spec_chat_command(ws: Seq<Seq<char>>, full: Seq<char>) -> ChatCmd {
    let c = ws[0];
    if c == "/map"@ {
        ChatCmd::GoToMap(match arg(ws, 1) { Some(a) => match spec_parse(a, false, 0, u32::MAX as int) { Some(n) => Some(n as u32), None => None }, None => None })
    } else if c == "/spawn"@ {
        ChatCmd::Spawn
    } else if c == "/trade"@ || c == "/trade_info"@ {
        ChatCmd::TradeInfo
    } else if c == "/trade_req"@ {
        ChatCmd::TradeRequest(arg(ws, 1))
    } else if c == "/trade_accept"@ {
        ChatCmd::TradeAccept
    } else if c == "/trade_gold"@ {
        ChatCmd::TradeGold(match arg(ws, 1) { Some(a) => match spec_parse(a, false, 0, u32::MAX as int) { Some(n) => n as u32, None => 0 }, None => 0 })
    } else if c == "/trade_item"@ {
        ChatCmd::TradeItem(match arg(ws, 1) { Some(a) => match spec_parse(a, true, i32::MIN as int, i32::MAX as int) { Some(n) => Some(n as i32), None => None }, None => None })
    } else if c == "/trade_confirm"@ {
        ChatCmd::TradeConfirm
    } else if c == "/trade_cancel"@ {
        ChatCmd::TradeCancel
    } else if c == "/guild"@ {
        ChatCmd::Guild
    } else if c == "/guild_create"@ {
        ChatCmd::GuildCreate(arg(ws, 1))
    } else if c == "/guild_join"@ {
        ChatCmd::GuildJoin(arg(ws, 1))
    } else if c == "/guild_leave"@ {
        ChatCmd::GuildLeave
    } else if c == "/market"@ {
        ChatCmd::Market
    } else if c == "/market_sell"@ {
        ChatCmd::MarketSell { slot: match arg(ws, 1) { Some(a) => match spec_parse(a, true, i32::MIN as int, i32::MAX as int) { Some(n) => Some(n as i32), None => None }, None => None }, price: match arg(ws, 2) { Some(a) => match spec_parse(a, false, 0, u32::MAX as int) { Some(n) => n as u32, None => 0 }, None => 0 } }
    } else if c == "/market_buy"@ {
        ChatCmd::MarketBuy(match arg(ws, 1) { Some(a) => match spec_parse(a, false, 0, u64::MAX as int) { Some(n) => Some(n as u64), None => None }, None => None })
    } else if c == "/market_cancel"@ {
        ChatCmd::MarketCancel(match arg(ws, 1) { Some(a) => match spec_parse(a, false, 0, u64::MAX as int) { Some(n) => Some(n as u64), None => None }, None => None })
    } else if c == "/mail"@ {
        ChatCmd::Mail
    } else if c == "/mail_detail"@ {
        ChatCmd::MailDetail(match arg(ws, 1) { Some(a) => match spec_parse(a, true, i64::MIN as int, i64::MAX as int) { Some(n) => Some(n as i64), None => None }, None => None })
    } else if c == "/mail_send"@ {
        ChatCmd::MailSend { target: arg(ws, 1), gold: match arg(ws, 2) { Some(a) => match spec_parse(a, true, i64::MIN as int, i64::MAX as int) { Some(n) => n as i64, None => 0 }, None => 0 }, title: title_or(ws, "无标题"@) }
    } else if c == "/mail_send_item"@ {
        ChatCmd::MailSendItem { target: arg(ws, 1), slot: match arg(ws, 2) { Some(a) => match spec_parse(a, true, i32::MIN as int, i32::MAX as int) { Some(n) => Some(n as i32), None => None }, None => None }, title: title_or(ws, "物品附赠"@) }
    } else if c == "/mail_read"@ {
        ChatCmd::MailRead(match arg(ws, 1) { Some(a) => match spec_parse(a, true, i64::MIN as int, i64::MAX as int) { Some(n) => Some(n as i64), None => None }, None => None })
    } else if c == "/mail_reward"@ {
        ChatCmd::MailReward(match arg(ws, 1) { Some(a) => match spec_parse(a, true, i64::MIN as int, i64::MAX as int) { Some(n) => Some(n as i64), None => None }, None => None })
    } else if c == "/mail_delete"@ {
        ChatCmd::MailDelete(match arg(ws, 1) { Some(a) => match spec_parse(a, true, i64::MIN as int, i64::MAX as int) { Some(n) => Some(n as i64), None => None }, None => None })
    } else if c == "/quest_accept"@ {
        ChatCmd::QuestAccept
    } else if c == "/quest_touch"@ {
        ChatCmd::QuestTouch(arg(ws, 1))
    } else if c == "/quest_status"@ {
        ChatCmd::QuestStatus
    } else if c == "/quest_reward"@ {
        ChatCmd::QuestReward
    } else if c == "/quest_forget"@ {
        ChatCmd::QuestForget(match arg(ws, 1) { Some(a) => match spec_parse(a, false, 0, u32::MAX as int) { Some(n) => Some(n as u32), None => None }, None => None })
    } else if c == "/storage"@ || c == "/仓库"@ {
        ChatCmd::Storage
    } else if c == "/friends"@ || c == "/好友"@ {
        ChatCmd::Friends
    } else if c == "/friend_add"@ {
        ChatCmd::FriendAdd(arg(ws, 1))
    } else if c == "/friend_del"@ {
        ChatCmd::FriendDel(match arg(ws, 1) { Some(a) => match spec_parse(a, true, i32::MIN as int, i32::MAX as int) { Some(n) => Some(n as i32), None => None }, None => None })
    } else if c == "/mentor"@ {
        ChatCmd::Mentor(arg(ws, 1))
    } else if c == "/mentor_accept"@ {
        ChatCmd::MentorAccept
    } else if c == "/mentor_refuse"@ {
        ChatCmd::MentorRefuse
    } else if c == "/mentor_cancel"@ {
        ChatCmd::MentorCancel
    } else if c == "/mentor_toggle"@ {
        ChatCmd::MentorToggle
    } else if c == "/marry"@ {
        ChatCmd::Marry(arg(ws, 1))
    } else if c == "/marry_accept"@ {
        ChatCmd::MarryAccept
    } else if c == "/marry_refuse"@ {
        ChatCmd::MarryRefuse
    } else if c == "/divorce"@ {
        ChatCmd::Divorce
    } else if c == "/help"@ || c == "/?"@ {
        ChatCmd::Help
    } else {
        ChatCmd::Unknown(full)
    }
}

fn command_of(ws: &Vec<String>, full: &str) -> (r: ChatCommand)
    requires
        ws@.len() > 0,
    ensures
        r@ == spec_chat_command(names(ws@), full@),
{
    if word_is(&ws[0], "/map") {
        ChatCommand::GoToMap(match word_ref(ws, 1) { Some(a) => parse_u32(a.as_str()), None => None })
    } else if word_is(&ws[0], "/spawn") {
        ChatCommand::Spawn
    } else if word_is(&ws[0], "/trade") || word_is(&ws[0], "/trade_info") {
        ChatCommand::TradeInfo
    } else if word_is(&ws[0], "/trade_req") {
        ChatCommand::TradeRequest(word_at(ws, 1))
    } else if word_is(&ws[0], "/trade_accept") {
        ChatCommand::TradeAccept
    } else if word_is(&ws[0], "/trade_gold") {
        ChatCommand::TradeGold(match word_ref(ws, 1) { Some(a) => match parse_u32(a.as_str()) { Some(n) => n, None => 0 }, None => 0 })
    } else if word_is(&ws[0], "/trade_item") {
        ChatCommand::TradeItem(match word_ref(ws, 1) { Some(a) => parse_i32(a.as_str()), None => None })
    } else if word_is(&ws[0], "/trade_confirm") {
        ChatCommand::TradeConfirm
    } else if word_is(&ws[0], "/trade_cancel") {
        ChatCommand::TradeCancel
    } else if word_is(&ws[0], "/guild") {
        ChatCommand::Guild
    } else if word_is(&ws[0], "/guild_create") {
        ChatCommand::GuildCreate(word_at(ws, 1))
    } else if word_is(&ws[0], "/guild_join") {
        ChatCommand::GuildJoin(word_at(ws, 1))
    } else if word_is(&ws[0], "/guild_leave") {
        ChatCommand::GuildLeave
    } else if word_is(&ws[0], "/market") {
        ChatCommand::Market
    } else if word_is(&ws[0], "/market_sell") {
        ChatCommand::MarketSell { slot: match word_ref(ws, 1) { Some(a) => parse_i32(a.as_str()), None => None }, price: match word_ref(ws, 2) { Some(a) => match parse_u32(a.as_str()) { Some(n) => n, None => 0 }, None => 0 } }
    } else if word_is(&ws[0], "/market_buy") {
        ChatCommand::MarketBuy(match word_ref(ws, 1) { Some(a) => parse_u64(a.as_str()), None => None })
    } else if word_is(&ws[0], "/market_cancel") {
        ChatCommand::MarketCancel(match word_ref(ws, 1) { Some(a) => parse_u64(a.as_str()), None => None })
    } else if word_is(&ws[0], "/mail") {
        ChatCommand::Mail
    } else if word_is(&ws[0], "/mail_detail") {
        ChatCommand::MailDetail(match word_ref(ws, 1) { Some(a) => parse_i64(a.as_str()), None => None })
    } else if word_is(&ws[0], "/mail_send") {
        ChatCommand::MailSend { target: word_at(ws, 1), gold: match word_ref(ws, 2) { Some(a) => match parse_i64(a.as_str()) { Some(n) => n, None => 0 }, None => 0 }, title: title_of(ws, "无标题") }
    } else if word_is(&ws[0], "/mail_send_item") {
        ChatCommand::MailSendItem { target: word_at(ws, 1), slot: match word_ref(ws, 2) { Some(a) => parse_i32(a.as_str()), None => None }, title: title_of(ws, "物品附赠") }
    } else if word_is(&ws[0], "/mail_read") {
        ChatCommand::MailRead(match word_ref(ws, 1) { Some(a) => parse_i64(a.as_str()), None => None })
    } else if word_is(&ws[0], "/mail_reward") {
        ChatCommand::MailReward(match word_ref(ws, 1) { Some(a) => parse_i64(a.as_str()), None => None })
    } else if word_is(&ws[0], "/mail_delete") {
        ChatCommand::MailDelete(match word_ref(ws, 1) { Some(a) => parse_i64(a.as_str()), None => None })
    } else if word_is(&ws[0], "/quest_accept") {
        ChatCommand::QuestAccept
    } else if word_is(&ws[0], "/quest_touch") {
        ChatCommand::QuestTouch(word_at(ws, 1))
    } else if word_is(&ws[0], "/quest_status") {
        ChatCommand::QuestStatus
    } else if word_is(&ws[0], "/quest_reward") {
        ChatCommand::QuestReward
    } else if word_is(&ws[0], "/quest_forget") {
        ChatCommand::QuestForget(match word_ref(ws, 1) { Some(a) => parse_u32(a.as_str()), None => None })
    } else if word_is(&ws[0], "/storage") || word_is(&ws[0], "/仓库") {
        ChatCommand::Storage
    } else if word_is(&ws[0], "/friends") || word_is(&ws[0], "/好友") {
        ChatCommand::Friends
    } else if word_is(&ws[0], "/friend_add") {
        ChatCommand::FriendAdd(word_at(ws, 1))
    } else if word_is(&ws[0], "/friend_del") {
        ChatCommand::FriendDel(match word_ref(ws, 1) { Some(a) => parse_i32(a.as_str()), None => None })
    } else if word_is(&ws[0], "/mentor") {
        ChatCommand::Mentor(word_at(ws, 1))
    } else if word_is(&ws[0], "/mentor_accept") {
        ChatCommand::MentorAccept
    } else if word_is(&ws[0], "/mentor_refuse") {
        ChatCommand::MentorRefuse
    } else if word_is(&ws[0], "/mentor_cancel") {
        ChatCommand::MentorCancel
    } else if word_is(&ws[0], "/mentor_toggle") {
        ChatCommand::MentorToggle
    } else if word_is(&ws[0], "/marry") {
        ChatCommand::Marry(word_at(ws, 1))
    } else if word_is(&ws[0], "/marry_accept") {
        ChatCommand::MarryAccept
    } else if word_is(&ws[0], "/marry_refuse") {
        ChatCommand::MarryRefuse
    } else if word_is(&ws[0], "/divorce") {
        ChatCommand::Divorce
    } else if word_is(&ws[0], "/help") || word_is(&ws[0], "/?") {
        ChatCommand::Help
    } else {
        ChatCommand::Unknown(full.to_string())
    }
}

/// The command a chat message asks for, if it is one: the message is trimmed
/// and split into words; it is a command when its first word starts with
/// `/`.
pub fn parse_chat_command(message: &str) -> (r: Option<ChatCommand>)
    ensures
        match r {
            None => words(message@).len() == 0 || words(message@)[0].len() == 0 || words(
                message@,
            )[0][0] != '/',
            Some(c) => words(message@).len() > 0 && words(message@)[0].len() > 0 && words(
                message@,
            )[0][0] == '/' && c@ == spec_chat_command(words(message@), trim(message@)),
        },
{
    let ws = split_words(message);
    if ws.len() == 0 {
        return None;
    }
    let first = ws[0].as_str();
    if first.unicode_len() == 0 || first.get_char(0) != '/' {
        return None;
    }
    let cs = crate::text::chars_of(message);
    let full = crate::text::string_of(&crate::text::trim_chars(&cs));
    Some(command_of(&ws, full.as_str()))
}

} // verus!
