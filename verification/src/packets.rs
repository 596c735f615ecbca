//! Decoding of the client requests a connection acts on. A payload is read
//! as the client writes it: integers little-endian, a string as its UTF-8
//! byte length (7 bits per byte, low group first, high bit set on all but
//! the last byte, at most 5 bytes) followed by the bytes, which are decoded
//! with invalid sequences replaced. Fields after the ones read are ignored.
use vstd::prelude::*;

use vstd::utf8::{decode_utf8, encode_utf8, valid_utf8};

use crate::maps::{le16, le32, le_u16, le_u32};
use crate::replies::{str_bytes, varint_bytes};

verus! {

/// Packet ids of the client requests.
pub const CLIENT_VERSION: i16 = 0;
pub const DISCONNECT: i16 = 1;
pub const KEEP_ALIVE: i16 = 2;
pub const NEW_ACCOUNT: i16 = 3;
pub const LOGIN: i16 = 5;
pub const NEW_CHARACTER: i16 = 6;
pub const DELETE_CHARACTER: i16 = 7;
pub const START_GAME: i16 = 8;
pub const LOG_OUT: i16 = 9;
pub const TURN: i16 = 10;
pub const WALK: i16 = 11;
pub const RUN: i16 = 12;
pub const CHAT: i16 = 13;
pub const ATTACK: i16 = 38;
pub const HARVEST: i16 = 40;
pub const RANGE_ATTACK: i16 = 39;
pub const CALL_NPC: i16 = 41;
pub const MAGIC_KEY: i16 = 49;
pub const MAGIC: i16 = 50;
pub const TOWN_REVIVE: i16 = 55;
pub const MOVE_ITEM: i16 = 14;
pub const STORE_ITEM: i16 = 15;
pub const TAKE_BACK_ITEM: i16 = 16;
pub const MERGE_ITEM: i16 = 17;
pub const EQUIP_ITEM: i16 = 18;
pub const REMOVE_ITEM: i16 = 19;
pub const SPLIT_ITEM: i16 = 21;
pub const USE_ITEM: i16 = 22;
pub const DROP_ITEM: i16 = 23;
pub const DROP_GOLD: i16 = 32;
pub const PICK_UP: i16 = 33;
pub const CHANGE_A_MODE: i16 = 35;
pub const CHANGE_P_MODE: i16 = 36;
pub const CHANGE_TRADE: i16 = 37;
pub const BUY_ITEM: i16 = 43;
pub const SELL_ITEM: i16 = 45;
pub const BUY_ITEM_BACK: i16 = 47;
pub const SWITCH_GROUP: i16 = 51;
pub const ADD_MEMBER: i16 = 52;
pub const DEL_MEMBER: i16 = 53;
pub const GROUP_INVITE: i16 = 54;
pub const MARRIAGE_REPLY: i16 = 74;
pub const DIVORCE_REQUEST: i16 = 76;
pub const MENTOR_REPLY: i16 = 79;
pub const ALLOW_MENTOR: i16 = 80;
pub const CANCEL_MENTOR: i16 = 81;
pub const TRADE_REQUEST: i16 = 82;
pub const TRADE_REPLY: i16 = 83;
pub const TRADE_GOLD: i16 = 84;
pub const TRADE_CONFIRM: i16 = 85;
pub const TRADE_CANCEL: i16 = 86;
pub const FISHING_CAST: i16 = 88;
pub const FISHING_AUTOCAST: i16 = 89;
pub const ACCEPT_REINCARNATION: i16 = 94;
pub const CANCEL_REINCARNATION: i16 = 95;
pub const SEND_MAIL: i16 = 104;
pub const READ_MAIL: i16 = 105;
pub const COLLECT_PARCEL: i16 = 106;
pub const DELETE_MAIL: i16 = 107;
pub const LOCK_MAIL: i16 = 108;
pub const ADD_FRIEND: i16 = 113;
pub const GAMESHOP_BUY: i16 = 119;
pub const REMOVE_FRIEND: i16 = 114;
pub const REFRESH_FRIENDS: i16 = 115;
/// The wallet requests, numbered after the classic ones.
pub const WEB3_CHALLENGE: i16 = 200;
pub const WEB3_LOGIN: i16 = 201;
pub const SESSION_LOGIN: i16 = 202;

/// A decoded client request.
#[derive(Debug)]
pub enum ClientPacket {
    ClientVersion,
    Disconnect,
    KeepAlive { time: i64 },
    NewAccount { account_id: String, password: String },
    Login { account_id: String, password: String },
    NewCharacter { name: String, gender: u8, class: u8 },
    DeleteCharacter { index: i32 },
    StartGame { index: i32 },
    LogOut,
    Turn { dir: u8 },
    Walk { dir: u8 },
    Run { dir: u8 },
    Chat { message: String },
    /// A melee attack (`spell` 0) or a spell cast towards `dir`.
    Attack { dir: u8, spell: u8 },
    Harvest { dir: u8 },
    /// A shot at monster `target_id`, facing `dir`.
    RangeAttack { dir: u8, target_id: u32 },
    /// Spell `spell` cast facing `dir`.
    Magic { spell: u8, dir: u8 },
    /// A click on NPC `object_id`.
    CallNpc { object_id: u32 },
    /// Spell `spell` bound to key `key` (0 unbinds it).
    MagicKey { spell: u8, key: u8 },
    TownRevive,
    /// Move an item between two bag slots (`grid` 0 the bag).
    MoveItem { grid: u8, from: i32, to: i32 },
    /// Move an item from a bag slot to a storage slot.
    StoreItem { from: i32, to: i32 },
    /// Move an item from a storage slot to a bag slot.
    TakeBackItem { from: i32, to: i32 },
    /// Merge the stack `id_from` into the stack `id_to`.
    MergeItem { grid_from: u8, grid_to: u8, id_from: u64, id_to: u64 },
    /// Put on item `uid` in equipment slot `to`.
    EquipItem { grid: u8, uid: u64, to: i32 },
    /// Take off item `uid` into bag slot `to`.
    RemoveItem { grid: u8, uid: u64, to: i32 },
    /// Split `count` items off stack `uid`.
    SplitItem { grid: u8, uid: u64, count: u16 },
    UseItem { uid: u64 },
    DropItem { uid: u64, count: u16 },
    DropGold { amount: u32 },
    PickUp,
    /// Buy `count` of item `item_index` from a merchant.
    BuyItem { item_index: u64, count: u16 },
    /// Sell `count` of bag item `uid` to a merchant.
    SellItem { uid: u64, count: u16 },
    /// Buy back a recent sale.
    BuyItemBack { uid: u64, count: u16 },
    ChangeAMode { mode: u8 },
    ChangePMode { mode: u8 },
    ChangeTrade { allow: bool },
    /// Accept group invitations or not.
    SwitchGroup { allow: bool },
    /// Invite a player into the group.
    AddMember { name: String },
    /// Remove a member (an empty name: leave the group).
    DelMember { name: String },
    /// Answer a group invitation.
    GroupInvite { accept: bool },
    /// Ask for a wallet-login challenge for `address`.
    /// An answer to a proposal.
    MarriageReply { accept: bool },
    /// A request to end one's marriage.
    DivorceRequest,
    /// An answer to a request to teach.
    MentorReply { accept: bool },
    /// Switch the taking of apprentices.
    AllowMentor,
    /// End one's apprenticeship.
    CancelMentor,
    /// Add the character called `name` as a friend.
    AddFriend { name: String },
    /// Remove character `index` from one's friends.
    RemoveFriend { index: i32 },
    /// Show one's friends.
    RefreshFriends,
    /// Cast the line out, or draw it in.
    FishingCast { cast_out: bool },
    /// Switch automatic casting.
    FishingAutocast { auto_cast: bool },
    /// Take the offered reincarnation.
    AcceptReincarnation,
    /// Turn the offered reincarnation down.
    CancelReincarnation,
    /// Ask the player in front to trade.
    TradeRequest,
    /// An answer to a trade invitation.
    TradeReply { accept: bool },
    /// Put `amount` gold into the trade.
    TradeGold { amount: u32 },
    /// Confirm the trade (`locked`) or take the confirmation back.
    TradeConfirm { locked: bool },
    /// Cancel the trade.
    TradeCancel,
    /// Buy `quantity` of game-shop item `g_index`, paying with `p_type`.
    GameshopBuy { g_index: i32, quantity: u8, p_type: i32 },
    /// Mail `message` with `gold` and the items picked (by unique id, 0 for
    /// none, five of them) to the character called `name`.
    SendMail { name: String, message: String, gold: u32, items: Vec<u64> },
    /// Open mail `mail_id`.
    ReadMail { mail_id: u64 },
    /// Collect the attachments of mail `mail_id`.
    CollectParcel { mail_id: u64 },
    /// Delete mail `mail_id`.
    DeleteMail { mail_id: u64 },
    /// Lock (or unlock) mail `mail_id`.
    LockMail { mail_id: u64, lock: bool },
    Web3Challenge { address: String },
    /// Log in with a signed challenge.
    Web3Login { address: String, challenge: String, signature: Vec<u8> },
    /// Log in again with a session token.
    SessionLogin { token: String },
    /// A request this server does not take (its id).
    Unsupported { id: i16 },
}

/// Abstract value of a `ClientPacket`.
pub enum PacketV {
    ClientVersion,
    Disconnect,
    KeepAlive { time: i64 },
    NewAccount { account_id: Seq<char>, password: Seq<char> },
    Login { account_id: Seq<char>, password: Seq<char> },
    NewCharacter { name: Seq<char>, gender: u8, class: u8 },
    DeleteCharacter { index: i32 },
    StartGame { index: i32 },
    LogOut,
    Turn { dir: u8 },
    Walk { dir: u8 },
    Run { dir: u8 },
    Chat { message: Seq<char> },
    Attack { dir: u8, spell: u8 },
    Harvest { dir: u8 },
    RangeAttack { dir: u8, target_id: u32 },
    Magic { spell: u8, dir: u8 },
    CallNpc { object_id: u32 },
    MagicKey { spell: u8, key: u8 },
    TownRevive,
    MoveItem { grid: u8, from: i32, to: i32 },
    StoreItem { from: i32, to: i32 },
    TakeBackItem { from: i32, to: i32 },
    MergeItem { grid_from: u8, grid_to: u8, id_from: u64, id_to: u64 },
    EquipItem { grid: u8, uid: u64, to: i32 },
    RemoveItem { grid: u8, uid: u64, to: i32 },
    SplitItem { grid: u8, uid: u64, count: u16 },
    UseItem { uid: u64 },
    DropItem { uid: u64, count: u16 },
    DropGold { amount: u32 },
    PickUp,
    BuyItem { item_index: u64, count: u16 },
    SellItem { uid: u64, count: u16 },
    BuyItemBack { uid: u64, count: u16 },
    ChangeAMode { mode: u8 },
    ChangePMode { mode: u8 },
    ChangeTrade { allow: bool },
    SwitchGroup { allow: bool },
    AddMember { name: Seq<char> },
    DelMember { name: Seq<char> },
    GroupInvite { accept: bool },
    MarriageReply { accept: bool },
    DivorceRequest,
    MentorReply { accept: bool },
    AllowMentor,
    CancelMentor,
    AddFriend { name: Seq<char> },
    RemoveFriend { index: i32 },
    RefreshFriends,
    FishingCast { cast_out: bool },
    FishingAutocast { auto_cast: bool },
    AcceptReincarnation,
    CancelReincarnation,
    TradeRequest,
    TradeReply { accept: bool },
    TradeGold { amount: u32 },
    TradeConfirm { locked: bool },
    TradeCancel,
    GameshopBuy { g_index: i32, quantity: u8, p_type: i32 },
    SendMail { name: Seq<char>, message: Seq<char>, gold: u32, items: Seq<u64> },
    ReadMail { mail_id: u64 },
    CollectParcel { mail_id: u64 },
    DeleteMail { mail_id: u64 },
    LockMail { mail_id: u64, lock: bool },
    Web3Challenge { address: Seq<char> },
    Web3Login { address: Seq<char>, challenge: Seq<char>, signature: Seq<u8> },
    SessionLogin { token: Seq<char> },
    Unsupported { id: i16 },
}

impl View for ClientPacket {
    type V = PacketV;

    open spec fn view(&self) -> PacketV {
        match self {
            ClientPacket::ClientVersion => PacketV::ClientVersion,
            ClientPacket::Disconnect => PacketV::Disconnect,
            ClientPacket::KeepAlive { time } => PacketV::KeepAlive { time: *time },
            ClientPacket::NewAccount { account_id, password } => PacketV::NewAccount {
                account_id: account_id@,
                password: password@,
            },
            ClientPacket::Login { account_id, password } => PacketV::Login {
                account_id: account_id@,
                password: password@,
            },
            ClientPacket::NewCharacter { name, gender, class } => PacketV::NewCharacter {
                name: name@,
                gender: *gender,
                class: *class,
            },
            ClientPacket::DeleteCharacter { index } => PacketV::DeleteCharacter { index: *index },
            ClientPacket::StartGame { index } => PacketV::StartGame { index: *index },
            ClientPacket::LogOut => PacketV::LogOut,
            ClientPacket::Turn { dir } => PacketV::Turn { dir: *dir },
            ClientPacket::Walk { dir } => PacketV::Walk { dir: *dir },
            ClientPacket::Run { dir } => PacketV::Run { dir: *dir },
            ClientPacket::Chat { message } => PacketV::Chat { message: message@ },
            ClientPacket::Attack { dir, spell } => PacketV::Attack { dir: *dir, spell: *spell },
            ClientPacket::Harvest { dir } => PacketV::Harvest { dir: *dir },
            ClientPacket::RangeAttack { dir, target_id } => PacketV::RangeAttack { dir: *dir, target_id: *target_id },
            ClientPacket::Magic { spell, dir } => PacketV::Magic { spell: *spell, dir: *dir },
            ClientPacket::CallNpc { object_id } => PacketV::CallNpc { object_id: *object_id },
            ClientPacket::MarriageReply { accept } => PacketV::MarriageReply { accept: *accept },
            ClientPacket::DivorceRequest => PacketV::DivorceRequest,
            ClientPacket::MentorReply { accept } => PacketV::MentorReply { accept: *accept },
            ClientPacket::AllowMentor => PacketV::AllowMentor,
            ClientPacket::CancelMentor => PacketV::CancelMentor,
            ClientPacket::AddFriend { name } => PacketV::AddFriend { name: name@ },
            ClientPacket::RemoveFriend { index } => PacketV::RemoveFriend { index: *index },
            ClientPacket::RefreshFriends => PacketV::RefreshFriends,
            ClientPacket::AcceptReincarnation => PacketV::AcceptReincarnation,
            ClientPacket::TradeRequest => PacketV::TradeRequest,
            ClientPacket::TradeReply { accept } => PacketV::TradeReply { accept: *accept },
            ClientPacket::TradeGold { amount } => PacketV::TradeGold { amount: *amount },
            ClientPacket::TradeConfirm { locked } => PacketV::TradeConfirm { locked: *locked },
            ClientPacket::TradeCancel => PacketV::TradeCancel,
            ClientPacket::SendMail { name, message, gold, items } => PacketV::SendMail {
                name: name@,
                message: message@,
                gold: *gold,
                items: items@,
            },
            ClientPacket::ReadMail { mail_id } => PacketV::ReadMail { mail_id: *mail_id },
            ClientPacket::CollectParcel { mail_id } => PacketV::CollectParcel { mail_id: *mail_id },
            ClientPacket::DeleteMail { mail_id } => PacketV::DeleteMail { mail_id: *mail_id },
            ClientPacket::LockMail { mail_id, lock } => PacketV::LockMail { mail_id: *mail_id, lock: *lock },
            ClientPacket::GameshopBuy { g_index, quantity, p_type } => PacketV::GameshopBuy {
                g_index: *g_index,
                quantity: *quantity,
                p_type: *p_type,
            },
            ClientPacket::CancelReincarnation => PacketV::CancelReincarnation,
            ClientPacket::FishingCast { cast_out } => PacketV::FishingCast { cast_out: *cast_out },
            ClientPacket::FishingAutocast { auto_cast } => PacketV::FishingAutocast { auto_cast: *auto_cast },
            ClientPacket::MagicKey { spell, key } => PacketV::MagicKey { spell: *spell, key: *key },
            ClientPacket::TownRevive => PacketV::TownRevive,
            ClientPacket::MoveItem { grid, from, to } => PacketV::MoveItem { grid: *grid, from: *from, to: *to },
            ClientPacket::StoreItem { from, to } => PacketV::StoreItem { from: *from, to: *to },
            ClientPacket::TakeBackItem { from, to } => PacketV::TakeBackItem { from: *from, to: *to },
            ClientPacket::MergeItem { grid_from, grid_to, id_from, id_to } => PacketV::MergeItem {
                grid_from: *grid_from,
                grid_to: *grid_to,
                id_from: *id_from,
                id_to: *id_to,
            },
            ClientPacket::EquipItem { grid, uid, to } => PacketV::EquipItem { grid: *grid, uid: *uid, to: *to },
            ClientPacket::RemoveItem { grid, uid, to } => PacketV::RemoveItem { grid: *grid, uid: *uid, to: *to },
            ClientPacket::SplitItem { grid, uid, count } => PacketV::SplitItem {
                grid: *grid,
                uid: *uid,
                count: *count,
            },
            ClientPacket::UseItem { uid } => PacketV::UseItem { uid: *uid },
            ClientPacket::DropItem { uid, count } => PacketV::DropItem { uid: *uid, count: *count },
            ClientPacket::DropGold { amount } => PacketV::DropGold { amount: *amount },
            ClientPacket::PickUp => PacketV::PickUp,
            ClientPacket::BuyItem { item_index, count } => PacketV::BuyItem { item_index: *item_index, count: *count },
            ClientPacket::SellItem { uid, count } => PacketV::SellItem { uid: *uid, count: *count },
            ClientPacket::BuyItemBack { uid, count } => PacketV::BuyItemBack { uid: *uid, count: *count },
            ClientPacket::ChangeAMode { mode } => PacketV::ChangeAMode { mode: *mode },
            ClientPacket::ChangePMode { mode } => PacketV::ChangePMode { mode: *mode },
            ClientPacket::ChangeTrade { allow } => PacketV::ChangeTrade { allow: *allow },
            ClientPacket::SwitchGroup { allow } => PacketV::SwitchGroup { allow: *allow },
            ClientPacket::AddMember { name } => PacketV::AddMember { name: name@ },
            ClientPacket::DelMember { name } => PacketV::DelMember { name: name@ },
            ClientPacket::GroupInvite { accept } => PacketV::GroupInvite { accept: *accept },
            ClientPacket::Web3Challenge { address } => PacketV::Web3Challenge { address: address@ },
            ClientPacket::Web3Login { address, challenge, signature } => PacketV::Web3Login {
                address: address@,
                challenge: challenge@,
                signature: signature@,
            },
            ClientPacket::SessionLogin { token } => PacketV::SessionLogin { token: token@ },
            ClientPacket::Unsupported { id } => PacketV::Unsupported { id: *id },
        }
    }
}

/// What `String::from_utf8_lossy` makes of bytes that are not valid UTF-8.
pub uninterp spec fn spec_utf8_lossy(b: Seq<u8>) -> Seq<char>;

/// The text of string bytes: their characters when they are valid UTF-8,
/// otherwise what replacing the invalid sequences gives.
pub open spec fn text_of(b: Seq<u8>) -> Seq<char> {
    if valid_utf8(b) {
        decode_utf8(b)
    } else {
        spec_utf8_lossy(b)
    }
}

/// `String::from_utf8_lossy`: valid UTF-8 is decoded as it is; in other
/// bytes each invalid sequence becomes U+FFFD, which is not spelled out
/// here (the result is named).
#[verifier::external_body]
fn utf8_lossy(b: &[u8]) -> (r: String)
    ensures
        valid_utf8(b@) ==> r@ == decode_utf8(b@),
        !valid_utf8(b@) ==> r@ == spec_utf8_lossy(b@),
{
    String::from_utf8_lossy(b).into_owned()
}

/// The largest value a length prefix starting with its `k`-th byte can add.
pub open spec fn varint_cap(k: nat) -> int {
    if k == 0 {
        34359738368
    } else if k == 1 {
        268435456
    } else if k == 2 {
        2097152
    } else if k == 3 {
        16384
    } else if k == 4 {
        128
    } else {
        1
    }
}

/// The length prefix at `p`, read as its `k`-th byte onward: (value, the
/// position after it). `None` when the bytes run out or a sixth byte would
/// be needed.
pub open spec fn spec_varint(b: Seq<u8>, p: int, k: nat) -> Option<(int, int)>
    decreases 5 - k,
{
    if k >= 5 || p < 0 || p >= b.len() {
        None
    } else if b[p] < 128 {
        Some((b[p] as int, p + 1))
    } else {
        match spec_varint(b, p + 1, k + 1) {
            Some((v, q)) => Some(((b[p] - 128) + 128 * v, q)),
            None => None,
        }
    }
}

/// The string at `p`: (its text, the position after it).
pub open spec fn spec_string(b: Seq<u8>, p: int) -> Option<(Seq<char>, int)> {
    match spec_varint(b, p, 0) {
        Some((n, q)) => if q + n <= b.len() {
            Some((text_of(b.subrange(q, q + n)), q + n))
        } else {
            None
        },
        None => None,
    }
}

/// Two strings in a row, from the start.
pub open spec fn spec_two_strings(b: Seq<u8>) -> Option<(Seq<char>, Seq<char>)> {
    match spec_string(b, 0) {
        Some((s, q)) => match spec_string(b, q) {
            Some((t, _)) => Some((s, t)),
            None => None,
        },
        None => None,
    }
}

/// Little-endian `i32` at `p`.
pub open spec fn le_i32(b: Seq<u8>, p: int) -> i32 {
    le_u32(b, p) as i32
}

/// Little-endian `i64` at `p`.
pub open spec fn le_i64(b: Seq<u8>, p: int) -> i64 {
    ((le_u32(b, p) as u64) | ((le_u32(b, p + 4) as u64) << 32u64)) as i64
}

/// The request packet `id` with payload `b` carries; `None` for a payload
/// too short for its fields (an id this server does not take decodes as
/// `Unsupported`). The client version starts with
/// the 4-byte length of its hash, which is not read further.
pub open spec fn spec_decode(id: i16, b: Seq<u8>) -> Option<PacketV> {
    if id == CLIENT_VERSION {
        if b.len() >= 4 {
            Some(PacketV::ClientVersion)
        } else {
            None
        }
    } else if id == DISCONNECT {
        Some(PacketV::Disconnect)
    } else if id == KEEP_ALIVE {
        if b.len() >= 8 {
            Some(PacketV::KeepAlive { time: le_i64(b, 0) })
        } else {
            None
        }
    } else if id == NEW_ACCOUNT || id == LOGIN {
        match spec_two_strings(b) {
            Some((a, p)) => Some(
                if id == LOGIN {
                    PacketV::Login { account_id: a, password: p }
                } else {
                    PacketV::NewAccount { account_id: a, password: p }
                },
            ),
            None => None,
        }
    } else if id == NEW_CHARACTER {
        match spec_string(b, 0) {
            Some((n, q)) => if q + 2 <= b.len() {
                Some(PacketV::NewCharacter { name: n, gender: b[q], class: b[q + 1] })
            } else {
                None
            },
            None => None,
        }
    } else if id == DELETE_CHARACTER || id == START_GAME {
        if b.len() >= 4 {
            Some(
                if id == START_GAME {
                    PacketV::StartGame { index: le_i32(b, 0) }
                } else {
                    PacketV::DeleteCharacter { index: le_i32(b, 0) }
                },
            )
        } else {
            None
        }
    } else if id == LOG_OUT {
        Some(PacketV::LogOut)
    } else if id == TURN || id == WALK || id == RUN {
        if b.len() >= 1 {
            Some(
                if id == TURN {
                    PacketV::Turn { dir: b[0] }
                } else if id == WALK {
                    PacketV::Walk { dir: b[0] }
                } else {
                    PacketV::Run { dir: b[0] }
                },
            )
        } else {
            None
        }
    } else if id == CHAT {
        match spec_string(b, 0) {
            Some((m, _)) => Some(PacketV::Chat { message: m }),
            None => None,
        }
    } else if id == ATTACK {
        if b.len() >= 2 {
            Some(PacketV::Attack { dir: b[0], spell: b[1] })
        } else {
            None
        }
    } else if id == HARVEST {
        if b.len() >= 1 {
            Some(PacketV::Harvest { dir: b[0] })
        } else {
            None
        }
    } else if id == TOWN_REVIVE {
        Some(PacketV::TownRevive)
    } else {
        spec_decode_more(id, b)
    }
}

/// Little-endian `u64` at `p`.
pub open spec fn le_u64(b: Seq<u8>, p: int) -> u64 {
    ((le_u32(b, p) as u64) | ((le_u32(b, p + 4) as u64) << 32u64)) as u64
}

/// A byte blob at `p` (written like a string: length prefix, then the
/// bytes): (the bytes, the position after them).
pub open spec fn spec_blob(b: Seq<u8>, p: int) -> Option<(Seq<u8>, int)> {
    match spec_varint(b, p, 0) {
        Some((n, q)) => if q + n <= b.len() {
            Some((b.subrange(q, q + n), q + n))
        } else {
            None
        },
        None => None,
    }
}

/// The item, merchant, mode, group and wallet requests (see `spec_decode`); any other
/// id is a request this server does not take.
#[verifier::opaque]
pub open spec fn spec_decode_more(id: i16, b: Seq<u8>) -> Option<PacketV> {
    if id == MOVE_ITEM {
        if b.len() >= 9 {
            Some(PacketV::MoveItem { grid: b[0], from: le_i32(b, 1), to: le_i32(b, 5) })
        } else {
            None
        }
    } else if id == STORE_ITEM || id == TAKE_BACK_ITEM {
        if b.len() >= 8 {
            Some(
                if id == STORE_ITEM {
                    PacketV::StoreItem { from: le_i32(b, 0), to: le_i32(b, 4) }
                } else {
                    PacketV::TakeBackItem { from: le_i32(b, 0), to: le_i32(b, 4) }
                },
            )
        } else {
            None
        }
    } else if id == MERGE_ITEM {
        if b.len() >= 18 {
            Some(PacketV::MergeItem { grid_from: b[0], grid_to: b[1], id_from: le_u64(b, 2), id_to: le_u64(b, 10) })
        } else {
            None
        }
    } else if id == EQUIP_ITEM || id == REMOVE_ITEM {
        if b.len() >= 13 {
            Some(
                if id == EQUIP_ITEM {
                    PacketV::EquipItem { grid: b[0], uid: le_u64(b, 1), to: le_i32(b, 9) }
                } else {
                    PacketV::RemoveItem { grid: b[0], uid: le_u64(b, 1), to: le_i32(b, 9) }
                },
            )
        } else {
            None
        }
    } else if id == SPLIT_ITEM {
        if b.len() >= 11 {
            Some(PacketV::SplitItem { grid: b[0], uid: le_u64(b, 1), count: le_u16(b, 9) })
        } else {
            None
        }
    } else if id == USE_ITEM {
        if b.len() >= 8 {
            Some(PacketV::UseItem { uid: le_u64(b, 0) })
        } else {
            None
        }
    } else if id == DROP_ITEM || id == BUY_ITEM || id == SELL_ITEM || id == BUY_ITEM_BACK {
        if b.len() >= 10 {
            let (x, n) = (le_u64(b, 0), le_u16(b, 8));
            Some(
                if id == DROP_ITEM {
                    PacketV::DropItem { uid: x, count: n }
                } else if id == BUY_ITEM {
                    PacketV::BuyItem { item_index: x, count: n }
                } else if id == SELL_ITEM {
                    PacketV::SellItem { uid: x, count: n }
                } else {
                    PacketV::BuyItemBack { uid: x, count: n }
                },
            )
        } else {
            None
        }
    } else if id == DROP_GOLD {
        if b.len() >= 4 {
            Some(PacketV::DropGold { amount: le_u32(b, 0) })
        } else {
            None
        }
    } else if id == PICK_UP {
        Some(PacketV::PickUp)
    } else if id == RANGE_ATTACK {
        if b.len() >= 13 {
            Some(PacketV::RangeAttack { dir: b[0], target_id: le_u32(b, 9) })
        } else {
            None
        }
    } else if id == CALL_NPC {
        if b.len() >= 4 {
            Some(PacketV::CallNpc { object_id: le_u32(b, 0) })
        } else {
            None
        }
    } else if id == MARRIAGE_REPLY || id == MENTOR_REPLY || id == FISHING_CAST || id == FISHING_AUTOCAST {
        if b.len() >= 1 {
            Some(
                if id == MARRIAGE_REPLY {
                    PacketV::MarriageReply { accept: b[0] != 0 }
                } else if id == MENTOR_REPLY {
                    PacketV::MentorReply { accept: b[0] != 0 }
                } else if id == FISHING_CAST {
                    PacketV::FishingCast { cast_out: b[0] != 0 }
                } else {
                    PacketV::FishingAutocast { auto_cast: b[0] != 0 }
                },
            )
        } else {
            None
        }
    } else if id == DIVORCE_REQUEST || id == ALLOW_MENTOR || id == CANCEL_MENTOR || id == REFRESH_FRIENDS || id
        == ACCEPT_REINCARNATION || id == CANCEL_REINCARNATION {
        Some(
            if id == ACCEPT_REINCARNATION {
                PacketV::AcceptReincarnation
            } else if id == CANCEL_REINCARNATION {
                PacketV::CancelReincarnation
            } else if id == DIVORCE_REQUEST {
                PacketV::DivorceRequest
            } else if id == ALLOW_MENTOR {
                PacketV::AllowMentor
            } else if id == CANCEL_MENTOR {
                PacketV::CancelMentor
            } else {
                PacketV::RefreshFriends
            },
        )
    } else if id == REMOVE_FRIEND {
        if b.len() >= 4 {
            Some(PacketV::RemoveFriend { index: le_i32(b, 0) })
        } else {
            None
        }
    } else if id == TRADE_REQUEST || id == TRADE_CANCEL {
        Some(
            if id == TRADE_REQUEST {
                PacketV::TradeRequest
            } else {
                PacketV::TradeCancel
            },
        )
    } else if id == TRADE_REPLY || id == TRADE_CONFIRM {
        if b.len() >= 1 {
            Some(
                if id == TRADE_REPLY {
                    PacketV::TradeReply { accept: b[0] != 0 }
                } else {
                    PacketV::TradeConfirm { locked: b[0] != 0 }
                },
            )
        } else {
            None
        }
    } else if id == TRADE_GOLD {
        if b.len() >= 4 {
            Some(PacketV::TradeGold { amount: le_u32(b, 0) })
        } else {
            None
        }
    } else if id == GAMESHOP_BUY {
        if b.len() >= 9 {
            Some(PacketV::GameshopBuy { g_index: le_i32(b, 0), quantity: b[4], p_type: le_i32(b, 5) })
        } else {
            None
        }
    } else if id == READ_MAIL || id == COLLECT_PARCEL || id == DELETE_MAIL {
        if b.len() >= 8 {
            Some(
                if id == READ_MAIL {
                    PacketV::ReadMail { mail_id: le_u64(b, 0) }
                } else if id == COLLECT_PARCEL {
                    PacketV::CollectParcel { mail_id: le_u64(b, 0) }
                } else {
                    PacketV::DeleteMail { mail_id: le_u64(b, 0) }
                },
            )
        } else {
            None
        }
    } else if id == LOCK_MAIL {
        if b.len() >= 9 {
            Some(PacketV::LockMail { mail_id: le_u64(b, 0), lock: b[8] != 0 })
        } else {
            None
        }
    } else if id == SEND_MAIL {
        match spec_string(b, 0) {
            Some((n, q)) => match spec_string(b, q) {
                Some((m, p)) => if p + 44 <= b.len() {
                    Some(
                        PacketV::SendMail {
                            name: n,
                            message: m,
                            gold: le_u32(b, p),
                            items: seq![
                                le_u64(b, p + 4),
                                le_u64(b, p + 12),
                                le_u64(b, p + 20),
                                le_u64(b, p + 28),
                                le_u64(b, p + 36),
                            ],
                        },
                    )
                } else {
                    None
                },
                None => None,
            },
            None => None,
        }
    } else if id == MAGIC || id == MAGIC_KEY {
        if b.len() >= 2 {
            Some(
                if id == MAGIC {
                    PacketV::Magic { spell: b[0], dir: b[1] }
                } else {
                    PacketV::MagicKey { spell: b[0], key: b[1] }
                },
            )
        } else {
            None
        }
    } else if id == CHANGE_A_MODE || id == CHANGE_P_MODE || id == CHANGE_TRADE || id == SWITCH_GROUP || id
        == GROUP_INVITE {
        if b.len() >= 1 {
            Some(
                if id == CHANGE_A_MODE {
                    PacketV::ChangeAMode { mode: b[0] }
                } else if id == CHANGE_P_MODE {
                    PacketV::ChangePMode { mode: b[0] }
                } else if id == CHANGE_TRADE {
                    PacketV::ChangeTrade { allow: b[0] != 0 }
                } else if id == SWITCH_GROUP {
                    PacketV::SwitchGroup { allow: b[0] != 0 }
                } else {
                    PacketV::GroupInvite { accept: b[0] != 0 }
                },
            )
        } else {
            None
        }
    } else if id == ADD_MEMBER || id == DEL_MEMBER || id == WEB3_CHALLENGE || id == SESSION_LOGIN || id
        == ADD_FRIEND {
        match spec_string(b, 0) {
            Some((t, _)) => Some(
                if id == ADD_MEMBER {
                    PacketV::AddMember { name: t }
                } else if id == ADD_FRIEND {
                    PacketV::AddFriend { name: t }
                } else if id == DEL_MEMBER {
                    PacketV::DelMember { name: t }
                } else if id == WEB3_CHALLENGE {
                    PacketV::Web3Challenge { address: t }
                } else {
                    PacketV::SessionLogin { token: t }
                },
            ),
            None => None,
        }
    } else if id == WEB3_LOGIN {
        match spec_string(b, 0) {
            Some((a, q)) => match spec_string(b, q) {
                Some((c, q2)) => match spec_blob(b, q2) {
                    Some((sig, _)) => Some(PacketV::Web3Login { address: a, challenge: c, signature: sig }),
                    None => None,
                },
                None => None,
            },
            None => None,
        }
    } else {
        Some(PacketV::Unsupported { id })
    }
}

/// Reads the length prefix at `p` as its `k`-th byte onward (see `spec_varint`).
fn read_varint(b: &[u8], p: usize, k: u8) -> (r: Option<(u64, usize)>)
    requires
        k <= 5,
    ensures
        match r {
            Some((v, q)) => spec_varint(b@, p as int, k as nat) == Some((v as int, q as int))
                && v < varint_cap(k as nat) && q <= b@.len(),
            None => spec_varint(b@, p as int, k as nat) is None,
        },
    decreases 5 - k,
{
    if k >= 5 || p >= b.len() {
        return None;
    }
    let x = b[p];
    if x < 128 {
        return Some((x as u64, p + 1));
    }
    match read_varint(b, p + 1, k + 1) {
        Some((v, q)) => {
            assert(128 * varint_cap((k + 1) as nat) == varint_cap(k as nat));
            Some(((x - 128) as u64 + 128 * v, q))
        },
        None => None,
    }
}

/// Reads the string at `p` (see `spec_string`).
fn read_string(b: &[u8], p: usize) -> (r: Option<(String, usize)>)
    ensures
        match r {
            Some((s, q)) => spec_string(b@, p as int) == Some((s@, q as int)) && q <= b@.len(),
            None => spec_string(b@, p as int) is None,
        },
{
    let (n, q) = match read_varint(b, p, 0) {
        Some(x) => x,
        None => return None,
    };
    if n > (b.len() - q) as u64 {
        return None;
    }
    let end = q + n as usize;
    let s = utf8_lossy(slice_of(b, q, end).as_slice());
    Some((s, end))
}

/// Bytes `from..to` of `b`.
fn slice_of(b: &[u8], from: usize, to: usize) -> (r: Vec<u8>)
    requires
        from <= to <= b@.len(),
    ensures
        r@ == b@.subrange(from as int, to as int),
{
    let mut r: Vec<u8> = Vec::new();
    let mut i = from;
    while i < to
        invariant
            from <= i <= to <= b@.len(),
            r@ == b@.subrange(from as int, i as int),
        decreases to - i,
    {
        r.push(b[i]);
        i = i + 1;
        assert(r@ =~= b@.subrange(from as int, i as int));
    }
    r
}

/// Decodes the request packet `id` with payload `b` (see `spec_decode`).
pub fn decode_client_packet(id: i16, b: &[u8]) -> (r: Option<ClientPacket>)
    ensures
        match r {
            Some(p) => spec_decode(id, b@) == Some(p@),
            None => spec_decode(id, b@) is None,
        },
{
    if id == CLIENT_VERSION {
        if b.len() >= 4 {
            Some(ClientPacket::ClientVersion)
        } else {
            None
        }
    } else if id == DISCONNECT {
        Some(ClientPacket::Disconnect)
    } else if id == KEEP_ALIVE {
        if b.len() >= 8 {
            let lo = le32(b, 0);
            let hi = le32(b, 4);
            Some(
                ClientPacket::KeepAlive {
                    time: #[verifier::truncate] (((lo as u64) | ((hi as u64) << 32u64)) as i64),
                },
            )
        } else {
            None
        }
    } else if id == NEW_ACCOUNT || id == LOGIN {
        let (a, q) = match read_string(b, 0) {
            Some(x) => x,
            None => return None,
        };
        let (p, _) = match read_string(b, q) {
            Some(x) => x,
            None => return None,
        };
        if id == LOGIN {
            Some(ClientPacket::Login { account_id: a, password: p })
        } else {
            Some(ClientPacket::NewAccount { account_id: a, password: p })
        }
    } else if id == NEW_CHARACTER {
        let (n, q) = match read_string(b, 0) {
            Some(x) => x,
            None => return None,
        };
        if q < b.len() && b.len() - q >= 2 {
            Some(ClientPacket::NewCharacter { name: n, gender: b[q], class: b[q + 1] })
        } else {
            None
        }
    } else if id == DELETE_CHARACTER || id == START_GAME {
        if b.len() >= 4 {
            let index = #[verifier::truncate] (le32(b, 0) as i32);
            if id == START_GAME {
                Some(ClientPacket::StartGame { index })
            } else {
                Some(ClientPacket::DeleteCharacter { index })
            }
        } else {
            None
        }
    } else if id == LOG_OUT {
        Some(ClientPacket::LogOut)
    } else if id == TURN || id == WALK || id == RUN {
        if b.len() >= 1 {
            let dir = b[0];
            if id == TURN {
                Some(ClientPacket::Turn { dir })
            } else if id == WALK {
                Some(ClientPacket::Walk { dir })
            } else {
                Some(ClientPacket::Run { dir })
            }
        } else {
            None
        }
    } else if id == CHAT {
        match read_string(b, 0) {
            Some((m, _)) => Some(ClientPacket::Chat { message: m }),
            None => None,
        }
    } else if id == ATTACK {
        if b.len() >= 2 {
            Some(ClientPacket::Attack { dir: b[0], spell: b[1] })
        } else {
            None
        }
    } else if id == HARVEST {
        if b.len() >= 1 {
            Some(ClientPacket::Harvest { dir: b[0] })
        } else {
            None
        }
    } else if id == TOWN_REVIVE {
        Some(ClientPacket::TownRevive)
    } else {
        decode_more(id, b)
    }
}

fn read_u64(b: &[u8], p: usize) -> (r: u64)
    requires
        p + 7 < b.len(),
    ensures
        r == le_u64(b@, p as int),
{
    let lo = le32(b, p);
    let hi = le32(b, p + 4);
    ((lo as u64) | ((hi as u64) << 32u64)) as u64
}

/// Reads the blob at `p` (see `spec_blob`).
fn read_blob(b: &[u8], p: usize) -> (r: Option<(Vec<u8>, usize)>)
    ensures
        match r {
            Some((v, q)) => spec_blob(b@, p as int) == Some((v@, q as int)) && q <= b@.len(),
            None => spec_blob(b@, p as int) is None,
        },
{
    let (n, q) = match read_varint(b, p, 0) {
        Some(x) => x,
        None => return None,
    };
    if n > (b.len() - q) as u64 {
        return None;
    }
    let end = q + n as usize;
    Some((slice_of(b, q, end), end))
}

/// Decodes the item, mode, group and wallet requests (see `spec_decode_more`).
fn decode_more(id: i16, b: &[u8]) -> (r: Option<ClientPacket>)
    ensures
        match r {
            Some(p) => spec_decode_more(id, b@) == Some(p@),
            None => spec_decode_more(id, b@) is None,
        },
{
    proof {
        reveal(spec_decode_more);
    }
    if id == MOVE_ITEM {
        if b.len() >= 9 {
            Some(ClientPacket::MoveItem { grid: b[0], from: le32(b, 1) as i32, to: le32(b, 5) as i32 })
        } else {
            None
        }
    } else if id == STORE_ITEM || id == TAKE_BACK_ITEM {
        if b.len() >= 8 {
            let from = le32(b, 0) as i32;
            let to = le32(b, 4) as i32;
            if id == STORE_ITEM {
                Some(ClientPacket::StoreItem { from, to })
            } else {
                Some(ClientPacket::TakeBackItem { from, to })
            }
        } else {
            None
        }
    } else if id == MERGE_ITEM {
        if b.len() >= 18 {
            Some(
                ClientPacket::MergeItem {
                    grid_from: b[0],
                    grid_to: b[1],
                    id_from: read_u64(b, 2),
                    id_to: read_u64(b, 10),
                },
            )
        } else {
            None
        }
    } else if id == EQUIP_ITEM || id == REMOVE_ITEM {
        if b.len() >= 13 {
            let grid = b[0];
            let uid = read_u64(b, 1);
            let to = le32(b, 9) as i32;
            if id == EQUIP_ITEM {
                Some(ClientPacket::EquipItem { grid, uid, to })
            } else {
                Some(ClientPacket::RemoveItem { grid, uid, to })
            }
        } else {
            None
        }
    } else if id == SPLIT_ITEM {
        if b.len() >= 11 {
            Some(ClientPacket::SplitItem { grid: b[0], uid: read_u64(b, 1), count: le16(b, 9) })
        } else {
            None
        }
    } else if id == USE_ITEM {
        if b.len() >= 8 {
            Some(ClientPacket::UseItem { uid: read_u64(b, 0) })
        } else {
            None
        }
    } else if id == DROP_ITEM || id == BUY_ITEM || id == SELL_ITEM || id == BUY_ITEM_BACK {
        if b.len() >= 10 {
            let x = read_u64(b, 0);
            let n = le16(b, 8);
            if id == DROP_ITEM {
                Some(ClientPacket::DropItem { uid: x, count: n })
            } else if id == BUY_ITEM {
                Some(ClientPacket::BuyItem { item_index: x, count: n })
            } else if id == SELL_ITEM {
                Some(ClientPacket::SellItem { uid: x, count: n })
            } else {
                Some(ClientPacket::BuyItemBack { uid: x, count: n })
            }
        } else {
            None
        }
    } else if id == DROP_GOLD {
        if b.len() >= 4 {
            Some(ClientPacket::DropGold { amount: le32(b, 0) })
        } else {
            None
        }
    } else if id == PICK_UP {
        Some(ClientPacket::PickUp)
    } else if id == RANGE_ATTACK {
        if b.len() >= 13 {
            Some(ClientPacket::RangeAttack { dir: b[0], target_id: le32(b, 9) })
        } else {
            None
        }
    } else if id == CALL_NPC {
        if b.len() >= 4 {
            Some(ClientPacket::CallNpc { object_id: le32(b, 0) })
        } else {
            None
        }
    } else if id == MARRIAGE_REPLY || id == MENTOR_REPLY || id == FISHING_CAST || id == FISHING_AUTOCAST {
        if b.len() >= 1 {
            if id == MARRIAGE_REPLY {
                Some(ClientPacket::MarriageReply { accept: b[0] != 0 })
            } else if id == MENTOR_REPLY {
                Some(ClientPacket::MentorReply { accept: b[0] != 0 })
            } else if id == FISHING_CAST {
                Some(ClientPacket::FishingCast { cast_out: b[0] != 0 })
            } else {
                Some(ClientPacket::FishingAutocast { auto_cast: b[0] != 0 })
            }
        } else {
            None
        }
    } else if id == DIVORCE_REQUEST || id == ALLOW_MENTOR || id == CANCEL_MENTOR || id == REFRESH_FRIENDS || id
        == ACCEPT_REINCARNATION || id == CANCEL_REINCARNATION {
        if id == ACCEPT_REINCARNATION {
            Some(ClientPacket::AcceptReincarnation)
        } else if id == CANCEL_REINCARNATION {
            Some(ClientPacket::CancelReincarnation)
        } else if id == DIVORCE_REQUEST {
            Some(ClientPacket::DivorceRequest)
        } else if id == ALLOW_MENTOR {
            Some(ClientPacket::AllowMentor)
        } else if id == CANCEL_MENTOR {
            Some(ClientPacket::CancelMentor)
        } else {
            Some(ClientPacket::RefreshFriends)
        }
    } else if id == REMOVE_FRIEND {
        if b.len() >= 4 {
            Some(ClientPacket::RemoveFriend { index: le32(b, 0) as i32 })
        } else {
            None
        }
    } else if id == TRADE_REQUEST || id == TRADE_CANCEL {
        if id == TRADE_REQUEST {
            Some(ClientPacket::TradeRequest)
        } else {
            Some(ClientPacket::TradeCancel)
        }
    } else if id == TRADE_REPLY || id == TRADE_CONFIRM {
        if b.len() >= 1 {
            if id == TRADE_REPLY {
                Some(ClientPacket::TradeReply { accept: b[0] != 0 })
            } else {
                Some(ClientPacket::TradeConfirm { locked: b[0] != 0 })
            }
        } else {
            None
        }
    } else if id == TRADE_GOLD {
        if b.len() >= 4 {
            Some(ClientPacket::TradeGold { amount: le32(b, 0) })
        } else {
            None
        }
    } else if id == GAMESHOP_BUY {
        if b.len() >= 9 {
            Some(ClientPacket::GameshopBuy { g_index: le32(b, 0) as i32, quantity: b[4], p_type: le32(b, 5) as i32 })
        } else {
            None
        }
    } else if id == READ_MAIL || id == COLLECT_PARCEL || id == DELETE_MAIL {
        if b.len() >= 8 {
            let mail_id = read_u64(b, 0);
            if id == READ_MAIL {
                Some(ClientPacket::ReadMail { mail_id })
            } else if id == COLLECT_PARCEL {
                Some(ClientPacket::CollectParcel { mail_id })
            } else {
                Some(ClientPacket::DeleteMail { mail_id })
            }
        } else {
            None
        }
    } else if id == LOCK_MAIL {
        if b.len() >= 9 {
            Some(ClientPacket::LockMail { mail_id: read_u64(b, 0), lock: b[8] != 0 })
        } else {
            None
        }
    } else if id == SEND_MAIL {
        let (name, q) = match read_string(b, 0) {
            Some(x) => x,
            None => return None,
        };
        let (message, p) = match read_string(b, q) {
            Some(x) => x,
            None => return None,
        };
        if b.len() < 44 || p > b.len() - 44 {
            return None;
        }
        let gold = le32(b, p);
        let mut items: Vec<u64> = Vec::new();
        items.push(read_u64(b, p + 4));
        items.push(read_u64(b, p + 12));
        items.push(read_u64(b, p + 20));
        items.push(read_u64(b, p + 28));
        items.push(read_u64(b, p + 36));
        proof {
            assert(items@ =~= seq![
                le_u64(b@, p + 4),
                le_u64(b@, p + 12),
                le_u64(b@, p + 20),
                le_u64(b@, p + 28),
                le_u64(b@, p + 36),
            ]);
        }
        Some(ClientPacket::SendMail { name, message, gold, items })
    } else if id == MAGIC || id == MAGIC_KEY {
        if b.len() >= 2 {
            if id == MAGIC {
                Some(ClientPacket::Magic { spell: b[0], dir: b[1] })
            } else {
                Some(ClientPacket::MagicKey { spell: b[0], key: b[1] })
            }
        } else {
            None
        }
    } else if id == CHANGE_A_MODE || id == CHANGE_P_MODE || id == CHANGE_TRADE || id == SWITCH_GROUP || id
        == GROUP_INVITE {
        if b.len() >= 1 {
            let x = b[0];
            if id == CHANGE_A_MODE {
                Some(ClientPacket::ChangeAMode { mode: x })
            } else if id == CHANGE_P_MODE {
                Some(ClientPacket::ChangePMode { mode: x })
            } else if id == CHANGE_TRADE {
                Some(ClientPacket::ChangeTrade { allow: x != 0 })
            } else if id == SWITCH_GROUP {
                Some(ClientPacket::SwitchGroup { allow: x != 0 })
            } else {
                Some(ClientPacket::GroupInvite { accept: x != 0 })
            }
        } else {
            None
        }
    } else if id == ADD_MEMBER || id == DEL_MEMBER || id == WEB3_CHALLENGE || id == SESSION_LOGIN || id
        == ADD_FRIEND {
        match read_string(b, 0) {
            Some((t, _)) => {
                if id == ADD_MEMBER {
                    Some(ClientPacket::AddMember { name: t })
                } else if id == ADD_FRIEND {
                    Some(ClientPacket::AddFriend { name: t })
                } else if id == DEL_MEMBER {
                    Some(ClientPacket::DelMember { name: t })
                } else if id == WEB3_CHALLENGE {
                    Some(ClientPacket::Web3Challenge { address: t })
                } else {
                    Some(ClientPacket::SessionLogin { token: t })
                }
            },
            None => None,
        }
    } else if id == WEB3_LOGIN {
        let (a, q) = match read_string(b, 0) {
            Some(x) => x,
            None => return None,
        };
        let (c, q2) = match read_string(b, q) {
            Some(x) => x,
            None => return None,
        };
        match read_blob(b, q2) {
            Some((sig, _)) => Some(ClientPacket::Web3Login { address: a, challenge: c, signature: sig }),
            None => None,
        }
    } else {
        Some(ClientPacket::Unsupported { id })
    }
}

/// A length prefix reads back as the length it was written for.
proof fn lemma_varint_roundtrip(b: Seq<u8>, p: int, n: nat, k: nat)
    requires
        k < 5,
        n < varint_cap(k),
        0 <= p,
        p + varint_bytes(n).len() <= b.len(),
        b.subrange(p, p + varint_bytes(n).len()) == varint_bytes(n),
    ensures
        spec_varint(b, p, k) == Some((n as int, p + varint_bytes(n).len())),
    decreases n,
{
    let v = varint_bytes(n);
    assert(b[p] == b.subrange(p, p + v.len())[0]);
    if n >= 128 {
        let m = n / 128;
        let w = varint_bytes(m);
        assert(v == seq![(n % 128 + 128) as u8] + w);
        assert(m < varint_cap(k + 1));
        assert(v.subrange(1, v.len() as int) =~= w);
        assert(b.subrange(p + 1, p + 1 + w.len()) =~= b.subrange(p, p + v.len()).subrange(1, v.len() as int));
        lemma_varint_roundtrip(b, p + 1, m, k + 1);
        assert(b[p] - 128 + 128 * m == n);
    }
}

/// A string written in the client's layout reads back as itself, and the
/// reading ends right after it (for strings under 2^35 bytes).
pub proof fn law_string_roundtrip(s: Seq<char>, rest: Seq<u8>)
    requires
        encode_utf8(s).len() < varint_cap(0),
    ensures
        spec_string(str_bytes(s) + rest, 0) == Some((s, str_bytes(s).len() as int)),
{
    let e = encode_utf8(s);
    let v = varint_bytes(e.len());
    let b = str_bytes(s) + rest;
    assert(b.subrange(0, v.len() as int) =~= v);
    lemma_varint_roundtrip(b, 0, e.len(), 0);
    assert(b.subrange(v.len() as int, (v.len() + e.len()) as int) =~= e);
    vstd::utf8::encode_utf8_valid_utf8(s);
    vstd::utf8::encode_utf8_decode_utf8(s);
}

} // verus!
