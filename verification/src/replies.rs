//! Encoding of the server's answers, in the layout the client reads
//! (integers little-endian, strings as a 7-bit length prefix and UTF-8
//! bytes), each wrapped in a frame.
use vstd::prelude::*;
use vstd::string::StrSliceExecFns;
use vstd::utf8::encode_utf8;

use crate::account::SelectInfo;
use crate::net::frame_bytes;
use crate::party::{GroupMsg, GroupMsgV};
use crate::session::Reply;
use crate::types::{MirClass, MirGender};

verus! {

/// Packet ids of the server's answers.
pub const S_CONNECTED: i16 = 0;
pub const S_CLIENT_VERSION: i16 = 1;
pub const S_KEEP_ALIVE: i16 = 3;
pub const S_NEW_ACCOUNT: i16 = 4;
pub const S_LOGIN: i16 = 7;
pub const S_LOGIN_SUCCESS: i16 = 9;
pub const S_NEW_CHARACTER: i16 = 10;
pub const S_NEW_CHARACTER_SUCCESS: i16 = 11;
pub const S_DELETE_CHARACTER: i16 = 12;
pub const S_DELETE_CHARACTER_SUCCESS: i16 = 13;
pub const S_START_GAME: i16 = 14;
pub const S_OBJECT_CHAT: i16 = 26;
/// The group and wallet answers, numbered by this server.
pub const S_SWITCH_GROUP: i16 = 63;
pub const S_DELETE_GROUP: i16 = 64;
pub const S_DELETE_MEMBER: i16 = 65;
pub const S_GROUP_INVITE: i16 = 66;
pub const S_ADD_MEMBER: i16 = 67;
pub const S_WEB3_CHALLENGE: i16 = 200;
pub const S_WEB3_RESULT: i16 = 201;

/// The two bytes of `x`, low first.
pub open spec fn bytes_u16(x: u16) -> Seq<u8> {
    seq![(x & 0xff) as u8, (x >> 8u16) as u8]
}

/// The four bytes of `x`, low first.
pub open spec fn bytes_u32(x: u32) -> Seq<u8> {
    seq![(x & 0xff) as u8, ((x >> 8u32) & 0xff) as u8, ((x >> 16u32) & 0xff) as u8, (x >> 24u32) as u8]
}

/// The eight bytes of `x` (two's complement), low first.
pub open spec fn bytes_i64(x: i64) -> Seq<u8> {
    let u = x as u64;
    bytes_u32((u & 0xffff_ffff) as u32) + bytes_u32((u >> 32u64) as u32)
}

/// The length prefix of a string of `n` bytes: 7 bits per byte, low group
/// first, the high bit set on all but the last byte.
pub open spec fn varint_bytes(n: nat) -> Seq<u8>
    decreases n,
{
    if n < 128 {
        seq![n as u8]
    } else {
        seq![(n % 128 + 128) as u8] + varint_bytes(n / 128)
    }
}

/// A string as written: its length prefix and its UTF-8 bytes.
pub open spec fn str_bytes(s: Seq<char>) -> Seq<u8> {
    varint_bytes(encode_utf8(s).len()) + encode_utf8(s)
}

fn put_u8(out: &mut Vec<u8>, x: u8)
    ensures
        final(out)@ == old(out)@ + seq![x],
{
    out.push(x);
    assert(out@ =~= old(out)@ + seq![x]);
}

fn put_u16(out: &mut Vec<u8>, x: u16)
    ensures
        final(out)@ == old(out)@ + bytes_u16(x),
{
    out.push((x & 0xff) as u8);
    out.push((x >> 8u16) as u8);
    assert(out@ =~= old(out)@ + bytes_u16(x));
}

fn put_u32(out: &mut Vec<u8>, x: u32)
    ensures
        final(out)@ == old(out)@ + bytes_u32(x),
{
    out.push((x & 0xff) as u8);
    out.push(((x >> 8u32) & 0xff) as u8);
    out.push(((x >> 16u32) & 0xff) as u8);
    out.push((x >> 24u32) as u8);
    assert(out@ =~= old(out)@ + bytes_u32(x));
}

fn put_i64(out: &mut Vec<u8>, x: i64)
    ensures
        final(out)@ == old(out)@ + bytes_i64(x),
{
    let u = x as u64;
    put_u32(out, (u & 0xffff_ffff) as u32);
    put_u32(out, (u >> 32u64) as u32);
    assert(out@ =~= old(out)@ + bytes_i64(x));
}

fn put_str(out: &mut Vec<u8>, s: &str)
    ensures
        final(out)@ == old(out)@ + str_bytes(s@),
{
    let b = s.as_bytes_vec();
    let ghost o0 = out@;
    let mut n: usize = b.len();
    while n >= 128
        invariant
            out@ + varint_bytes(n as nat) == o0 + varint_bytes(b@.len()),
        decreases n,
    {
        let ghost before = out@;
        out.push((n % 128 + 128) as u8);
        assert(out@ == before + seq![(n % 128 + 128) as u8]);
        assert(varint_bytes(n as nat) == seq![(n % 128 + 128) as u8] + varint_bytes((n / 128) as nat));
        assert(out@ + varint_bytes((n / 128) as nat) =~= before + varint_bytes(n as nat));
        n = n / 128;
    }
    let ghost before = out@;
    out.push(n as u8);
    assert(out@ =~= before + varint_bytes(n as nat));
    let mut i: usize = 0;
    while i < b.len()
        invariant
            i <= b@.len(),
            out@ == o0 + varint_bytes(b@.len()) + b@.subrange(0, i as int),
        decreases b@.len() - i,
    {
        out.push(b[i]);
        i = i + 1;
        assert(out@ =~= o0 + varint_bytes(b@.len()) + b@.subrange(0, i as int));
    }
    assert(b@.subrange(0, b@.len() as int) =~= b@);
    assert(out@ =~= o0 + str_bytes(s@));
}

/// Frames `payload` as packet `id`.
fn frame(id: i16, payload: Vec<u8>) -> (r: Vec<u8>)
    requires
        payload@.len() + 4 <= 0xFFFF,
    ensures
        r@ == frame_bytes(id, payload@),
{
    let n = (payload.len() + 4) as u16;
    let u = id as u16;
    let mut r: Vec<u8> = Vec::new();
    r.push((n & 0xff) as u8);
    r.push((n >> 8u16) as u8);
    r.push((u & 0xff) as u8);
    r.push((u >> 8u16) as u8);
    let mut p = payload;
    r.append(&mut p);
    assert(r@ =~= frame_bytes(id, payload@));
    r
}

/// The number the client knows class `c` by.
pub open spec fn class_num(c: MirClass) -> u8 {
    match c {
        MirClass::Warrior => 0,
        MirClass::Wizard => 1,
        MirClass::Taoist => 2,
        MirClass::Assassin => 3,
        MirClass::Archer => 4,
    }
}

/// The number the client knows gender `g` by.
pub open spec fn gender_num(g: MirGender) -> u8 {
    match g {
        MirGender::Male => 0,
        MirGender::Female => 1,
    }
}

/// The packet (id and payload) answering `r`, when the answer needs
/// nothing from the store: the version accepted (result 1), a keep-alive
/// echoing its time, a refused login (result 3), a refused character
/// creation or start (its result, a start with resolution 0), a refused
/// deletion (result 1), an accepted start (result 0, resolution 1024), and a
/// refused wallet login (its result, no characters, an empty token).
pub open spec fn spec_reply_packet(r: Reply) -> Option<(i16, Seq<u8>)> {
    match r {
        Reply::ClientVersion => Some((S_CLIENT_VERSION, seq![1u8])),
        Reply::KeepAlive { time } => Some((S_KEEP_ALIVE, bytes_i64(time))),
        Reply::LoginFailed => Some((S_LOGIN, seq![3u8])),
        Reply::NewCharacterFailed { result } => Some((S_NEW_CHARACTER, seq![result])),
        Reply::DeleteCharacterFailed => Some((S_DELETE_CHARACTER, seq![1u8])),
        Reply::StartGameFailed { result } => Some((S_START_GAME, seq![result] + bytes_u32(0))),
        Reply::EnterWorld => Some((S_START_GAME, seq![0u8] + bytes_u32(1024))),
        Reply::Web3Failed { result } => Some((S_WEB3_RESULT, bytes_u32(result as u32) + bytes_u32(0) + seq![0u8])),
        _ => None,
    }
}

/// The frame answering `r` (see `spec_reply_packet`); `None` when the
/// answer needs the store or there is nothing to send.
pub fn reply_frame(r: Reply) -> (out: Option<Vec<u8>>)
    ensures
        match (out, spec_reply_packet(r)) {
            (Some(f), Some((id, p))) => f@ == frame_bytes(id, p),
            (None, None) => true,
            _ => false,
        },
{
    let mut p: Vec<u8> = Vec::new();
    let id = match r {
        Reply::ClientVersion => {
            put_u8(&mut p, 1);
            S_CLIENT_VERSION
        },
        Reply::KeepAlive { time } => {
            put_i64(&mut p, time);
            S_KEEP_ALIVE
        },
        Reply::LoginFailed => {
            put_u8(&mut p, 3);
            S_LOGIN
        },
        Reply::NewCharacterFailed { result } => {
            put_u8(&mut p, result);
            S_NEW_CHARACTER
        },
        Reply::DeleteCharacterFailed => {
            put_u8(&mut p, 1);
            S_DELETE_CHARACTER
        },
        Reply::StartGameFailed { result } => {
            put_u8(&mut p, result);
            put_u32(&mut p, 0);
            S_START_GAME
        },
        Reply::EnterWorld => {
            put_u8(&mut p, 0);
            put_u32(&mut p, 1024);
            S_START_GAME
        },
        Reply::Web3Failed { result } => {
            put_u32(&mut p, result as u32);
            put_u32(&mut p, 0);
            put_u8(&mut p, 0);
            S_WEB3_RESULT
        },
        _ => return None,
    };
    proof {
        assert(spec_reply_packet(r) == Some((id, p@)));
    }
    Some(frame(id, p))
}

/// The greeting sent on connect.
pub fn connected_frame() -> (r: Vec<u8>)
    ensures
        r@ == frame_bytes(S_CONNECTED, Seq::empty()),
{
    frame(S_CONNECTED, Vec::new())
}

/// The answer to an account creation: `result`.
pub fn new_account_frame(result: u8) -> (r: Vec<u8>)
    ensures
        r@ == frame_bytes(S_NEW_ACCOUNT, seq![result]),
{
    let mut p: Vec<u8> = Vec::new();
    put_u8(&mut p, result);
    frame(S_NEW_ACCOUNT, p)
}

/// The answer to a deletion that succeeded: the character index.
pub fn character_deleted_frame(index: i32) -> (r: Vec<u8>)
    ensures
        r@ == frame_bytes(S_DELETE_CHARACTER_SUCCESS, bytes_u32(index as u32)),
{
    let mut p: Vec<u8> = Vec::new();
    put_u32(&mut p, index as u32);
    frame(S_DELETE_CHARACTER_SUCCESS, p)
}

/// One character of a character list: index, name, level, class, gender
/// and last access.
pub open spec fn select_bytes(c: SelectInfo) -> Seq<u8> {
    bytes_u32(c.index as u32) + str_bytes(c.name@) + bytes_u16(c.level) + seq![class_num(c.class)]
        + seq![gender_num(c.gender)] + bytes_i64(c.last_access)
}

/// The characters of a list, one after the other.
pub open spec fn list_bytes(cs: Seq<SelectInfo>) -> Seq<u8>
    decreases cs.len(),
{
    if cs.len() == 0 {
        Seq::empty()
    } else {
        list_bytes(cs.drop_last()) + select_bytes(cs.last())
    }
}

/// The payload of a character list: the count, then each character.
pub open spec fn login_success_payload(cs: Seq<SelectInfo>) -> Seq<u8> {
    bytes_u32(cs.len() as u32) + list_bytes(cs)
}

fn put_select(out: &mut Vec<u8>, c: &SelectInfo)
    ensures
        final(out)@ == old(out)@ + select_bytes(*c),
{
    let ghost o0 = out@;
    put_u32(out, c.index as u32);
    put_str(out, c.name.as_str());
    put_u16(out, c.level);
    put_u8(
        out,
        match c.class {
            MirClass::Warrior => 0,
            MirClass::Wizard => 1,
            MirClass::Taoist => 2,
            MirClass::Assassin => 3,
            MirClass::Archer => 4,
        },
    );
    put_u8(
        out,
        match c.gender {
            MirGender::Male => 0,
            MirGender::Female => 1,
        },
    );
    put_i64(out, c.last_access);
    assert(out@ =~= o0 + select_bytes(*c));
}

/// The character list sent after a login; `None` when it does not fit in
/// one frame.
pub fn login_success_frame(cs: &Vec<SelectInfo>) -> (r: Option<Vec<u8>>)
    ensures
        match r {
            Some(f) => f@ == frame_bytes(S_LOGIN_SUCCESS, login_success_payload(cs@)),
            None => login_success_payload(cs@).len() + 4 > 0xFFFF,
        },
{
    let mut p: Vec<u8> = Vec::new();
    put_list(&mut p, cs);
    assert(p@ =~= login_success_payload(cs@));
    if p.len() > 0xFFFF - 4 {
        return None;
    }
    Some(frame(S_LOGIN_SUCCESS, p))
}

/// Appends a character list: the count, then each character.
fn put_list(p: &mut Vec<u8>, cs: &Vec<SelectInfo>)
    ensures
        final(p)@ == old(p)@ + login_success_payload(cs@),
{
    let ghost p0 = p@;
    put_u32(p, cs.len() as u32);
    let mut i: usize = 0;
    while i < cs.len()
        invariant
            i <= cs@.len(),
            p@ == p0 + bytes_u32(cs@.len() as u32) + list_bytes(cs@.subrange(0, i as int)),
        decreases cs@.len() - i,
    {
        let ghost before = p@;
        put_select(p, &cs[i]);
        proof {
            let s = cs@.subrange(0, i + 1);
            assert(s.drop_last() =~= cs@.subrange(0, i as int));
            assert(s.last() == cs@[i as int]);
            assert(p@ =~= before + select_bytes(cs@[i as int]));
        }
        i = i + 1;
    }
    assert(cs@.subrange(0, cs@.len() as int) =~= cs@);
    assert(p@ =~= p0 + login_success_payload(cs@));
}

/// The answer to a wallet login: the result (0 logged in, 1 bad address,
/// 2 challenge missing or expired, 3 bad signature), the account's
/// characters and a session token.
pub open spec fn web3_result_payload(result: i32, cs: Seq<SelectInfo>, token: Seq<char>) -> Seq<u8> {
    bytes_u32(result as u32) + login_success_payload(cs) + str_bytes(token)
}

/// The frame answering a wallet login; `None` when it does not fit in one
/// frame.
pub fn web3_result_frame(result: i32, cs: &Vec<SelectInfo>, token: &str) -> (r: Option<Vec<u8>>)
    ensures
        match r {
            Some(f) => f@ == frame_bytes(S_WEB3_RESULT, web3_result_payload(result, cs@, token@)),
            None => web3_result_payload(result, cs@, token@).len() + 4 > 0xFFFF,
        },
{
    let mut p: Vec<u8> = Vec::new();
    put_u32(&mut p, result as u32);
    put_list(&mut p, cs);
    put_str(&mut p, token);
    assert(p@ =~= web3_result_payload(result, cs@, token@));
    if p.len() > 0xFFFF - 4 {
        return None;
    }
    Some(frame(S_WEB3_RESULT, p))
}

/// A wallet-login challenge: the address, the text to sign and how many
/// seconds it stays valid.
pub open spec fn web3_challenge_payload(address: Seq<char>, message: Seq<char>, expires_in: i64) -> Seq<u8> {
    str_bytes(address) + str_bytes(message) + bytes_i64(expires_in)
}

/// The frame carrying a wallet-login challenge; `None` when it does not fit
/// in one frame.
pub fn web3_challenge_frame(address: &str, message: &str, expires_in: i64) -> (r: Option<Vec<u8>>)
    ensures
        match r {
            Some(f) => f@ == frame_bytes(S_WEB3_CHALLENGE, web3_challenge_payload(address@, message@, expires_in)),
            None => web3_challenge_payload(address@, message@, expires_in).len() + 4 > 0xFFFF,
        },
{
    let mut p: Vec<u8> = Vec::new();
    put_str(&mut p, address);
    put_str(&mut p, message);
    put_i64(&mut p, expires_in);
    assert(p@ =~= web3_challenge_payload(address@, message@, expires_in));
    if p.len() > 0xFFFF - 4 {
        return None;
    }
    Some(frame(S_WEB3_CHALLENGE, p))
}

/// The packet (id and payload) carrying group message `m`; `None` for a
/// notice, which goes out as a chat line.
pub open spec fn spec_group_packet(m: GroupMsgV) -> Option<(i16, Seq<u8>)> {
    match m {
        GroupMsgV::Switch(b) => Some((S_SWITCH_GROUP, seq![if b { 1u8 } else { 0u8 }])),
        GroupMsgV::Invite(n) => Some((S_GROUP_INVITE, str_bytes(n))),
        GroupMsgV::AddMember(n) => Some((S_ADD_MEMBER, str_bytes(n))),
        GroupMsgV::DeleteGroup => Some((S_DELETE_GROUP, Seq::empty())),
        GroupMsgV::DeleteMember(n) => Some((S_DELETE_MEMBER, str_bytes(n))),
        GroupMsgV::Note(_, _) => None,
    }
}

/// The frame carrying group message `m` (see `spec_group_packet`); `None`
/// for a notice or a message that does not fit in one frame.
pub fn group_frame(m: &GroupMsg) -> (r: Option<Vec<u8>>)
    ensures
        match (r, spec_group_packet(m@)) {
            (Some(f), Some((id, p))) => p.len() + 4 <= 0xFFFF && f@ == frame_bytes(id, p),
            (None, Some((_, p))) => p.len() + 4 > 0xFFFF,
            (None, None) => true,
            _ => false,
        },
{
    let mut p: Vec<u8> = Vec::new();
    let id = match m {
        GroupMsg::Switch(b) => {
            put_u8(&mut p, if *b { 1 } else { 0 });
            S_SWITCH_GROUP
        },
        GroupMsg::Invite(n) => {
            put_str(&mut p, n.as_str());
            S_GROUP_INVITE
        },
        GroupMsg::AddMember(n) => {
            put_str(&mut p, n.as_str());
            S_ADD_MEMBER
        },
        GroupMsg::DeleteGroup => S_DELETE_GROUP,
        GroupMsg::DeleteMember(n) => {
            put_str(&mut p, n.as_str());
            S_DELETE_MEMBER
        },
        GroupMsg::Note(_, _) => return None,
    };
    assert(spec_group_packet(m@) == Some((id, p@)));
    if p.len() > 0xFFFF - 4 {
        return None;
    }
    Some(frame(id, p))
}

/// The answer to a character creation that succeeded: the new character;
/// `None` when it does not fit in one frame.
pub fn new_character_success_frame(c: &SelectInfo) -> (r: Option<Vec<u8>>)
    ensures
        match r {
            Some(f) => f@ == frame_bytes(S_NEW_CHARACTER_SUCCESS, select_bytes(*c)),
            None => select_bytes(*c).len() + 4 > 0xFFFF,
        },
{
    let mut p: Vec<u8> = Vec::new();
    put_select(&mut p, c);
    assert(p@ =~= select_bytes(*c));
    if p.len() > 0xFFFF - 4 {
        return None;
    }
    Some(frame(S_NEW_CHARACTER_SUCCESS, p))
}

/// A chat line of `object_id` (`kind` 0 said aloud, 1 a system notice).
pub open spec fn object_chat_payload(object_id: u32, text: Seq<char>, kind: u8) -> Seq<u8> {
    bytes_u32(object_id) + str_bytes(text) + seq![kind]
}

/// The frame carrying a chat line; `None` when the text does not fit in one
/// frame.
pub fn object_chat_frame(object_id: u32, text: &str, kind: u8) -> (r: Option<Vec<u8>>)
    ensures
        match r {
            Some(f) => f@ == frame_bytes(S_OBJECT_CHAT, object_chat_payload(object_id, text@, kind)),
            None => object_chat_payload(object_id, text@, kind).len() + 4 > 0xFFFF,
        },
{
    let mut p: Vec<u8> = Vec::new();
    put_u32(&mut p, object_id);
    put_str(&mut p, text);
    put_u8(&mut p, kind);
    assert(p@ =~= object_chat_payload(object_id, text@, kind));
    if p.len() > 0xFFFF - 4 {
        return None;
    }
    Some(frame(S_OBJECT_CHAT, p))
}

} // verus!
