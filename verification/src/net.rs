//! Connection-level rules: framing of the byte stream, the stages of a
//! connection, checks on account and character names, and the codes the
//! client is answered with.
use vstd::prelude::*;
use vstd::string::{StrSliceExecFns, StringSliceAdditionalSpecFns};

use crate::maps::le_u16;
use crate::types::{MirClass, MirGender};
use crate::web3::Web3Error;

verus! {

/// Largest frame accepted.
pub const MAX_FRAME: usize = 67108864;

/// The stage a connection is in.
#[derive(Debug, Clone, Copy, PartialEq, Eq, Structural)]
pub enum Stage {
    /// Connected, client version not yet checked.
    Initial,
    Login,
    Select,
    Game,
}

/// Little-endian `i16` at byte offset `p`.
pub open spec fn le_i16(b: Seq<u8>, p: int) -> i16 {
    le_u16(b, p) as i16
}

/// What `try_parse_frame` reads from `buf`: `None` until a whole frame is
/// there. A frame is a little-endian u16 length (counting the 4-byte header),
/// a little-endian i16 packet id and the payload. A length below 4 (or above
/// `MAX_FRAME`) is malformed: the whole buffer is consumed, with id 0 and no
/// payload. (id, payload, bytes consumed).
pub open spec fn spec_frame(buf: Seq<u8>) -> Option<(i16, Seq<u8>, int)> {
    if buf.len() < 4 {
        None
    } else {
        let len = le_u16(buf, 0) as int;
        if len < 4 || len > MAX_FRAME {
            Some((0, Seq::empty(), buf.len() as int))
        } else if buf.len() < len {
            None
        } else {
            Some((le_i16(buf, 2), buf.subrange(4, len), len))
        }
    }
}

/// Reads one frame from the front of `buf` (see `spec_frame`).
pub fn try_parse_frame(buf: &[u8]) -> (r: Option<(i16, Vec<u8>, usize)>)
    ensures
        match r {
            None => spec_frame(buf@) is None,
            Some((id, payload, used)) => spec_frame(buf@) == Some((id, payload@, used as int)),
        },
{
    if buf.len() < 4 {
        return None;
    }
    let len = ((buf[0] as u16) | ((buf[1] as u16) << 8u16)) as usize;
    assert(len == le_u16(buf@, 0));
    if len < 4 || len > MAX_FRAME {
        return Some((0, Vec::new(), buf.len()));
    }
    if buf.len() < len {
        return None;
    }
    let id = ((buf[2] as u16) | ((buf[3] as u16) << 8u16)) as i16;
    let mut payload: Vec<u8> = Vec::new();
    let mut i: usize = 4;
    while i < len
        invariant
            4 <= i <= len <= buf@.len(),
            payload@ == buf@.subrange(4, i as int),
        decreases len - i,
    {
        payload.push(buf[i]);
        i = i + 1;
        assert(payload@ =~= buf@.subrange(4, i as int));
    }
    Some((id, payload, len))
}

/// The bytes of a frame carrying packet `id` with `payload`: the length
/// (payload plus the 4-byte header) and the id, both little-endian, then the
/// payload.
pub open spec fn frame_bytes(id: i16, payload: Seq<u8>) -> Seq<u8> {
    let n = (payload.len() + 4) as u16;
    let u = id as u16;
    seq![(n & 0xff) as u8, (n >> 8u16) as u8, (u & 0xff) as u8, (u >> 8u16) as u8] + payload
}

proof fn lemma_le_u16_bytes(x: u16)
    ensures
        (((x & 0xff) as u8 as u16) | (((x >> 8u16) as u8 as u16) << 8u16)) as u16 == x,
{
    assert((((x & 0xff) as u8 as u16) | (((x >> 8u16) as u8 as u16) << 8u16)) as u16 == x) by (bit_vector);
}

proof fn lemma_i16_u16(id: i16)
    ensures
        (id as u16) as i16 == id,
{
    assert((id as u16) as i16 == id) by (bit_vector);
}

/// Framing can be undone: a whole frame at the front of the buffer (whatever
/// follows it) is read back as the packet id and payload it was made of, and
/// exactly its bytes are consumed.
pub proof fn law_frame_roundtrip(id: i16, payload: Seq<u8>, rest: Seq<u8>)
    requires
        payload.len() + 4 <= 0xFFFF,
    ensures
        spec_frame(frame_bytes(id, payload) + rest) == Some((id, payload, payload.len() + 4 as int)),
{
    let n = (payload.len() + 4) as u16;
    let u = id as u16;
    let b = frame_bytes(id, payload) + rest;
    lemma_le_u16_bytes(n);
    lemma_le_u16_bytes(u);
    lemma_i16_u16(id);
    assert(b[0] == (n & 0xff) as u8 && b[1] == (n >> 8u16) as u8);
    assert(b[2] == (u & 0xff) as u8 && b[3] == (u >> 8u16) as u8);
    assert(le_u16(b, 0) == n);
    assert(le_u16(b, 2) == u);
    assert(b.subrange(4, payload.len() + 4 as int) =~= payload);
}

/// A valid account id: 1 to 30 bytes, each an ASCII letter, digit or `_`.
pub open spec fn spec_valid_account_id(id: Seq<char>) -> bool {
    &&& id.len() > 0
    &&& forall|i: int|
        0 <= i < id.len() ==> ('a' <= #[trigger] id[i] <= 'z' || 'A' <= id[i] <= 'Z' || '0'
            <= id[i] <= '9' || id[i] == '_')
    &&& id.len() <= 30
}

/// Whether `id` is a valid account id (see `spec_valid_account_id`).
pub fn valid_account_id(id: &str) -> (r: bool)
    ensures
        r == spec_valid_account_id(id@),
{
    let n = id.unicode_len();
    if n == 0 || n > 30 {
        return false;
    }
    let mut i: usize = 0;
    while i < n
        invariant
            n == id@.len(),
            i <= n,
            forall|j: int|
                0 <= j < i ==> ('a' <= #[trigger] id@[j] <= 'z' || 'A' <= id@[j] <= 'Z' || '0'
                    <= id@[j] <= '9' || id@[j] == '_'),
        decreases n - i,
    {
        let c = id.get_char(i);
        if !(('a' <= c && c <= 'z') || ('A' <= c && c <= 'Z') || ('0' <= c && c <= '9') || c
            == '_') {
            return false;
        }
        i = i + 1;
    }
    true
}

/// A valid character name: 1 to 16 bytes of UTF-8.
pub fn char_name_valid(name: &str) -> (r: bool)
    ensures
        r == (name.spec_bytes().len() > 0 && name.spec_bytes().len() <= 16),
{
    let n = name.as_bytes().len();
    n > 0 && n <= 16
}

/// The class with number `v` (anything above 3 is an archer).
pub open spec fn spec_class(v: u8) -> MirClass {
    if v == 0 {
        MirClass::Warrior
    } else if v == 1 {
        MirClass::Wizard
    } else if v == 2 {
        MirClass::Taoist
    } else if v == 3 {
        MirClass::Assassin
    } else {
        MirClass::Archer
    }
}

pub fn num_class(v: u8) -> (r: MirClass)
    ensures
        r == spec_class(v),
{
    match v {
        0 => MirClass::Warrior,
        1 => MirClass::Wizard,
        2 => MirClass::Taoist,
        3 => MirClass::Assassin,
        _ => MirClass::Archer,
    }
}

/// The class stored as number `v`.
pub fn class_from_db(v: u8) -> (r: MirClass)
    ensures
        r == spec_class(v),
{
    num_class(v)
}

/// The gender with number `v` (0 male, anything else female).
pub fn num_gender(v: u8) -> (r: MirGender)
    ensures
        r == (if v == 0 { MirGender::Male } else { MirGender::Female }),
{
    match v {
        0 => MirGender::Male,
        _ => MirGender::Female,
    }
}

/// Base hit points and attack of a character of level `level` (the class
/// does not matter): `40 + 8 * level` and `1 + level / 2`.
pub fn base_stats(class: MirClass, level: u16) -> (r: (i32, i32))
    ensures
        r.0 == 40 + 8 * level,
        r.1 == 1 + level / 2,
{
    let hp = 40 + level as i32 * 8;
    let attack = 1 + level as i32 / 2;
    (hp, attack)
}

/// The answer to a new-account request before the store is asked: 1 for an
/// invalid account id, 2 for a password shorter than 3 bytes, `None` when
/// the store should register the account (answering 7 if the id is taken,
/// 8 if it was registered).
pub fn new_account_check(account_id: &str, password: &str) -> (r: Option<u8>)
    ensures
        r == (if !spec_valid_account_id(account_id@) {
            Some(1u8)
        } else if password.spec_bytes().len() < 3 {
            Some(2u8)
        } else {
            None
        }),
{
    if !valid_account_id(account_id) {
        Some(1)
    } else if password.as_bytes().len() < 3 {
        Some(2)
    } else {
        None
    }
}

/// The answer to a new-account request once the store has tried to register
/// the account.
pub fn new_account_result(registered: bool) -> (r: u8)
    ensures
        r == (if registered { 8u8 } else { 7u8 }),
{
    if registered {
        8
    } else {
        7
    }
}

/// The code a wallet login is answered with: 0 on success, 2 when the
/// challenge expired (or is missing), 3 otherwise.
pub fn web3_login_code<T>(r: &Result<T, Web3Error>) -> (code: i32)
    ensures
        code == match r {
            Ok(_) => 0i32,
            Err(Web3Error::ChallengeExpired) => 2i32,
            Err(_) => 3i32,
        },
{
    match r {
        Ok(_) => 0,
        Err(Web3Error::ChallengeExpired) => 2,
        Err(_) => 3,
    }
}

} // verus!
