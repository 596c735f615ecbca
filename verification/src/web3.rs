//! Wallet login (EIP-191 `personal_sign` challenge/response).
//!
//! The signed pre-image is `\x19Ethereum Signed Message:\n`, the decimal
//! byte length of the message, then the message.
//!
//! 1. The client sends its wallet address; the server normalises it and issues
//!    a one-time challenge message, valid for `CHALLENGE_TTL_SECS` seconds.
//! 2. The wallet signs the challenge with `personal_sign`.
//! 3. The server recovers the signer's address from the signature and logs the
//!    player in when it matches the announced address; the challenge is used up
//!    by the attempt.
use k256::ecdsa::{RecoveryId, Signature, SigningKey, VerifyingKey};
use rand::RngCore;
use sha3::{Digest, Keccak256};
use std::time::Instant;
use vstd::hash_map::StringHashMap;
use vstd::prelude::*;
use vstd::utf8::encode_utf8;
use vstd::string::{StrSliceExecFns, StringExecFns, StringSliceAdditionalSpecFns};

use crate::text::{
    chars_of, hex_bytes, hex_char, hex_digit, hex_of_u128, hex_u128, hex_val, hex_value, is_hex,
    lower, push_char, push_hex_bytes, string_of, trim, trim_lower,
};

verus! {

/// How long a challenge stays valid, in seconds.
pub const CHALLENGE_TTL_SECS: u64 = 300;

/// Length of a normalised address: `0x` and 40 hex digits.
pub const ADDR_LEN: usize = 42;

/// Length of a signature: r (32) || s (32) || v (1).
pub const SIG_LEN: usize = 65;

#[verifier::external_type_specification]
#[verifier::external_body]
pub struct ExInstant(std::time::Instant);

#[derive(Debug, Clone, Copy, PartialEq, Eq, Structural)]
pub enum Web3Error {
    /// Not `0x` followed by 40 hex digits.
    InvalidAddress,
    /// No challenge was issued for the address, it was already used, it does
    /// not match the message signed, or it expired.
    ChallengeExpired,
    /// Malformed signature, or it was made by another wallet.
    InvalidSignature,
}

impl Web3Error {
    /// The human-readable description of the error.
    pub fn describe(&self) -> (r: &'static str)
        ensures
            r@ == (match self {
                Web3Error::InvalidAddress => "invalid wallet address"@,
                Web3Error::ChallengeExpired => "challenge expired or missing"@,
                Web3Error::InvalidSignature => "invalid signature or address mismatch"@,
            }),
    {
        match self {
            Web3Error::InvalidAddress => "invalid wallet address",
            Web3Error::ChallengeExpired => "challenge expired or missing",
            Web3Error::InvalidSignature => "invalid signature or address mismatch",
        }
    }
}

/// An issued challenge.
pub struct Challenge {
    pub message: String,
    pub issued_at: Instant,
}

/// Challenge message sent to the client.
pub struct Web3ChallengeMsg {
    pub address: String,
    pub message: String,
    pub expires_in: i64,
}

/// Wallet-login state: the outstanding challenge of each address, and an id
/// of this server instance that makes challenge texts unique.
pub struct Web3Auth {
    challenges: StringHashMap<Challenge>,
    server_id: String,
}

// ----------------------------------------------------------------------------
// Outside computations
// ----------------------------------------------------------------------------

/// Keccak-256 digest of a byte string.
pub uninterp spec fn spec_keccak256(data: Seq<u8>) -> Seq<u8>;

/// The uncompressed secp256k1 public key (X || Y, 64 bytes) recovered from a
/// 32-byte prehash, a 64-byte (r || s) signature and a recovery id, if any.
pub uninterp spec fn spec_ecdsa_recover_xy(prehash: Seq<u8>, sig: Seq<u8>, recid: u8) -> Option<
    Seq<u8>,
>;

/// `sha3::Keccak256::digest`: the 32-byte Keccak-256 digest of `data`. The
/// contract claims that the digest is a function of `data` alone and has 32
/// bytes; the hash itself is not stated.
#[verifier::external_body]
fn keccak256(data: &[u8]) -> (r: Vec<u8>)
    ensures
        r@ == spec_keccak256(data@),
        r@.len() == 32,
{
    Keccak256::digest(data).to_vec()
}

/// Public-key recovery with `k256`: `Signature::try_from` on the 64 signature
/// bytes, `RecoveryId::try_from` on the id, `VerifyingKey::recover_from_prehash`,
/// then the uncompressed SEC1 encoding without its leading 0x04 byte. The
/// contract claims the result is a function of the three arguments, that it is
/// 64 bytes when present, and (as `Signature::from_slice` and
/// `RecoveryId::from_byte` show) that there is none for a signature that is not
/// 64 bytes long or a recovery id above 3. Which keys are recovered is not
/// stated.
#[verifier::external_body]
fn ecdsa_recover_xy(prehash: &[u8], sig: &[u8], recid: u8) -> (r: Option<Vec<u8>>)
    ensures
        r matches Some(v) ==> spec_ecdsa_recover_xy(prehash@, sig@, recid) == Some(v@) && v@.len()
            == 64,
        r is None ==> spec_ecdsa_recover_xy(prehash@, sig@, recid) is None,
        sig@.len() != 64 ==> r is None,
        recid > 3 ==> r is None,
{
    let signature = Signature::try_from(sig).ok()?;
    let id = RecoveryId::try_from(recid).ok()?;
    let key = VerifyingKey::recover_from_prehash(prehash, &signature, id).ok()?;
    Some(key.to_encoded_point(false).as_bytes()[1..].to_vec())
}

/// An ECDSA signature (r || s, 64 bytes) of a 32-byte prehash by a secret
/// key, followed by its recovery id (one byte), if the key is valid.
pub uninterp spec fn spec_ecdsa_sign(secret: Seq<u8>, prehash: Seq<u8>) -> Option<Seq<u8>>;

/// The uncompressed secp256k1 public key (X || Y, 64 bytes) of a secret key,
/// if the key is valid.
pub uninterp spec fn spec_public_key_xy(secret: Seq<u8>) -> Option<Seq<u8>>;

/// Signing with `k256`: `SigningKey::from_slice` on the secret, then
/// `sign_prehash_recoverable` (deterministic, RFC 6979), giving r || s and the
/// byte of the recovery id. The contract claims the result is a function of
/// the two arguments and, when present, is 65 bytes whose last byte (from
/// `RecoveryId::to_byte`) is at most 3. Which signature is made is not stated.
#[verifier::external_body]
fn ecdsa_sign(secret: &[u8], prehash: &[u8]) -> (r: Option<Vec<u8>>)
    ensures
        r matches Some(v) ==> spec_ecdsa_sign(secret@, prehash@) == Some(v@) && v@.len() == 65
            && v@[64] <= 3,
        r is None ==> spec_ecdsa_sign(secret@, prehash@) is None,
{
    let key = SigningKey::from_slice(secret).ok()?;
    let (sig, recid) = key.sign_prehash_recoverable(prehash).ok()?;
    let mut out = sig.to_bytes().to_vec();
    out.push(recid.to_byte());
    Some(out)
}

/// The public key of a secret key with `k256`: `SigningKey::from_slice`, then
/// `verifying_key().to_encoded_point(false)` without its leading 0x04 byte.
/// The contract claims the result is a function of the secret and is 64 bytes
/// when present. Which key it is is not stated.
#[verifier::external_body]
fn ecdsa_public_key_xy(secret: &[u8]) -> (r: Option<Vec<u8>>)
    ensures
        r matches Some(v) ==> spec_public_key_xy(secret@) == Some(v@) && v@.len() == 64,
        r is None ==> spec_public_key_xy(secret@) is None,
{
    let key = SigningKey::from_slice(secret).ok()?;
    Some(key.verifying_key().to_encoded_point(false).as_bytes()[1..].to_vec())
}

/// `rand::thread_rng().fill_bytes`: `n` random bytes. Only the length is
/// claimed.
#[verifier::external_body]
fn random_bytes(n: usize) -> (r: Vec<u8>)
    ensures
        r@.len() == n,
{
    let mut bytes = vec![0u8; n];
    rand::thread_rng().fill_bytes(&mut bytes);
    bytes
}

/// Nanoseconds since the Unix epoch (`SystemTime::now().duration_since`, 0 for
/// a clock before the epoch). Nothing is claimed of the value.
#[verifier::external_body]
fn unix_nanos() -> (r: u128) {
    std::time::SystemTime::now().duration_since(std::time::UNIX_EPOCH).unwrap_or_default().as_nanos()
}

/// `Instant::now`. Nothing is claimed of the value.
#[verifier::external_body]
fn instant_now() -> (r: Instant) {
    Instant::now()
}

/// `Instant::elapsed` in nanoseconds. Nothing is claimed of the value.
#[verifier::external_body]
fn elapsed_nanos(t: &Instant) -> (r: u128) {
    t.elapsed().as_nanos()
}

// ----------------------------------------------------------------------------
// Addresses
// ----------------------------------------------------------------------------

/// A normalised address: `0x` followed by 40 hex digits.
pub open spec fn is_address(t: Seq<char>) -> bool {
    &&& t.len() == 42
    &&& t[0] == '0'
    &&& t[1] == 'x'
    &&& forall|i: int| 2 <= i < 42 ==> is_hex(#[trigger] t[i])
}

/// The 20 bytes spelled by the 40 hex digits of an address.
pub open spec fn address_bytes(t: Seq<char>) -> Seq<u8> {
    Seq::new(20, |i: int| (hex_val(t[2 + 2 * i]) * 16 + hex_val(t[3 + 2 * i])) as u8)
}

/// What `normalize_address` makes of `raw`: trimmed and lower-cased, it must
/// be `0x` and 40 hex digits.
pub open spec fn spec_normalize(raw: Seq<char>) -> Option<(Seq<char>, Seq<u8>)> {
    let t = lower(trim(raw));
    if is_address(t) {
        Some((t, address_bytes(t)))
    } else {
        None
    }
}

// ----------------------------------------------------------------------------
// Signature recovery
// ----------------------------------------------------------------------------

/// `\x19Ethereum Signed Message:\n`.
pub open spec fn eip191_prefix() -> Seq<u8> {
    seq![
        0x19u8, 69, 116, 104, 101, 114, 101, 117, 109, 32, 83, 105, 103, 110, 101, 100, 32, 77,
        101, 115, 115, 97, 103, 101, 58, 10,
    ]
}

/// The bytes that are hashed and signed for `message` (UTF-8 bytes `m`): the
/// prefix, the decimal byte length, then the message.
pub open spec fn spec_eip191(m: Seq<u8>) -> Seq<u8> {
    eip191_prefix() + crate::text::dec_bytes(m.len()) + m
}

/// The recovery id carried by the last signature byte: 27/28 (and above) are
/// shifted down by 27, smaller values are used as they are.
pub open spec fn recovery_id(v: u8) -> u8 {
    if v >= 27 {
        (v - 27) as u8
    } else {
        v
    }
}

/// The 20-byte address that signed message bytes `m` with signature `sig`.
pub open spec fn spec_recover_address(m: Seq<u8>, sig: Seq<u8>) -> Option<Seq<u8>> {
    if sig.len() != 65 {
        None
    } else {
        match spec_ecdsa_recover_xy(
            spec_keccak256(spec_eip191(m)),
            sig.subrange(0, 64),
            recovery_id(sig[64]),
        ) {
            Some(xy) => Some(spec_keccak256(xy).subrange(12, 32)),
            None => None,
        }
    }
}

fn append_bytes(v: &mut Vec<u8>, b: &[u8])
    ensures
        final(v)@ == old(v)@ + b@,
{
    let ghost v0 = v@;
    let mut i: usize = 0;
    while i < b.len()
        invariant
            i <= b.len(),
            v@ == v0 + b@.take(i as int),
        decreases b.len() - i,
    {
        v.push(b[i]);
        i = i + 1;
        assert(v@ =~= v0 + b@.take(i as int));
    }
    assert(b@.take(b.len() as int) =~= b@);
}

/// The EIP-191 `personal_sign` pre-image of `message`: the prefix, the
/// decimal byte length, then the message.
pub fn eip191_message(message: &str) -> (r: Vec<u8>)
    ensures
        r@ == spec_eip191(message.spec_bytes()),
{
    let mut s: Vec<u8> = vec![
        0x19u8, 69, 116, 104, 101, 114, 101, 117, 109, 32, 83, 105, 103, 110, 101, 100, 32, 77,
        101, 115, 115, 97, 103, 101, 58, 10,
    ];
    assert(s@ =~= eip191_prefix());
    let bytes = message.as_bytes();
    let digits = crate::text::dec_of(bytes.len());
    append_bytes(&mut s, digits.as_slice());
    append_bytes(&mut s, bytes);
    assert(s@ =~= spec_eip191(message.spec_bytes()));
    s
}

/// The address that signed `message` with the 65-byte signature `sig`, if the
/// signature is well formed.
pub fn recover_address(message: &str, sig: &[u8]) -> (r: Option<[u8; 20]>)
    ensures
        match r {
            Some(a) => spec_recover_address(message.spec_bytes(), sig@) == Some(a@),
            None => spec_recover_address(message.spec_bytes(), sig@) is None,
        },
{
    if sig.len() != SIG_LEN {
        return None;
    }
    let mut rs: Vec<u8> = Vec::new();
    let mut i: usize = 0;
    while i < 64
        invariant
            i <= 64,
            sig@.len() == 65,
            rs@ == sig@.take(i as int),
        decreases 64 - i,
    {
        rs.push(sig[i]);
        i = i + 1;
        assert(rs@ =~= sig@.take(i as int));
    }
    assert(rs@ =~= sig@.subrange(0, 64));
    let v = sig[64];
    let recid = if v >= 27 { v - 27 } else { v };
    let digest = keccak256(eip191_message(message).as_slice());
    let xy = match ecdsa_recover_xy(digest.as_slice(), rs.as_slice(), recid) {
        Some(xy) => xy,
        None => return None,
    };
    let h = keccak256(xy.as_slice());
    let mut addr = [0u8; 20];
    let mut k: usize = 0;
    while k < 20
        invariant
            k <= 20,
            h@.len() == 32,
            forall|j: int| 0 <= j < k ==> addr@[j] == h@[12 + j],
        decreases 20 - k,
    {
        addr[k] = h[12 + k];
        k = k + 1;
    }
    assert(addr@ =~= h@.subrange(12, 32));
    Some(addr)
}

/// `0x` followed by the lower-case hex of the last 20 bytes of the
/// Keccak-256 digest of a public key's X || Y.
pub open spec fn spec_address_of_xy(xy: Seq<u8>) -> Seq<char> {
    seq!['0', 'x'] + hex_bytes(spec_keccak256(xy).subrange(12, 32))
}

/// The wallet address of public key bytes X || Y.
pub fn address_from_pk_xy(xy: &[u8]) -> (r: String)
    ensures
        r@ == spec_address_of_xy(xy@),
{
    let h = keccak256(xy);
    let mut tail: Vec<u8> = Vec::new();
    let mut i: usize = 12;
    while i < 32
        invariant
            12 <= i <= 32,
            h@.len() == 32,
            tail@ == h@.subrange(12, i as int),
        decreases 32 - i,
    {
        tail.push(h[i]);
        i = i + 1;
        assert(tail@ =~= h@.subrange(12, i as int));
    }
    let mut s = String::new();
    push_char(&mut s, '0');
    push_char(&mut s, 'x');
    push_hex_bytes(&mut s, tail.as_slice());
    assert(s@ =~= spec_address_of_xy(xy@));
    s
}

/// A login result taken by its view.
pub open spec fn result_view(r: Result<(String, [u8; 20]), Web3Error>) -> Result<
    (Seq<char>, Seq<u8>),
    Web3Error,
> {
    match r {
        Ok((a, b)) => Ok((a@, b@)),
        Err(e) => Err(e),
    }
}

/// What a signed challenge that matched the outstanding one gets, `elapsed`
/// nanoseconds after it was issued: refused as expired after
/// `CHALLENGE_TTL_SECS` seconds, accepted when the signature recovers to the
/// `expected` address bytes, refused as a bad signature otherwise.
pub open spec fn spec_check_signed(expected: Seq<u8>, challenge: Seq<char>, sig: Seq<u8>, elapsed: u128) -> Result<
    (),
    Web3Error,
> {
    if elapsed > CHALLENGE_TTL_SECS * 1_000_000_000 {
        Err(Web3Error::ChallengeExpired)
    } else if spec_recover_address(encode_utf8(challenge), sig) == Some(expected) {
        Ok(())
    } else {
        Err(Web3Error::InvalidSignature)
    }
}

/// The login answer for normalised address (`a`, bytes `b`) when the check
/// of the signed challenge gives `check`.
pub open spec fn login_answer(a: Seq<char>, b: Seq<u8>, check: Result<(), Web3Error>) -> Result<
    (Seq<char>, Seq<u8>),
    Web3Error,
> {
    match check {
        Ok(()) => Ok((a, b)),
        Err(e) => Err(e),
    }
}

/// What a login attempt (`address`, signed `challenge`, `sig`) does to the
/// challenge table `before` (giving `after`) and what it answers (`r`).
/// An address that does not normalise is refused and changes nothing; so is
/// one whose outstanding challenge is missing or differs from `challenge`.
/// Otherwise the challenge is used up and the answer is what
/// `spec_check_signed` gives for the time elapsed since it was issued (which
/// the clock decides).
pub open spec fn verify_outcome(
    before: Map<Seq<char>, Seq<char>>,
    after: Map<Seq<char>, Seq<char>>,
    address: Seq<char>,
    challenge: Seq<char>,
    sig: Seq<u8>,
    r: Result<(Seq<char>, Seq<u8>), Web3Error>,
) -> bool {
    match spec_normalize(address) {
        None => r == Err::<(Seq<char>, Seq<u8>), Web3Error>(Web3Error::InvalidAddress) && after
            == before,
        Some((a, b)) => {
            if !before.contains_key(a) || before[a] != challenge {
                r == Err::<(Seq<char>, Seq<u8>), Web3Error>(Web3Error::ChallengeExpired) && after
                    == before
            } else {
                &&& after == before.remove(a)
                &&& exists|elapsed: u128| #[trigger]
                    login_answer(a, b, spec_check_signed(b, challenge, sig, elapsed)) == r
            }
        },
    }
}

/// Checks a signed challenge that matched the outstanding one, `elapsed`
/// nanoseconds after it was issued (see `spec_check_signed`).
pub fn check_signed(expected: &[u8; 20], challenge: &str, sig: &[u8], elapsed: u128) -> (r: Result<
    (),
    Web3Error,
>)
    ensures
        r == spec_check_signed(expected@, challenge@, sig@, elapsed),
{
    if elapsed > (CHALLENGE_TTL_SECS as u128) * 1_000_000_000 {
        return Err(Web3Error::ChallengeExpired);
    }
    match recover_address(challenge, sig) {
        Some(a) => {
            if bytes20_eq(&a, expected) {
                Ok(())
            } else {
                Err(Web3Error::InvalidSignature)
            }
        },
        None => Err(Web3Error::InvalidSignature),
    }
}

/// The wallet address of a public key given in uncompressed SEC1 form
/// (0x04 || X || Y, 65 bytes); `None` for any other form.
pub fn address_from_verifying(sec1: &[u8]) -> (r: Option<String>)
    ensures
        match r {
            Some(a) => sec1@.len() == 65 && sec1@[0] == 4 && a@ == spec_address_of_xy(
                sec1@.subrange(1, 65),
            ),
            None => !(sec1@.len() == 65 && sec1@[0] == 4),
        },
{
    if sec1.len() != 65 || sec1[0] != 4 {
        return None;
    }
    let mut xy: Vec<u8> = Vec::new();
    let mut i: usize = 1;
    while i < 65
        invariant
            1 <= i <= 65,
            sec1@.len() == 65,
            xy@ == sec1@.subrange(1, i as int),
        decreases 65 - i,
    {
        xy.push(sec1[i]);
        i = i + 1;
        assert(xy@ =~= sec1@.subrange(1, i as int));
    }
    Some(address_from_pk_xy(xy.as_slice()))
}

/// The 65-byte `personal_sign` signature of message bytes `m` by a secret key:
/// r || s, then the recovery id plus 27.
pub open spec fn spec_personal_sign(secret: Seq<u8>, m: Seq<u8>) -> Option<Seq<u8>> {
    match spec_ecdsa_sign(secret, spec_keccak256(spec_eip191(m))) {
        Some(sig) => Some(sig.update(64, (sig[64] + 27) as u8)),
        None => None,
    }
}

/// Signs the pre-image of `message` (see `eip191_message`) with the secret
/// key `secret`, in the 65-byte form a wallet's `personal_sign` returns;
/// `None` if the secret is not a valid key.
pub fn personal_sign(secret: &[u8], message: &str) -> (r: Option<Vec<u8>>)
    ensures
        match r {
            Some(v) => spec_personal_sign(secret@, message.spec_bytes()) == Some(v@) && v@.len()
                == 65 && 27 <= v@[64] <= 30,
            None => spec_personal_sign(secret@, message.spec_bytes()) is None,
        },
{
    let digest = keccak256(eip191_message(message).as_slice());
    match ecdsa_sign(secret, digest.as_slice()) {
        Some(mut sig) => {
            let v = sig[64];
            sig.set(64, v + 27);
            Some(sig)
        },
        None => None,
    }
}

/// A random wallet for trying the login out: a 32-byte secret key and its
/// address; `None` only in the (negligible) case that the 32 random bytes
/// drawn are not a valid key.
pub fn generate_test_wallet() -> (r: Option<(Vec<u8>, String)>)
    ensures
        r matches Some((sk, addr)) ==> {
            &&& sk@.len() == 32
            &&& spec_public_key_xy(sk@) matches Some(xy)
            &&& addr@ == spec_address_of_xy(xy)
        },
        r is None ==> exists|sk: Seq<u8>| sk.len() == 32 && (#[trigger] spec_public_key_xy(sk)) is None,
{
    let sk = random_bytes(32);
    match ecdsa_public_key_xy(sk.as_slice()) {
        Some(xy) => {
            let addr = address_from_pk_xy(xy.as_slice());
            Some((sk, addr))
        },
        None => None,
    }
}

impl Web3Auth {
    /// The abstract challenge table: address -> challenge text.
    pub closed spec fn challenge_texts(&self) -> Map<Seq<char>, Seq<char>> {
        self.challenges@.map_values(|c: Challenge| c.message@)
    }

    /// The server id used in challenge texts.
    pub closed spec fn server_tag(&self) -> Seq<char> {
        let id = self.server_id@;
        if id.len() >= 12 {
            id.subrange(0, 12)
        } else {
            id
        }
    }

    /// A fresh state: no challenges; the server id is the hex of the current
    /// time in nanoseconds.
    pub fn new() -> (r: Self)
        ensures
            r.challenge_texts() == Map::<Seq<char>, Seq<char>>::empty(),
    {
        let r = Web3Auth { challenges: StringHashMap::new(), server_id: hex_of_u128(unix_nanos()) };
        assert(r.challenge_texts() =~= Map::<Seq<char>, Seq<char>>::empty());
        r
    }

    /// Validates and normalises a wallet address: surrounding white space is
    /// removed and letters lower-cased; the result must be `0x` and 40 hex
    /// digits. Returns the address and its 20 bytes.
    pub fn normalize_address(raw: &str) -> (r: Result<(String, [u8; 20]), Web3Error>)
        ensures
            match (r, spec_normalize(raw@)) {
                (Ok((a, b)), Some((a2, b2))) => a@ == a2 && b@ == b2,
                (Err(e), None) => e == Web3Error::InvalidAddress,
                _ => false,
            },
    {
        let cs = chars_of(raw);
        let t = trim_lower(&cs);
        if t.len() != ADDR_LEN || t[0] != '0' || t[1] != 'x' {
            return Err(Web3Error::InvalidAddress);
        }
        let mut i: usize = 2;
        while i < ADDR_LEN
            invariant
                2 <= i <= 42,
                t@.len() == 42,
                t@ == lower(trim(raw@)),
                forall|j: int| 2 <= j < i ==> is_hex(#[trigger] t@[j]),
            decreases 42 - i,
        {
            let c = t[i];
            if !(('0' <= c && c <= '9') || ('a' <= c && c <= 'f') || ('A' <= c && c <= 'F')) {
                assert(!is_hex(t@[i as int]));
                return Err(Web3Error::InvalidAddress);
            }
            i = i + 1;
        }
        let mut bytes = [0u8; 20];
        let mut k: usize = 0;
        while k < 20
            invariant
                k <= 20,
                is_address(t@),
                forall|j: int| 0 <= j < k ==> bytes@[j] == address_bytes(t@)[j],
            decreases 20 - k,
        {
            let hi = hex_value(t[2 + 2 * k]);
            let lo = hex_value(t[3 + 2 * k]);
            bytes[k] = hi * 16 + lo;
            k = k + 1;
        }
        assert(bytes@ =~= address_bytes(t@));
        Ok((string_of(&t), bytes))
    }

    /// Issues a one-time challenge for (normalised) `address`, replacing any
    /// earlier one of that address.
    pub fn issue_challenge(&mut self, address: &str) -> (r: Web3ChallengeMsg)
        ensures
            r.address@ == address@,
            r.expires_in == CHALLENGE_TTL_SECS,
            final(self).challenge_texts() == old(self).challenge_texts().insert(
                address@,
                r.message@,
            ),
            final(self).server_tag() == old(self).server_tag(),
            exists|nonce: Seq<u8>|
                nonce.len() == 16 && r.message@ == challenge_text(old(self).server_tag(), nonce),
    {
        let ghost s = self.challenge_texts();
        let nonce = random_bytes(16);
        let mut msg = String::new();
        msg.append("Crystal (");
        let id_len = self.server_id.unicode_len();
        let tag_end = if id_len >= 12 { 12 } else { id_len };
        msg.append(self.server_id.as_str().substring_char(0, tag_end));
        msg.append(") 正在请求登录：\n\n请在下述挑战上签名以验证钱包所有权。\n\nNonce: ");
        push_hex_bytes(&mut msg, nonce.as_slice());
        proof {
            assert(self.server_id@.subrange(0, tag_end as int) == self.server_tag());
            assert(msg@ =~= challenge_text(self.server_tag(), nonce@));
        }
        let message = msg.clone();
        self.challenges.insert(address.to_owned(), Challenge { message: msg, issued_at: instant_now() });
        assert(self.challenge_texts() =~= s.insert(address@, message@));
        Web3ChallengeMsg {
            address: address.to_owned(),
            message,
            expires_in: CHALLENGE_TTL_SECS as i64,
        }
    }

    /// Checks a signed challenge. The challenge of the (normalised) address
    /// must exist and match `challenge`; it is then used up, whatever the
    /// outcome. Login succeeds when the challenge has not expired and the
    /// address recovered from the signature is the announced one.
    pub fn verify_and_consume(&mut self, address: &str, challenge: &str, signature: &[u8]) -> (r:
        Result<(String, [u8; 20]), Web3Error>)
        ensures
            verify_outcome(
                old(self).challenge_texts(),
                final(self).challenge_texts(),
                address@,
                challenge@,
                signature@,
                result_view(r),
            ),
            final(self).server_tag() == old(self).server_tag(),
    {
        let (addr_norm, addr_bytes) = match Self::normalize_address(address) {
            Ok(x) => x,
            Err(e) => return Err(e),
        };
        let ghost s = self.challenge_texts();
        let challenge_s = challenge.to_owned();
        let elapsed = match self.challenges.get(addr_norm.as_str()) {
            Some(ch) => {
                if ch.message != challenge_s {
                    return Err(Web3Error::ChallengeExpired);
                }
                elapsed_nanos(&ch.issued_at)
            },
            None => return Err(Web3Error::ChallengeExpired),
        };
        self.challenges.remove(addr_norm.as_str());
        assert(self.challenge_texts() =~= s.remove(addr_norm@));
        let check = check_signed(&addr_bytes, challenge, signature, elapsed);
        let r = match check {
            Ok(()) => Ok((addr_norm, addr_bytes)),
            Err(e) => Err(e),
        };
        assert(login_answer(addr_norm@, addr_bytes@, spec_check_signed(addr_bytes@, challenge@, signature@, elapsed))
            == result_view(r));
        r
    }
}

/// The challenge text for server tag `tag` and random nonce bytes `nonce`.
pub open spec fn challenge_text(tag: Seq<char>, nonce: Seq<u8>) -> Seq<char> {
    "Crystal ("@ + tag + ") 正在请求登录：\n\n请在下述挑战上签名以验证钱包所有权。\n\nNonce: "@
        + hex_bytes(nonce)
}

fn bytes20_eq(a: &[u8; 20], b: &[u8; 20]) -> (r: bool)
    ensures
        r == (a@ == b@),
{
    let mut i: usize = 0;
    while i < 20
        invariant
            i <= 20,
            forall|j: int| 0 <= j < i ==> a@[j] == b@[j],
        decreases 20 - i,
    {
        if a[i] != b[i] {
            return false;
        }
        i = i + 1;
    }
    assert(a@ =~= b@);
    true
}

/// A challenge is single use: once an attempt has logged in with it, the same
/// attempt again is refused as expired and changes nothing.
pub proof fn law_challenge_single_use(
    s0: Map<Seq<char>, Seq<char>>,
    s1: Map<Seq<char>, Seq<char>>,
    s2: Map<Seq<char>, Seq<char>>,
    address: Seq<char>,
    challenge: Seq<char>,
    sig: Seq<u8>,
    r1: Result<(Seq<char>, Seq<u8>), Web3Error>,
    r2: Result<(Seq<char>, Seq<u8>), Web3Error>,
)
    requires
        verify_outcome(s0, s1, address, challenge, sig, r1),
        r1 is Ok,
        verify_outcome(s1, s2, address, challenge, sig, r2),
    ensures
        r2 == Err::<(Seq<char>, Seq<u8>), Web3Error>(Web3Error::ChallengeExpired),
        s2 == s1,
{
}

/// A challenge issued for a normalised address, signed by the wallet of that
/// address, logs in (unless it has expired) and is used up; signed by any
/// other key it is refused, and used up too.
pub proof fn law_issue_then_verify(
    s0: Map<Seq<char>, Seq<char>>,
    s2: Map<Seq<char>, Seq<char>>,
    address: Seq<char>,
    message: Seq<char>,
    sig: Seq<u8>,
    r: Result<(Seq<char>, Seq<u8>), Web3Error>,
)
    requires
        spec_normalize(address) matches Some((a, _)) && a == address,
        verify_outcome(s0.insert(address, message), s2, address, message, sig, r),
    ensures
        s2 == s0.insert(address, message).remove(address),
        spec_recover_address(encode_utf8(message), sig) == Some((spec_normalize(address)->0).1) ==> (
        r == Ok::<(Seq<char>, Seq<u8>), Web3Error>(spec_normalize(address)->0) || r == Err::<
            (Seq<char>, Seq<u8>),
            Web3Error,
        >(Web3Error::ChallengeExpired)),
        spec_recover_address(encode_utf8(message), sig) != Some((spec_normalize(address)->0).1)
            ==> r is Err,
{
}

/// An attempt with a message other than the outstanding challenge is refused
/// and leaves every challenge in place.
pub proof fn law_tampered_message_rejected(
    s0: Map<Seq<char>, Seq<char>>,
    s1: Map<Seq<char>, Seq<char>>,
    address: Seq<char>,
    challenge: Seq<char>,
    sig: Seq<u8>,
    r: Result<(Seq<char>, Seq<u8>), Web3Error>,
)
    requires
        spec_normalize(address) matches Some((a, _)) && s0.contains_key(a) && s0[a] != challenge,
        verify_outcome(s0, s1, address, challenge, sig, r),
    ensures
        r == Err::<(Seq<char>, Seq<u8>), Web3Error>(Web3Error::ChallengeExpired),
        s1 == s0,
{
}

} // verus!
