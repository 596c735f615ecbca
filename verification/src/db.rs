//! Persistence rules: record types of the store, password hashing, the
//! default location of the database file, and item unique ids.
use sha2::{Digest, Sha256};
use std::path::PathBuf;
use vstd::prelude::*;
use vstd::string::{StrSliceExecFns, StringSliceAdditionalSpecFns};

use crate::text::{hex_bytes, push_hex_bytes};
use crate::types::{MirClass, MirGender};

verus! {

/// Bag capacity.
pub const INVENTORY_SIZE: usize = 40;

/// Storage capacity.
pub const STORAGE_SIZE: usize = 48;

/// A mail in a character's mailbox.
#[derive(Debug, Clone, PartialEq, Eq)]
pub struct Mail {
    pub id: i64,
    pub from_name: String,
    pub title: String,
    pub body: String,
    pub gold: i64,
    pub item_uid: i64,
    pub is_read: bool,
    pub created_at: i64,
}

/// Result of putting on equipment: whether the item taken off found room in
/// the bag (false: the bag is full and nothing changed).
#[derive(Debug, Clone, Copy)]
pub struct EquipOutcome {
    pub returned_to_inventory: bool,
}

/// A stored character.
#[derive(Debug, Clone)]
pub struct CharacterRow {
    pub index: i32,
    pub name: String,
    pub class: u8,
    pub gender: u8,
    pub level: i64,
    pub x: i32,
    pub y: i32,
    pub direction: i32,
    pub hp: i32,
    pub mp: i32,
    pub gold: i64,
    pub experience: i64,
}

#[verifier::external_type_specification]
#[verifier::external_body]
pub struct ExPathBuf(std::path::PathBuf);

/// SHA-256 digest of a byte string.
pub uninterp spec fn spec_sha256(data: Seq<u8>) -> Seq<u8>;

/// A file-system path joined from two parts.
pub uninterp spec fn spec_path_join(base: Seq<char>, name: Seq<char>) -> PathBuf;

/// `sha2::Sha256::digest`: the 32-byte SHA-256 digest of `data`. The
/// contract claims that the digest is a function of `data` and has 32 bytes;
/// the hash itself is not stated.
#[verifier::external_body]
fn sha256(data: &[u8]) -> (r: Vec<u8>)
    ensures
        r@ == spec_sha256(data@),
        r@.len() == 32,
{
    Sha256::digest(data).to_vec()
}

/// `Path::new(base).join(name)`. The contract claims only that the path is a
/// function of the two parts.
#[verifier::external_body]
fn path_join(base: &str, name: &str) -> (r: PathBuf)
    ensures
        r == spec_path_join(base@, name@),
{
    std::path::Path::new(base).join(name)
}

/// The password hash kept for an account: the lower-case hex of the SHA-256
/// digest of the UTF-8 bytes of `s`.
pub fn hash_password(s: &str) -> (r: String)
    ensures
        r@ == hex_bytes(spec_sha256(s.spec_bytes())),
        r@.len() == 64,
{
    let d = sha256(s.as_bytes());
    let mut out = String::new();
    push_hex_bytes(&mut out, d.as_slice());
    proof {
        crate::text::lemma_hex_bytes_len(d@);
    }
    out
}

/// The unique id given to an item created in bag slot `slot` of character
/// `char_index`: `char_index * 1000 + slot`.
pub fn make_unique(char_index: i32, slot: i32) -> (r: i64)
    ensures
        r == char_index * 1000 + slot,
{
    (char_index as i64) * 1000 + slot as i64
}

/// Where the database file lives by default: `data/crystal.db`.
pub fn default_db_path() -> (r: PathBuf)
    ensures
        r == spec_path_join("data"@, "crystal.db"@),
{
    path_join("data", "crystal.db")
}

/// The class stored as number `v` (anything above 3 is an archer).
pub fn num_to_class(v: u8) -> (r: MirClass)
    ensures
        r == crate::net::spec_class(v),
{
    crate::net::num_class(v)
}

/// The gender stored as number `v` (0 male, anything else female).
pub fn num_to_gender(v: u8) -> (r: MirGender)
    ensures
        r == (if v == 0 { MirGender::Male } else { MirGender::Female }),
{
    crate::net::num_gender(v)
}

} // verus!
