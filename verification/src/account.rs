//! In-memory accounts and their characters: registration, login, character
//! creation (at most four per account, names unique within the account) and
//! deletion. Character indexes are handed out from 1 upwards.
use vstd::hash_map::StringHashMap;
use vstd::prelude::*;
use vstd::string::StrSliceExecFns;

use crate::types::{MirClass, MirGender};

verus! {

/// A character of an account.
#[derive(Debug, Clone)]
pub struct Character {
    pub index: i32,
    pub name: String,
    pub class: MirClass,
    pub gender: MirGender,
    pub level: u16,
}

/// An account.
#[derive(Debug, Clone)]
pub struct Account {
    pub pass_hash: String,
    pub characters: Vec<Character>,
}

/// A character as listed on the selection screen.
#[derive(Debug, Clone)]
pub struct SelectInfo {
    pub index: i32,
    pub name: String,
    pub level: u16,
    pub class: MirClass,
    pub gender: MirGender,
    pub last_access: i64,
}

/// Abstract value of a character.
pub struct CharView {
    pub index: i32,
    pub name: Seq<char>,
    pub class: MirClass,
    pub gender: MirGender,
    pub level: u16,
}

impl View for Character {
    type V = CharView;

    open spec fn view(&self) -> CharView {
        CharView {
            index: self.index,
            name: self.name@,
            class: self.class,
            gender: self.gender,
            level: self.level,
        }
    }
}

/// The characters of a list, by their views.
pub open spec fn chars_view(v: Seq<Character>) -> Seq<CharView> {
    v.map_values(|c: Character| c@)
}

/// The selection-screen entry of a character.
pub open spec fn select_info_of(c: CharView, s: SelectInfo) -> bool {
    s.index == c.index && s.name@ == c.name && s.level == c.level && s.class == c.class
        && s.gender == c.gender && s.last_access == 0
}

fn copy_character(c: &Character) -> (r: Character)
    ensures
        r@ == c@,
{
    Character { index: c.index, name: c.name.clone(), class: c.class, gender: c.gender, level: c.level }
}

fn copy_characters(v: &Vec<Character>) -> (r: Vec<Character>)
    ensures
        chars_view(r@) == chars_view(v@),
{
    let mut r: Vec<Character> = Vec::new();
    let mut i: usize = 0;
    while i < v.len()
        invariant
            i <= v.len(),
            chars_view(r@) == chars_view(v@.take(i as int)),
        decreases v.len() - i,
    {
        let c = copy_character(&v[i]);
        let ghost before = r@;
        r.push(c);
        assert(chars_view(r@) =~= chars_view(before).push(c@));
        assert(chars_view(v@.take(i + 1)) =~= chars_view(v@.take(i as int)).push(v@[i as int]@));
        i = i + 1;
    }
    assert(v@.take(v.len() as int) =~= v@);
    r
}

/// Accounts by id, with the characters of each, and the last character
/// index handed out.
pub struct AccountStore {
    accounts: StringHashMap<Account>,
    next_char_index: i32,
}

impl AccountStore {
    /// Account id -> its characters (in creation order).
    pub closed spec fn accounts(&self) -> Map<Seq<char>, Seq<CharView>> {
        self.accounts@.map_values(|a: Account| chars_view(a.characters@))
    }

    /// The last character index handed out (0 before the first).
    pub closed spec fn last_index(&self) -> int {
        self.next_char_index as int
    }

    pub fn new() -> (r: Self)
        ensures
            r.accounts() == Map::<Seq<char>, Seq<CharView>>::empty(),
            r.last_index() == 0,
    {
        let r = AccountStore { accounts: StringHashMap::new(), next_char_index: 0 };
        assert(r.accounts() =~= Map::<Seq<char>, Seq<CharView>>::empty());
        r
    }

    /// Registers account `account_id` (with no characters); false if it
    /// exists already.
    pub fn register(&mut self, account_id: &str) -> (r: bool)
        ensures
            r == !old(self).accounts().contains_key(account_id@),
            r ==> final(self).accounts() == old(self).accounts().insert(account_id@, Seq::empty()),
            !r ==> final(self).accounts() == old(self).accounts(),
            final(self).last_index() == old(self).last_index(),
    {
        if self.accounts.contains_key(account_id) {
            return false;
        }
        let ghost a = self.accounts();
        self.accounts.insert(
            account_id.to_string(),
            Account { pass_hash: String::new(), characters: Vec::new() },
        );
        assert(chars_view(Seq::<Character>::empty()) =~= Seq::<CharView>::empty());
        assert(self.accounts() =~= a.insert(account_id@, Seq::empty()));
        true
    }

    /// Whether account `account_id` exists.
    pub fn login(&self, account_id: &str) -> (r: bool)
        ensures
            r == self.accounts().contains_key(account_id@),
    {
        self.accounts.contains_key(account_id)
    }

    /// The selection-screen entries of the account's characters (none for an
    /// unknown account).
    pub fn select_infos(&self, account_id: &str) -> (r: Vec<SelectInfo>)
        ensures
            self.accounts().contains_key(account_id@) ==> r@.len() == self.accounts()[account_id@].len()
                && forall|i: int|
                0 <= i < r@.len() ==> select_info_of(
                    self.accounts()[account_id@][i],
                    #[trigger] r@[i],
                ),
            !self.accounts().contains_key(account_id@) ==> r@.len() == 0,
    {
        let mut out: Vec<SelectInfo> = Vec::new();
        match self.accounts.get(account_id) {
            Some(acc) => {
                let ghost cv = chars_view(acc.characters@);
                let mut i: usize = 0;
                while i < acc.characters.len()
                    invariant
                        i <= acc.characters.len(),
                        cv == chars_view(acc.characters@),
                        out@.len() == i,
                        forall|j: int| 0 <= j < i ==> select_info_of(cv[j], #[trigger] out@[j]),
                    decreases acc.characters.len() - i,
                {
                    let c = &acc.characters[i];
                    out.push(
                        SelectInfo {
                            index: c.index,
                            name: c.name.clone(),
                            level: c.level,
                            class: c.class,
                            gender: c.gender,
                            last_access: 0,
                        },
                    );
                    i = i + 1;
                }
            },
            None => {},
        }
        out
    }

    /// Creates a character for a logged-in account: error 3 for an unknown
    /// account, 4 when it has four characters, 5 when it has one of that
    /// name. A new character gets the next index, level 1.
    pub fn add_character(&mut self, account_id: &str, name: &str, class: MirClass, gender: MirGender) -> (r:
        Result<SelectInfo, u8>)
        requires
            old(self).last_index() < i32::MAX - 1,
        ensures
            !old(self).accounts().contains_key(account_id@) ==> r == Err::<SelectInfo, u8>(3u8)
                && final(self).accounts() == old(self).accounts() && final(self).last_index() == old(
                self,
            ).last_index(),
            old(self).accounts().contains_key(account_id@) ==> {
                let cs = old(self).accounts()[account_id@];
                if cs.len() >= 4 {
                    r == Err::<SelectInfo, u8>(4u8) && final(self).accounts() == old(self).accounts()
                        && final(self).last_index() == old(self).last_index()
                } else if exists|j: int| 0 <= j < cs.len() && (#[trigger] cs[j]).name == name@ {
                    r == Err::<SelectInfo, u8>(5u8) && final(self).accounts() == old(self).accounts()
                        && final(self).last_index() == old(self).last_index()
                } else {
                    let c = CharView {
                        index: (old(self).last_index() + 1) as i32,
                        name: name@,
                        class,
                        gender,
                        level: 1,
                    };
                    &&& r matches Ok(s) && select_info_of(c, s)
                    &&& final(self).last_index() == old(self).last_index() + 1
                    &&& final(self).accounts() == old(self).accounts().insert(account_id@, cs.push(c))
                }
            },
    {
        let ghost a = self.accounts();
        let acc = match self.accounts.get(account_id) {
            Some(acc) => acc,
            None => return Err(3),
        };
        let ghost cs = chars_view(acc.characters@);
        assert(a.contains_key(account_id@) && a[account_id@] == cs);
        if acc.characters.len() >= 4 {
            return Err(4);
        }
        let name_s = name.to_string();
        let mut i: usize = 0;
        while i < acc.characters.len()
            invariant
                i <= acc.characters.len(),
                cs == chars_view(acc.characters@),
                name_s@ == name@,
                a == old(self).accounts(),
                self.accounts() == a,
                self.last_index() == old(self).last_index(),
                a.contains_key(account_id@) && a[account_id@] == cs,
                cs.len() < 4,
                forall|j: int| 0 <= j < i ==> (#[trigger] cs[j]).name != name@,
            decreases acc.characters.len() - i,
        {
            if acc.characters[i].name == name_s {
                assert(cs[i as int].name == name@);
                return Err(5);
            }
            i = i + 1;
        }
        let mut characters = copy_characters(&acc.characters);
        self.next_char_index = self.next_char_index + 1;
        let index = self.next_char_index;
        let c = Character { index, name: name.to_string(), class, gender, level: 1 };
        let ghost before = characters@;
        characters.push(c);
        assert(chars_view(characters@) =~= chars_view(before).push(c@));
        let pass_hash = String::new();
        self.accounts.insert(account_id.to_string(), Account { pass_hash, characters });
        assert(self.accounts() =~= a.insert(
            account_id@,
            cs.push(CharView { index, name: name@, class, gender, level: 1 }),
        ));
        Ok(SelectInfo { index, name: name.to_string(), level: 1, class, gender, last_access: 0 })
    }

    /// Deletes the character with index `character_index` of the account;
    /// returns whether one was deleted.
    pub fn delete_character(&mut self, account_id: &str, character_index: i32) -> (r: bool)
        ensures
            !old(self).accounts().contains_key(account_id@) ==> !r && final(self).accounts() == old(
                self,
            ).accounts(),
            old(self).accounts().contains_key(account_id@) ==> {
                let cs = old(self).accounts()[account_id@];
                let kept = cs.filter(|c: CharView| c.index != character_index);
                &&& r == (kept.len() != cs.len())
                &&& final(self).accounts() == old(self).accounts().insert(account_id@, kept)
            },
            final(self).last_index() == old(self).last_index(),
    {
        let ghost a = self.accounts();
        let acc = match self.accounts.get(account_id) {
            Some(acc) => acc,
            None => return false,
        };
        let ghost cs = chars_view(acc.characters@);
        assert(a.contains_key(account_id@) && a[account_id@] == cs);
        let ghost keep = |c: CharView| c.index != character_index;
        let mut kept: Vec<Character> = Vec::new();
        let mut i: usize = 0;
        while i < acc.characters.len()
            invariant
                i <= acc.characters.len(),
                cs == chars_view(acc.characters@),
                keep == (|c: CharView| c.index != character_index),
                chars_view(kept@) == cs.take(i as int).filter(keep),
            decreases acc.characters.len() - i,
        {
            proof {
                assert(cs.take(i + 1) =~= cs.take(i as int).push(cs[i as int]));
                cs.take(i as int).lemma_filter_push(cs[i as int], keep);
            }
            if acc.characters[i].index != character_index {
                let c = copy_character(&acc.characters[i]);
                let ghost before = kept@;
                kept.push(c);
                assert(chars_view(kept@) =~= chars_view(before).push(c@));
            }
            i = i + 1;
        }
        assert(cs.take(cs.len() as int) =~= cs);
        let removed = kept.len() != acc.characters.len();
        let pass_hash = acc.pass_hash.clone();
        self.accounts.insert(account_id.to_string(), Account { pass_hash, characters: kept });
        assert(self.accounts() =~= a.insert(account_id@, cs.filter(keep)));
        removed
    }

    /// The character with index `character_index` of the account, if any
    /// (the first one).
    pub fn get_character(&self, account_id: &str, character_index: i32) -> (r: Option<Character>)
        ensures
            match r {
                Some(c) => self.accounts().contains_key(account_id@) && exists|j: int|
                    0 <= j < self.accounts()[account_id@].len() && self.accounts()[account_id@][j]
                        == c@ && c.index == character_index && forall|k: int|
                        0 <= k < j ==> (#[trigger] self.accounts()[account_id@][k]).index
                            != character_index,
                None => !self.accounts().contains_key(account_id@) || forall|j: int|
                    0 <= j < self.accounts()[account_id@].len() ==> (#[trigger] self.accounts()[account_id@][j]).index
                        != character_index,
            },
    {
        let acc = match self.accounts.get(account_id) {
            Some(acc) => acc,
            None => return None,
        };
        let ghost cs = chars_view(acc.characters@);
        assert(self.accounts()[account_id@] == cs);
        let mut i: usize = 0;
        while i < acc.characters.len()
            invariant
                i <= acc.characters.len(),
                cs == chars_view(acc.characters@),
                self.accounts().contains_key(account_id@),
                self.accounts()[account_id@] == cs,
                forall|k: int| 0 <= k < i ==> (#[trigger] cs[k]).index != character_index,
            decreases acc.characters.len() - i,
        {
            if acc.characters[i].index == character_index {
                let r = copy_character(&acc.characters[i]);
                assert(r@ == cs[i as int]);
                assert(0 <= i < cs.len() && cs[i as int] == r@ && r.index == character_index);
                return Some(r);
            }
            i = i + 1;
        }
        None
    }
}

} // verus!
