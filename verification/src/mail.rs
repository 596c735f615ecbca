//! Mail rules: who may be written to, which attachment goes with a mail,
//! how a mail is shown, and when it may be deleted. A mail carries gold
//! and at most one item; attachments leave the sender when the mail is sent.
use vstd::prelude::*;

verus! {

/// Checks a mail from `me` to `to` before anything is taken from the
/// sender: `to_char` is the recipient's character index if the name is
/// known; `gold` the gold to attach and `have` the sender's gold.
/// `Ok(recipient)` when the mail may go on; else the result sent to the
/// client: 2 for a mail to oneself, 1 for an unknown recipient, 3 when the
/// sender lacks the gold.
pub fn send_check(me: &str, to: &str, to_char: Option<i32>, gold: u32, have: u32) -> (r: Result<i32, u8>)
    ensures
        r == (if to@ == me@ {
            Err(2u8)
        } else {
            match to_char {
                None => Err(1u8),
                Some(c) => if gold > 0 && have < gold {
                    Err(3u8)
                } else {
                    Ok(c)
                },
            }
        }),
{
    let a = to.to_string();
    let b = me.to_string();
    if a == b {
        return Err(2);
    }
    match to_char {
        None => Err(1),
        Some(c) => {
            if gold > 0 && have < gold {
                Err(3)
            } else {
                Ok(c)
            }
        },
    }
}

/// Index of the first non-zero entry of `s` (`None` if there is none).
pub open spec fn first_nonzero(s: Seq<u64>) -> Option<int>
    decreases s.len(),
{
    if s.len() == 0 {
        None
    } else if s[0] != 0 {
        Some(0)
    } else {
        match first_nonzero(s.drop_first()) {
            Some(i) => Some(i + 1),
            None => None,
        }
    }
}

proof fn lemma_first_nonzero(s: Seq<u64>, i: int)
    requires
        0 <= i <= s.len(),
        forall|j: int| 0 <= j < i ==> s[j] == 0,
    ensures
        i < s.len() && s[i] != 0 ==> first_nonzero(s) == Some(i),
        i == s.len() ==> first_nonzero(s) is None,
    decreases i,
{
    if i > 0 {
        lemma_first_nonzero(s.drop_first(), i - 1);
    }
}

/// The item attached to a mail: the first non-zero unique id among those
/// the client picked (a mail carries one item).
pub fn first_attachment(items: &Vec<u64>) -> (r: Option<u64>)
    ensures
        r == match first_nonzero(items@) {
            Some(i) => Some(items@[i]),
            None => None,
        },
{
    let mut i: usize = 0;
    while i < items.len()
        invariant
            i <= items.len(),
            forall|j: int| 0 <= j < i ==> items@[j] == 0,
        decreases items.len() - i,
    {
        if items[i] != 0 {
            proof {
                lemma_first_nonzero(items@, i as int);
            }
            return Some(items[i]);
        }
        i = i + 1;
    }
    proof {
        lemma_first_nonzero(items@, i as int);
    }
    None
}

/// Whether a mail has nothing left to collect: no gold and no item.
pub fn collected(gold: i64, has_item: bool) -> (r: bool)
    ensures
        r == (gold == 0 && !has_item),
{
    gold == 0 && !has_item
}

/// The gold shown for a mail: negative amounts show as 0.
pub fn shown_gold(gold: i64) -> (r: u32)
    ensures
        r == (if gold < 0 {
            0
        } else {
            gold as u32
        }),
{
    if gold < 0 {
        0
    } else {
        gold as u32
    }
}

/// Why a mail may not be deleted.
#[derive(Debug, Clone, Copy, PartialEq, Eq, Structural)]
pub enum DeleteRefusal {
    /// Gold or an item is still attached.
    HasAttachment,
    /// The mail is locked.
    Locked,
}

/// Whether a mail may be deleted: not while gold or an item is attached,
/// nor while it is locked.
pub fn delete_check(gold: i64, has_item: bool, locked: bool) -> (r: Result<(), DeleteRefusal>)
    ensures
        r == (if gold > 0 || has_item {
            Err(DeleteRefusal::HasAttachment)
        } else if locked {
            Err(DeleteRefusal::Locked)
        } else {
            Ok(())
        }),
{
    if gold > 0 || has_item {
        Err(DeleteRefusal::HasAttachment)
    } else if locked {
        Err(DeleteRefusal::Locked)
    } else {
        Ok(())
    }
}

} // verus!
