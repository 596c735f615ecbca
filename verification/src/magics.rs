//! Built-in spell table and who may cast what: every class knows the fire
//! ball, wizards also know the thunderbolt.
use std::collections::HashMap;
use vstd::prelude::*;
use vstd::string::StrSliceExecFns;

use crate::types::{ClientMagic, MirClass};

verus! {

broadcast use vstd::std_specs::hash::group_hash_axioms;

/// A spell template.
#[derive(Debug, Clone, Copy)]
pub struct MagicTemplate {
    /// Spell number (as in the client's attack packets).
    pub spell: u8,
    pub name: &'static str,
    /// Base MP cost.
    pub base_cost: u8,
    /// Range in cells.
    pub range: u8,
    /// Base damage.
    pub damage: i32,
    /// Cool-down in ticks (about 400 ms each).
    pub cooldown: u8,
}

/// The spell table, in order.
pub open spec fn magic_table() -> Seq<MagicTemplate> {
    seq![
        MagicTemplate { spell: 1, name: "火球术", base_cost: 5, range: 20, damage: 15, cooldown: 3 },
        MagicTemplate { spell: 2, name: "雷电术", base_cost: 8, range: 25, damage: 22, cooldown: 4 },
    ]
}

/// The template of spell `spell`, if the table has one.
pub open spec fn spec_find_magic(spell: u8) -> Option<MagicTemplate> {
    if spell == 1 {
        Some(magic_table()[0])
    } else if spell == 2 {
        Some(magic_table()[1])
    } else {
        None
    }
}

/// Whether a character of class `class` knows spell `spell`.
pub open spec fn spec_knows(class: MirClass, spell: u8) -> bool {
    spec_find_magic(spell) is Some && (spell == 1 || class == MirClass::Wizard)
}

/// The built-in spell table.
pub fn magics() -> (r: Vec<MagicTemplate>)
    ensures
        r@ == magic_table(),
{
    let r = vec![
        MagicTemplate { spell: 1, name: "火球术", base_cost: 5, range: 20, damage: 15, cooldown: 3 },
        MagicTemplate { spell: 2, name: "雷电术", base_cost: 8, range: 25, damage: 22, cooldown: 4 },
    ];
    assert(r@ =~= magic_table());
    r
}

/// The template of spell `spell`.
pub fn find(spell: u8) -> (r: Option<MagicTemplate>)
    ensures
        r == spec_find_magic(spell),
{
    let all = magics();
    let mut i: usize = 0;
    while i < all.len()
        invariant
            all@ == magic_table(),
            i <= all.len(),
            forall|j: int| 0 <= j < i ==> (#[trigger] magic_table()[j]).spell != spell,
        decreases all.len() - i,
    {
        if all[i].spell == spell {
            return Some(all[i]);
        }
        i = i + 1;
    }
    assert(magic_table()[0].spell != spell);
    assert(magic_table()[1].spell != spell);
    None
}

/// The spell as the client sees it, at level 1.
pub open spec fn client_magic_of(m: MagicTemplate, c: ClientMagic) -> bool {
    &&& c.name@ == m.name@
    &&& c.spell == m.spell
    &&& c.base_cost == m.base_cost
    &&& c.level_cost == 0
    &&& c.icon == m.spell
    &&& c.level1 == 1 && c.level2 == 1 && c.level3 == 1
    &&& c.need1 == 1 && c.need2 == 1 && c.need3 == 1
    &&& c.level == 1
    &&& c.key == m.spell
    &&& c.experience == 0
    &&& c.delay == 0
    &&& c.range == m.range
    &&& c.cast_time == 0
}

/// The spells a character of class `class` can use, in table order: the fire
/// ball for everyone, every spell for a wizard.
pub fn player_magics(class: MirClass) -> (r: Vec<ClientMagic>)
    ensures
        r@.len() == (if class == MirClass::Wizard { 2int } else { 1int }),
        forall|i: int| 0 <= i < r@.len() ==> client_magic_of(magic_table()[i], #[trigger] r@[i]),
{
    let all = magics();
    let mut out: Vec<ClientMagic> = Vec::new();
    let mut i: usize = 0;
    while i < all.len()
        invariant
            all@ == magic_table(),
            i <= all.len(),
            out@.len() == (if class == MirClass::Wizard { i as int } else if i == 0 { 0int } else {
                1int
            }),
            forall|j: int|
                0 <= j < out@.len() ==> client_magic_of(magic_table()[j], #[trigger] out@[j]),
        decreases all.len() - i,
    {
        let m = all[i];
        if m.spell == 1 || class == MirClass::Wizard {
            out.push(
                ClientMagic {
                    name: m.name.to_string(),
                    spell: m.spell,
                    base_cost: m.base_cost,
                    level_cost: 0,
                    icon: m.spell,
                    level1: 1,
                    level2: 1,
                    level3: 1,
                    need1: 1,
                    need2: 1,
                    need3: 1,
                    level: 1,
                    key: m.spell,
                    experience: 0,
                    delay: 0,
                    range: m.range,
                    cast_time: 0,
                },
            );
        }
        i = i + 1;
    }
    out
}

/// Whether a character of class `class` knows spell `spell`: the spell must
/// exist, and be the fire ball unless the character is a wizard.
pub fn knows_magic(class: MirClass, spell: u8) -> (r: bool)
    ensures
        r == spec_knows(class, spell),
{
    if find(spell).is_none() {
        return false;
    }
    spell == 1 || class == MirClass::Wizard
}

/// Whether `mp` mana points are enough to cast the spell.
pub fn can_cast(template: &MagicTemplate, mp: i32) -> (r: bool)
    ensures
        r == (mp >= template.base_cost),
{
    mp >= template.base_cost as i32
}

/// The hot keys after binding `spell` to `key`: key 0 unbinds the spell;
/// another key is taken from whichever spells held it and given to `spell`.
pub open spec fn bound_keys(keys: Map<u8, u8>, spell: u8, key: u8) -> Map<u8, u8> {
    if key == 0 {
        keys.remove(spell)
    } else {
        Map::new(|s: u8| keys.contains_key(s) && keys[s] != key, |s: u8| keys[s]).insert(spell, key)
    }
}

/// Binds spell `spell` to hot key `key` (see `bound_keys`).
pub fn bind_magic_key(keys: &mut HashMap<u8, u8>, spell: u8, key: u8)
    ensures
        final(keys)@ == bound_keys(old(keys)@, spell, key),
{
    if key == 0 {
        keys.remove(&spell);
        return;
    }
    let ghost k0 = keys@;
    let mut s: u16 = 0;
    while s < 256
        invariant
            s <= 256,
            key != 0,
            forall|t: u8| #[trigger] keys@.contains_key(t) <==> (k0.contains_key(t) && (t >= s || k0[t] != key)),
            forall|t: u8| #[trigger] keys@.contains_key(t) ==> keys@[t] == k0[t],
        decreases 256 - s,
    {
        let t = s as u8;
        let holds = match keys.get(&t) {
            Some(v) => *v == key,
            None => false,
        };
        if holds {
            keys.remove(&t);
        }
        s = s + 1;
    }
    keys.insert(spell, key);
    assert(keys@ =~= bound_keys(k0, spell, key));
}

} // verus!
