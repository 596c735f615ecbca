//! Built-in item table: the handful of item templates the game world knows,
//! looked up by index.
use vstd::prelude::*;

verus! {

/// An item template.
#[derive(Debug, Clone, Copy)]
pub struct ItemTemplate {
    pub index: i32,
    pub name: &'static str,
    /// 0 = sundry, 1 = weapon, 2 = consumable, 3 = armour.
    pub item_type: u8,
    pub price: u32,
    pub image: u16,
    /// Attack bonus (weapon) or defence bonus (armour).
    pub bonus: i32,
    /// Hit points restored on use (consumable).
    pub heal: i32,
    /// Durability of a new item (0 = the item does not wear).
    pub max_dura: u16,
}

/// The item table, in order.
pub open spec fn item_table() -> Seq<ItemTemplate> {
    seq![
        ItemTemplate { index: 1, name: "木剑", item_type: 1, price: 20, image: 100, bonus: 2, heal: 0, max_dura: 20 },
        ItemTemplate { index: 2, name: "布衣", item_type: 3, price: 30, image: 101, bonus: 1, heal: 0, max_dura: 25 },
        ItemTemplate { index: 3, name: "金创药", item_type: 2, price: 10, image: 120, bonus: 0, heal: 30, max_dura: 0 },
        ItemTemplate { index: 4, name: "回城卷", item_type: 2, price: 25, image: 121, bonus: 0, heal: 0, max_dura: 0 },
        ItemTemplate { index: 5, name: "铜钱袋", item_type: 0, price: 15, image: 130, bonus: 0, heal: 0, max_dura: 0 },
    ]
}

/// The template with index `index`, if the table has one.
pub open spec fn spec_find_item(index: i32) -> Option<ItemTemplate> {
    if exists|i: int| 0 <= i < item_table().len() && (#[trigger] item_table()[i]).index == index {
        Some(
            item_table()[choose|i: int|
                0 <= i < item_table().len() && (#[trigger] item_table()[i]).index == index],
        )
    } else {
        None
    }
}

/// The built-in item table.
pub fn items() -> (r: Vec<ItemTemplate>)
    ensures
        r@ == item_table(),
{
    let r = vec![
        ItemTemplate { index: 1, name: "木剑", item_type: 1, price: 20, image: 100, bonus: 2, heal: 0, max_dura: 20 },
        ItemTemplate { index: 2, name: "布衣", item_type: 3, price: 30, image: 101, bonus: 1, heal: 0, max_dura: 25 },
        ItemTemplate { index: 3, name: "金创药", item_type: 2, price: 10, image: 120, bonus: 0, heal: 30, max_dura: 0 },
        ItemTemplate { index: 4, name: "回城卷", item_type: 2, price: 25, image: 121, bonus: 0, heal: 0, max_dura: 0 },
        ItemTemplate { index: 5, name: "铜钱袋", item_type: 0, price: 15, image: 130, bonus: 0, heal: 0, max_dura: 0 },
    ];
    assert(r@ =~= item_table());
    r
}

/// The template with index `index`.
pub fn find(index: i32) -> (r: Option<ItemTemplate>)
    ensures
        r == spec_find_item(index),
        r matches Some(t) ==> t.index == index,
        r is None <==> !(1 <= index <= 5),
{
    let all = items();
    let mut i: usize = 0;
    while i < all.len()
        invariant
            all@ == item_table(),
            i <= all.len(),
            forall|j: int| 0 <= j < i ==> (#[trigger] item_table()[j]).index != index,
        decreases all.len() - i,
    {
        if all[i].index == index {
            let t = all[i];
            assert(item_table()[i as int].index == index);
            proof {
                let k = choose|k: int|
                    0 <= k < item_table().len() && (#[trigger] item_table()[k]).index == index;
                assert(item_table()[k].index == item_table()[i as int].index);
            }
            return Some(t);
        }
        i = i + 1;
    }
    None
}

/// Whether the table has an item with index `index` (checked on buying and
/// selling).
pub fn item_exists(index: i32) -> (r: bool)
    ensures
        r == spec_find_item(index) is Some,
        r <==> 1 <= index <= 5,
{
    find(index).is_some()
}

} // verus!
